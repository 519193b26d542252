use vstd::prelude::*;
use crate::error::ImplicitKind;

verus! {

/// The implicit fields negotiated for a connection.
#[derive(Debug, Clone, Copy, PartialEq, Eq, Structural)]
pub struct DecodeContext {
    pub has_implicit_id: bool,
    pub has_implicit_tid: bool,
    pub has_implicit_tname: bool,
}

/// The implicit fields that precede the visible ones, in wire order.
pub open spec fn implicit_kinds(ctx: DecodeContext) -> Seq<ImplicitKind> {
    (if ctx.has_implicit_tid { seq![ImplicitKind::Tid] } else { Seq::empty() })
        + (if ctx.has_implicit_tname { seq![ImplicitKind::Tname] } else { Seq::empty() })
        + (if ctx.has_implicit_id { seq![ImplicitKind::Id] } else { Seq::empty() })
}

impl DecodeContext {
    /// The implicit fields that precede the visible ones, in wire order.
    pub fn implicit_kinds(&self) -> (r: Vec<ImplicitKind>)
        ensures
            r@ == implicit_kinds(*self),
            r@.len() <= 3,
    {
        let mut r: Vec<ImplicitKind> = Vec::new();
        if self.has_implicit_tid {
            r.push(ImplicitKind::Tid);
        }
        if self.has_implicit_tname {
            r.push(ImplicitKind::Tname);
        }
        if self.has_implicit_id {
            r.push(ImplicitKind::Id);
        }
        assert(r@ =~= implicit_kinds(*self));
        r
    }

    /// How many implicit elements precede the visible ones.
    pub fn implicit_count(&self) -> (r: usize)
        ensures
            r == implicit_kinds(*self).len(),
            r <= 3,
    {
        let v = self.implicit_kinds();
        v.len()
    }
}

} // verus!
