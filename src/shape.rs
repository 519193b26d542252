use vstd::prelude::*;
use crate::catalog::{scalar_check, Catalog, Descriptor, ShapeElement};
use crate::context::{implicit_kinds, DecodeContext};
use crate::error::{check_view, DescriptorMismatch, ExpectedType, ImplicitKind, MismatchModel, ScalarType};

verus! {

/// A field that a target type declares, in declaration order.
#[derive(Debug, Clone)]
pub struct TargetField {
    pub name: String,
    pub ty: ScalarType,
    /// Whether an absent element is a valid value of the field.
    pub optional: bool,
}

/// What a declared field stands for.
pub struct FieldDecl {
    pub name: Seq<char>,
    pub ty: ScalarType,
    pub optional: bool,
}

impl View for TargetField {
    type V = FieldDecl;

    open spec fn view(&self) -> FieldDecl {
        FieldDecl { name: self.name@, ty: self.ty, optional: self.optional }
    }
}

pub open spec fn decls_of(fields: Seq<TargetField>) -> Seq<FieldDecl> {
    fields.map_values(|f: TargetField| f@)
}

/// The first `i` implicit kinds are each matched by an element flagged implicit
/// at the same position; the first one that is not gives the error.
pub open spec fn implicit_prefix_check(els: Seq<ShapeElement>, kinds: Seq<ImplicitKind>, i: nat) -> Result<
    (),
    MismatchModel,
>
    decreases i,
{
    if i == 0 {
        Ok(())
    } else {
        match implicit_prefix_check(els, kinds, (i - 1) as nat) {
            Err(e) => Err(e),
            Ok(()) => if i - 1 < els.len() && els[i - 1].flag_implicit {
                Ok(())
            } else {
                Err(MismatchModel::ExpectedImplicit(kinds[i - 1]))
            },
        }
    }
}

/// The first `n` declared fields, in order, against the elements that follow
/// the `base` implicit ones: same name at the same position, then a type check
/// of the element's descriptor. A shape that ends before the declared fields
/// do is a count mismatch against the full expected count.
pub open spec fn fields_check(
    d: Seq<Descriptor>,
    els: Seq<ShapeElement>,
    base: nat,
    fields: Seq<FieldDecl>,
    n: nat,
) -> Result<(), MismatchModel>
    decreases n,
{
    if n == 0 {
        Ok(())
    } else {
        match fields_check(d, els, base, fields, (n - 1) as nat) {
            Err(e) => Err(e),
            Ok(()) => {
                let idx = base + n - 1;
                if idx >= els.len() {
                    Err(
                        MismatchModel::FieldCountMismatch {
                            actual: els.len() as usize,
                            expected: (base + fields.len()) as usize,
                        },
                    )
                } else if els[idx].name@ != fields[n - 1].name {
                    Err(
                        MismatchModel::WrongField {
                            unexpected: els[idx].name@,
                            expected: fields[n - 1].name,
                        },
                    )
                } else {
                    scalar_check(d, els[idx].type_pos, fields[n - 1].ty, d.len())
                }
            },
        }
    }
}

/// The outcome of checking the object shape at `pos` against the declared
/// fields of a target type, under the implicit fields of `ctx`.
pub open spec fn shape_check(d: Seq<Descriptor>, ctx: DecodeContext, pos: u16, fields: Seq<FieldDecl>) -> Result<
    (),
    MismatchModel,
> {
    if pos >= d.len() {
        Err(MismatchModel::BadPosition { type_pos: pos })
    } else {
        match d[pos as int] {
            Descriptor::ObjectShape { elements } => {
                let els = elements@;
                let kinds = implicit_kinds(ctx);
                match implicit_prefix_check(els, kinds, kinds.len()) {
                    Err(e) => Err(e),
                    Ok(()) => match fields_check(d, els, kinds.len(), fields, fields.len()) {
                        Err(e) => Err(e),
                        Ok(()) => if els.len() != kinds.len() + fields.len() {
                            Err(
                                MismatchModel::FieldCountMismatch {
                                    actual: els.len() as usize,
                                    expected: (kinds.len() + fields.len()) as usize,
                                },
                            )
                        } else {
                            Ok(())
                        },
                    },
                }
            },
            _ => Err(MismatchModel::WrongType { type_pos: pos, expected: ExpectedType::Object }),
        }
    }
}

proof fn lemma_implicit_error_persists(els: Seq<ShapeElement>, kinds: Seq<ImplicitKind>, m: nat, n: nat)
    requires
        m <= n,
        implicit_prefix_check(els, kinds, m) is Err,
    ensures
        implicit_prefix_check(els, kinds, n) == implicit_prefix_check(els, kinds, m),
    decreases n - m,
{
    if m < n {
        lemma_implicit_error_persists(els, kinds, m, (n - 1) as nat);
    }
}

proof fn lemma_fields_error_persists(
    d: Seq<Descriptor>,
    els: Seq<ShapeElement>,
    base: nat,
    fields: Seq<FieldDecl>,
    m: nat,
    n: nat,
)
    requires
        m <= n,
        fields_check(d, els, base, fields, m) is Err,
    ensures
        fields_check(d, els, base, fields, n) == fields_check(d, els, base, fields, m),
    decreases n - m,
{
    if m < n {
        lemma_fields_error_persists(d, els, base, fields, m, (n - 1) as nat);
    }
}

/// Checks the object shape at `pos` against the declared fields of a target
/// type: the implicit elements of `ctx` first, then each declared field by name
/// and type in declaration order, then the element count. The first mismatch
/// is returned.
pub fn check_shape(cat: &Catalog, ctx: &DecodeContext, pos: u16, fields: &Vec<TargetField>) -> (r: Result<
    (),
    DescriptorMismatch,
>)
    requires
        fields@.len() + 3 <= usize::MAX,
    ensures
        check_view(r) == shape_check(cat.descriptors@, *ctx, pos, decls_of(fields@)),
{
    let desc = match cat.get(pos) {
        Ok(d) => d,
        Err(e) => return Err(e),
    };
    let elements = match desc {
        Descriptor::ObjectShape { elements } => elements,
        _ => return Err(DescriptorMismatch::WrongType { type_pos: pos, expected: ExpectedType::Object }),
    };
    let ghost els = elements@;
    let ghost d = cat.descriptors@;
    let kinds = ctx.implicit_kinds();
    let nk = kinds.len();
    let mut idx: usize = 0;
    while idx < nk
        invariant
            idx <= nk,
            nk == kinds@.len(),
            kinds@ == implicit_kinds(*ctx),
            els == elements@,
            d == cat.descriptors@,
            pos < d.len(),
            d[pos as int] == (Descriptor::ObjectShape { elements: *elements }),
            implicit_prefix_check(els, kinds@, idx as nat) is Ok,
        decreases nk - idx,
    {
        if idx >= elements.len() || !elements[idx].flag_implicit {
            proof {
                assert(implicit_prefix_check(els, kinds@, (idx + 1) as nat) == Err::<(), MismatchModel>(
                    MismatchModel::ExpectedImplicit(kinds@[idx as int]),
                ));
                lemma_implicit_error_persists(els, kinds@, (idx + 1) as nat, nk as nat);
            }
            return Err(DescriptorMismatch::ExpectedImplicit(kinds[idx]));
        }
        idx = idx + 1;
    }
    let nf = fields.len();
    let mut k: usize = 0;
    while k < nf
        invariant
            k <= nf,
            nf == fields@.len(),
            nf + 3 <= usize::MAX,
            nk == kinds@.len(),
            nk <= 3,
            kinds@ == implicit_kinds(*ctx),
            els == elements@,
            d == cat.descriptors@,
            pos < d.len(),
            d[pos as int] == (Descriptor::ObjectShape { elements: *elements }),
            d == cat.descriptors@,
            idx == nk + k,
            implicit_prefix_check(els, kinds@, nk as nat) is Ok,
            fields_check(d, els, nk as nat, decls_of(fields@), k as nat) is Ok,
        decreases nf - k,
    {
        if idx >= elements.len() {
            proof {
                assert(fields_check(d, els, nk as nat, decls_of(fields@), (k + 1) as nat) is Err);
                lemma_fields_error_persists(d, els, nk as nat, decls_of(fields@), (k + 1) as nat, nf as nat);
            }
            return Err(DescriptorMismatch::FieldCountMismatch { actual: elements.len(), expected: nk + nf });
        }
        let el = &elements[idx];
        if !(el.name == fields[k].name) {
            proof {
                assert(fields_check(d, els, nk as nat, decls_of(fields@), (k + 1) as nat) is Err);
                lemma_fields_error_persists(d, els, nk as nat, decls_of(fields@), (k + 1) as nat, nf as nat);
            }
            return Err(
                DescriptorMismatch::WrongField { unexpected: el.name.clone(), expected: fields[k].name.clone() },
            );
        }
        match cat.check_scalar(el.type_pos, fields[k].ty) {
            Err(e) => {
                proof {
                    assert(fields_check(d, els, nk as nat, decls_of(fields@), (k + 1) as nat) is Err);
                    lemma_fields_error_persists(d, els, nk as nat, decls_of(fields@), (k + 1) as nat, nf as nat);
                }
                return Err(e);
            },
            Ok(()) => {},
        }
        idx = idx + 1;
        k = k + 1;
    }
    if elements.len() != idx {
        Err(DescriptorMismatch::FieldCountMismatch { actual: elements.len(), expected: idx })
    } else {
        Ok(())
    }
}

/// The shape check reads its arguments and nothing else: two catalogs with the
/// same descriptors, under the same context, give the same outcome for the same
/// position and fields, so running the check again changes nothing.
pub proof fn shape_check_depends_on_arguments_alone(
    a: Catalog,
    b: Catalog,
    ctx: DecodeContext,
    pos: u16,
    fields: Seq<FieldDecl>,
)
    requires
        a.descriptors@ == b.descriptors@,
    ensures
        shape_check(a.descriptors@, ctx, pos, fields) == shape_check(b.descriptors@, ctx, pos, fields),
{
}

} // verus!
