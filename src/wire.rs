use vstd::prelude::*;
use vstd::slice::slice_subrange;
use crate::context::{implicit_kinds, DecodeContext};
use crate::error::DecodeError;

verus! {

/// The unsigned big-endian number held by the four bytes at `at`.
pub open spec fn be_u32_at(b: Seq<u8>, at: int) -> int {
    b[at] as int * 0x100_0000 + b[at + 1] as int * 0x1_0000 + b[at + 2] as int * 0x100 + b[at + 3] as int
}

/// A 32-bit pattern read as a two's-complement number.
pub open spec fn as_signed32(u: int) -> int {
    if u >= 0x8000_0000 {
        u - 0x1_0000_0000
    } else {
        u
    }
}

/// The element that starts at byte `at`: four reserved bytes, a signed
/// length, then that many payload bytes, or no payload where the length is the
/// absence marker -1. The result carries the offset just after the element.
pub open spec fn element_at(b: Seq<u8>, at: int) -> Result<(Option<Seq<u8>>, int), DecodeError> {
    if at + 8 > b.len() {
        Err(DecodeError::Underflow)
    } else {
        let len = as_signed32(be_u32_at(b, at + 4));
        if len == -1 {
            Ok((None, at + 8))
        } else if len < 0 {
            Err(DecodeError::InvalidMarker)
        } else if at + 8 + len > b.len() {
            Err(DecodeError::Underflow)
        } else {
            Ok((Some(b.subrange(at + 8, at + 8 + len)), at + 8 + len))
        }
    }
}

/// The first `n` elements from byte `at` on, read one after the other, with
/// the offset after the last of them.
pub open spec fn elements_from(b: Seq<u8>, at: int, n: nat) -> Result<(Seq<Option<Seq<u8>>>, int), DecodeError>
    decreases n,
{
    if n == 0 {
        Ok((Seq::empty(), at))
    } else {
        match elements_from(b, at, (n - 1) as nat) {
            Err(e) => Err(e),
            Ok((els, p)) => match element_at(b, p) {
                Err(e) => Err(e),
                Ok((el, q)) => Ok((els.push(el), q)),
            },
        }
    }
}

/// The elements of an encoded object that must hold exactly `n` of them: a
/// four-byte element count, then the elements, and nothing after them.
pub open spec fn object_elements(b: Seq<u8>, n: nat) -> Result<Seq<Option<Seq<u8>>>, DecodeError> {
    if b.len() < 4 {
        Err(DecodeError::Underflow)
    } else if be_u32_at(b, 0) != n {
        Err(DecodeError::SizeMismatch)
    } else {
        match elements_from(b, 4, n) {
            Err(e) => Err(e),
            Ok((els, end)) => if end != b.len() {
                Err(DecodeError::TrailingData)
            } else {
                Ok(els)
            },
        }
    }
}

pub open spec fn opt_bytes(o: Option<&[u8]>) -> Option<Seq<u8>> {
    match o {
        Some(s) => Some(s@),
        None => None,
    }
}

fn read_u32_at(b: &[u8], at: usize) -> (r: u32)
    requires
        at + 4 <= b@.len(),
    ensures
        r as int == be_u32_at(b@, at as int),
{
    (b[at] as u32) * 0x100_0000 + (b[at + 1] as u32) * 0x1_0000 + (b[at + 2] as u32) * 0x100
        + (b[at + 3] as u32)
}

/// A cursor over the elements of one encoded object.
pub struct ElementCursor<'a> {
    buf: &'a [u8],
    pos: usize,
    remaining: usize,
}

impl<'a> ElementCursor<'a> {
    pub closed spec fn bytes(&self) -> Seq<u8> {
        self.buf@
    }

    /// The byte offset of the next element.
    pub closed spec fn offset(&self) -> int {
        self.pos as int
    }

    /// How many of the declared elements are still to be read.
    pub closed spec fn remaining(&self) -> nat {
        self.remaining as nat
    }

    pub closed spec fn wf(&self) -> bool {
        self.pos <= self.buf@.len()
    }

    /// Opens the object in `buf`, whose header must declare `expected_count`
    /// elements.
    pub fn open(buf: &'a [u8], expected_count: usize) -> (r: Result<Self, DecodeError>)
        ensures
            buf@.len() < 4 ==> r == Err::<Self, DecodeError>(DecodeError::Underflow),
            buf@.len() >= 4 && be_u32_at(buf@, 0) != expected_count ==> r == Err::<Self, DecodeError>(
                DecodeError::SizeMismatch,
            ),
            buf@.len() >= 4 && be_u32_at(buf@, 0) == expected_count ==> (r matches Ok(c) && c.wf()
                && c.bytes() == buf@ && c.offset() == 4 && c.remaining() == expected_count),
    {
        if buf.len() < 4 {
            return Err(DecodeError::Underflow);
        }
        let count = read_u32_at(buf, 0);
        if count as usize != expected_count {
            return Err(DecodeError::SizeMismatch);
        }
        Ok(ElementCursor { buf, pos: 4, remaining: expected_count })
    }

    /// Reads the next element: its payload, or `None` where it is absent.
    pub fn read(&mut self) -> (r: Result<Option<&'a [u8]>, DecodeError>)
        requires
            old(self).wf(),
        ensures
            final(self).wf(),
            final(self).bytes() == old(self).bytes(),
            old(self).remaining() == 0 ==> r == Err::<Option<&'a [u8]>, DecodeError>(
                DecodeError::UnexpectedEnd,
            ),
            old(self).remaining() > 0 ==> match element_at(old(self).bytes(), old(self).offset()) {
                Err(e) => r == Err::<Option<&'a [u8]>, DecodeError>(e),
                Ok((el, q)) => r matches Ok(o) && opt_bytes(o) == el && final(self).offset() == q
                    && final(self).remaining() == old(self).remaining() - 1,
            },
    {
        if self.remaining == 0 {
            return Err(DecodeError::UnexpectedEnd);
        }
        let len = self.buf.len();
        if len - self.pos < 8 {
            return Err(DecodeError::Underflow);
        }
        let raw = read_u32_at(self.buf, self.pos + 4);
        if raw == 0xFFFF_FFFF {
            self.pos = self.pos + 8;
            self.remaining = self.remaining - 1;
            return Ok(None);
        }
        if raw >= 0x8000_0000 {
            return Err(DecodeError::InvalidMarker);
        }
        let n = raw as usize;
        if len - (self.pos + 8) < n {
            return Err(DecodeError::Underflow);
        }
        let start = self.pos + 8;
        let payload = slice_subrange(self.buf, start, start + n);
        self.pos = start + n;
        self.remaining = self.remaining - 1;
        Ok(Some(payload))
    }

    /// Reads the next element and discards it.
    pub fn skip_element(&mut self) -> (r: Result<(), DecodeError>)
        requires
            old(self).wf(),
        ensures
            final(self).wf(),
            final(self).bytes() == old(self).bytes(),
            old(self).remaining() == 0 ==> r == Err::<(), DecodeError>(DecodeError::UnexpectedEnd),
            old(self).remaining() > 0 ==> match element_at(old(self).bytes(), old(self).offset()) {
                Err(e) => r == Err::<(), DecodeError>(e),
                Ok((el, q)) => r is Ok && final(self).offset() == q && final(self).remaining()
                    == old(self).remaining() - 1,
            },
    {
        match self.read() {
            Ok(_) => Ok(()),
            Err(e) => Err(e),
        }
    }

    /// Checks that every declared element was read and that no byte is left.
    pub fn finish(&self) -> (r: Result<(), DecodeError>)
        requires
            self.wf(),
        ensures
            self.remaining() > 0 ==> r == Err::<(), DecodeError>(DecodeError::Underflow),
            self.remaining() == 0 && self.offset() != self.bytes().len() ==> r == Err::<(), DecodeError>(
                DecodeError::TrailingData,
            ),
            self.remaining() == 0 && self.offset() == self.bytes().len() ==> r is Ok,
    {
        if self.remaining > 0 {
            Err(DecodeError::Underflow)
        } else if self.pos != self.buf.len() {
            Err(DecodeError::TrailingData)
        } else {
            Ok(())
        }
    }
}

/// The `n` visible elements of an object encoded for `ctx`: the object holds
/// the implicit elements first, then the visible ones.
pub open spec fn visible_elements(ctx: DecodeContext, b: Seq<u8>, n: nat) -> Result<
    Seq<Option<Seq<u8>>>,
    DecodeError,
> {
    let k = implicit_kinds(ctx).len();
    match object_elements(b, k + n) {
        Err(e) => Err(e),
        Ok(els) => Ok(els.subrange(k as int, (k + n) as int)),
    }
}

pub open spec fn opt_bytes_seq(v: Seq<Option<&[u8]>>) -> Seq<Option<Seq<u8>>> {
    v.map_values(|o: Option<&[u8]>| opt_bytes(o))
}

/// Once reading elements has failed, reading more of them fails the same way.
proof fn lemma_elements_error_persists(b: Seq<u8>, at: int, m: nat, n: nat)
    requires
        m <= n,
        elements_from(b, at, m) is Err,
    ensures
        elements_from(b, at, n) == elements_from(b, at, m),
    decreases n - m,
{
    if m < n {
        lemma_elements_error_persists(b, at, m, (n - 1) as nat);
    }
}

/// Reads the object in `buf` that holds the implicit elements of `ctx` and
/// then `n` visible ones; skips the implicit elements and returns the visible
/// ones in order. The element count and the absence of trailing bytes are
/// checked once, after the last element.
pub fn read_object<'a>(ctx: &DecodeContext, buf: &'a [u8], n: usize) -> (r: Result<
    Vec<Option<&'a [u8]>>,
    DecodeError,
>)
    requires
        n + 3 <= usize::MAX,
    ensures
        match visible_elements(*ctx, buf@, n as nat) {
            Err(e) => r == Err::<Vec<Option<&'a [u8]>>, DecodeError>(e),
            Ok(els) => r matches Ok(v) && opt_bytes_seq(v@) == els,
        },
        r matches Ok(v) ==> v@.len() == n,
{
    let k = ctx.implicit_count();
    let total = k + n;
    let mut cursor = match ElementCursor::open(buf, total) {
        Ok(c) => c,
        Err(e) => return Err(e),
    };
    let ghost mut all: Seq<Option<Seq<u8>>> = Seq::empty();
    let mut i: usize = 0;
    while i < k
        invariant
            i <= k,
            all.len() == i,
            k == implicit_kinds(*ctx).len(),
            total == k + n,
            cursor.wf(),
            cursor.bytes() == buf@,
            cursor.remaining() == total - i,
            buf@.len() >= 4,
            be_u32_at(buf@, 0) == total,
            elements_from(buf@, 4, i as nat) == Ok::<(Seq<Option<Seq<u8>>>, int), DecodeError>(
                (all, cursor.offset()),
            ),
        decreases k - i,
    {
        let ghost at = cursor.offset();
        let res = cursor.skip_element();
        match res {
            Err(e) => {
                proof {
                    lemma_elements_error_persists(buf@, 4, (i + 1) as nat, total as nat);
                }
                return Err(e);
            },
            Ok(()) => {},
        }
        proof {
            all = all.push(element_at(buf@, at)->Ok_0.0);
        }
        i = i + 1;
    }
    let mut out: Vec<Option<&'a [u8]>> = Vec::new();
    let mut j: usize = 0;
    while j < n
        invariant
            j <= n,
            k == implicit_kinds(*ctx).len(),
            total == k + n,
            cursor.wf(),
            cursor.bytes() == buf@,
            cursor.remaining() == n - j,
            buf@.len() >= 4,
            be_u32_at(buf@, 0) == total,
            all.len() == k + j,
            elements_from(buf@, 4, (k + j) as nat) == Ok::<(Seq<Option<Seq<u8>>>, int), DecodeError>(
                (all, cursor.offset()),
            ),
            opt_bytes_seq(out@) == all.subrange(k as int, (k + j) as int),
        decreases n - j,
    {
        let ghost at = cursor.offset();
        let res = cursor.read();
        match res {
            Err(e) => {
                proof {
                    lemma_elements_error_persists(buf@, 4, (k + j + 1) as nat, total as nat);
                }
                return Err(e);
            },
            Ok(el) => {
                let ghost before = out@;
                out.push(el);
                proof {
                    assert(opt_bytes(el) == element_at(buf@, at)->Ok_0.0);
                    assert(opt_bytes_seq(out@) =~= opt_bytes_seq(before).push(opt_bytes(el)));
                    all = all.push(element_at(buf@, at)->Ok_0.0);
                    assert(opt_bytes_seq(out@) =~= all.subrange(k as int, (k + j + 1) as int));
                }
            },
        }
        j = j + 1;
    }
    match cursor.finish() {
        Err(e) => Err(e),
        Ok(()) => {
            assert(all.subrange(k as int, (k + n) as int) =~= all.subrange(k as int, (k + n) as int));
            Ok(out)
        },
    }
}

} // verus!
