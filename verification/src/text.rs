//! Byte strings: the form in which source text, lexemes, string values and
//! diagnostics are held.

use std::rc::Rc;
use vstd::prelude::*;
use vstd::string::StringSliceAdditionalSpecFns;

verus! {

/// The UTF-8 bytes of a text.
pub open spec fn bytes_of(text: &str) -> Seq<u8> {
    text.spec_bytes()
}

/// The decimal digits of `n`, most significant first, as ASCII bytes.
pub open spec fn decimal_digits(n: nat) -> Seq<u8>
    decreases n,
{
    if n < 10 {
        seq![(48 + n) as u8]
    } else {
        decimal_digits(n / 10).push((48 + n % 10) as u8)
    }
}

/// `std::rc::Rc::clone`: a second handle to the same allocation. The handle
/// returned stands for the same value as the one given.
#[verifier::external_body]
pub(crate) fn share<T>(rc: &Rc<T>) -> (r: Rc<T>)
    ensures
        r == *rc,
{
    Rc::clone(rc)
}

/// Appends `more` to `out`.
pub fn append(out: &mut Vec<u8>, more: &[u8])
    ensures
        final(out)@ == old(out)@ + more@,
{
    let mut i: usize = 0;
    while i < more.len()
        invariant
            i <= more.len(),
            out@ == old(out)@ + more@.subrange(0, i as int),
        decreases more.len() - i,
    {
        out.push(more[i]);
        proof {
            assert(more@.subrange(0, i + 1) =~= more@.subrange(0, i as int).push(more@[i as int]));
            assert(out@ =~= old(out)@ + more@.subrange(0, i + 1));
        }
        i += 1;
    }
    proof {
        assert(more@.subrange(0, more@.len() as int) =~= more@);
    }
}

/// Appends the UTF-8 bytes of `more` to `out`.
pub fn append_text(out: &mut Vec<u8>, more: &str)
    ensures
        final(out)@ == old(out)@ + bytes_of(more),
{
    append(out, more.as_bytes());
}

/// The UTF-8 bytes of `text` in a vector of their own.
pub fn to_bytes(text: &str) -> (r: Vec<u8>)
    ensures
        r@ == bytes_of(text),
{
    let mut out: Vec<u8> = Vec::new();
    append_text(&mut out, text);
    proof {
        assert(Seq::<u8>::empty() + bytes_of(text) =~= bytes_of(text));
    }
    out
}

/// Whether two byte strings hold the same bytes.
pub fn same_bytes(a: &[u8], b: &[u8]) -> (r: bool)
    ensures
        r == (a@ == b@),
{
    if a.len() != b.len() {
        return false;
    }
    let mut i: usize = 0;
    while i < a.len()
        invariant
            a.len() == b.len(),
            i <= a.len(),
            forall|j: int| 0 <= j < i ==> a@[j] == b@[j],
        decreases a.len() - i,
    {
        if a[i] != b[i] {
            proof {
                assert(a@[i as int] != b@[i as int]);
            }
            return false;
        }
        i += 1;
    }
    proof {
        assert(a@ =~= b@);
    }
    true
}

/// The bytes of `source` from `from` up to, not including, `to`.
pub fn copy_range(source: &Vec<u8>, from: usize, to: usize) -> (r: Vec<u8>)
    requires
        from <= to <= source.len(),
    ensures
        r@ == source@.subrange(from as int, to as int),
{
    let mut out: Vec<u8> = Vec::new();
    let mut i: usize = from;
    while i < to
        invariant
            from <= i <= to <= source.len(),
            out@ == source@.subrange(from as int, i as int),
        decreases to - i,
    {
        out.push(source[i]);
        proof {
            assert(out@ =~= source@.subrange(from as int, i + 1));
        }
        i += 1;
    }
    out
}

/// Whether `bytes` spells `text`.
pub fn is_text(bytes: &[u8], text: &str) -> (r: bool)
    ensures
        r == (bytes@ == bytes_of(text)),
{
    same_bytes(bytes, text.as_bytes())
}

/// The decimal digits of `n`.
pub fn decimal(n: usize) -> (r: Vec<u8>)
    ensures
        r@ == decimal_digits(n as nat),
    decreases n,
{
    if n < 10 {
        let mut out: Vec<u8> = Vec::new();
        out.push(48u8 + (n as u8));
        proof {
            assert(out@ =~= seq![(48 + n) as u8]);
        }
        out
    } else {
        let mut out = decimal(n / 10);
        out.push(48u8 + ((n % 10) as u8));
        out
    }
}

/// Appends the decimal digits of `n` to `out`.
pub fn append_decimal(out: &mut Vec<u8>, n: usize)
    ensures
        final(out)@ == old(out)@ + decimal_digits(n as nat),
{
    let digits = decimal(n);
    append(out, digits.as_slice());
}

} // verus!
