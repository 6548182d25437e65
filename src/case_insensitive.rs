//! Comparing strings while ignoring ASCII case, without copying them.
use vstd::prelude::*;
use vstd::std_specs::iter::IteratorSpec;
use std::cmp::Ordering;

verus! {

/// A string slice that compares equal to, and orders with, others by their
/// characters with ASCII capitals taken as lowercase.
pub struct CaseInsensitive<'a>(pub &'a str);

/// The code of `c` with ASCII capitals taken as lowercase.
pub open spec fn folded(c: char) -> u32 {
    if 'A' <= c && c <= 'Z' {
        (c as u32 + 32) as u32
    } else {
        c as u32
    }
}

/// Orders `a` and `b` character by character after folding; a proper prefix
/// comes first.
pub open spec fn cmp_folded(a: Seq<char>, b: Seq<char>) -> Ordering
    decreases a.len(),
{
    if a.len() == 0 {
        if b.len() == 0 {
            Ordering::Equal
        } else {
            Ordering::Less
        }
    } else if b.len() == 0 {
        Ordering::Greater
    } else if folded(a[0]) < folded(b[0]) {
        Ordering::Less
    } else if folded(a[0]) > folded(b[0]) {
        Ordering::Greater
    } else {
        cmp_folded(a.drop_first(), b.drop_first())
    }
}

fn fold(c: char) -> (r: u32)
    ensures
        r == folded(c),
{
    if 'A' <= c && c <= 'Z' {
        c as u32 + 32
    } else {
        c as u32
    }
}

/// Orders `a` and `b` ignoring ASCII case.
pub fn compare(a: &str, b: &str) -> (r: Ordering)
    ensures
        r == cmp_folded(a@, b@),
{
    let mut xs = a.chars();
    let mut ys = b.chars();
    loop
        invariant
            cmp_folded(xs.remaining(), ys.remaining()) == cmp_folded(a@, b@),
            xs.obeys_prophetic_iter_laws(),
            ys.obeys_prophetic_iter_laws(),
            xs.decrease() is Some,
        decreases xs.decrease()->0,
    {
        let ghost (rx, ry) = (xs.remaining(), ys.remaining());
        match (xs.next(), ys.next()) {
            (None, None) => return Ordering::Equal,
            (None, Some(_)) => return Ordering::Less,
            (Some(_), None) => return Ordering::Greater,
            (Some(x), Some(y)) => {
                let (fx, fy) = (fold(x), fold(y));
                if fx < fy {
                    return Ordering::Less;
                }
                if fx > fy {
                    return Ordering::Greater;
                }
                assert(xs.remaining() == rx.drop_first() && ys.remaining() == ry.drop_first());
            },
        }
    }
}

impl<'a> PartialEq for CaseInsensitive<'a> {
    fn eq(&self, other: &Self) -> (r: bool) {
        let r = compare(self.0, other.0);
        match r {
            Ordering::Equal => true,
            _ => false,
        }
    }
}

impl<'a> vstd::std_specs::cmp::PartialEqSpecImpl for CaseInsensitive<'a> {
    open spec fn obeys_eq_spec() -> bool {
        true
    }

    open spec fn eq_spec(&self, other: &Self) -> bool {
        cmp_folded(self.0@, other.0@) == Ordering::Equal
    }
}

impl<'a> PartialOrd for CaseInsensitive<'a> {
    fn partial_cmp(&self, other: &Self) -> (r: Option<Ordering>) {
        Some(compare(self.0, other.0))
    }
}

impl<'a> vstd::std_specs::cmp::PartialOrdSpecImpl for CaseInsensitive<'a> {
    open spec fn obeys_partial_cmp_spec() -> bool {
        true
    }

    open spec fn partial_cmp_spec(&self, other: &Self) -> Option<Ordering> {
        Some(cmp_folded(self.0@, other.0@))
    }
}

} // verus!
