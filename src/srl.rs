//! Simple resource locators: `[<protocol>://]<address>`, where the protocol and
//! the address hold only lowercase English letters, the protocol is not empty when
//! `://` is there, and the address is never empty.
use vstd::prelude::*;
use crate::text::{chars_of, string_of};

verus! {

/// Why a string is not a valid locator.
#[derive(Debug, Eq, PartialEq)]
pub enum SRLValidationError {
    InvalidCharacterInAddress(char),
    InvalidCharacterInProtocol(char),
    EmptyAddress,
    EmptyProtocol,
}

/// A valid locator: an optional protocol and an address.
#[derive(Debug, Eq, PartialEq)]
pub struct SRL {
    protocol: Option<String>,
    address: String,
}

/// Whether `c` is a lowercase English letter.
pub open spec fn is_lower(c: char) -> bool {
    'a' <= c && c <= 'z'
}

/// The first character of `s` that is not a lowercase English letter.
pub open spec fn first_invalid(s: Seq<char>) -> Option<char>
    decreases s.len(),
{
    if s.len() == 0 {
        None
    } else if !is_lower(s[0]) {
        Some(s[0])
    } else {
        first_invalid(s.drop_first())
    }
}

/// Whether `://` starts at position `i` of `s`.
pub open spec fn separator_at(s: Seq<char>, i: int) -> bool {
    0 <= i && i + 3 <= s.len() && s[i] == ':' && s[i + 1] == '/' && s[i + 2] == '/'
}

/// Whether `://` starts nowhere before position `k` of `s`.
pub open spec fn no_separator_before(s: Seq<char>, k: int) -> bool {
    forall|i: int| 0 <= i < k ==> !#[trigger] separator_at(s, i)
}

/// Where the first `://` of `s` starts, if anywhere.
pub open spec fn first_separator(s: Seq<char>) -> Option<int> {
    if exists|i: int| separator_at(s, i) && no_separator_before(s, i) {
        Some(choose|i: int| separator_at(s, i) && no_separator_before(s, i))
    } else {
        None
    }
}

/// The error for an address, if it is not valid.
pub open spec fn address_error(a: Seq<char>) -> Option<SRLValidationError> {
    if a.len() == 0 {
        Some(SRLValidationError::EmptyAddress)
    } else {
        match first_invalid(a) {
            Some(c) => Some(SRLValidationError::InvalidCharacterInAddress(c)),
            None => None,
        }
    }
}

/// The error for a locator with protocol `p` and address `a`, if any: the
/// protocol is checked first.
pub open spec fn parts_error(p: Seq<char>, a: Seq<char>) -> Option<SRLValidationError> {
    if p.len() == 0 {
        Some(SRLValidationError::EmptyProtocol)
    } else {
        match first_invalid(p) {
            Some(c) => Some(SRLValidationError::InvalidCharacterInProtocol(c)),
            None => address_error(a),
        }
    }
}

/// The protocol and address of `s`, split at its first `://`.
pub open spec fn split_parts(s: Seq<char>) -> (Option<Seq<char>>, Seq<char>) {
    match first_separator(s) {
        Some(i) => (Some(s.subrange(0, i)), s.subrange(i + 3, s.len() as int)),
        None => (None, s),
    }
}

/// The error for `s`, if it is not a valid locator.
pub open spec fn srl_error(s: Seq<char>) -> Option<SRLValidationError> {
    match split_parts(s) {
        (Some(p), a) => parts_error(p, a),
        (None, a) => address_error(a),
    }
}

/// The first character of `chars[from..to]` that is not a lowercase letter.
fn find_invalid(chars: &Vec<char>, from: usize, to: usize) -> (r: Option<char>)
    requires
        from <= to <= chars.len(),
    ensures
        r == first_invalid(chars@.subrange(from as int, to as int)),
    decreases to - from,
{
    if from == to {
        return None;
    }
    let c = chars[from];
    proof {
        assert(chars@.subrange(from as int, to as int).drop_first() =~= chars@.subrange(from + 1, to as int));
    }
    if !('a' <= c && c <= 'z') {
        Some(c)
    } else {
        find_invalid(chars, from + 1, to)
    }
}

/// Where the first `://` of `chars` starts, if anywhere.
fn find_separator(chars: &Vec<char>) -> (r: Option<usize>)
    ensures
        r is Some ==> first_separator(chars@) == Some(r->0 as int),
        r is None ==> first_separator(chars@) is None,
{
    let n = chars.len();
    let mut i: usize = 0;
    while n >= 3 && i <= n - 3
        invariant
            n == chars.len(),
            i <= n,
            no_separator_before(chars@, i as int),
        decreases n - i,
    {
        if chars[i] == ':' && chars[i + 1] == '/' && chars[i + 2] == '/' {
            proof {
                assert(separator_at(chars@, i as int));
                let j = choose|j: int| separator_at(chars@, j) && no_separator_before(chars@, j);
                if j < i {
                    assert(!separator_at(chars@, j));
                } else if j > i {
                    assert(!separator_at(chars@, i as int));
                }
            }
            return Some(i);
        }
        i = i + 1;
    }
    proof {
        if exists|j: int| separator_at(chars@, j) && no_separator_before(chars@, j) {
            let j = choose|j: int| separator_at(chars@, j) && no_separator_before(chars@, j);
            if j < i {
                assert(!separator_at(chars@, j));
            }
        }
    }
    None
}

impl SRL {
    /// The protocol, if the locator has one.
    pub closed spec fn protocol_view(&self) -> Option<Seq<char>> {
        match self.protocol {
            Some(p) => Some(p@),
            None => None,
        }
    }

    /// The address.
    pub closed spec fn address_view(&self) -> Seq<char> {
        self.address@
    }

    /// Parses `input` as a locator.
    pub fn new(input: &str) -> (r: Result<Self, SRLValidationError>)
        ensures
            r is Err <==> srl_error(input@) is Some,
            r is Err ==> srl_error(input@) == Some(r->Err_0),
            r is Ok ==> r->Ok_0.protocol_view() == split_parts(input@).0 && r->Ok_0.address_view()
                == split_parts(input@).1,
    {
        let chars = chars_of(input);
        let n = chars.len();
        match find_separator(&chars) {
            None => {
                if n == 0 {
                    return Err(SRLValidationError::EmptyAddress);
                }
                proof {
                    assert(chars@.subrange(0, n as int) =~= chars@);
                }
                match find_invalid(&chars, 0, n) {
                    Some(c) => Err(SRLValidationError::InvalidCharacterInAddress(c)),
                    None => Ok(SRL { protocol: None, address: string_of(&chars, 0, n) }),
                }
            },
            Some(i) => {
                if i == 0 {
                    return Err(SRLValidationError::EmptyProtocol);
                }
                if let Some(c) = find_invalid(&chars, 0, i) {
                    return Err(SRLValidationError::InvalidCharacterInProtocol(c));
                }
                let start = i + 3;
                if start == n {
                    return Err(SRLValidationError::EmptyAddress);
                }
                if let Some(c) = find_invalid(&chars, start, n) {
                    return Err(SRLValidationError::InvalidCharacterInAddress(c));
                }
                Ok(
                    SRL {
                        protocol: Some(string_of(&chars, 0, i)),
                        address: string_of(&chars, start, n),
                    },
                )
            },
        }
    }

    /// The protocol, if the locator has one.
    pub fn get_protocol(&self) -> (r: Option<&str>)
        ensures
            r is None <==> self.protocol_view() is None,
            r is Some ==> self.protocol_view() == Some(r->0@),
    {
        match &self.protocol {
            Some(p) => Some(p.as_str()),
            None => None,
        }
    }

    /// The address.
    pub fn get_address(&self) -> (r: &str)
        ensures
            r@ == self.address_view(),
    {
        self.address.as_str()
    }
}

} // verus!
