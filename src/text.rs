//! Helpers over the characters of strings, and a file-name sanitizer.
use vstd::prelude::*;
use vstd::string::StrSliceExecFns;

verus! {

/// Relies on `String::push`: the character is appended to the string.
#[verifier::external_body]
pub(crate) fn push_char(s: &mut String, c: char)
    ensures
        final(s)@ == old(s)@.push(c),
{
    s.push(c)
}

/// The characters of `s`, in order.
pub fn chars_of(s: &str) -> (r: Vec<char>)
    ensures
        r@ == s@,
{
    let mut r: Vec<char> = Vec::new();
    for c in it: s.chars()
        invariant
            it.seq() == s@,
            r@ == s@.take(it.index() as int),
    {
        r.push(c);
    }
    proof {
        assert(s@.take(s@.len() as int) =~= s@);
    }
    r
}

/// The string made of `chars[from..to]`.
pub fn string_of(chars: &Vec<char>, from: usize, to: usize) -> (r: String)
    requires
        from <= to <= chars.len(),
    ensures
        r@ == chars@.subrange(from as int, to as int),
{
    let mut r = String::new();
    let mut i = from;
    while i < to
        invariant
            from <= i <= to <= chars.len(),
            r@ == chars@.subrange(from as int, i as int),
        decreases to - i,
    {
        push_char(&mut r, chars[i]);
        proof {
            assert(chars@.subrange(from as int, i + 1) =~= chars@.subrange(from as int, i as int).push(chars@[i as int]));
        }
        i = i + 1;
    }
    r
}

/// Whether `s` ends with `.exe`.
pub open spec fn ends_with_exe(s: Seq<char>) -> bool {
    s.len() >= 4 && s.subrange(s.len() - 4, s.len() as int) == seq!['.', 'e', 'x', 'e']
}

/// `s` without every trailing `x`, `o` and `.exe`, taken off from the right
/// until none is left. Each of the three ends in a different character, so the
/// order in which they are taken off does not matter.
pub open spec fn sanitized(s: Seq<char>) -> Seq<char>
    decreases s.len(),
{
    if ends_with_exe(s) {
        sanitized(s.subrange(0, s.len() - 4))
    } else if s.len() > 0 && (s.last() == 'x' || s.last() == 'o') {
        sanitized(s.drop_last())
    } else {
        s
    }
}

/// `input` without its trailing `x`, `o` and `.exe` parts.
pub fn sanitize(input: &str) -> (r: &str)
    ensures
        r@ == sanitized(input@),
{
    let chars = chars_of(input);
    let mut end: usize = chars.len();
    assert(chars@.take(end as int) =~= input@);
    while end > 0
        invariant
            chars@ == input@,
            end <= chars.len(),
            sanitized(chars@.take(end as int)) == sanitized(input@),
        ensures
            end <= chars.len(),
            sanitized(chars@.take(end as int)) == sanitized(input@),
            sanitized(chars@.take(end as int)) == chars@.take(end as int),
        decreases end,
    {
        let ghost cur = chars@.take(end as int);
        if end >= 4 && chars[end - 4] == '.' && chars[end - 3] == 'e' && chars[end - 2] == 'x'
            && chars[end - 1] == 'e' {
            proof {
                assert(cur.subrange(cur.len() - 4, cur.len() as int) =~= seq!['.', 'e', 'x', 'e']);
                assert(cur.subrange(0, cur.len() - 4) =~= chars@.take(end - 4));
            }
            end = end - 4;
        } else if chars[end - 1] == 'x' || chars[end - 1] == 'o' {
            proof {
                if ends_with_exe(cur) {
                    assert(cur.subrange(cur.len() - 4, cur.len() as int)[3] == 'e');
                }
                assert(cur.drop_last() =~= chars@.take(end - 1));
            }
            end = end - 1;
        } else {
            proof {
                if ends_with_exe(cur) {
                    let tail = cur.subrange(cur.len() - 4, cur.len() as int);
                    assert(tail[0] == '.' && tail[1] == 'e' && tail[2] == 'x' && tail[3] == 'e');
                }
                assert(sanitized(cur) == cur);
            }
            break;
        }
    }
    input.substring_char(0, end)
}

} // verus!
