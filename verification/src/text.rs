//! Character-level access to string slices.

use vstd::prelude::*;
use vstd::std_specs::iter::IteratorSpec;

verus! {

/// The characters of `s`, in order, as an indexable vector.
pub fn chars_of(s: &str) -> (v: Vec<char>)
    ensures
        v@ == s@,
{
    let mut v: Vec<char> = Vec::new();
    let mut it = s.chars();
    loop
        invariant
            v@.len() <= s@.len(),
            v@ == s@.take(v@.len() as int),
            it.remaining() == s@.skip(v@.len() as int),
        ensures
            v@ == s@,
        decreases s@.len() - v@.len(),
    {
        match it.next() {
            Some(c) => {
                v.push(c);
            },
            None => {
                break ;
            },
        }
    }
    v
}

/// The first character of `s`, if it has one.
pub fn first_char(s: &str) -> (first: Option<char>)
    ensures
        first == (if s@.len() > 0 {
            Some(s@[0])
        } else {
            None
        }),
{
    let mut it = s.chars();
    it.next()
}

/// `s` without every leading repetition of `prefix`.
pub open spec fn strip_repeated(s: Seq<char>, prefix: Seq<char>) -> Seq<char>
    decreases s.len(),
{
    if prefix.len() > 0 && prefix.is_prefix_of(s) {
        strip_repeated(s.skip(prefix.len() as int), prefix)
    } else {
        s
    }
}

/// How many characters of `s` come before the first `stop`; all of them if
/// `stop` does not occur.
pub open spec fn offset_of(s: Seq<char>, stop: char) -> nat
    decreases s.len(),
{
    if s.len() == 0 || s[0] == stop {
        0
    } else {
        1 + offset_of(s.drop_first(), stop)
    }
}

/// `offset_of` is where `stop` first occurs: no character before it is
/// `stop`, and the one at it is, unless it is the end of `s`.
pub proof fn lemma_offset_of(s: Seq<char>, stop: char)
    ensures
        offset_of(s, stop) <= s.len(),
        forall|k: int| 0 <= k < offset_of(s, stop) ==> s[k] != stop,
        offset_of(s, stop) < s.len() ==> s[offset_of(s, stop) as int] == stop,
    decreases s.len(),
{
    if s.len() > 0 && s[0] != stop {
        let rest = s.drop_first();
        lemma_offset_of(rest, stop);
        assert forall|k: int| 0 <= k < offset_of(s, stop) implies s[k] != stop by {
            if k > 0 {
                assert(s[k] == rest[k - 1]);
            }
        }
    }
}

/// `strip_repeated` leaves an end of `s` that `prefix` does not begin.
pub proof fn law_strip_repeated(s: Seq<char>, prefix: Seq<char>)
    ensures
        strip_repeated(s, prefix).len() <= s.len(),
        strip_repeated(s, prefix) == s.skip(s.len() - strip_repeated(s, prefix).len()),
        prefix.len() > 0 ==> !prefix.is_prefix_of(strip_repeated(s, prefix)),
    decreases s.len(),
{
    if prefix.len() > 0 && prefix.is_prefix_of(s) {
        let rest = s.skip(prefix.len() as int);
        law_strip_repeated(rest, prefix);
        let kept = strip_repeated(rest, prefix);
        assert(rest.skip(rest.len() - kept.len()) == s.skip(s.len() - kept.len()));
    } else {
        assert(s.skip(0) == s);
    }
}

/// Whether `prefix` stands in `text` at position `from`.
pub fn has_prefix_at(text: &Vec<char>, from: usize, prefix: &Vec<char>) -> (found: bool)
    requires
        from <= text.len(),
    ensures
        found == prefix@.is_prefix_of(text@.skip(from as int)),
{
    if prefix.len() > text.len() - from {
        return false;
    }
    let mut k: usize = 0;
    while k < prefix.len()
        invariant
            from <= text.len(),
            prefix.len() <= text.len() - from,
            k <= prefix.len(),
            forall|j: int| 0 <= j < k ==> prefix@[j] == text@[from + j],
        decreases prefix.len() - k,
    {
        if prefix[k] != text[from + k] {
            proof {
                assert(text@.skip(from as int).subrange(0, prefix@.len() as int)[k as int]
                    == text@[from + k]);
            }
            return false;
        }
        k += 1;
    }
    proof {
        assert(prefix@ =~= text@.skip(from as int).subrange(0, prefix@.len() as int));
    }
    true
}

/// The position in `text` after every repetition of `prefix` that stands at
/// `from`.
pub fn skip_repeated(text: &Vec<char>, from: usize, prefix: &Vec<char>) -> (to: usize)
    requires
        from <= text.len(),
    ensures
        from <= to <= text.len(),
        text@.skip(to as int) == strip_repeated(text@.skip(from as int), prefix@),
{
    let mut at: usize = from;
    if prefix.len() == 0 {
        return at;
    }
    while has_prefix_at(text, at, prefix)
        invariant
            prefix.len() > 0,
            from <= at <= text.len(),
            strip_repeated(text@.skip(at as int), prefix@) == strip_repeated(
                text@.skip(from as int),
                prefix@,
            ),
        decreases text.len() - at,
    {
        proof {
            assert(text@.skip(at as int).skip(prefix@.len() as int) == text@.skip(
                at + prefix@.len(),
            ));
        }
        at += prefix.len();
    }
    at
}

/// The position of the first `stop` in `text` at or after `from`; the end of
/// `text` if there is none.
pub fn find_from(text: &Vec<char>, from: usize, stop: char) -> (at: usize)
    requires
        from <= text.len(),
    ensures
        from <= at <= text.len(),
        at - from == offset_of(text@.skip(from as int), stop),
{
    let mut at: usize = from;
    while at < text.len() && text[at] != stop
        invariant
            from <= at <= text.len(),
            offset_of(text@.skip(from as int), stop) == (at - from) + offset_of(
                text@.skip(at as int),
                stop,
            ),
        decreases text.len() - at,
    {
        proof {
            assert(text@.skip(at as int).drop_first() == text@.skip(at + 1));
        }
        at += 1;
    }
    at
}

/// `head` followed by `tail`, as one owned string.
pub fn joined(head: &str, tail: &str) -> (text: String)
    ensures
        text@ == head@ + tail@,
{
    let mut text = String::from_str(head);
    text.append(tail);
    text
}

/// Whether `a` and `b` hold the same characters.
pub fn same_text(a: &str, b: &str) -> (same: bool)
    ensures
        same == (a@ == b@),
{
    let mut left = a.chars();
    let mut right = b.chars();
    let ghost mut seen: int = 0;
    loop
        invariant
            0 <= seen <= a@.len(),
            seen <= b@.len(),
            left.remaining() == a@.skip(seen),
            right.remaining() == b@.skip(seen),
            a@.take(seen) == b@.take(seen),
        decreases a@.len() - seen,
    {
        match (left.next(), right.next()) {
            (Some(x), Some(y)) => {
                if x != y {
                    proof {
                        assert(a@[seen] != b@[seen]);
                    }
                    return false;
                }
                proof {
                    assert(a@.take(seen + 1) == a@.take(seen).push(a@[seen]));
                    assert(b@.take(seen + 1) == b@.take(seen).push(b@[seen]));
                    seen = seen + 1;
                }
            },
            (None, None) => {
                proof {
                    assert(a@.take(seen) == a@);
                    assert(b@.take(seen) == b@);
                }
                return true;
            },
            _ => {
                proof {
                    assert(a@.len() != b@.len());
                }
                return false;
            },
        }
    }
}

} // verus!
