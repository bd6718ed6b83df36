//! Character-level helpers: strings as sequences of characters.

use vstd::prelude::*;
use vstd::std_specs::iter::IteratorSpec;

verus! {

/// `String::push` appends one character to the end of the string.
pub assume_specification[ String::push ](s: &mut String, ch: char)
    ensures
        final(s)@ == old(s)@.push(ch),
;

/// The characters of `s`, in order.
pub fn chars_of(s: &str) -> (out: Vec<char>)
    ensures
        out@ == s@,
{
    let mut out: Vec<char> = Vec::new();
    for c in it: s.chars()
        invariant
            out@ == it.seq().take(it.index()),
            it.seq() == s@,
    {
        out.push(c);
    }
    out
}

/// The string made of the characters of `chars`, in order.
pub fn string_of(chars: &Vec<char>) -> (out: String)
    ensures
        out@ == chars@,
{
    let mut out = String::new();
    let mut i: usize = 0;
    while i < chars.len()
        invariant
            i <= chars.len(),
            out@ == chars@.take(i as int),
        decreases chars.len() - i,
    {
        out.push(chars[i]);
        proof {
            assert(chars@.take(i + 1) =~= chars@.take(i as int).push(chars@[i as int]));
        }
        i += 1;
    }
    proof {
        assert(chars@ =~= chars@.take(i as int));
    }
    out
}

/// Whether two character sequences are equal.
pub fn chars_eq(a: &Vec<char>, b: &Vec<char>) -> (same: bool)
    ensures
        same == (a@ == b@),
{
    if a.len() != b.len() {
        return false;
    }
    let mut i: usize = 0;
    while i < a.len()
        invariant
            a.len() == b.len(),
            i <= a.len(),
            a@.take(i as int) == b@.take(i as int),
        decreases a.len() - i,
    {
        if a[i] != b[i] {
            return false;
        }
        proof {
            assert(a@.take(i + 1) =~= a@.take(i as int).push(a@[i as int]));
            assert(b@.take(i + 1) =~= b@.take(i as int).push(b@[i as int]));
        }
        i += 1;
    }
    proof {
        assert(a@ =~= a@.take(i as int));
        assert(b@ =~= b@.take(i as int));
    }
    true
}

/// Whether `pattern` occurs in `text` starting at index `at`.
pub open spec fn occurs_at(text: Seq<char>, at: int, pattern: Seq<char>) -> bool {
    &&& 0 <= at
    &&& at + pattern.len() <= text.len()
    &&& text.subrange(at, at + pattern.len()) == pattern
}

/// The part of `text` from index `from` on, with every occurrence of
/// `pattern` replaced by `with`. Occurrences are found from left to right
/// and do not overlap; the inserted text is not searched again. An empty
/// pattern occurs nowhere.
pub open spec fn replaced_from(
    text: Seq<char>,
    pattern: Seq<char>,
    with: Seq<char>,
    from: int,
) -> Seq<char>
    decreases text.len() - from,
{
    if from < 0 || from >= text.len() {
        Seq::empty()
    } else if pattern.len() > 0 && occurs_at(text, from, pattern) {
        with + replaced_from(text, pattern, with, from + pattern.len())
    } else {
        seq![text[from]] + replaced_from(text, pattern, with, from + 1)
    }
}

/// `text` with every occurrence of `pattern` replaced by `with`.
pub open spec fn replaced(text: Seq<char>, pattern: Seq<char>, with: Seq<char>) -> Seq<char> {
    replaced_from(text, pattern, with, 0)
}

/// Whether `pattern` occurs in `text` at index `at`.
pub fn matches_at(text: &Vec<char>, at: usize, pattern: &Vec<char>) -> (found: bool)
    ensures
        found == occurs_at(text@, at as int, pattern@),
{
    if pattern.len() > text.len() || at > text.len() - pattern.len() {
        return false;
    }
    let mut k: usize = 0;
    while k < pattern.len()
        invariant
            k <= pattern.len(),
            at + pattern.len() <= text.len(),
            text@.subrange(at as int, at + k) == pattern@.take(k as int),
        decreases pattern.len() - k,
    {
        if text[at + k] != pattern[k] {
            proof {
                let whole = text@.subrange(at as int, at + pattern.len());
                assert(whole[k as int] == text@[at + k]);
            }
            return false;
        }
        proof {
            assert(text@.subrange(at as int, at + k + 1) =~= text@.subrange(
                at as int,
                at + k,
            ).push(text@[at + k]));
            assert(pattern@.take(k + 1) =~= pattern@.take(k as int).push(pattern@[k as int]));
        }
        k += 1;
    }
    proof {
        assert(pattern@ =~= pattern@.take(k as int));
    }
    true
}

/// Replaces every occurrence of `pattern` in `text` by `with`.
pub fn replace_all(text: &Vec<char>, pattern: &Vec<char>, with: &Vec<char>) -> (out: Vec<char>)
    ensures
        out@ == replaced(text@, pattern@, with@),
{
    let mut out: Vec<char> = Vec::new();
    let mut i: usize = 0;
    while i < text.len()
        invariant
            i <= text.len(),
            out@ + replaced_from(text@, pattern@, with@, i as int) == replaced(
                text@,
                pattern@,
                with@,
            ),
        decreases text.len() - i,
    {
        let ghost before = out@;
        let ghost rest = replaced_from(text@, pattern@, with@, i as int);
        if pattern.len() > 0 && matches_at(text, i, pattern) {
            let mut k: usize = 0;
            while k < with.len()
                invariant
                    k <= with.len(),
                    out@ == before + with@.take(k as int),
                decreases with.len() - k,
            {
                out.push(with[k]);
                proof {
                    assert(with@.take(k + 1) =~= with@.take(k as int).push(with@[k as int]));
                    assert(before + with@.take(k as int).push(with@[k as int]) =~= (before
                        + with@.take(k as int)).push(with@[k as int]));
                }
                k += 1;
            }
            proof {
                assert(with@ =~= with@.take(k as int));
                let tail = replaced_from(text@, pattern@, with@, i + pattern.len());
                assert(rest == with@ + tail);
                assert((before + with@) + tail =~= before + (with@ + tail));
            }
            i += pattern.len();
        } else {
            out.push(text[i]);
            proof {
                let tail = replaced_from(text@, pattern@, with@, i + 1);
                assert(rest == seq![text@[i as int]] + tail);
                assert(before.push(text@[i as int]) + tail =~= before + (seq![text@[i as int]]
                    + tail));
            }
            i += 1;
        }
    }
    proof {
        assert(out@ + Seq::<char>::empty() =~= out@);
    }
    out
}

/// Whether `pattern` occurs nowhere in `text`.
pub open spec fn never_occurs(text: Seq<char>, pattern: Seq<char>) -> bool {
    forall|at: int| !occurs_at(text, at, pattern)
}

/// Whether the character `c` is nowhere in `text`.
pub open spec fn lacks(text: Seq<char>, c: char) -> bool {
    forall|i: int| 0 <= i < text.len() ==> text[i] != c
}

/// What replacing gives from an index on depends on the text from that
/// index on alone.
pub proof fn lemma_replaced_from_is_replaced_rest(
    text: Seq<char>,
    pattern: Seq<char>,
    with: Seq<char>,
    from: int,
)
    requires
        0 <= from <= text.len(),
    ensures
        replaced_from(text, pattern, with, from) == replaced(
            text.subrange(from, text.len() as int),
            pattern,
            with,
        ),
    decreases text.len() - from,
{
    let rest = text.subrange(from, text.len() as int);
    if from < text.len() {
        assert(rest[0] == text[from]);
        if pattern.len() > 0 && occurs_at(text, from, pattern) {
            let step = pattern.len() as int;
            assert(rest.subrange(0, step) =~= text.subrange(from, from + step));
            lemma_replaced_from_is_replaced_rest(text, pattern, with, from + step);
            lemma_replaced_from_is_replaced_rest(rest, pattern, with, step);
            assert(rest.subrange(step, rest.len() as int) =~= text.subrange(
                from + step,
                text.len() as int,
            ));
        } else {
            if pattern.len() > 0 && from + pattern.len() <= text.len() {
                assert(rest.subrange(0, pattern.len() as int) =~= text.subrange(
                    from,
                    from + pattern.len(),
                ));
            }
            lemma_replaced_from_is_replaced_rest(text, pattern, with, from + 1);
            lemma_replaced_from_is_replaced_rest(rest, pattern, with, 1);
            assert(rest.subrange(1, rest.len() as int) =~= text.subrange(
                from + 1,
                text.len() as int,
            ));
        }
    }
}

/// A text in which the pattern occurs nowhere is left as it is.
pub proof fn lemma_replaced_without_occurrence(
    text: Seq<char>,
    pattern: Seq<char>,
    with: Seq<char>,
)
    requires
        never_occurs(text, pattern),
    ensures
        replaced(text, pattern, with) == text,
    decreases text.len(),
{
    if text.len() > 0 {
        let rest = text.subrange(1, text.len() as int);
        assert(!occurs_at(text, 0, pattern));
        assert forall|at: int| !occurs_at(rest, at, pattern) by {
            if 0 <= at && at + pattern.len() <= rest.len() {
                assert(!occurs_at(text, at + 1, pattern));
                assert(rest.subrange(at, at + pattern.len()) =~= text.subrange(
                    at + 1,
                    at + 1 + pattern.len(),
                ));
            }
        }
        lemma_replaced_from_is_replaced_rest(text, pattern, with, 1);
        lemma_replaced_without_occurrence(rest, pattern, with);
        assert(seq![text[0]] + rest =~= text);
    }
}

/// Text that lacks the first character of the pattern is copied, and
/// replacing goes on behind it.
pub proof fn lemma_replaced_behind_plain_text(
    plain: Seq<char>,
    rest: Seq<char>,
    pattern: Seq<char>,
    with: Seq<char>,
)
    requires
        pattern.len() > 0,
        lacks(plain, pattern[0]),
    ensures
        replaced(plain + rest, pattern, with) == plain + replaced(rest, pattern, with),
    decreases plain.len(),
{
    let text = plain + rest;
    if plain.len() == 0 {
        assert(text =~= rest);
        assert(plain + replaced(rest, pattern, with) =~= replaced(rest, pattern, with));
    } else {
        assert(text[0] == plain[0]);
        if occurs_at(text, 0, pattern) {
            assert(text.subrange(0, pattern.len() as int)[0] == pattern[0]);
        }
        let shorter = plain.subrange(1, plain.len() as int);
        assert forall|i: int| 0 <= i < shorter.len() implies shorter[i] != pattern[0] by {
            assert(shorter[i] == plain[i + 1]);
        }
        lemma_replaced_from_is_replaced_rest(text, pattern, with, 1);
        assert(text.subrange(1, text.len() as int) =~= shorter + rest);
        lemma_replaced_behind_plain_text(shorter, rest, pattern, with);
        assert(seq![plain[0]] + (shorter + replaced(rest, pattern, with)) =~= plain + replaced(
            rest,
            pattern,
            with,
        ));
    }
}

/// An occurrence at the front is replaced, and replacing goes on behind it.
pub proof fn lemma_replaced_behind_occurrence(
    rest: Seq<char>,
    pattern: Seq<char>,
    with: Seq<char>,
)
    requires
        pattern.len() > 0,
    ensures
        replaced(pattern + rest, pattern, with) == with + replaced(rest, pattern, with),
{
    let text = pattern + rest;
    assert(text.subrange(0, pattern.len() as int) =~= pattern);
    lemma_replaced_from_is_replaced_rest(text, pattern, with, pattern.len() as int);
    assert(text.subrange(pattern.len() as int, text.len() as int) =~= rest);
}

/// Where a pattern stands twice in a text whose other parts lack the first
/// character of the pattern, both occurrences are replaced, by the same
/// text, and the other parts stay as they are.
pub proof fn lemma_both_occurrences_replaced(
    before: Seq<char>,
    between: Seq<char>,
    behind: Seq<char>,
    pattern: Seq<char>,
    with: Seq<char>,
)
    requires
        pattern.len() > 0,
        lacks(before, pattern[0]),
        lacks(between, pattern[0]),
        lacks(behind, pattern[0]),
    ensures
        replaced(before + pattern + between + pattern + behind, pattern, with) == before + with
            + between + with + behind,
{
    let empty = Seq::<char>::empty();
    let tail1 = pattern + behind;
    let tail2 = between + tail1;
    let tail3 = pattern + tail2;
    assert(before + pattern + between + pattern + behind =~= before + tail3);
    lemma_replaced_behind_plain_text(before, tail3, pattern, with);
    lemma_replaced_behind_occurrence(tail2, pattern, with);
    lemma_replaced_behind_plain_text(between, tail1, pattern, with);
    lemma_replaced_behind_occurrence(behind, pattern, with);
    lemma_replaced_behind_plain_text(behind, empty, pattern, with);
    assert(behind + empty =~= behind);
    assert(replaced(empty, pattern, with) =~= empty);
    assert(before + (with + (between + (with + behind))) =~= before + with + between + with
        + behind);
}

} // verus!
