//! Text as a sequence of characters: comparison, suffixes and replacement.

use vstd::prelude::*;

verus! {

/// `text` with every occurrence of `from` exchanged for `to`. Occurrences are
/// found from left to right and do not overlap.
pub open spec fn replaced(text: Seq<char>, from: Seq<char>, to: Seq<char>) -> Seq<char>
    decreases text.len(),
{
    if text.len() == 0 {
        Seq::empty()
    } else if from.len() > 0 && from.is_prefix_of(text) {
        to + replaced(text.skip(from.len() as int), from, to)
    } else {
        seq![text[0]] + replaced(text.skip(1), from, to)
    }
}

/// An occurrence of `part` starts at position `at` of `text`.
pub open spec fn occurs_at(text: Seq<char>, part: Seq<char>, at: int) -> bool {
    0 <= at <= text.len() && part.is_prefix_of(text.skip(at))
}

/// A text in which `from` does not occur is left as it is.
pub proof fn law_replaced_without_occurrence(text: Seq<char>, from: Seq<char>, to: Seq<char>)
    requires
        forall|at: int| 0 <= at < text.len() ==> !occurs_at(text, from, at),
    ensures
        replaced(text, from, to) == text,
    decreases text.len(),
{
    if text.len() > 0 {
        assert(text.skip(0) =~= text);
        assert(!occurs_at(text, from, 0));
        let rest = text.skip(1);
        assert forall|at: int| 0 <= at < rest.len() implies !occurs_at(rest, from, at) by {
            assert(rest.skip(at) =~= text.skip(at + 1));
            assert(!occurs_at(text, from, at + 1));
        }
        law_replaced_without_occurrence(rest, from, to);
        assert(seq![text[0]] + rest =~= text);
    }
}

/// The first occurrence of `from` gives way to `to`; what stands before it is
/// kept, and replacement goes on behind it.
pub proof fn law_replaced_at_first_occurrence(
    text: Seq<char>,
    from: Seq<char>,
    to: Seq<char>,
    first: int,
)
    requires
        from.len() > 0,
        occurs_at(text, from, first),
        forall|at: int| 0 <= at < first ==> !occurs_at(text, from, at),
    ensures
        replaced(text, from, to) == text.take(first) + to + replaced(
            text.skip(first + from.len()),
            from,
            to,
        ),
    decreases first,
{
    assert(text.skip(0) =~= text);
    let tail = replaced(text.skip(first + from.len()), from, to);
    if first == 0 {
        assert(text.take(0) + to =~= to);
    } else {
        assert(!occurs_at(text, from, 0));
        let rest = text.skip(1);
        assert(rest.skip(first - 1) =~= text.skip(first));
        assert forall|at: int| 0 <= at < first - 1 implies !occurs_at(rest, from, at) by {
            assert(rest.skip(at) =~= text.skip(at + 1));
            assert(!occurs_at(text, from, at + 1));
        }
        law_replaced_at_first_occurrence(rest, from, to, first - 1);
        assert(rest.skip(first - 1 + from.len()) =~= text.skip(first + from.len()));
        assert(seq![text[0]] + (rest.take(first - 1) + to + tail) =~= text.take(first) + to + tail);
    }
}

/// The characters of `text`, in order.
fn chars_of(text: &str) -> (chars: Vec<char>)
    ensures
        chars@ == text@,
{
    let mut chars: Vec<char> = Vec::new();
    for c in it: text.chars()
        invariant
            it.seq() == text@,
            chars@ == text@.take(it.index() as int),
    {
        chars.push(c);
    }
    assert(text@.take(text@.len() as int) =~= text@);
    chars
}

/// Whether `part` stands at position `at` of `text`.
fn matches_at(text: &Vec<char>, part: &Vec<char>, at: usize) -> (found: bool)
    requires
        at <= text@.len(),
    ensures
        found == occurs_at(text@, part@, at as int),
{
    if part.len() > text.len() - at {
        return false;
    }
    let mut i: usize = 0;
    while i < part.len()
        invariant
            at + part.len() <= text.len(),
            i <= part.len(),
            forall|j: int| 0 <= j < i ==> text@[at + j] == part@[j],
        decreases part@.len() - i,
    {
        if text[at + i] != part[i] {
            assert(text@.skip(at as int)[i as int] != part@[i as int]);
            return false;
        }
        i += 1;
    }
    assert(text@.skip(at as int).take(part@.len() as int) =~= part@);
    assert(part@.is_prefix_of(text@.skip(at as int)));
    true
}

/// Exchanges every occurrence of `from` in `text` for `to`, from left to right.
pub fn replace_all(text: &str, from: &str, to: &str) -> (result: String)
    requires
        from@.len() > 0,
    ensures
        result@ == replaced(text@, from@, to@),
{
    let chars: Vec<char> = chars_of(text);
    let pattern: Vec<char> = chars_of(from);
    let mut result = String::new();
    // The characters from `start` to `at` are passed but not yet copied.
    let mut start: usize = 0;
    let mut at: usize = 0;
    assert(text@.skip(0) =~= text@);
    while at < chars.len()
        invariant
            chars@ == text@,
            pattern@ == from@,
            from@.len() > 0,
            start <= at <= text@.len(),
            replaced(text@, from@, to@) =~= result@ + text@.subrange(start as int, at as int)
                + replaced(text@.skip(at as int), from@, to@),
        decreases text@.len() - at,
    {
        let ghost rest = text@.skip(at as int);
        if matches_at(&chars, &pattern, at) {
            result.append(text.substring_char(start, at));
            result.append(to);
            proof {
                assert(rest.skip(from@.len() as int) =~= text@.skip(at + from@.len()));
            }
            at += pattern.len();
            start = at;
        } else {
            proof {
                assert(rest.skip(1) =~= text@.skip(at + 1));
                assert(rest[0] == text@[at as int]);
                assert(text@.subrange(start as int, at + 1) =~= text@.subrange(
                    start as int,
                    at as int,
                ) + seq![text@[at as int]]);
            }
            at += 1;
        }
    }
    result.append(text.substring_char(start, at));
    assert(text@.skip(at as int) =~= Seq::<char>::empty());
    result
}

/// Whether two texts hold the same characters.
pub fn same_text(a: &str, b: &str) -> (same: bool)
    ensures
        same == (a@ == b@),
{
    a.to_owned() == b.to_owned()
}

/// `text` without `suffix` at its end, or `text` itself where it does not end so.
pub open spec fn without_suffix(text: Seq<char>, suffix: Seq<char>) -> Seq<char> {
    if suffix.is_suffix_of(text) {
        text.take(text.len() - suffix.len())
    } else {
        text
    }
}

/// Takes `suffix` off the end of `text`, once, if it stands there.
pub fn strip_suffix<'a>(text: &'a str, suffix: &str) -> (result: &'a str)
    ensures
        result@ == without_suffix(text@, suffix@),
{
    let n: usize = text.unicode_len();
    let m: usize = suffix.unicode_len();
    if m <= n && matches_at(&chars_of(text), &chars_of(suffix), n - m) {
        assert(text@.skip(n - m) =~= suffix@);
        assert(text@.take(n - m) =~= text@.subrange(0, n - m));
        text.substring_char(0, n - m)
    } else {
        if m <= n {
            assert(suffix@.is_suffix_of(text@) ==> text@.skip(n - m) =~= suffix@);
        }
        text
    }
}

/// A suffix that is taken off can be put back, and a text that does not end in it
/// is left as it is.
pub proof fn law_suffix_can_be_put_back(text: Seq<char>, suffix: Seq<char>, front: Seq<char>)
    ensures
        suffix.is_suffix_of(text) ==> without_suffix(text, suffix) + suffix == text,
        !suffix.is_suffix_of(text) ==> without_suffix(text, suffix) == text,
        without_suffix(front + suffix, suffix) == front,
{
    if suffix.is_suffix_of(text) {
        assert(text.take(text.len() - suffix.len()) + suffix =~= text);
    }
    let whole = front + suffix;
    assert(whole.subrange(whole.len() - suffix.len(), whole.len() as int) =~= suffix);
    assert(whole.take(whole.len() - suffix.len()) =~= front);
}

/// A part occurs exactly where a text can be cut in front of it and behind it.
pub proof fn law_occurrence_cuts_text(text: Seq<char>, part: Seq<char>, at: int)
    ensures
        occurs_at(text, part, at) <==> 0 <= at && at + part.len() <= text.len() && text.take(at)
            + part + text.skip(at + part.len()) == text,
{
    if occurs_at(text, part, at) {
        assert(text.skip(at).subrange(0, part.len() as int) =~= part);
        assert(text.take(at) + part + text.skip(at + part.len()) =~= text);
    }
    if 0 <= at && at + part.len() <= text.len() && text.take(at) + part + text.skip(
        at + part.len(),
    ) == text {
        let cut = text.take(at) + part + text.skip(at + part.len());
        assert forall|i: int| 0 <= i < part.len() implies part[i] == text.skip(at)[i] by {
            assert(cut[at + i] == part[i]);
        }
        assert(part =~= text.skip(at).subrange(0, part.len() as int));
    }
}

} // verus!
