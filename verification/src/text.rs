//! Text as a sequence of characters: comparison, prefixes, splitting, and decimal numbers.
use vstd::prelude::*;

verus! {

/// The characters of `text`.
pub fn chars_of(text: &str) -> (chars: Vec<char>)
    ensures
        chars@ == text@,
{
    let mut chars: Vec<char> = Vec::new();
    for c in it: text.chars()
        invariant
            it.seq() == text@,
            chars@ == text@.take(it.index()),
    {
        proof {
            assert(text@.take(it.index() + 1) =~= text@.take(it.index()).push(c));
        }
        chars.push(c);
    }
    assert(text@.take(text@.len() as int) =~= text@);
    chars
}

/// Whether the two texts hold the same characters.
pub fn same_text(a: &str, b: &str) -> (same: bool)
    ensures
        same == (a@ == b@),
{
    let left = chars_of(a);
    let right = chars_of(b);
    if left.len() != right.len() {
        return false;
    }
    let mut i: usize = 0;
    while i < left.len()
        invariant
            i <= left.len(),
            left@ == a@,
            right@ == b@,
            left@.len() == right@.len(),
            forall|j: int| 0 <= j < i ==> left@[j] == right@[j],
        decreases left.len() - i,
    {
        if left[i] != right[i] {
            return false;
        }
        i += 1;
    }
    assert(a@ =~= b@);
    true
}

/// Whether `a` comes before `b`: at the first place where they differ, the smaller code point wins,
/// and a text comes before every longer text that starts with it.
pub open spec fn text_less(a: Seq<char>, b: Seq<char>) -> bool
    decreases a.len(),
{
    if b.len() == 0 {
        false
    } else if a.len() == 0 {
        true
    } else if a[0] != b[0] {
        a[0] < b[0]
    } else {
        text_less(a.drop_first(), b.drop_first())
    }
}

/// No text comes before itself.
pub proof fn text_less_is_irreflexive(a: Seq<char>)
    ensures
        !text_less(a, a),
    decreases a.len(),
{
    if a.len() > 0 {
        text_less_is_irreflexive(a.drop_first());
    }
}

/// If `a` comes before `b` and `b` before `c`, then `a` comes before `c`.
pub proof fn text_less_is_transitive(a: Seq<char>, b: Seq<char>, c: Seq<char>)
    requires
        text_less(a, b),
        text_less(b, c),
    ensures
        text_less(a, c),
    decreases a.len(),
{
    if a.len() > 0 && a[0] == b[0] && b[0] == c[0] {
        text_less_is_transitive(a.drop_first(), b.drop_first(), c.drop_first());
    }
}

/// Of two different texts, one comes before the other.
pub proof fn text_less_is_total(a: Seq<char>, b: Seq<char>)
    ensures
        a == b || text_less(a, b) || text_less(b, a),
    decreases a.len(),
{
    if a.len() > 0 && b.len() > 0 && a[0] == b[0] {
        text_less_is_total(a.drop_first(), b.drop_first());
        if a.drop_first() == b.drop_first() {
            assert(a =~= seq![a[0]] + a.drop_first());
            assert(b =~= seq![b[0]] + b.drop_first());
        }
    } else if a.len() == 0 && b.len() == 0 {
        assert(a =~= b);
    }
}

/// Whether `a` comes before `b` in the order of their code points.
pub fn comes_before(a: &str, b: &str) -> (less: bool)
    ensures
        less == text_less(a@, b@),
{
    let left = chars_of(a);
    let right = chars_of(b);
    let mut i: usize = 0;
    assert(left@.skip(0) =~= left@);
    assert(right@.skip(0) =~= right@);
    while i < left.len() && i < right.len()
        invariant
            i <= left.len(),
            i <= right.len(),
            left@ == a@,
            right@ == b@,
            text_less(a@, b@) == text_less(left@.skip(i as int), right@.skip(i as int)),
        decreases left.len() - i,
    {
        assert(left@.skip(i as int).drop_first() =~= left@.skip(i + 1));
        assert(right@.skip(i as int).drop_first() =~= right@.skip(i + 1));
        if left[i] != right[i] {
            return left[i] < right[i];
        }
        i += 1;
    }
    i < right.len()
}

/// Whether `text` starts with `prefix`.
pub fn starts_with(text: &str, prefix: &str) -> (found: bool)
    ensures
        found == prefix@.is_prefix_of(text@),
{
    let whole = chars_of(text);
    let start = chars_of(prefix);
    if start.len() > whole.len() {
        return false;
    }
    let mut i: usize = 0;
    while i < start.len()
        invariant
            i <= start.len() <= whole.len(),
            whole@ == text@,
            start@ == prefix@,
            forall|j: int| 0 <= j < i ==> start@[j] == whole@[j],
        decreases start.len() - i,
    {
        if start[i] != whole[i] {
            assert(text@.subrange(0, prefix@.len() as int)[i as int] != prefix@[i as int]);
            return false;
        }
        i += 1;
    }
    assert(text@.subrange(0, prefix@.len() as int) =~= prefix@);
    true
}

/// What stands behind the last `separator` of `text`, or the whole text where there is none.
pub open spec fn after_last(text: Seq<char>, separator: char) -> Seq<char>
    decreases text.len(),
{
    if text.len() == 0 || text.last() == separator {
        Seq::empty()
    } else {
        after_last(text.drop_last(), separator).push(text.last())
    }
}

/// The end of a text behind its last separator holds no separator, and nothing but a separator
/// stands before it.
pub proof fn after_last_is_a_suffix(text: Seq<char>, separator: char)
    ensures
        !after_last(text, separator).contains(separator),
        after_last(text, separator).len() <= text.len(),
        after_last(text, separator) == text.skip(text.len() - after_last(text, separator).len()),
        after_last(text, separator).len() < text.len() ==> text[text.len() - after_last(
            text,
            separator,
        ).len() - 1] == separator,
    decreases text.len(),
{
    if text.len() > 0 && text.last() != separator {
        let shorter = after_last(text.drop_last(), separator);
        after_last_is_a_suffix(text.drop_last(), separator);
        assert(after_last(text, separator) =~= text.skip(text.len() - shorter.len() - 1));
        assert forall|i: int| 0 <= i < shorter.len() + 1 implies shorter.push(text.last())[i]
            != separator by {
            if i < shorter.len() {
                assert(shorter[i] != separator);
            }
        }
    } else {
        assert(after_last(text, separator) =~= text.skip(text.len() as int));
    }
}

/// What stands behind the last `separator` of `text`, or the whole text where there is none.
pub fn last_part(text: &str, separator: char) -> (part: &str)
    ensures
        part@ == after_last(text@, separator),
{
    let chars = chars_of(text);
    let mut start: usize = chars.len();
    proof {
        assert(text@.take(start as int) =~= text@);
        assert(after_last(text@, separator) + text@.skip(start as int) =~= after_last(
            text@,
            separator,
        ));
    }
    while start > 0 && chars[start - 1] != separator
        invariant
            start <= chars.len(),
            chars@ == text@,
            after_last(text@, separator) == after_last(text@.take(start as int), separator)
                + text@.skip(start as int),
        decreases start,
    {
        proof {
            let ahead = text@.take(start as int);
            assert(ahead.drop_last() =~= text@.take(start - 1));
            assert(after_last(ahead, separator) + text@.skip(start as int) =~= after_last(
                ahead.drop_last(),
                separator,
            ) + text@.skip(start - 1));
        }
        start -= 1;
    }
    proof {
        assert(after_last(text@, separator) =~= text@.subrange(start as int, text@.len() as int));
    }
    text.substring_char(start, chars.len())
}

/// The parts of `text` before and behind its first `separator`.
pub open spec fn first_split(text: Seq<char>, separator: char) -> Option<(Seq<char>, Seq<char>)> {
    if text.contains(separator) {
        let at = text.index_of_first(separator)->0;
        Some((text.take(at), text.skip(at + 1)))
    } else {
        None
    }
}

/// The two parts with the separator between them make up the text, and the first part holds no
/// separator.
pub proof fn first_split_joins(text: Seq<char>, separator: char)
    ensures
        first_split(text, separator) matches Some((before, after)) ==> {
            &&& text == before.push(separator) + after
            &&& !before.contains(separator)
        },
{
    text.index_of_first_ensures(separator);
    if text.contains(separator) {
        let at = text.index_of_first(separator)->0;
        assert(text =~= text.take(at).push(separator) + text.skip(at + 1));
    }
}

/// The parts of `text` before and behind its first `separator`, if it has one.
pub fn split_at_first(text: &str, separator: char) -> (parts: Option<(&str, &str)>)
    ensures
        match parts {
            Some((before, after)) => first_split(text@, separator) == Some((before@, after@)),
            None => first_split(text@, separator) is None,
        },
{
    let chars = chars_of(text);
    let mut at: usize = 0;
    while at < chars.len()
        invariant
            at <= chars.len(),
            chars@ == text@,
            forall|j: int| 0 <= j < at ==> text@[j] != separator,
        decreases chars.len() - at,
    {
        if chars[at] == separator {
            proof {
                text@.index_of_first_ensures(separator);
                assert(text@.take(at as int) =~= text@.subrange(0, at as int));
                assert(text@.skip(at + 1) =~= text@.subrange(at + 1, text@.len() as int));
            }
            return Some((text.substring_char(0, at), text.substring_char(at + 1, chars.len())));
        }
        at += 1;
    }
    None
}

} // verus!
