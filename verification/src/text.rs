//! Plain text: what it starts with, and what is left of it between white space.

use vstd::prelude::*;

verus! {

/// The characters of `text`.
pub fn chars_of(text: &str) -> (chars: Vec<char>)
    ensures
        chars@ == text@,
{
    let mut chars: Vec<char> = Vec::new();
    for c in it: text.chars()
        invariant
            it.seq() == text@,
            chars@ == text@.take(it.index() as int),
    {
        chars.push(c);
    }
    chars
}

/// Whether `text` starts with `prefix`.
pub fn starts_with(text: &str, prefix: &str) -> (starts: bool)
    ensures
        starts == prefix@.is_prefix_of(text@),
{
    let whole = chars_of(text);
    let head = chars_of(prefix);
    if head.len() > whole.len() {
        return false;
    }
    for i in 0..head.len()
        invariant
            whole@ == text@,
            head@ == prefix@,
            head.len() <= whole.len(),
            forall|j: int| 0 <= j < i ==> head@[j] == whole@[j],
    {
        if head[i] != whole[i] {
            assert(text@.subrange(0, prefix@.len() as int)[i as int] == whole@[i as int]);
            return false;
        }
    }
    assert(prefix@ =~= text@.subrange(0, prefix@.len() as int));
    true
}

/// The characters with the Unicode property `White_Space`.
pub open spec fn is_white_space(c: char) -> bool {
    ||| '\u{9}' <= c <= '\u{d}'
    ||| c == '\u{20}'
    ||| c == '\u{85}'
    ||| c == '\u{a0}'
    ||| c == '\u{1680}'
    ||| '\u{2000}' <= c <= '\u{200a}'
    ||| c == '\u{2028}'
    ||| c == '\u{2029}'
    ||| c == '\u{202f}'
    ||| c == '\u{205f}'
    ||| c == '\u{3000}'
}

/// Whether `c` is white space.
pub fn white_space(c: char) -> (white: bool)
    ensures
        white == is_white_space(c),
{
    ('\u{9}' <= c && c <= '\u{d}') || c == '\u{20}' || c == '\u{85}' || c == '\u{a0}' || c
        == '\u{1680}' || ('\u{2000}' <= c && c <= '\u{200a}') || c == '\u{2028}' || c == '\u{2029}'
        || c == '\u{202f}' || c == '\u{205f}' || c == '\u{3000}'
}

/// `text` from its first character on that is not white space.
pub open spec fn trim_start(text: Seq<char>) -> Seq<char>
    decreases text.len(),
{
    if text.len() > 0 && is_white_space(text.first()) {
        trim_start(text.drop_first())
    } else {
        text
    }
}

/// `text` up to its last character that is not white space.
pub open spec fn trim_end(text: Seq<char>) -> Seq<char>
    decreases text.len(),
{
    if text.len() > 0 && is_white_space(text.last()) {
        trim_end(text.drop_last())
    } else {
        text
    }
}

/// `text` without the white space at its two ends.
pub open spec fn trimmed(text: Seq<char>) -> Seq<char> {
    trim_end(trim_start(text))
}

/// The characters of `text` between the white space at its two ends.
pub fn trim(text: &str) -> (inner: Vec<char>)
    ensures
        inner@ == trimmed(text@),
{
    let chars = chars_of(text);
    let mut start: usize = 0;
    assert(text@.skip(0) =~= text@);
    while start < chars.len() && white_space(chars[start])
        invariant
            chars@ == text@,
            start <= chars.len(),
            trim_start(text@) == trim_start(text@.skip(start as int)),
        decreases chars.len() - start,
    {
        assert(text@.skip(start as int).drop_first() =~= text@.skip(start + 1));
        start = start + 1;
    }
    let ghost rest = text@.skip(start as int);
    assert(trim_start(text@) == rest);
    let mut end: usize = chars.len();
    assert(text@.subrange(start as int, end as int) =~= rest);
    while start < end && white_space(chars[end - 1])
        invariant
            chars@ == text@,
            start <= end <= chars.len(),
            trim_end(rest) == trim_end(text@.subrange(start as int, end as int)),
        decreases end - start,
    {
        assert(text@.subrange(start as int, end as int).drop_last() =~= text@.subrange(
            start as int,
            end - 1,
        ));
        end = end - 1;
    }
    assert(trim_end(rest) == text@.subrange(start as int, end as int));
    let mut inner: Vec<char> = Vec::new();
    for i in start..end
        invariant
            chars@ == text@,
            start <= end <= chars.len(),
            inner@ == text@.subrange(start as int, i as int),
    {
        inner.push(chars[i]);
    }
    inner
}

/// What is left of a text between white space: a part of it, with nothing but
/// white space before and after, that neither begins nor ends with any.
pub proof fn law_trimmed_is_the_inside(text: Seq<char>)
    ensures
        exists|i: int, j: int|
            {
                &&& 0 <= i <= j <= text.len()
                &&& trimmed(text) == #[trigger] text.subrange(i, j)
                &&& forall|k: int|
                    0 <= k < i || j <= k < text.len() ==> is_white_space(#[trigger] text[k])
                &&& i < j ==> !is_white_space(text[i]) && !is_white_space(text[j - 1])
            },
{
    let i = lemma_trim_start(text);
    let rest = text.skip(i);
    let n = lemma_trim_end(rest);
    let j = i + n;
    assert(trimmed(text) =~= text.subrange(i, j));
    assert forall|k: int| 0 <= k < i || j <= k < text.len() implies is_white_space(
        #[trigger] text[k],
    ) by {
        if j <= k {
            assert(rest[k - i] == text[k]);
        }
    }
    if i < j {
        assert(rest[0] == text[i]);
        assert(rest[n - 1] == text[j - 1]);
    }
}

/// How much white space a text begins with.
proof fn lemma_trim_start(text: Seq<char>) -> (i: int)
    ensures
        0 <= i <= text.len(),
        trim_start(text) == text.skip(i),
        forall|k: int| 0 <= k < i ==> is_white_space(#[trigger] text[k]),
        i < text.len() ==> !is_white_space(text[i]),
    decreases text.len(),
{
    if text.len() > 0 && is_white_space(text.first()) {
        let rest = text.drop_first();
        let n = lemma_trim_start(rest);
        assert(rest.skip(n) =~= text.skip(n + 1));
        assert forall|k: int| 0 <= k < n + 1 implies is_white_space(#[trigger] text[k]) by {
            if k > 0 {
                assert(rest[k - 1] == text[k]);
            }
        }
        n + 1
    } else {
        assert(text.skip(0) =~= text);
        0
    }
}

/// Where the white space begins that a text ends with.
proof fn lemma_trim_end(text: Seq<char>) -> (n: int)
    ensures
        0 <= n <= text.len(),
        trim_end(text) == text.take(n),
        forall|k: int| n <= k < text.len() ==> is_white_space(#[trigger] text[k]),
        n > 0 ==> !is_white_space(text[n - 1]),
    decreases text.len(),
{
    if text.len() > 0 && is_white_space(text.last()) {
        let rest = text.drop_last();
        let n = lemma_trim_end(rest);
        assert(rest.take(n) =~= text.take(n));
        assert forall|k: int| n <= k < text.len() implies is_white_space(#[trigger] text[k]) by {
            if k < rest.len() {
                assert(rest[k] == text[k]);
            }
        }
        n
    } else {
        assert(text.take(text.len() as int) =~= text);
        text.len() as int
    }
}

/// What stands for itself is no white space: no letter, digit or sign of ASCII
/// is, and nothing after the ideographic space; of ASCII only the blank and the
/// controls from the tab to the carriage return are.
pub proof fn law_white_space_is_blank(c: char)
    ensures
        '!' <= c <= '~' ==> !is_white_space(c),
        c > '\u{3000}' ==> !is_white_space(c),
        c <= '\u{7f}' ==> (is_white_space(c) <==> c == ' ' || c == '\t' || c == '\n' || c == '\r'
            || c == '\u{b}' || c == '\u{c}'),
{
}

} // verus!
