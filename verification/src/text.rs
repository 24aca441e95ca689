//! Text as sequences of characters: blanks, trimming, splitting, joining.

use vstd::prelude::*;
use vstd::string::*;

verus! {

/// `c` is a blank: a character with the Unicode property `White_Space`.
pub open spec fn is_white_space(c: char) -> bool {
    let n = c as u32;
    ||| 0x09 <= n <= 0x0D
    ||| n == 0x20
    ||| n == 0x85
    ||| n == 0xA0
    ||| n == 0x1680
    ||| 0x2000 <= n <= 0x200A
    ||| n == 0x2028
    ||| n == 0x2029
    ||| n == 0x202F
    ||| n == 0x205F
    ||| n == 0x3000
}

/// `text` without the blanks at its start.
pub open spec fn trim_start(text: Seq<char>) -> Seq<char>
    decreases text.len(),
{
    if text.len() > 0 && is_white_space(text.first()) {
        trim_start(text.drop_first())
    } else {
        text
    }
}

/// `text` without the blanks at its end.
pub open spec fn trim_end(text: Seq<char>) -> Seq<char>
    decreases text.len(),
{
    if text.len() > 0 && is_white_space(text.last()) {
        trim_end(text.drop_last())
    } else {
        text
    }
}

/// `text` without the blanks at its start and at its end.
pub open spec fn trimmed(text: Seq<char>) -> Seq<char> {
    trim_end(trim_start(text))
}

/// The pieces of `text` between the occurrences of `separator`. There is
/// one piece more than there are separators: the empty text has one piece,
/// itself, and a separator at either end leaves an empty piece there.
pub open spec fn split_on(text: Seq<char>, separator: char) -> Seq<Seq<char>>
    decreases text.len(),
{
    if text.len() == 0 {
        seq![Seq::empty()]
    } else {
        let before = split_on(text.drop_last(), separator);
        if text.last() == separator {
            before.push(Seq::empty())
        } else {
            before.drop_last().push(before.last().push(text.last()))
        }
    }
}

/// The `parts` in one text, with `separator` between each two.
pub open spec fn joined(parts: Seq<Seq<char>>, separator: Seq<char>) -> Seq<char>
    decreases parts.len(),
{
    if parts.len() == 0 {
        Seq::empty()
    } else if parts.len() == 1 {
        parts[0]
    } else {
        joined(parts.drop_last(), separator) + separator + parts.last()
    }
}

/// A split gives at least one piece.
pub proof fn lemma_split_nonempty(text: Seq<char>, separator: char)
    ensures
        split_on(text, separator).len() >= 1,
    decreases text.len(),
{
    if text.len() > 0 {
        lemma_split_nonempty(text.drop_last(), separator);
    }
}

/// No piece of a split holds the separator, and the pieces joined by the
/// separator give the text back.
pub proof fn lemma_split_joins_back(text: Seq<char>, separator: char)
    ensures
        forall|i: int, j: int|
            0 <= i < split_on(text, separator).len() && 0 <= j < split_on(text, separator)[i].len()
                ==> #[trigger] split_on(text, separator)[i][j] != separator,
        joined(split_on(text, separator), seq![separator]) == text,
    decreases text.len(),
{
    let pieces = split_on(text, separator);
    let sep = seq![separator];
    if text.len() == 0 {
        assert(joined(pieces, sep) =~= text);
    } else {
        let front = text.drop_last();
        let before = split_on(front, separator);
        lemma_split_nonempty(front, separator);
        lemma_split_joins_back(front, separator);
        if text.last() == separator {
            assert(pieces.drop_last() =~= before);
            assert(joined(pieces, sep) =~= joined(before, sep) + sep + Seq::<char>::empty());
            assert(joined(pieces, sep) =~= text);
        } else {
            let open = before.last().push(text.last());
            assert(pieces.last() == open);
            assert(pieces.drop_last() =~= before.drop_last());
            assert(text =~= front.push(text.last()));
            if before.len() == 1 {
                assert(joined(before, sep) == before[0]);
                assert(pieces.len() == 1);
                assert(joined(pieces, sep) == pieces[0]);
                assert(joined(pieces, sep) =~= text);
            } else {
                assert(joined(pieces, sep) =~= joined(before.drop_last(), sep) + sep + open);
                assert(joined(before, sep) =~= joined(before.drop_last(), sep) + sep
                    + before.last());
                assert(joined(pieces, sep) =~= text);
            }
            assert forall|i: int, j: int|
                0 <= i < pieces.len() && 0 <= j < pieces[i].len() implies #[trigger] pieces[i][j]
                != separator by {
                if i < pieces.len() - 1 {
                    assert(pieces[i] == before[i]);
                } else if j < before.last().len() {
                    assert(pieces[i][j] == before.last()[j]);
                }
            }
        }
    }
}

/// Trimming takes characters away at the two ends only: the trimmed text
/// stands in the text between a run of blanks and a run of blanks, and has
/// no blank at either end.
pub proof fn lemma_trimmed_shape(text: Seq<char>)
    ensures
        exists|from: int, to: int|
            {
                &&& 0 <= from <= to <= text.len()
                &&& #[trigger] text.subrange(from, to) == trimmed(text)
                &&& forall|i: int| 0 <= i < from ==> is_white_space(#[trigger] text[i])
                &&& forall|i: int| to <= i < text.len() ==> is_white_space(#[trigger] text[i])
            },
        trimmed(text).len() > 0 ==> !is_white_space(trimmed(text).first()) && !is_white_space(
            trimmed(text).last(),
        ),
{
    let from = lemma_trim_start_bound(text);
    let tail = trim_start(text);
    let kept = lemma_trim_end_bound(tail);
    let to = from + kept;
    assert(text.subrange(from, to) =~= tail.subrange(0, kept));
    assert forall|i: int| to <= i < text.len() implies is_white_space(#[trigger] text[i]) by {
        assert(text[i] == tail[i - from]);
    }
    if trimmed(text).len() > 0 {
        assert(trimmed(text).first() == tail.first());
    }
}

/// Where the text without its leading blanks starts.
pub proof fn lemma_trim_start_bound(text: Seq<char>) -> (from: int)
    ensures
        0 <= from <= text.len(),
        trim_start(text) == text.subrange(from, text.len() as int),
        forall|i: int| 0 <= i < from ==> is_white_space(#[trigger] text[i]),
        from < text.len() ==> !is_white_space(text[from]),
    decreases text.len(),
{
    if text.len() > 0 && is_white_space(text.first()) {
        let rest = text.drop_first();
        let inner = lemma_trim_start_bound(rest);
        assert(rest.subrange(inner, rest.len() as int) =~= text.subrange(
            inner + 1,
            text.len() as int,
        ));
        assert forall|i: int| 0 <= i < inner + 1 implies is_white_space(#[trigger] text[i]) by {
            if i > 0 {
                assert(text[i] == rest[i - 1]);
            }
        }
        if inner < rest.len() {
            assert(text[inner + 1] == rest[inner]);
        }
        inner + 1
    } else {
        assert(text.subrange(0, text.len() as int) =~= text);
        0
    }
}

/// Where the text without its trailing blanks ends.
pub proof fn lemma_trim_end_bound(text: Seq<char>) -> (to: int)
    ensures
        0 <= to <= text.len(),
        trim_end(text) == text.subrange(0, to),
        forall|i: int| to <= i < text.len() ==> is_white_space(#[trigger] text[i]),
        to > 0 ==> !is_white_space(text[to - 1]),
    decreases text.len(),
{
    if text.len() > 0 && is_white_space(text.last()) {
        let rest = text.drop_last();
        let inner = lemma_trim_end_bound(rest);
        assert(rest.subrange(0, inner) =~= text.subrange(0, inner));
        assert forall|i: int| inner <= i < text.len() implies is_white_space(
            #[trigger] text[i],
        ) by {
            if i < rest.len() {
                assert(text[i] == rest[i]);
            }
        }
        if inner > 0 {
            assert(text[inner - 1] == rest[inner - 1]);
        }
        inner
    } else {
        assert(text.subrange(0, text.len() as int) =~= text);
        text.len() as int
    }
}

/// Tells whether `c` is a blank.
pub fn is_blank(c: char) -> (blank: bool)
    ensures
        blank == is_white_space(c),
{
    let n: u32 = c as u32;
    (0x09 <= n && n <= 0x0D) || n == 0x20 || n == 0x85 || n == 0xA0 || n == 0x1680 || (0x2000 <= n
        && n <= 0x200A) || n == 0x2028 || n == 0x2029 || n == 0x202F || n == 0x205F || n == 0x3000
}

/// The characters of a text, in order.
pub fn chars_of(text: &str) -> (chars: Vec<char>)
    ensures
        chars@ == text@,
{
    let mut chars: Vec<char> = Vec::new();
    for c in it: text.chars()
        invariant
            it.seq() == text@,
            chars@ == text@.take(it.index()),
    {
        chars.push(c);
    }
    assert(text@.take(text@.len() as int) =~= text@);
    chars
}

/// Finds the trimmed part of the stretch `from..to` of `chars`: the bounds
/// of what is left of it without the blanks at its two ends.
pub(crate) fn trim_bounds(chars: &Vec<char>, from: usize, to: usize) -> (bounds: (usize, usize))
    requires
        from <= to <= chars.len(),
    ensures
        from <= bounds.0 <= bounds.1 <= to,
        chars@.subrange(bounds.0 as int, bounds.1 as int) == trimmed(
            chars@.subrange(from as int, to as int),
        ),
{
    let ghost piece = chars@.subrange(from as int, to as int);
    let mut start: usize = from;
    while start < to && is_blank(chars[start])
        invariant
            from <= start <= to <= chars.len(),
            piece == chars@.subrange(from as int, to as int),
            trim_start(piece) == trim_start(chars@.subrange(start as int, to as int)),
        decreases to - start,
    {
        proof {
            let here = chars@.subrange(start as int, to as int);
            assert(here.first() == chars@[start as int]);
            assert(here.drop_first() =~= chars@.subrange(start + 1, to as int));
        }
        start += 1;
    }
    let ghost tail = chars@.subrange(start as int, to as int);
    assert(trim_start(piece) == tail) by {
        if start < to {
            assert(tail.first() == chars@[start as int]);
        }
    }
    let mut end: usize = to;
    while start < end && is_blank(chars[end - 1])
        invariant
            from <= start <= end <= to <= chars.len(),
            tail == chars@.subrange(start as int, to as int),
            trim_end(tail) == trim_end(chars@.subrange(start as int, end as int)),
        decreases end - start,
    {
        proof {
            let here = chars@.subrange(start as int, end as int);
            assert(here.last() == chars@[end - 1]);
            assert(here.drop_last() =~= chars@.subrange(start as int, end - 1));
        }
        end -= 1;
    }
    proof {
        let here = chars@.subrange(start as int, end as int);
        if start < end {
            assert(here.last() == chars@[end - 1]);
        }
        assert(trim_end(here) == here);
    }
    (start, end)
}

/// Tells whether the stretch `from..to` of `chars` is the text `name`.
pub(crate) fn stretch_is(chars: &Vec<char>, from: usize, to: usize, name: &str) -> (same: bool)
    requires
        from <= to <= chars.len(),
    ensures
        same == (chars@.subrange(from as int, to as int) == name@),
{
    let wanted = chars_of(name);
    let ghost piece = chars@.subrange(from as int, to as int);
    if wanted.len() != to - from {
        return false;
    }
    let mut i: usize = 0;
    while i < wanted.len()
        invariant
            from <= to <= chars.len(),
            wanted.len() == to - from,
            i <= wanted.len(),
            wanted@ == name@,
            piece == chars@.subrange(from as int, to as int),
            forall|j: int| 0 <= j < i ==> piece[j] == wanted@[j],
        decreases wanted.len() - i,
    {
        if chars[from + i] != wanted[i] {
            assert(piece[i as int] != wanted@[i as int]);
            return false;
        }
        i += 1;
    }
    assert(piece =~= wanted@);
    true
}

/// Joins texts with a separator between each two.
pub fn join(parts: &Vec<String>, separator: &str) -> (text: String)
    ensures
        text@ == joined(parts.deep_view(), separator@),
{
    let mut text = String::new();
    let ghost all = parts.deep_view();
    assert(text@ =~= joined(all.take(0), separator@));
    let mut i: usize = 0;
    while i < parts.len()
        invariant
            i <= parts.len(),
            all == parts.deep_view(),
            all.len() == parts.len(),
            text@ == joined(all.take(i as int), separator@),
        decreases parts.len() - i,
    {
        let ghost before = text@;
        if i > 0 {
            text.append(separator);
        }
        text.append(parts[i].as_str());
        proof {
            let upto = all.take(i + 1);
            assert(upto.drop_last() =~= all.take(i as int));
            assert(upto.last() == parts[i as int]@);
            if i == 0 {
                assert(text@ =~= upto[0]);
            } else if i == 1 {
                assert(all.take(1).len() == 1);
                assert(text@ =~= joined(upto.drop_last(), separator@) + separator@ + upto.last());
            } else {
                assert(text@ =~= joined(upto.drop_last(), separator@) + separator@ + upto.last());
            }
        }
        i += 1;
    }
    assert(all.take(i as int) =~= all);
    text
}

} // verus!
