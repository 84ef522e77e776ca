//! Text as a sequence of characters: searching, counting, trimming, and the
//! passage between `str`, `String` and `Vec<char>`.
use vstd::prelude::*;

verus! {

/// `String::push` of std appends one character to the end of the string.
pub assume_specification[ String::push ](s: &mut String, c: char)
    ensures
        final(s)@ == old(s)@.push(c),
;

/// Whether `c` has the Unicode property White_Space, which is what std's
/// `trim` takes away.
pub open spec fn is_white_space(c: char) -> bool {
    let code = c as u32;
    ||| 0x09 <= code <= 0x0D
    ||| code == 0x20
    ||| code == 0x85
    ||| code == 0xA0
    ||| code == 0x1680
    ||| 0x2000 <= code <= 0x200A
    ||| code == 0x2028
    ||| code == 0x2029
    ||| code == 0x202F
    ||| code == 0x205F
    ||| code == 0x3000
}

/// `text` without the white space it starts with.
pub open spec fn trim_start(text: Seq<char>) -> Seq<char>
    decreases text.len(),
{
    if text.len() > 0 && is_white_space(text.first()) {
        trim_start(text.drop_first())
    } else {
        text
    }
}

/// `text` without the white space it ends with.
pub open spec fn trim_end(text: Seq<char>) -> Seq<char>
    decreases text.len(),
{
    if text.len() > 0 && is_white_space(text.last()) {
        trim_end(text.drop_last())
    } else {
        text
    }
}

/// `text` without the white space around it.
pub open spec fn trimmed(text: Seq<char>) -> Seq<char> {
    trim_end(trim_start(text))
}

/// Position of the first `wanted` in `text`, or the length of `text` where
/// there is none.
pub open spec fn first_index_of(text: Seq<char>, wanted: char) -> int
    decreases text.len(),
{
    if text.len() == 0 || text.first() == wanted {
        0
    } else {
        1 + first_index_of(text.drop_first(), wanted)
    }
}

/// How often `wanted` occurs in `text`.
pub open spec fn occurrences(text: Seq<char>, wanted: char) -> nat
    decreases text.len(),
{
    if text.len() == 0 {
        0
    } else {
        occurrences(text.drop_last(), wanted) + if text.last() == wanted {
            1nat
        } else {
            0nat
        }
    }
}

/// `first_index_of` lies within the text, points at a `wanted` unless it is
/// the length, and nothing before it is `wanted`.
pub proof fn lemma_first_index_of(text: Seq<char>, wanted: char)
    ensures
        0 <= first_index_of(text, wanted) <= text.len(),
        first_index_of(text, wanted) < text.len() ==> text[first_index_of(text, wanted)] == wanted,
        forall|j: int| 0 <= j < first_index_of(text, wanted) ==> text[j] != wanted,
    decreases text.len(),
{
    if text.len() == 0 || text.first() == wanted {
    } else {
        let rest = text.drop_first();
        lemma_first_index_of(rest, wanted);
        assert forall|j: int| 0 <= j < first_index_of(text, wanted) implies text[j] != wanted by {
            if j > 0 {
                assert(text[j] == rest[j - 1]);
            }
        }
    }
}

/// A position that holds `wanted` (or is the end) with no `wanted` before it
/// is the first one.
pub proof fn lemma_first_index_is(text: Seq<char>, wanted: char, at: int)
    requires
        0 <= at <= text.len(),
        at < text.len() ==> text[at] == wanted,
        forall|j: int| 0 <= j < at ==> text[j] != wanted,
    ensures
        first_index_of(text, wanted) == at,
    decreases text.len(),
{
    if text.len() == 0 || text.first() == wanted {
    } else {
        let rest = text.drop_first();
        assert forall|j: int| 0 <= j < at - 1 implies rest[j] != wanted by {
            assert(rest[j] == text[j + 1]);
        }
        lemma_first_index_is(rest, wanted, at - 1);
    }
}

/// `first_index_of` is the length exactly where the text holds no `wanted`.
pub proof fn lemma_first_index_absent(text: Seq<char>, wanted: char)
    ensures
        first_index_of(text, wanted) == text.len() <==> !text.contains(wanted),
{
    lemma_first_index_of(text, wanted);
    let first = first_index_of(text, wanted);
    if first < text.len() {
        assert(text[first] == wanted);
    }
}

/// What neither of two texts holds, the two joined do not hold.
pub proof fn lemma_absent_from_both(left: Seq<char>, right: Seq<char>, wanted: char)
    requires
        !left.contains(wanted),
        !right.contains(wanted),
    ensures
        !(left + right).contains(wanted),
{
    let both = left + right;
    assert forall|j: int| 0 <= j < both.len() implies both[j] != wanted by {
        if j < left.len() {
            assert(left.contains(left[j]));
        } else {
            assert(right.contains(right[j - left.len()]));
        }
    }
}

/// Text without a `wanted` has none to count, and the other way round.
pub proof fn lemma_occurrences_zero(text: Seq<char>, wanted: char)
    ensures
        occurrences(text, wanted) == 0 <==> !text.contains(wanted),
    decreases text.len(),
{
    if text.len() == 0 {
    } else {
        let front = text.drop_last();
        lemma_occurrences_zero(front, wanted);
        if text.last() == wanted {
            assert(text[text.len() - 1] == wanted);
        } else if front.contains(wanted) {
            let j = choose|j: int| 0 <= j < front.len() && front[j] == wanted;
            assert(text[j] == wanted);
        } else if text.contains(wanted) {
            let j = choose|j: int| 0 <= j < text.len() && text[j] == wanted;
            assert(front[j] == wanted);
        }
    }
}

/// Counting over two texts joined is counting over each.
pub proof fn lemma_occurrences_concat(left: Seq<char>, right: Seq<char>, wanted: char)
    ensures
        occurrences(left + right, wanted) == occurrences(left, wanted) + occurrences(
            right,
            wanted,
        ),
    decreases right.len(),
{
    if right.len() == 0 {
        assert(left + right =~= left);
    } else {
        assert((left + right).drop_last() =~= left + right.drop_last());
        lemma_occurrences_concat(left, right.drop_last(), wanted);
    }
}

/// Trimming takes characters away or leaves the text as it is: what is left
/// is shorter exactly where there was white space to take.
pub proof fn lemma_trim_lengths(text: Seq<char>)
    ensures
        trim_start(text).len() <= text.len(),
        trim_end(text).len() <= text.len(),
        text.len() > 0 && is_white_space(text.first()) ==> trim_start(text).len() < text.len(),
        text.len() > 0 && is_white_space(text.last()) ==> trim_end(text).len() < text.len(),
    decreases text.len(),
{
    if text.len() > 0 {
        lemma_trim_lengths(text.drop_first());
        lemma_trim_lengths(text.drop_last());
    }
}

/// Trimming leaves a text as it is exactly where the text neither starts nor
/// ends with white space.
pub proof fn lemma_trimmed_unchanged(text: Seq<char>)
    ensures
        trimmed(text) == text <==> (text.len() > 0 ==> !is_white_space(text.first())
            && !is_white_space(text.last())),
{
    lemma_trim_lengths(text);
    lemma_trim_lengths(trim_start(text));
}

/// The characters of `text`, in order.
pub fn text_chars(text: &str) -> (chars: Vec<char>)
    ensures
        chars@ == text@,
{
    let mut chars: Vec<char> = Vec::new();
    for c in walk: text.chars()
        invariant
            chars@ == walk.seq().take(walk.index() as int),
            walk.seq() == text@,
    {
        chars.push(c);
    }
    chars
}

/// The characters of `chars` from `from` up to `to`, as a string.
pub fn string_of(chars: &Vec<char>, from: usize, to: usize) -> (text: String)
    requires
        from <= to <= chars@.len(),
    ensures
        text@ == chars@.subrange(from as int, to as int),
{
    let mut text = String::new();
    let mut at: usize = from;
    while at < to
        invariant
            from <= at <= to <= chars@.len(),
            text@ == chars@.subrange(from as int, at as int),
        decreases to - at,
    {
        text.push(chars[at]);
        proof {
            assert(chars@.subrange(from as int, at + 1) =~= chars@.subrange(
                from as int,
                at as int,
            ).push(chars@[at as int]));
        }
        at += 1;
    }
    text
}

/// A copy of the characters of `chars` from `from` up to `to`.
pub fn copy_range(chars: &Vec<char>, from: usize, to: usize) -> (copy: Vec<char>)
    requires
        from <= to <= chars@.len(),
    ensures
        copy@ == chars@.subrange(from as int, to as int),
{
    let mut copy: Vec<char> = Vec::new();
    let mut at: usize = from;
    while at < to
        invariant
            from <= at <= to <= chars@.len(),
            copy@ == chars@.subrange(from as int, at as int),
        decreases to - at,
    {
        copy.push(chars[at]);
        proof {
            assert(chars@.subrange(from as int, at + 1) =~= chars@.subrange(
                from as int,
                at as int,
            ).push(chars@[at as int]));
        }
        at += 1;
    }
    copy
}

/// Whether `c` is white space.
pub fn char_is_white_space(c: char) -> (white: bool)
    ensures
        white == is_white_space(c),
{
    let code: u32 = c as u32;
    (0x09 <= code && code <= 0x0D) || code == 0x20 || code == 0x85 || code == 0xA0 || code
        == 0x1680 || (0x2000 <= code && code <= 0x200A) || code == 0x2028 || code == 0x2029 || code
        == 0x202F || code == 0x205F || code == 0x3000
}

/// Where the first `wanted` at or after `from` stands in `chars`, or the
/// length of `chars` where none does.
pub fn find_char(chars: &Vec<char>, from: usize, wanted: char) -> (at: usize)
    requires
        from <= chars@.len(),
    ensures
        from <= at <= chars@.len(),
        at - from == first_index_of(chars@.skip(from as int), wanted),
{
    let mut at: usize = from;
    while at < chars.len() && chars[at] != wanted
        invariant
            from <= at <= chars@.len(),
            forall|j: int| from <= j < at ==> chars@[j] != wanted,
        decreases chars@.len() - at,
    {
        at += 1;
    }
    proof {
        let rest = chars@.skip(from as int);
        assert forall|j: int| 0 <= j < at - from implies rest[j] != wanted by {
            assert(rest[j] == chars@[from + j]);
        }
        lemma_first_index_is(rest, wanted, at - from);
    }
    at
}

/// How often `wanted` occurs in `chars`.
pub fn count_char(chars: &Vec<char>, wanted: char) -> (count: usize)
    ensures
        count == occurrences(chars@, wanted),
{
    let mut count: usize = 0;
    let mut at: usize = 0;
    while at < chars.len()
        invariant
            at <= chars@.len(),
            count <= at,
            count == occurrences(chars@.take(at as int), wanted),
        decreases chars@.len() - at,
    {
        proof {
            assert(chars@.take(at + 1).drop_last() =~= chars@.take(at as int));
        }
        if chars[at] == wanted {
            count += 1;
        }
        at += 1;
    }
    proof {
        assert(chars@.take(chars@.len() as int) =~= chars@);
    }
    count
}

/// The bounds of what `trimmed` keeps of the characters from `from` up to
/// `to`.
pub fn trim_bounds(chars: &Vec<char>, from: usize, to: usize) -> (kept: (usize, usize))
    requires
        from <= to <= chars@.len(),
    ensures
        from <= kept.0 <= kept.1 <= to,
        chars@.subrange(kept.0 as int, kept.1 as int) == trimmed(
            chars@.subrange(from as int, to as int),
        ),
{
    let mut start: usize = from;
    while start < to && char_is_white_space(chars[start])
        invariant
            from <= start <= to <= chars@.len(),
            trim_start(chars@.subrange(from as int, to as int)) == trim_start(
                chars@.subrange(start as int, to as int),
            ),
        decreases to - start,
    {
        proof {
            assert(chars@.subrange(start as int, to as int).drop_first() =~= chars@.subrange(
                start + 1,
                to as int,
            ));
        }
        start += 1;
    }
    let mut end: usize = to;
    while start < end && char_is_white_space(chars[end - 1])
        invariant
            start <= end <= to <= chars@.len(),
            trim_end(chars@.subrange(start as int, to as int)) == trim_end(
                chars@.subrange(start as int, end as int),
            ),
        decreases end - start,
    {
        proof {
            assert(chars@.subrange(start as int, end as int).drop_last() =~= chars@.subrange(
                start as int,
                end - 1,
            ));
        }
        end -= 1;
    }
    (start, end)
}

/// The parts of `text` between its separators. A text without a separator
/// is one part, and a text that ends with one has an empty last part.
pub open spec fn split_on(text: Seq<char>, separator: char) -> Seq<Seq<char>>
    decreases text.len(),
{
    let end = first_index_of(text, separator);
    if 0 <= end < text.len() {
        seq![text.take(end)] + split_on(text.skip(end + 1), separator)
    } else {
        seq![text]
    }
}

/// A text without the separator is one part.
pub proof fn lemma_split_on_whole(text: Seq<char>, separator: char)
    requires
        !text.contains(separator),
    ensures
        split_on(text, separator) == seq![text],
{
    lemma_first_index_absent(text, separator);
}

/// A text without the separator, followed by the separator and more text, is
/// the first part of the whole.
pub proof fn lemma_split_on_first(first: Seq<char>, rest: Seq<char>, separator: char)
    requires
        !first.contains(separator),
    ensures
        split_on(first + seq![separator] + rest, separator) == seq![first] + split_on(
            rest,
            separator,
        ),
{
    let text = first + seq![separator] + rest;
    assert forall|j: int| 0 <= j < first.len() implies text[j] != separator by {
        assert(text[j] == first[j]);
        assert(first.contains(first[j]));
    }
    assert(text[first.len() as int] == separator);
    lemma_first_index_is(text, separator, first.len() as int);
    assert(text.take(first.len() as int) =~= first);
    assert(text.skip(first.len() as int + 1) =~= rest);
}

/// The text of each of `parts`.
pub open spec fn texts_of(parts: Seq<Vec<char>>) -> Seq<Seq<char>> {
    parts.map_values(|part: Vec<char>| part@)
}

/// The parts of `chars` between its separators.
pub fn split_chars(chars: &Vec<char>, separator: char) -> (parts: Vec<Vec<char>>)
    ensures
        texts_of(parts@) == split_on(chars@, separator),
{
    let mut parts: Vec<Vec<char>> = Vec::new();
    let mut from: usize = 0;
    let length = chars.len();
    proof {
        assert(chars@.skip(0) =~= chars@);
        assert(texts_of(parts@) + split_on(chars@, separator) =~= split_on(chars@, separator));
    }
    loop
        invariant_except_break
            from <= length,
            split_on(chars@, separator) == texts_of(parts@) + split_on(
                chars@.skip(from as int),
                separator,
            ),
        invariant
            length == chars@.len(),
        ensures
            texts_of(parts@) == split_on(chars@, separator),
        decreases length - from,
    {
        let ghost rest = chars@.skip(from as int);
        let ghost before = texts_of(parts@);
        let end = find_char(chars, from, separator);
        let part = copy_range(chars, from, end);
        proof {
            assert(rest.take(end - from) =~= chars@.subrange(from as int, end as int));
        }
        parts.push(part);
        proof {
            assert(texts_of(parts@) =~= before.push(part@));
        }
        if end < length {
            proof {
                assert(rest.skip(end - from + 1) =~= chars@.skip(end + 1));
                assert(before + (seq![part@] + split_on(chars@.skip(end + 1), separator))
                    =~= before.push(part@) + split_on(chars@.skip(end + 1), separator));
            }
            from = end + 1;
        } else {
            proof {
                assert(part@ =~= rest);
                assert(before + seq![rest] =~= before.push(part@));
            }
            break;
        }
    }
    parts
}

} // verus!
