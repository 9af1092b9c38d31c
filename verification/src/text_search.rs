//! Text search of the Pages panel: byte ranges of the matches of a query, and
//! the text with every match replaced.

use core::ops::Range;

use vstd::prelude::*;
use vstd::string::*;
use vstd::utf8::*;

use crate::text::{append_chars, char_list, char_width};

verus! {

// ---------------------------------------------------------------------------
// Unicode tables of the standard library
// ---------------------------------------------------------------------------

/// What `str::to_lowercase` makes of a text.
pub uninterp spec fn lowercase_text(text: Seq<char>) -> Seq<char>;

/// What `char::to_lowercase` makes of a character.
pub uninterp spec fn lowercase_char(c: char) -> Seq<char>;

/// What `char::is_alphanumeric` says of a character.
pub uninterp spec fn alphanumeric(c: char) -> bool;

/// The character is one of ASCII.
pub open spec fn is_ascii(c: char) -> bool {
    c as u32 <= 0x7f
}

/// The text holds characters of ASCII only.
pub open spec fn all_ascii(text: Seq<char>) -> bool {
    forall|i: int| 0 <= i < text.len() ==> is_ascii(#[trigger] text[i])
}

/// A capital letter of ASCII as the small one, any other character as it is.
pub open spec fn ascii_small(c: char) -> char {
    if 'A' <= c && c <= 'Z' {
        ((c as u32) + 32) as char
    } else {
        c
    }
}

/// A text with the capital letters of ASCII as small ones.
pub open spec fn ascii_smalls(text: Seq<char>) -> Seq<char> {
    text.map_values(|c: char| ascii_small(c))
}

/// A letter or a digit of ASCII.
pub open spec fn ascii_word(c: char) -> bool {
    'a' <= c && c <= 'z' || 'A' <= c && c <= 'Z' || '0' <= c && c <= '9'
}

/// Calls `str::to_lowercase`. Which text comes out is left to Unicode and depends
/// on the text alone; of a text of ASCII it is the one with small letters for
/// capital ones.
#[verifier::external_body]
pub(crate) fn fold_text(text: &str) -> (folded: String)
    ensures
        folded@ == lowercase_text(text@),
        all_ascii(text@) ==> folded@ == ascii_smalls(text@),
{
    text.to_lowercase()
}

/// Calls `char::to_lowercase` and collects its characters. Which characters
/// come out is left to Unicode and depends on the character alone; of one of ASCII
/// it is the small letter for a capital one, and else the character itself.
#[verifier::external_body]
fn fold_char(c: char) -> (folded: Vec<char>)
    ensures
        folded@ == lowercase_char(c),
        is_ascii(c) ==> folded@ == seq![ascii_small(c)],
{
    c.to_lowercase().collect()
}

/// Calls `char::is_alphanumeric`; the answer depends on the character alone, and
/// of ASCII the letters and the digits are alphanumeric.
#[verifier::external_body]
fn is_word_char(c: char) -> (word: bool)
    ensures
        word == alphanumeric(c),
        is_ascii(c) ==> word == ascii_word(c),
{
    c.is_alphanumeric()
}

// ---------------------------------------------------------------------------
// What a match is
// ---------------------------------------------------------------------------

/// `needle` stands in `hay` at byte `p`.
pub open spec fn occurs_at(hay: Seq<u8>, needle: Seq<u8>, p: int) -> bool {
    &&& 0 <= p
    &&& p + needle.len() <= hay.len()
    &&& hay.subrange(p, p + needle.len()) == needle
}

/// `p` is the first occurrence at or behind `from`.
pub open spec fn first_at(hay: Seq<u8>, needle: Seq<u8>, from: int, p: int) -> bool {
    &&& from <= p
    &&& occurs_at(hay, needle, p)
    &&& forall|q: int| from <= q < p ==> !#[trigger] occurs_at(hay, needle, q)
}

/// Leftmost non-overlapping occurrences at or behind `from`.
pub open spec fn occurrences(hay: Seq<u8>, needle: Seq<u8>, from: int) -> Seq<int>
    decreases hay.len() - from,
{
    if needle.len() > 0 && exists|p: int| first_at(hay, needle, from, p) {
        let p = choose|p: int| first_at(hay, needle, from, p);
        seq![p] + occurrences(hay, needle, p + needle.len())
    } else {
        Seq::empty()
    }
}

/// The spans of a case-sensitive search.
pub open spec fn exact_spans(hay: Seq<u8>, needle: Seq<u8>) -> Seq<(int, int)> {
    occurrences(hay, needle, 0).map_values(|p: int| (p, p + needle.len()))
}

/// For every byte of the folded text, the span of the source character that
/// folds to it; `folds[i]` is what character `i` folds to.
pub open spec fn fold_owners(chars: Seq<char>, folds: Seq<Seq<char>>, k: int) -> Seq<(int, int)>
    decreases k,
{
    if k <= 0 {
        Seq::empty()
    } else {
        fold_owners(chars, folds, k - 1) + Seq::new(
            encode_utf8(folds[k - 1]).len(),
            |b: int|
                (
                    crate::text::byte_offset(chars, k - 1) as int,
                    crate::text::byte_offset(chars, k) as int,
                ),
        )
    }
}

/// Source spans of folded occurrences of length `n`. An occurrence that starts
/// inside the source span taken last is dropped.
pub open spec fn source_spans(
    owners: Seq<(int, int)>,
    starts: Seq<int>,
    n: int,
    cursor: int,
) -> Seq<(int, int)>
    decreases starts.len(),
{
    if starts.len() == 0 {
        Seq::empty()
    } else {
        let p = starts[0];
        let rest = starts.drop_first();
        if p + n <= owners.len() && owners[p].0 >= cursor {
            seq![(owners[p].0, owners[p + n - 1].1)] + source_spans(
                owners,
                rest,
                n,
                owners[p + n - 1].1,
            )
        } else {
            source_spans(owners, rest, n, cursor)
        }
    }
}

/// The spans of a case-insensitive search, given the folded texts.
pub open spec fn folded_spans(
    text: Seq<char>,
    folds: Seq<Seq<char>>,
    folded_text: Seq<char>,
    folded_query: Seq<char>,
) -> Seq<(int, int)> {
    let needle = encode_utf8(folded_query);
    source_spans(
        fold_owners(text, folds, text.len() as int),
        occurrences(encode_utf8(folded_text), needle, 0),
        needle.len() as int,
        0,
    )
}

/// No word character touches the span from outside; `word[i]` says whether
/// character `i` is one.
pub open spec fn stands_alone(text: Seq<char>, word: Seq<bool>, span: (int, int)) -> bool {
    &&& !exists|i: int|
        0 < i <= text.len() && #[trigger] crate::text::byte_offset(text, i) == span.0 && word[i - 1]
    &&& !exists|i: int|
        0 <= i < text.len() && #[trigger] crate::text::byte_offset(text, i) == span.1 && word[i]
}

pub open spec fn char_folds(text: Seq<char>) -> Seq<Seq<char>> {
    text.map_values(|c: char| lowercase_char(c))
}

pub open spec fn word_chars(text: Seq<char>) -> Seq<bool> {
    text.map_values(|c: char| alphanumeric(c))
}

/// The spans that a search finds.
pub open spec fn matched_spans(
    text: Seq<char>,
    query: Seq<char>,
    match_case: bool,
    whole_words: bool,
) -> Seq<(int, int)> {
    if query.len() == 0 {
        Seq::empty()
    } else {
        let found = if match_case {
            exact_spans(encode_utf8(text), encode_utf8(query))
        } else {
            folded_spans(text, char_folds(text), lowercase_text(text), lowercase_text(query))
        };
        if whole_words {
            found.filter(|span: (int, int)| stands_alone(text, word_chars(text), span))
        } else {
            found
        }
    }
}

pub open spec fn ascii_words(text: Seq<char>) -> Seq<bool> {
    text.map_values(|c: char| ascii_word(c))
}

/// The spans that a search finds in a text of ASCII: those of the query, in both
/// with small letters for capital ones where the case does not matter.
pub open spec fn ascii_spans(
    text: Seq<char>,
    query: Seq<char>,
    match_case: bool,
    whole_words: bool,
) -> Seq<(int, int)> {
    if query.len() == 0 {
        Seq::empty()
    } else {
        let found = if match_case {
            exact_spans(encode_utf8(text), encode_utf8(query))
        } else {
            exact_spans(encode_utf8(ascii_smalls(text)), encode_utf8(ascii_smalls(query)))
        };
        if whole_words {
            found.filter(|span: (int, int)| stands_alone(text, ascii_words(text), span))
        } else {
            found
        }
    }
}

/// Ranges as pairs of numbers.
pub open spec fn spans(ranges: Seq<Range<usize>>) -> Seq<(int, int)> {
    ranges.map_values(|r: Range<usize>| (r.start as int, r.end as int))
}

/// Spans that a text can be cut at: non-empty, in order, disjoint, and on
/// character boundaries at or behind `cursor`.
pub open spec fn cuttable(bytes: Seq<u8>, found: Seq<(int, int)>, cursor: int) -> bool
    decreases found.len(),
{
    found.len() == 0 || {
        &&& cursor <= found[0].0 < found[0].1 <= bytes.len()
        &&& is_char_boundary(bytes, found[0].0)
        &&& is_char_boundary(bytes, found[0].1)
        &&& cuttable(bytes, found.drop_first(), found[0].1)
    }
}

/// The bytes behind `cursor` with every span replaced.
pub open spec fn spliced(
    bytes: Seq<u8>,
    found: Seq<(int, int)>,
    replacement: Seq<u8>,
    cursor: int,
) -> Seq<u8>
    decreases found.len(),
{
    if found.len() == 0 {
        bytes.subrange(cursor, bytes.len() as int)
    } else {
        bytes.subrange(cursor, found[0].0) + replacement + spliced(
            bytes,
            found.drop_first(),
            replacement,
            found[0].1,
        )
    }
}

// ---------------------------------------------------------------------------
// Occurrences
// ---------------------------------------------------------------------------

proof fn lemma_first_unique(hay: Seq<u8>, needle: Seq<u8>, from: int, p: int)
    requires
        first_at(hay, needle, from, p),
        needle.len() > 0,
    ensures
        occurrences(hay, needle, from) == seq![p] + occurrences(hay, needle, p + needle.len()),
{
    let q = choose|q: int| first_at(hay, needle, from, q);
    assert(first_at(hay, needle, from, q));
    if q < p {
        assert(!occurs_at(hay, needle, q));
    }
    if p < q {
        assert(!occurs_at(hay, needle, p));
    }
}

fn stands_at(hay: &[u8], needle: &[u8], p: usize) -> (stands: bool)
    requires
        p + needle@.len() <= hay@.len(),
    ensures
        stands == occurs_at(hay@, needle@, p as int),
{
    let hay_len: usize = hay.len();
    let mut i: usize = 0;
    while i < needle.len()
        invariant
            i <= needle@.len(),
            p + needle@.len() <= hay@.len(),
            hay_len == hay@.len(),
            forall|k: int| 0 <= k < i ==> hay@[p + k] == needle@[k],
        decreases needle@.len() - i,
    {
        if hay[p + i] != needle[i] {
            assert(hay@.subrange(p as int, p + needle@.len())[i as int] != needle@[i as int]);
            return false;
        }
        i = i + 1;
    }
    assert(hay@.subrange(p as int, p + needle@.len()) =~= needle@);
    true
}

/// Start bytes of the leftmost non-overlapping occurrences of a needle.
fn find_all(hay: &[u8], needle: &[u8]) -> (starts: Vec<usize>)
    requires
        needle@.len() > 0,
    ensures
        starts@.map_values(|p: usize| p as int) == occurrences(hay@, needle@, 0),
        forall|k: int| 0 <= k < starts@.len() ==> #[trigger] starts@[k] + needle@.len() <= hay@.len(),
{
    let mut starts: Vec<usize> = Vec::new();
    let ghost as_int = |p: usize| p as int;
    let mut from: usize = 0;
    let mut p: usize = 0;
    assert(starts@.map_values(as_int) + occurrences(hay@, needle@, 0) =~= occurrences(
        hay@,
        needle@,
        0,
    ));
    while p <= hay.len() && needle.len() <= hay.len() - p
        invariant
            needle@.len() > 0,
            from <= p <= hay@.len(),
            forall|q: int| from <= q < p ==> !#[trigger] occurs_at(hay@, needle@, q),
            as_int == (|p: usize| p as int),
            starts@.map_values(as_int) + occurrences(hay@, needle@, from as int) == occurrences(
                hay@,
                needle@,
                0,
            ),
            forall|k: int|
                0 <= k < starts@.len() ==> #[trigger] starts@[k] + needle@.len() <= hay@.len(),
        decreases hay@.len() - p,
    {
        if stands_at(hay, needle, p) {
            proof {
                lemma_first_unique(hay@, needle@, from as int, p as int);
                assert(starts@.push(p).map_values(as_int) =~= starts@.map_values(as_int) + seq![
                    p as int,
                ]);
                assert(starts@.push(p).map_values(as_int) + occurrences(
                    hay@,
                    needle@,
                    p + needle@.len(),
                ) =~= starts@.map_values(as_int) + occurrences(hay@, needle@, from as int));
            }
            starts.push(p);
            p = p + needle.len();
            from = p;
        } else {
            p = p + 1;
        }
    }
    proof {
        assert forall|q: int| !first_at(hay@, needle@, from as int, q) by {
            if first_at(hay@, needle@, from as int, q) {
                assert(occurs_at(hay@, needle@, q));
            }
        }
        assert(starts@.map_values(as_int) + Seq::<int>::empty() =~= starts@.map_values(as_int));
    }
    starts
}

// ---------------------------------------------------------------------------
// Executable search
// ---------------------------------------------------------------------------

/// The ranges of a case-insensitive search, given what the text, its
/// characters and the query fold to.
pub fn folded_ranges(
    text: &str,
    folds: &Vec<Vec<char>>,
    folded_text: &str,
    folded_query: &str,
) -> (ranges: Vec<Range<usize>>)
    requires
        folds@.len() == text@.len(),
        folded_query@.len() > 0,
    ensures
        spans(ranges@) == folded_spans(
            text@,
            folds@.map_values(|f: Vec<char>| f@),
            folded_text@,
            folded_query@,
        ),
{
    let chars = char_list(text);
    let text_bytes = text.as_bytes();
    let ghost total = text_bytes@.len();
    assert(text_bytes.len() == total);
    let ghost fold_view = folds@.map_values(|f: Vec<char>| f@);
    let ghost pair = |o: (usize, usize)| (o.0 as int, o.1 as int);
    let mut owners: Vec<(usize, usize)> = Vec::new();
    let mut offset: usize = 0;
    let mut k: usize = 0;
    proof {
        crate::text::lemma_offset_ends(text@);
        assert(owners@.map_values(pair) =~= fold_owners(text@, fold_view, 0));
    }
    while k < chars.len()
        invariant
            k <= chars@.len(),
            chars@ == text@,
            total == encode_utf8(text@).len(),
            total <= usize::MAX,
            folds@.len() == text@.len(),
            fold_view == folds@.map_values(|f: Vec<char>| f@),
            offset == crate::text::byte_offset(text@, k as int),
            pair == (|o: (usize, usize)| (o.0 as int, o.1 as int)),
            owners@.map_values(pair) == fold_owners(text@, fold_view, k as int),
        decreases chars@.len() - k,
    {
        let width: usize = char_width(chars[k]);
        proof {
            crate::text::lemma_offset_step(text@, k as int);
            crate::text::lemma_offset_ends(text@);
            if k + 1 < text@.len() {
                crate::text::lemma_offset_monotone(text@, k + 1, text@.len() as int);
            }
        }
        let end: usize = offset + width;
        let fold = &folds[k];
        assert(fold@ == fold_view[k as int]);
        let mut j: usize = 0;
        let ghost before = owners@;
        let ghost owner = (
            crate::text::byte_offset(text@, k as int) as int,
            crate::text::byte_offset(text@, k + 1) as int,
        );
        proof {
            crate::text::lemma_offset_ends(fold@);
            assert(owners@.map_values(pair) =~= before.map_values(pair) + Seq::new(
                0,
                |b: int| owner,
            ));
        }
        while j < fold.len()
            invariant
                j <= fold@.len(),
                pair == (|o: (usize, usize)| (o.0 as int, o.1 as int)),
                owner == (offset as int, end as int),
                owners@.map_values(pair) == before.map_values(pair) + Seq::new(
                    crate::text::byte_offset(fold@, j as int),
                    |b: int| owner,
                ),
            decreases fold@.len() - j,
        {
            let folded_width: usize = char_width(fold[j]);
            proof {
                crate::text::lemma_offset_step(fold@, j as int);
            }
            let ghost start = crate::text::byte_offset(fold@, j as int);
            let mut b: usize = 0;
            while b < folded_width
                invariant
                    b <= folded_width,
                    pair == (|o: (usize, usize)| (o.0 as int, o.1 as int)),
                    owner == (offset as int, end as int),
                    owners@.map_values(pair) == before.map_values(pair) + Seq::new(
                        (start + b) as nat,
                        |b: int| owner,
                    ),
                decreases folded_width - b,
            {
                proof {
                    assert(owners@.push((offset, end)).map_values(pair) =~= owners@.map_values(
                        pair,
                    ).push(owner));
                    assert(Seq::new((start + b + 1) as nat, |b: int| owner) =~= Seq::new(
                        (start + b) as nat,
                        |b: int| owner,
                    ).push(owner));
                    assert((before.map_values(pair) + Seq::new((start + b) as nat, |b: int| owner)).push(owner)
                        =~= before.map_values(pair) + Seq::new((start + b + 1) as nat, |b: int| owner));
                }
                owners.push((offset, end));
                b = b + 1;
            }
            j = j + 1;
        }
        proof {
            crate::text::lemma_offset_ends(fold@);
            assert(fold_owners(text@, fold_view, k + 1) =~= before.map_values(pair) + Seq::new(
                encode_utf8(fold@).len(),
                |b: int| owner,
            ));
        }
        offset = end;
        k = k + 1;
    }
    let needle = folded_query.as_bytes();
    proof {
        crate::text::lemma_offset_step(folded_query@, 0);
        crate::text::lemma_offset_ends(folded_query@);
        if 1 < folded_query@.len() {
            crate::text::lemma_offset_monotone(folded_query@, 1, folded_query@.len() as int);
        }
    }
    let starts = find_all(folded_text.as_bytes(), needle);
    let ghost as_int = |p: usize| p as int;
    let ghost all = starts@.map_values(as_int);
    let ghost owner_view = owners@.map_values(pair);
    let ghost n = needle@.len() as int;
    let mut ranges: Vec<Range<usize>> = Vec::new();
    let mut cursor: usize = 0;
    let mut s: usize = 0;
    proof {
        assert(all.skip(0) =~= all);
        assert(spans(ranges@) + source_spans(owner_view, all, n, 0) =~= source_spans(
            owner_view,
            all,
            n,
            0,
        ));
    }
    while s < starts.len()
        invariant
            s <= starts@.len(),
            n == needle@.len(),
            n > 0,
            as_int == (|p: usize| p as int),
            pair == (|o: (usize, usize)| (o.0 as int, o.1 as int)),
            all == starts@.map_values(as_int),
            owner_view == owners@.map_values(pair),
            spans(ranges@) + source_spans(owner_view, all.skip(s as int), n, cursor as int)
                == source_spans(owner_view, all, n, 0),
        decreases starts@.len() - s,
    {
        let p: usize = starts[s];
        let ghost left = all.skip(s as int);
        assert(left[0] == p as int);
        assert(left.drop_first() =~= all.skip(s + 1));
        if p < owners.len() && needle.len() <= owners.len() - p {
            let first = owners[p];
            let last = owners[p + needle.len() - 1];
            assert(owner_view[p as int] == (first.0 as int, first.1 as int));
            assert(owner_view[p + n - 1] == (last.0 as int, last.1 as int));
            if first.0 >= cursor {
                let range = Range { start: first.0, end: last.1 };
                proof {
                    assert(spans(ranges@.push(range)) =~= spans(ranges@).push(
                        (first.0 as int, last.1 as int),
                    ));
                    assert(spans(ranges@.push(range)) + source_spans(
                        owner_view,
                        all.skip(s + 1),
                        n,
                        last.1 as int,
                    ) =~= spans(ranges@) + source_spans(owner_view, left, n, cursor as int));
                }
                ranges.push(range);
                cursor = last.1;
            }
        }
        s = s + 1;
    }
    assert(spans(ranges@) + Seq::<(int, int)>::empty() =~= spans(ranges@));
    ranges
}

/// Whether no word character touches the range from outside; `word[i]` says
/// whether character `i` of the text is one.
fn range_stands_alone(chars: &Vec<char>, word: &Vec<bool>, range: &Range<usize>) -> (alone: bool)
    requires
        word@.len() == chars@.len(),
        encode_utf8(chars@).len() <= usize::MAX,
    ensures
        alone == stands_alone(chars@, word@, (range.start as int, range.end as int)),
{
    let mut offset: usize = 0;
    let mut i: usize = 0;
    proof {
        crate::text::lemma_offset_ends(chars@);
    }
    while i < chars.len()
        invariant
            i <= chars@.len(),
            word@.len() == chars@.len(),
            encode_utf8(chars@).len() <= usize::MAX,
            offset == crate::text::byte_offset(chars@, i as int),
            forall|k: int|
                0 < k <= i && #[trigger] crate::text::byte_offset(chars@, k) == range.start
                    ==> !word@[k - 1],
            forall|k: int|
                0 <= k < i && #[trigger] crate::text::byte_offset(chars@, k) == range.end
                    ==> !word@[k],
        decreases chars@.len() - i,
    {
        proof {
            crate::text::lemma_offset_step(chars@, i as int);
            crate::text::lemma_offset_ends(chars@);
            if i + 1 < chars@.len() {
                crate::text::lemma_offset_monotone(chars@, i + 1, chars@.len() as int);
            }
        }
        let next: usize = offset + char_width(chars[i]);
        if word[i] && offset == range.end {
            return false;
        }
        if word[i] && next == range.start {
            assert(crate::text::byte_offset(chars@, i + 1) == range.start);
            return false;
        }
        offset = next;
        i = i + 1;
    }
    true
}

/// The ranges that stand alone as words, in order.
pub fn keep_whole_words(text: &str, word: &Vec<bool>, ranges: Vec<Range<usize>>) -> (kept: Vec<
    Range<usize>,
>)
    requires
        word@.len() == text@.len(),
    ensures
        spans(kept@) == spans(ranges@).filter(
            |span: (int, int)| stands_alone(text@, word@, span),
        ),
{
    let chars = char_list(text);
    let bytes = text.as_bytes();
    assert(bytes.len() == encode_utf8(text@).len());
    let ghost keep = |span: (int, int)| stands_alone(text@, word@, span);
    let mut kept: Vec<Range<usize>> = Vec::new();
    let mut i: usize = 0;
    proof {
        reveal(Seq::filter);
        assert(spans(ranges@).take(0) =~= Seq::<(int, int)>::empty());
        assert(spans(kept@) =~= Seq::<(int, int)>::empty());
    }
    while i < ranges.len()
        invariant
            i <= ranges@.len(),
            chars@ == text@,
            word@.len() == text@.len(),
            encode_utf8(text@).len() <= usize::MAX,
            keep == (|span: (int, int)| stands_alone(text@, word@, span)),
            spans(kept@) == spans(ranges@).take(i as int).filter(keep),
        decreases ranges@.len() - i,
    {
        let range = &ranges[i];
        let ghost span = (range.start as int, range.end as int);
        proof {
            reveal(Seq::filter);
            assert(spans(ranges@).take(i + 1).drop_last() =~= spans(ranges@).take(i as int));
            assert(spans(ranges@).take(i + 1).last() == span);
        }
        if range_stands_alone(&chars, word, range) {
            let copy = Range { start: range.start, end: range.end };
            assert(spans(kept@.push(copy)) =~= spans(kept@).push(span));
            kept.push(copy);
        }
        i = i + 1;
    }
    assert(spans(ranges@).take(ranges@.len() as int) =~= spans(ranges@));
    kept
}

/// Non-overlapping UTF-8 byte ranges of the text that match the query, in
/// order. Case-insensitive matching tracks folded characters back to their
/// source spans, because lowercase mappings can change byte length.
pub fn matching_ranges(text: &str, query: &str, match_case: bool, whole_words: bool) -> (ranges:
    Vec<Range<usize>>)
    ensures
        spans(ranges@) == matched_spans(text@, query@, match_case, whole_words),
        all_ascii(text@) && all_ascii(query@) ==> spans(ranges@) == ascii_spans(
            text@,
            query@,
            match_case,
            whole_words,
        ),
{
    if query.is_empty() {
        let none: Vec<Range<usize>> = Vec::new();
        assert(spans(none@) =~= Seq::<(int, int)>::empty());
        return none;
    }
    let ranges = if match_case {
        exact_ranges(text, query)
    } else {
        let folded_query = fold_text(query);
        let folded_text = fold_text(text);
        let folds = fold_chars(text);
        let ghost fold_view = folds@.map_values(|f: Vec<char>| f@);
        assert(fold_view =~= char_folds(text@));
        proof {
            if all_ascii(text@) && all_ascii(query@) {
                assert(char_folds(text@) =~= ascii_folds(text@));
                lemma_encoding_nonempty(folded_query@);
                lemma_ascii_folded(text@, query@);
            }
        }
        if folded_query.as_str().is_empty() {
            let none: Vec<Range<usize>> = Vec::new();
            proof {
                assert(spans(none@) =~= Seq::<(int, int)>::empty());
                assert(encode_utf8(folded_query@).len() == 0);
                assert(folded_spans(text@, char_folds(text@), folded_text@, folded_query@)
                    =~= Seq::<(int, int)>::empty());
                reveal(Seq::filter);
            }
            return none;
        }
        folded_ranges(text, &folds, folded_text.as_str(), folded_query.as_str())
    };
    if !whole_words {
        return ranges;
    }
    let word = word_flags(text);
    assert(word@ =~= word_chars(text@));
    proof {
        if all_ascii(text@) {
            assert(word@ =~= ascii_words(text@));
            assert((|span: (int, int)| stands_alone(text@, word@, span)) =~= (|span: (int, int)|
                stands_alone(text@, ascii_words(text@), span)));
        }
    }
    keep_whole_words(text, &word, ranges)
}

fn exact_ranges(text: &str, query: &str) -> (ranges: Vec<Range<usize>>)
    requires
        query@.len() > 0,
    ensures
        spans(ranges@) == exact_spans(encode_utf8(text@), encode_utf8(query@)),
{
    let needle = query.as_bytes();
    proof {
        crate::text::lemma_offset_step(query@, 0);
        crate::text::lemma_offset_ends(query@);
        if 1 < query@.len() {
            crate::text::lemma_offset_monotone(query@, 1, query@.len() as int);
        }
    }
    let hay = text.as_bytes();
    let hay_len: usize = hay.len();
    let starts = find_all(hay, needle);
    let ghost all = starts@.map_values(|p: usize| p as int);
    let ghost n = needle@.len();
    assert forall|k: int| 0 <= k < starts@.len() implies #[trigger] starts@[k] + n <= hay_len by {
        assert(starts@[k] + needle@.len() <= hay@.len());
    }
    let mut ranges: Vec<Range<usize>> = Vec::new();
    let mut i: usize = 0;
    while i < starts.len()
        invariant
            i <= starts@.len(),
            all == starts@.map_values(|p: usize| p as int),
            n == needle@.len(),
            forall|k: int| 0 <= k < starts@.len() ==> #[trigger] starts@[k] + n <= usize::MAX,
            spans(ranges@) == all.take(i as int).map_values(|p: int| (p, p + n)),
        decreases starts@.len() - i,
    {
        let start: usize = starts[i];
        let range = Range { start: start, end: start + needle.len() };
        assert(spans(ranges@.push(range)) =~= spans(ranges@).push((start as int, start + n)));
        assert(all.take(i + 1).map_values(|p: int| (p, p + n)) =~= all.take(i as int).map_values(
            |p: int| (p, p + n),
        ).push((start as int, start + n)));
        ranges.push(range);
        i = i + 1;
    }
    assert(all.take(all.len() as int) =~= all);
    ranges
}

fn fold_chars(text: &str) -> (folds: Vec<Vec<char>>)
    ensures
        folds@.len() == text@.len(),
        forall|i: int|
            0 <= i < text@.len() ==> (#[trigger] folds@[i])@ == lowercase_char(text@[i]) && (
            is_ascii(text@[i]) ==> folds@[i]@ == seq![ascii_small(text@[i])]),
{
    let chars = char_list(text);
    let mut folds: Vec<Vec<char>> = Vec::new();
    let mut i: usize = 0;
    while i < chars.len()
        invariant
            i <= chars@.len(),
            folds@.len() == i,
            forall|k: int|
                0 <= k < i ==> (#[trigger] folds@[k])@ == lowercase_char(chars@[k]) && (is_ascii(
                    chars@[k],
                ) ==> folds@[k]@ == seq![ascii_small(chars@[k])]),
        decreases chars@.len() - i,
    {
        folds.push(fold_char(chars[i]));
        i = i + 1;
    }
    folds
}

fn word_flags(text: &str) -> (word: Vec<bool>)
    ensures
        word@.len() == text@.len(),
        forall|i: int|
            0 <= i < text@.len() ==> #[trigger] word@[i] == alphanumeric(text@[i]) && (is_ascii(
                text@[i],
            ) ==> word@[i] == ascii_word(text@[i])),
{
    let chars = char_list(text);
    let mut word: Vec<bool> = Vec::new();
    let mut i: usize = 0;
    while i < chars.len()
        invariant
            i <= chars@.len(),
            word@.len() == i,
            forall|k: int|
                0 <= k < i ==> #[trigger] word@[k] == alphanumeric(chars@[k]) && (is_ascii(
                    chars@[k],
                ) ==> word@[k] == ascii_word(chars@[k])),
        decreases chars@.len() - i,
    {
        word.push(is_word_char(chars[i]));
        i = i + 1;
    }
    word
}

/// What the characters of a text of ASCII fold to.
pub open spec fn ascii_folds(text: Seq<char>) -> Seq<Seq<char>> {
    text.map_values(|c: char| seq![ascii_small(c)])
}

/// In a text of ASCII every character takes one byte.
proof fn lemma_ascii_offset(text: Seq<char>, i: int)
    requires
        all_ascii(text),
        0 <= i <= text.len(),
    ensures
        crate::text::byte_offset(text, i) == i,
    decreases i,
{
    if i == 0 {
        crate::text::lemma_offset_ends(text);
    } else {
        lemma_ascii_offset(text, i - 1);
        crate::text::lemma_offset_step(text, i - 1);
        assert(is_ascii(text[i - 1]));
    }
}

/// Small letters for capital ones keep a text in ASCII.
proof fn lemma_smalls_ascii(text: Seq<char>)
    requires
        all_ascii(text),
    ensures
        all_ascii(ascii_smalls(text)),
        ascii_words(ascii_smalls(text)) == ascii_words(text),
{
    let small = ascii_smalls(text);
    assert forall|i: int| 0 <= i < small.len() implies is_ascii(#[trigger] small[i]) by {
        assert(is_ascii(text[i]));
    }
    assert forall|i: int| 0 <= i < text.len() implies #[trigger] ascii_words(small)[i]
        == ascii_words(text)[i] by {
        assert(is_ascii(text[i]));
    }
    assert(ascii_words(small) =~= ascii_words(text));
}

/// In a text of ASCII every byte of the folded text belongs to the byte at its
/// place.
proof fn lemma_ascii_owners(text: Seq<char>, k: int)
    requires
        all_ascii(text),
        0 <= k <= text.len(),
    ensures
        fold_owners(text, ascii_folds(text), k) == Seq::new(k as nat, |b: int| (b, b + 1)),
    decreases k,
{
    if k > 0 {
        lemma_ascii_owners(text, k - 1);
        lemma_ascii_offset(text, k - 1);
        lemma_ascii_offset(text, k);
        crate::text::lemma_encode_one(ascii_small(text[k - 1]));
        assert(is_ascii(text[k - 1]));
    }
    assert(fold_owners(text, ascii_folds(text), k) =~= Seq::new(k as nat, |b: int| (b, b + 1)));
}

/// Where every byte belongs to its own place, occurrences are where they are.
proof fn lemma_plain_spans(
    owners: Seq<(int, int)>,
    hay: Seq<u8>,
    needle: Seq<u8>,
    from: int,
    cursor: int,
)
    requires
        needle.len() > 0,
        owners == Seq::new(hay.len(), |b: int| (b, b + 1)),
        0 <= cursor <= from,
    ensures
        source_spans(owners, occurrences(hay, needle, from), needle.len() as int, cursor)
            == occurrences(hay, needle, from).map_values(|p: int| (p, p + needle.len())),
    decreases hay.len() - from,
{
    let n = needle.len() as int;
    let starts = occurrences(hay, needle, from);
    let span = |p: int| (p, p + needle.len());
    if exists|p: int| first_at(hay, needle, from, p) {
        let p = choose|p: int| first_at(hay, needle, from, p);
        let rest = occurrences(hay, needle, p + n);
        assert(starts =~= seq![p] + rest);
        assert(starts.drop_first() =~= rest);
        assert(owners[p] == (p, p + 1));
        assert(owners[p + n - 1] == (p + n - 1, p + n));
        lemma_plain_spans(owners, hay, needle, p + n, p + n);
        assert(starts.map_values(span) =~= seq![(p, p + n)] + rest.map_values(span));
    } else {
        assert(starts.map_values(span) =~= Seq::<(int, int)>::empty());
    }
}

proof fn lemma_ascii_folded(text: Seq<char>, query: Seq<char>)
    requires
        all_ascii(text),
        all_ascii(query),
        query.len() > 0,
    ensures
        folded_spans(text, ascii_folds(text), ascii_smalls(text), ascii_smalls(query))
            == exact_spans(encode_utf8(ascii_smalls(text)), encode_utf8(ascii_smalls(query))),
{
    let small = ascii_smalls(text);
    lemma_smalls_ascii(text);
    lemma_ascii_owners(text, text.len() as int);
    lemma_ascii_offset(small, small.len() as int);
    crate::text::lemma_offset_ends(small);
    lemma_encoding_nonempty(ascii_smalls(query));
    lemma_plain_spans(
        fold_owners(text, ascii_folds(text), text.len() as int),
        encode_utf8(small),
        encode_utf8(ascii_smalls(query)),
        0,
        0,
    );
}

/// Whether the text holds a match of the query.
pub fn matches_query(haystack: &str, query: &str, match_case: bool, whole_words: bool) -> (found:
    bool)
    ensures
        found == (matched_spans(haystack@, query@, match_case, whole_words).len() > 0),
        all_ascii(haystack@) && all_ascii(query@) ==> found == (ascii_spans(
            haystack@,
            query@,
            match_case,
            whole_words,
        ).len() > 0),
{
    let ranges = matching_ranges(haystack, query, match_case, whole_words);
    assert(spans(ranges@).len() == ranges@.len());
    !ranges.is_empty()
}

// ---------------------------------------------------------------------------
// Laws of the search
// ---------------------------------------------------------------------------

/// An occurrence of an encoded text in an encoded text starts and ends on
/// character boundaries.
proof fn lemma_occurrence_boundaries(text: Seq<char>, query: Seq<char>, p: int)
    requires
        query.len() > 0,
        occurs_at(encode_utf8(text), encode_utf8(query), p),
    ensures
        is_char_boundary(encode_utf8(text), p),
        is_char_boundary(encode_utf8(text), p + encode_utf8(query).len()),
        encode_utf8(query).len() > 0,
{
    broadcast use encode_utf8_valid_utf8;

    let hay = encode_utf8(text);
    let needle = encode_utf8(query);
    lemma_encoding_nonempty(query);
    is_char_boundary_start_end_of_seq(needle);
    is_char_boundary_iff_is_leading_byte(needle, 0);
    assert(hay.subrange(p, p + needle.len())[0] == hay[p]);
    is_char_boundary_iff_is_leading_byte(hay, p);
    assert(is_leading_byte_width_1(needle[0]) || is_leading_byte_width_2(needle[0])
        || is_leading_byte_width_3(needle[0]) || is_leading_byte_width_4(needle[0]));
    assert(is_char_boundary(hay, p));
    let tail = hay.subrange(p, hay.len() as int);
    valid_utf8_split(hay, p);
    assert(valid_utf8(tail));
    assert(tail.subrange(0, needle.len() as int) =~= needle);
    crate::text::lemma_prefix_boundary(tail, needle);
    crate::text::lemma_boundary_compose(hay, p, needle.len() as int);
}

proof fn lemma_encoding_nonempty(chars: Seq<char>)
    requires
        chars.len() > 0,
    ensures
        encode_utf8(chars).len() > 0,
{
    crate::text::lemma_offset_ends(chars);
    crate::text::lemma_offset_monotone(chars, 0, chars.len() as int);
}

proof fn lemma_exact_cuttable(text: Seq<char>, query: Seq<char>, from: int)
    requires
        query.len() > 0,
        0 <= from,
    ensures
        cuttable(
            encode_utf8(text),
            occurrences(encode_utf8(text), encode_utf8(query), from).map_values(
                |p: int| (p, p + encode_utf8(query).len()),
            ),
            from,
        ),
    decreases encode_utf8(text).len() - from,
{
    let hay = encode_utf8(text);
    let needle = encode_utf8(query);
    let span = |p: int| (p, p + needle.len());
    if needle.len() > 0 && exists|p: int| first_at(hay, needle, from, p) {
        let p = choose|p: int| first_at(hay, needle, from, p);
        lemma_occurrence_boundaries(text, query, p);
        let rest = occurrences(hay, needle, p + needle.len());
        lemma_exact_cuttable(text, query, p + needle.len());
        let all = (seq![p] + rest).map_values(span);
        assert(all.drop_first() =~= rest.map_values(span));
        assert(all[0] == (p, p + needle.len()));
    }
}

/// Every owner of a folded byte is the span of one source character, and owners
/// do not go backwards.
proof fn lemma_owners(chars: Seq<char>, folds: Seq<Seq<char>>, k: int)
    requires
        0 <= k <= chars.len(),
    ensures
        forall|b: int|
            0 <= b < fold_owners(chars, folds, k).len() ==> {
                &&& is_char_boundary(encode_utf8(chars), (#[trigger] fold_owners(chars, folds, k)[b]).0)
                &&& is_char_boundary(encode_utf8(chars), fold_owners(chars, folds, k)[b].1)
                &&& fold_owners(chars, folds, k)[b].0 < fold_owners(chars, folds, k)[b].1
                &&& fold_owners(chars, folds, k)[b].1 <= crate::text::byte_offset(chars, k)
                &&& 0 <= fold_owners(chars, folds, k)[b].0
            },
        forall|a: int, b: int|
            0 <= a <= b < fold_owners(chars, folds, k).len() ==> (#[trigger] fold_owners(
                chars,
                folds,
                k,
            )[a]).0 <= (#[trigger] fold_owners(chars, folds, k)[b]).0 && fold_owners(
                chars,
                folds,
                k,
            )[a].1 <= fold_owners(chars, folds, k)[b].1,
    decreases k,
{
    if k > 0 {
        lemma_owners(chars, folds, k - 1);
        crate::text::lemma_offset_is_boundary(chars, k - 1);
        crate::text::lemma_offset_is_boundary(chars, k);
        crate::text::lemma_offset_monotone(chars, k - 1, k);
        let before = fold_owners(chars, folds, k - 1);
        let all = fold_owners(chars, folds, k);
        assert forall|a: int, b: int| 0 <= a <= b < all.len() implies (#[trigger] all[a]).0 <= (
        #[trigger] all[b]).0 && all[a].1 <= all[b].1 by {
            if a < before.len() {
                assert(all[a] == before[a]);
                assert(before[a].0 < before[a].1);
                assert(before[a].1 <= crate::text::byte_offset(chars, k - 1));
                if b < before.len() {
                    assert(all[b] == before[b]);
                }
            }
        }
        assert forall|b: int| 0 <= b < all.len() implies {
            &&& is_char_boundary(encode_utf8(chars), (#[trigger] all[b]).0)
            &&& is_char_boundary(encode_utf8(chars), all[b].1)
            &&& all[b].0 < all[b].1
            &&& all[b].1 <= crate::text::byte_offset(chars, k)
            &&& 0 <= all[b].0
        } by {
            if b < before.len() {
                assert(all[b] == before[b]);
            }
        }
    }
}

proof fn lemma_source_cuttable(
    chars: Seq<char>,
    folds: Seq<Seq<char>>,
    starts: Seq<int>,
    n: int,
    cursor: int,
)
    requires
        n > 0,
        forall|i: int| 0 <= i < starts.len() ==> 0 <= #[trigger] starts[i],
    ensures
        cuttable(
            encode_utf8(chars),
            source_spans(fold_owners(chars, folds, chars.len() as int), starts, n, cursor),
            cursor,
        ),
    decreases starts.len(),
{
    let owners = fold_owners(chars, folds, chars.len() as int);
    if starts.len() > 0 {
        let p = starts[0];
        let rest = starts.drop_first();
        assert forall|i: int| 0 <= i < rest.len() implies 0 <= #[trigger] rest[i] by {
            assert(rest[i] == starts[i + 1]);
        }
        lemma_owners(chars, folds, chars.len() as int);
        crate::text::lemma_offset_ends(chars);
        if p + n <= owners.len() && owners[p].0 >= cursor {
            let end = owners[p + n - 1].1;
            assert(owners[p].1 <= owners[p + n - 1].1);
            lemma_source_cuttable(chars, folds, rest, n, end);
            let all = seq![(owners[p].0, end)] + source_spans(owners, rest, n, end);
            assert(all.drop_first() =~= source_spans(owners, rest, n, end));
        } else {
            lemma_source_cuttable(chars, folds, rest, n, cursor);
        }
    }
}

proof fn lemma_occurrences_nonnegative(hay: Seq<u8>, needle: Seq<u8>, from: int)
    requires
        0 <= from,
    ensures
        forall|i: int|
            0 <= i < occurrences(hay, needle, from).len() ==> 0 <= #[trigger] occurrences(
                hay,
                needle,
                from,
            )[i],
    decreases hay.len() - from,
{
    if needle.len() > 0 && exists|p: int| first_at(hay, needle, from, p) {
        let p = choose|p: int| first_at(hay, needle, from, p);
        let rest = occurrences(hay, needle, p + needle.len());
        lemma_occurrences_nonnegative(hay, needle, p + needle.len());
        assert forall|i: int| 0 <= i < (seq![p] + rest).len() implies 0 <= #[trigger] (seq![p]
            + rest)[i] by {
            if i > 0 {
                assert((seq![p] + rest)[i] == rest[i - 1]);
            }
        }
    }
}

/// A gap in front does no harm.
proof fn lemma_cuttable_weaken(bytes: Seq<u8>, found: Seq<(int, int)>, cursor: int, earlier: int)
    requires
        cuttable(bytes, found, cursor),
        earlier <= cursor,
    ensures
        cuttable(bytes, found, earlier),
{
}

proof fn lemma_filter_first(found: Seq<(int, int)>, keep: spec_fn((int, int)) -> bool)
    requires
        found.len() > 0,
    ensures
        found.filter(keep) == (if keep(found[0]) {
            seq![found[0]] + found.drop_first().filter(keep)
        } else {
            found.drop_first().filter(keep)
        }),
{
    assert(found =~= seq![found[0]] + found.drop_first());
    Seq::filter_distributes_over_add(seq![found[0]], found.drop_first(), keep);
    reveal(Seq::filter);
    assert(seq![found[0]].drop_last() =~= Seq::<(int, int)>::empty());
    assert(seq![found[0]].last() == found[0]);
    assert(Seq::<(int, int)>::empty().filter(keep) =~= Seq::<(int, int)>::empty());
    if keep(found[0]) {
        assert(seq![found[0]].filter(keep) =~= seq![found[0]]);
    } else {
        assert(seq![found[0]].filter(keep) =~= Seq::<(int, int)>::empty());
        assert(Seq::<(int, int)>::empty() + found.drop_first().filter(keep)
            =~= found.drop_first().filter(keep));
    }
}

proof fn lemma_filter_cuttable(
    bytes: Seq<u8>,
    found: Seq<(int, int)>,
    cursor: int,
    keep: spec_fn((int, int)) -> bool,
)
    requires
        cuttable(bytes, found, cursor),
    ensures
        cuttable(bytes, found.filter(keep), cursor),
    decreases found.len(),
{
    if found.len() == 0 {
        reveal(Seq::filter);
        assert(found.filter(keep) =~= Seq::<(int, int)>::empty());
    } else {
        let rest = found.drop_first();
        lemma_filter_first(found, keep);
        lemma_filter_cuttable(bytes, rest, found[0].1, keep);
        if keep(found[0]) {
            let all = seq![found[0]] + rest.filter(keep);
            assert(all.drop_first() =~= rest.filter(keep));
        } else {
            lemma_cuttable_weaken(bytes, rest.filter(keep), found[0].1, cursor);
        }
    }
}

/// Every search, in every mode, finds non-empty spans that lie in the text in
/// order, do not overlap, and start and end on character boundaries.
pub proof fn lemma_matches_are_cuttable(
    text: Seq<char>,
    query: Seq<char>,
    match_case: bool,
    whole_words: bool,
)
    ensures
        cuttable(encode_utf8(text), matched_spans(text, query, match_case, whole_words), 0),
{
    let bytes = encode_utf8(text);
    if query.len() > 0 {
        let found = if match_case {
            exact_spans(bytes, encode_utf8(query))
        } else {
            folded_spans(text, char_folds(text), lowercase_text(text), lowercase_text(query))
        };
        if match_case {
            lemma_exact_cuttable(text, query, 0);
        } else {
            let needle = encode_utf8(lowercase_text(query));
            let hay = encode_utf8(lowercase_text(text));
            if needle.len() > 0 {
                lemma_occurrences_nonnegative(hay, needle, 0);
                lemma_source_cuttable(
                    text,
                    char_folds(text),
                    occurrences(hay, needle, 0),
                    needle.len() as int,
                    0,
                );
            }
        }
        assert(cuttable(bytes, found, 0));
        if whole_words {
            lemma_filter_cuttable(
                bytes,
                found,
                0,
                |span: (int, int)| stands_alone(text, word_chars(text), span),
            );
        }
    }
}

/// Asking for whole words only ever drops matches.
pub proof fn lemma_whole_words_narrow(text: Seq<char>, query: Seq<char>, match_case: bool)
    ensures
        forall|span: (int, int)| #[trigger]
            matched_spans(text, query, match_case, true).contains(span) ==> {
                &&& matched_spans(text, query, match_case, false).contains(span)
                &&& stands_alone(text, word_chars(text), span)
            },
{
    let found = matched_spans(text, query, match_case, false);
    let keep = |span: (int, int)| stands_alone(text, word_chars(text), span);
    assert forall|span: (int, int)| #[trigger]
        matched_spans(text, query, match_case, true).contains(span) implies found.contains(span)
        && stands_alone(text, word_chars(text), span) by {
        if query.len() > 0 {
            let kept = found.filter(keep);
            let i = choose|i: int| 0 <= i < kept.len() && kept[i] == span;
            found.lemma_filter_pred(keep, i);
            found.lemma_filter_contains_rev(keep, span);
        }
    }
}

/// In texts of ASCII, a search in which the case does not matter finds what an
/// exact search finds once both texts have small letters for capital ones.
pub proof fn lemma_ascii_case_is_small(text: Seq<char>, query: Seq<char>, whole_words: bool)
    requires
        all_ascii(text),
        all_ascii(query),
    ensures
        ascii_spans(text, query, false, whole_words) == ascii_spans(
            ascii_smalls(text),
            ascii_smalls(query),
            true,
            whole_words,
        ),
        all_ascii(ascii_smalls(text)),
        all_ascii(ascii_smalls(query)),
{
    let small = ascii_smalls(text);
    lemma_smalls_ascii(text);
    lemma_smalls_ascii(query);
    let here = |span: (int, int)| stands_alone(text, ascii_words(text), span);
    let there = |span: (int, int)| stands_alone(small, ascii_words(small), span);
    assert forall|span: (int, int)| #[trigger] here(span) == there(span) by {
        assert forall|i: int| 0 <= i <= text.len() implies crate::text::byte_offset(text, i) == i
            && #[trigger] crate::text::byte_offset(small, i) == i by {
            lemma_ascii_offset(text, i);
            lemma_ascii_offset(small, i);
        }
        assert forall|i: int| 0 <= i <= text.len() implies #[trigger] crate::text::byte_offset(
            text,
            i,
        ) == crate::text::byte_offset(small, i) by {
            assert(crate::text::byte_offset(small, i) == i);
        }
    }
    assert(here =~= there);
}

/// With an empty query nothing matches, so nothing is replaced.
pub proof fn lemma_empty_query_keeps_text(
    text: Seq<char>,
    replacement: Seq<char>,
    match_case: bool,
    whole_words: bool,
)
    ensures
        replaced(text, Seq::empty(), replacement, match_case, whole_words) == encode_utf8(text),
{
    let bytes = encode_utf8(text);
    assert(bytes.subrange(0, bytes.len() as int) =~= bytes);
}

// ---------------------------------------------------------------------------
// Replacing
// ---------------------------------------------------------------------------

/// The encoding of the text with every match replaced.
pub open spec fn replaced(
    text: Seq<char>,
    query: Seq<char>,
    replacement: Seq<char>,
    match_case: bool,
    whole_words: bool,
) -> Seq<u8> {
    spliced(
        encode_utf8(text),
        matched_spans(text, query, match_case, whole_words),
        encode_utf8(replacement),
        0,
    )
}

proof fn lemma_encode_between(chars: Seq<char>, i: int, j: int)
    requires
        0 <= i <= j <= chars.len(),
    ensures
        encode_utf8(chars.subrange(i, j)) == encode_utf8(chars).subrange(
            crate::text::byte_offset(chars, i) as int,
            crate::text::byte_offset(chars, j) as int,
        ),
        crate::text::byte_offset(chars, i) <= crate::text::byte_offset(chars, j) <= encode_utf8(
            chars,
        ).len(),
{
    let head = chars.take(i);
    let mid = chars.subrange(i, j);
    let tail = chars.skip(j);
    assert(chars.take(j) =~= head + mid);
    assert(chars =~= head + mid + tail);
    crate::text::lemma_encode_concat(head, mid);
    crate::text::lemma_encode_concat(head + mid, tail);
    assert(encode_utf8(mid) =~= encode_utf8(chars).subrange(
        encode_utf8(head).len() as int,
        encode_utf8(head + mid).len() as int,
    ));
}

/// Index of the character that starts at byte `to`, looking from character
/// `from`, which starts at byte `offset`.
fn seek(chars: &Vec<char>, from: usize, offset: usize, to: usize) -> (at: usize)
    requires
        from <= chars@.len(),
        offset == crate::text::byte_offset(chars@, from as int),
        offset <= to <= encode_utf8(chars@).len(),
        encode_utf8(chars@).len() <= usize::MAX,
        is_char_boundary(encode_utf8(chars@), to as int),
    ensures
        from <= at <= chars@.len(),
        to == crate::text::byte_offset(chars@, at as int),
{
    let ghost goal = crate::text::lemma_boundary_is_offset(chars@, to as int);
    let count: usize = chars.len();
    let mut at: usize = from;
    let mut reached: usize = offset;
    proof {
        if goal < from {
            crate::text::lemma_offset_monotone(chars@, goal, from as int);
        }
    }
    while reached < to
        invariant
            from <= at <= goal <= chars@.len(),
            count == chars@.len(),
            to == crate::text::byte_offset(chars@, goal),
            reached == crate::text::byte_offset(chars@, at as int),
            encode_utf8(chars@).len() <= usize::MAX,
        decreases goal - at,
    {
        proof {
            crate::text::lemma_offset_step(chars@, at as int);
            crate::text::lemma_offset_ends(chars@);
            if at + 1 < chars@.len() {
                crate::text::lemma_offset_monotone(chars@, at + 1, chars@.len() as int);
            }
        }
        reached = reached + char_width(chars[at]);
        at = at + 1;
    }
    proof {
        if at < goal {
            crate::text::lemma_offset_monotone(chars@, at as int, goal);
        }
    }
    at
}

/// The text with the given ranges replaced.
pub fn splice_ranges(text: &str, ranges: &Vec<Range<usize>>, replacement: &str) -> (out: String)
    requires
        cuttable(encode_utf8(text@), spans(ranges@), 0),
    ensures
        encode_utf8(out@) == spliced(
            encode_utf8(text@),
            spans(ranges@),
            encode_utf8(replacement@),
            0,
        ),
{
    let chars = char_list(text);
    let text_bytes = text.as_bytes();
    let len: usize = text_bytes.len();
    let ghost bytes = encode_utf8(text@);
    let ghost all = spans(ranges@);
    let ghost insert = encode_utf8(replacement@);
    let mut out = String::new();
    let mut at: usize = 0;
    let mut cursor: usize = 0;
    let mut i: usize = 0;
    proof {
        crate::text::lemma_offset_ends(text@);
        assert(all.skip(0) =~= all);
        assert(encode_utf8(out@) =~= Seq::<u8>::empty());
        assert(encode_utf8(out@) + spliced(bytes, all, insert, 0) =~= spliced(
            bytes,
            all,
            insert,
            0,
        ));
    }
    while i < ranges.len()
        invariant
            i <= ranges@.len(),
            chars@ == text@,
            bytes == encode_utf8(text@),
            len == bytes.len(),
            all == spans(ranges@),
            insert == encode_utf8(replacement@),
            at <= chars@.len(),
            cursor == crate::text::byte_offset(chars@, at as int),
            cuttable(bytes, all.skip(i as int), cursor as int),
            encode_utf8(out@) + spliced(bytes, all.skip(i as int), insert, cursor as int)
                == spliced(bytes, all, insert, 0),
        decreases ranges@.len() - i,
    {
        let range = &ranges[i];
        let ghost left = all.skip(i as int);
        assert(left[0] == (range.start as int, range.end as int));
        assert(left.drop_first() =~= all.skip(i + 1));
        let stop: usize = seek(&chars, at, cursor, range.start);
        let ghost before = out@;
        append_chars(&mut out, &chars, at, stop);
        let next: usize = seek(&chars, stop, range.start, range.end);
        out.append(replacement);
        proof {
            lemma_encode_between(text@, at as int, stop as int);
            crate::text::lemma_encode_concat(before, text@.subrange(at as int, stop as int));
            crate::text::lemma_encode_concat(
                before + text@.subrange(at as int, stop as int),
                replacement@,
            );
            assert(encode_utf8(out@) + spliced(bytes, all.skip(i + 1), insert, range.end as int)
                =~= encode_utf8(before) + spliced(bytes, left, insert, cursor as int));
        }
        at = next;
        cursor = range.end;
        i = i + 1;
    }
    let ghost before = out@;
    append_chars(&mut out, &chars, at, chars.len());
    proof {
        lemma_encode_between(text@, at as int, text@.len() as int);
        crate::text::lemma_offset_ends(text@);
        crate::text::lemma_encode_concat(before, text@.subrange(at as int, text@.len() as int));
        assert(all.skip(i as int).len() == 0);
    }
    out
}

/// The text with every match of the query replaced.
pub fn replace_matches(
    text: &str,
    query: &str,
    replacement: &str,
    match_case: bool,
    whole_words: bool,
) -> (out: String)
    ensures
        encode_utf8(out@) == replaced(text@, query@, replacement@, match_case, whole_words),
{
    let ranges = matching_ranges(text, query, match_case, whole_words);
    proof {
        lemma_matches_are_cuttable(text@, query@, match_case, whole_words);
    }
    splice_ranges(text, &ranges, replacement)
}

// ---------------------------------------------------------------------------
// What is found
// ---------------------------------------------------------------------------

proof fn lemma_kept_spans(
    text: Seq<char>,
    word: Seq<bool>,
    found: Seq<(int, int)>,
    span: (int, int),
)
    ensures
        found.filter(|span: (int, int)| stands_alone(text, word, span)).contains(span)
            <==> found.contains(span) && stands_alone(text, word, span),
{
    let keep = |span: (int, int)| stands_alone(text, word, span);
    let kept = found.filter(keep);
    if kept.contains(span) {
        let i = choose|i: int| 0 <= i < kept.len() && kept[i] == span;
        found.lemma_filter_pred(keep, i);
        found.lemma_filter_contains_rev(keep, span);
    }
    if found.contains(span) && stands_alone(text, word, span) {
        let i = choose|i: int| 0 <= i < found.len() && found[i] == span;
        found.lemma_filter_contains(keep, i);
    }
}

/// Spans that a text can be cut at start and end between its characters.
proof fn lemma_cuttable_places(text: Seq<char>, found: Seq<(int, int)>, cursor: int, i: int) -> (
    places: (int, int))
    requires
        cuttable(encode_utf8(text), found, cursor),
        0 <= i < found.len(),
    ensures
        0 <= places.0 < places.1 <= text.len(),
        encode_utf8(text.take(places.0)).len() == found[i].0,
        encode_utf8(text.take(places.1)).len() == found[i].1,
    decreases i,
{
    if i == 0 {
        let a = crate::text::lemma_boundary_is_offset(text, found[0].0);
        let b = crate::text::lemma_boundary_is_offset(text, found[0].1);
        if b < a {
            crate::text::lemma_offset_monotone(text, b, a);
        }
        (a, b)
    } else {
        lemma_cuttable_places(text, found.drop_first(), found[0].1, i - 1)
    }
}

/// A match of whole words has neither a letter nor a digit right before it, nor
/// one right behind it. What comes out is where in the text the match starts and
/// ends, counted in characters.
pub proof fn lemma_whole_word_is_bounded(
    text: Seq<char>,
    query: Seq<char>,
    match_case: bool,
    span: (int, int),
) -> (places: (int, int))
    requires
        matched_spans(text, query, match_case, true).contains(span),
    ensures
        0 <= places.0 < places.1 <= text.len(),
        encode_utf8(text.take(places.0)).len() == span.0,
        encode_utf8(text.take(places.1)).len() == span.1,
        places.0 == 0 || !alphanumeric(text[places.0 - 1]),
        places.1 == text.len() || !alphanumeric(text[places.1]),
{
    let found = matched_spans(text, query, match_case, true);
    lemma_matches_are_cuttable(text, query, match_case, true);
    lemma_whole_words_narrow(text, query, match_case);
    let i = choose|i: int| 0 <= i < found.len() && found[i] == span;
    let (a, b) = lemma_cuttable_places(text, found, 0, i);
    let word = word_chars(text);
    if a > 0 {
        assert(crate::text::byte_offset(text, a) == span.0);
        assert(!word[a - 1]);
    }
    if b < text.len() {
        assert(crate::text::byte_offset(text, b) == span.1);
        assert(!word[b]);
    }
    (a, b)
}

/// A match with neither a letter nor a digit right before it or right behind it
/// is one of whole words.
pub proof fn lemma_bounded_match_is_whole_word(
    text: Seq<char>,
    query: Seq<char>,
    match_case: bool,
    from: int,
    to: int,
)
    requires
        0 <= from < to <= text.len(),
        matched_spans(text, query, match_case, false).contains(
            (encode_utf8(text.take(from)).len() as int, encode_utf8(text.take(to)).len() as int),
        ),
        from == 0 || !alphanumeric(text[from - 1]),
        to == text.len() || !alphanumeric(text[to]),
    ensures
        matched_spans(text, query, match_case, true).contains(
            (encode_utf8(text.take(from)).len() as int, encode_utf8(text.take(to)).len() as int),
        ),
{
    let span = (
        encode_utf8(text.take(from)).len() as int,
        encode_utf8(text.take(to)).len() as int,
    );
    let word = word_chars(text);
    assert forall|i: int|
        0 < i <= text.len() && #[trigger] crate::text::byte_offset(text, i)
            == span.0 implies !word[i - 1] by {
        lemma_offset_places(text, i, from);
    }
    assert forall|i: int|
        0 <= i < text.len() && #[trigger] crate::text::byte_offset(text, i)
            == span.1 implies !word[i] by {
        lemma_offset_places(text, i, to);
    }
    assert(stands_alone(text, word, span));
    lemma_kept_spans(text, word, matched_spans(text, query, match_case, false), span);
}

/// Characters that start at one byte are one.
proof fn lemma_offset_places(text: Seq<char>, i: int, j: int)
    requires
        0 <= i <= text.len(),
        0 <= j <= text.len(),
        crate::text::byte_offset(text, i) == crate::text::byte_offset(text, j),
    ensures
        i == j,
{
    if i < j {
        crate::text::lemma_offset_monotone(text, i, j);
    }
    if j < i {
        crate::text::lemma_offset_monotone(text, j, i);
    }
}

proof fn lemma_occurrences_real(hay: Seq<u8>, needle: Seq<u8>, from: int, i: int)
    requires
        0 <= i < occurrences(hay, needle, from).len(),
    ensures
        from <= occurrences(hay, needle, from)[i],
        occurs_at(hay, needle, occurrences(hay, needle, from)[i]),
        needle.len() > 0,
    decreases i,
{
    let p = choose|p: int| first_at(hay, needle, from, p);
    let rest = occurrences(hay, needle, p + needle.len());
    if i > 0 {
        assert(occurrences(hay, needle, from)[i] == rest[i - 1]);
        lemma_occurrences_real(hay, needle, p + needle.len(), i - 1);
    }
}

proof fn lemma_occurrences_miss_none(hay: Seq<u8>, needle: Seq<u8>, from: int, at: int) -> (i: int)
    requires
        from <= at,
        occurs_at(hay, needle, at),
        needle.len() > 0,
    ensures
        0 <= i < occurrences(hay, needle, from).len(),
        occurrences(hay, needle, from)[i] <= at < occurrences(hay, needle, from)[i] + needle.len(),
    decreases hay.len() - from,
{
    lemma_first_exists(hay, needle, from, at);
    let p = choose|p: int| first_at(hay, needle, from, p);
    assert(first_at(hay, needle, from, p));
    if at < p {
        assert(!occurs_at(hay, needle, at));
    }
    let rest = occurrences(hay, needle, p + needle.len());
    if at < p + needle.len() {
        0
    } else {
        let k = lemma_occurrences_miss_none(hay, needle, p + needle.len(), at);
        assert(occurrences(hay, needle, from)[k + 1] == rest[k]);
        k + 1
    }
}

proof fn lemma_first_exists(hay: Seq<u8>, needle: Seq<u8>, from: int, at: int)
    requires
        from <= at,
        occurs_at(hay, needle, at),
    ensures
        exists|p: int| first_at(hay, needle, from, p),
    decreases at - from,
{
    if exists|q: int| from <= q < at && occurs_at(hay, needle, q) {
        let q = choose|q: int| from <= q < at && occurs_at(hay, needle, q);
        lemma_first_exists(hay, needle, from, q);
    } else {
        assert(first_at(hay, needle, from, at));
    }
}

/// What an exact search finds reads like the query. What comes out is where in the
/// text the match starts, counted in characters.
pub proof fn lemma_exact_match_reads_like_query(
    text: Seq<char>,
    query: Seq<char>,
    whole_words: bool,
    span: (int, int),
) -> (from: int)
    requires
        matched_spans(text, query, true, whole_words).contains(span),
    ensures
        0 <= from,
        from + query.len() <= text.len(),
        text.subrange(from, from + query.len()) == query,
        encode_utf8(text.take(from)).len() == span.0,
        encode_utf8(text.take(from + query.len())).len() == span.1,
{
    let hay = encode_utf8(text);
    let needle = encode_utf8(query);
    let all = exact_spans(hay, needle);
    if whole_words {
        lemma_whole_words_narrow(text, query, true);
    }
    assert(all.contains(span));
    let i = choose|i: int| 0 <= i < all.len() && all[i] == span;
    let p = occurrences(hay, needle, 0)[i];
    lemma_occurrences_real(hay, needle, 0, i);
    assert(span == (p, p + needle.len()));
    lemma_occurrence_boundaries(text, query, p);
    let a = crate::text::lemma_boundary_is_offset(text, p);
    let b = crate::text::lemma_boundary_is_offset(text, p + needle.len());
    if b < a {
        crate::text::lemma_offset_monotone(text, b, a);
    }
    lemma_encode_between(text, a, b);
    crate::text::lemma_encode_injective(text.subrange(a, b), query);
    a
}

/// Where the query stands in the text, an exact search finds it, or a match that
/// starts before and reaches into it.
pub proof fn lemma_exact_search_misses_nothing(text: Seq<char>, query: Seq<char>, from: int) -> (
    span: (int, int))
    requires
        query.len() > 0,
        0 <= from,
        from + query.len() <= text.len(),
        text.subrange(from, from + query.len()) == query,
    ensures
        matched_spans(text, query, true, false).contains(span),
        span.0 <= encode_utf8(text.take(from)).len() < span.1,
{
    let hay = encode_utf8(text);
    let needle = encode_utf8(query);
    lemma_encode_between(text, from, from + query.len());
    lemma_encoding_nonempty(query);
    let at = crate::text::byte_offset(text, from) as int;
    assert(occurs_at(hay, needle, at));
    let i = lemma_occurrences_miss_none(hay, needle, 0, at);
    let all = exact_spans(hay, needle);
    assert(all[i] == (
        occurrences(hay, needle, 0)[i],
        occurrences(hay, needle, 0)[i] + needle.len(),
    ));
    all[i]
}

/// The characters are one, or the same letter of ASCII, small and capital.
pub open spec fn same_letter(a: char, b: char) -> bool {
    ||| a == b
    ||| 'a' <= a <= 'z' && a as u32 == b as u32 + 32
    ||| 'a' <= b <= 'z' && b as u32 == a as u32 + 32
}

/// The characters are told apart only by their case, if the case does not matter,
/// and else not at all.
pub open spec fn reads_alike(a: Seq<char>, b: Seq<char>, match_case: bool) -> bool {
    a.len() == b.len() && forall|k: int|
        0 <= k < a.len() ==> if match_case {
            a[k] == b[k]
        } else {
            same_letter(#[trigger] a[k], b[k])
        }
}

proof fn lemma_small_letters(a: char, b: char)
    requires
        a as u32 <= 0x7f,
        b as u32 <= 0x7f,
    ensures
        ascii_small(a) == ascii_small(b) <==> same_letter(a, b),
{
    assert(ascii_small(a) as u32 == (if 'A' <= a && a <= 'Z' {
        (a as u32 + 32) as u32
    } else {
        a as u32
    }));
    assert(ascii_small(b) as u32 == (if 'A' <= b && b <= 'Z' {
        (b as u32 + 32) as u32
    } else {
        b as u32
    }));
}

proof fn lemma_reads_alike(a: Seq<char>, b: Seq<char>, match_case: bool)
    requires
        forall|k: int| 0 <= k < a.len() ==> #[trigger] a[k] as u32 <= 0x7f,
        forall|k: int| 0 <= k < b.len() ==> #[trigger] b[k] as u32 <= 0x7f,
    ensures
        reads_alike(a, b, match_case) <==> if match_case {
            a == b
        } else {
            ascii_smalls(a) == ascii_smalls(b)
        },
{
    if match_case {
        assert(reads_alike(a, b, match_case) ==> a =~= b);
    } else {
        if reads_alike(a, b, match_case) {
            assert forall|k: int| 0 <= k < a.len() implies ascii_smalls(a)[k] == ascii_smalls(
                b,
            )[k] by {
                assert(same_letter(a[k], b[k]));
                lemma_small_letters(a[k], b[k]);
            }
            assert(ascii_smalls(a) =~= ascii_smalls(b));
        }
        if ascii_smalls(a) == ascii_smalls(b) {
            assert(ascii_smalls(a).len() == a.len() && ascii_smalls(b).len() == b.len());
            assert forall|k: int| 0 <= k < a.len() implies same_letter(#[trigger] a[k], b[k]) by {
                assert(ascii_smalls(a)[k] == ascii_smalls(b)[k]);
                lemma_small_letters(a[k], b[k]);
            }
        }
    }
}

/// The text that an exact search goes through.
pub open spec fn folded_ascii(text: Seq<char>, match_case: bool) -> Seq<char> {
    if match_case {
        text
    } else {
        ascii_smalls(text)
    }
}

/// What a search finds in a text of ASCII: it reads like the query, the case aside
/// where it does not matter, and whole words are bounded by neither letters nor
/// digits.
pub proof fn lemma_ascii_match(
    text: Seq<char>,
    query: Seq<char>,
    match_case: bool,
    whole_words: bool,
    span: (int, int),
)
    requires
        forall|k: int| 0 <= k < text.len() ==> #[trigger] text[k] as u32 <= 0x7f,
        forall|k: int| 0 <= k < query.len() ==> #[trigger] query[k] as u32 <= 0x7f,
        ascii_spans(text, query, match_case, whole_words).contains(span),
    ensures
        0 <= span.0 < span.1 <= text.len(),
        reads_alike(text.subrange(span.0, span.1), query, match_case),
        whole_words && span.0 > 0 ==> {
            let c = text[span.0 - 1];
            !('a' <= c <= 'z') && !('A' <= c <= 'Z') && !('0' <= c <= '9')
        },
        whole_words && span.1 < text.len() ==> {
            let c = text[span.1];
            !('a' <= c <= 'z') && !('A' <= c <= 'Z') && !('0' <= c <= '9')
        },
{
    let plain = ascii_spans(text, query, match_case, false);
    if whole_words {
        lemma_kept_spans(text, ascii_words(text), plain, span);
    }
    let hay = folded_ascii(text, match_case);
    let needle = folded_ascii(query, match_case);
    assert(all_ascii(text) && all_ascii(query));
    lemma_smalls_ascii(text);
    lemma_smalls_ascii(query);
    assert(matched_spans(hay, needle, true, false) == plain);
    let from = lemma_exact_match_reads_like_query(hay, needle, false, span);
    lemma_ascii_offset(hay, from);
    lemma_ascii_offset(hay, from + needle.len());
    assert(span == (from, from + needle.len()));
    let part = text.subrange(span.0, span.1);
    assert(folded_ascii(part, match_case) =~= hay.subrange(span.0, span.1));
    assert forall|k: int| 0 <= k < part.len() implies #[trigger] part[k] as u32 <= 0x7f by {
        assert(part[k] == text[span.0 + k]);
    }
    lemma_reads_alike(part, query, match_case);
    if whole_words {
        let word = ascii_words(text);
        if span.0 > 0 {
            lemma_ascii_offset(text, span.0);
            assert(crate::text::byte_offset(text, span.0) == span.0);
            assert(!word[span.0 - 1]);
        }
        if span.1 < text.len() {
            lemma_ascii_offset(text, span.1);
            assert(crate::text::byte_offset(text, span.1) == span.1);
            assert(!word[span.1]);
        }
    }
}

/// Where a text of ASCII reads like the query, the case aside where it does not
/// matter, a search finds that place, or a match that starts before and reaches
/// into it; of whole words it finds those that neither a letter nor a digit bounds.
pub proof fn lemma_ascii_search_misses_nothing(
    text: Seq<char>,
    query: Seq<char>,
    match_case: bool,
    from: int,
) -> (span: (int, int))
    requires
        forall|k: int| 0 <= k < text.len() ==> #[trigger] text[k] as u32 <= 0x7f,
        forall|k: int| 0 <= k < query.len() ==> #[trigger] query[k] as u32 <= 0x7f,
        query.len() > 0,
        0 <= from,
        from + query.len() <= text.len(),
        reads_alike(text.subrange(from, from + query.len()), query, match_case),
    ensures
        ascii_spans(text, query, match_case, false).contains(span),
        span.0 <= from < span.1,
        ({
            let before = text[span.0 - 1];
            let behind = text[span.1];
            &&& span.0 == 0 || !('a' <= before <= 'z') && !('A' <= before <= 'Z') && !('0'
                <= before <= '9')
            &&& span.1 == text.len() || !('a' <= behind <= 'z') && !('A' <= behind <= 'Z') && !(
            '0' <= behind <= '9')
        }) ==> ascii_spans(text, query, match_case, true).contains(span),
{
    let hay = folded_ascii(text, match_case);
    let needle = folded_ascii(query, match_case);
    let part = text.subrange(from, from + query.len());
    assert(all_ascii(text) && all_ascii(query));
    assert forall|k: int| 0 <= k < part.len() implies #[trigger] part[k] as u32 <= 0x7f by {
        assert(part[k] == text[from + k]);
    }
    lemma_reads_alike(part, query, match_case);
    assert(folded_ascii(part, match_case) =~= hay.subrange(from, from + query.len()));
    lemma_smalls_ascii(text);
    lemma_smalls_ascii(query);
    let plain = ascii_spans(text, query, match_case, false);
    assert(matched_spans(hay, needle, true, false) == plain);
    let span = lemma_exact_search_misses_nothing(hay, needle, from);
    lemma_ascii_offset(hay, from);
    lemma_ascii_match(text, query, match_case, false, span);
    let word = ascii_words(text);
    if (span.0 == 0 || !ascii_word(text[span.0 - 1])) && (span.1 == text.len() || !ascii_word(
        text[span.1],
    )) {
        assert forall|i: int|
            0 < i <= text.len() && #[trigger] crate::text::byte_offset(text, i)
                == span.0 implies !word[i - 1] by {
            lemma_ascii_offset(text, i);
        }
        assert forall|i: int|
            0 <= i < text.len() && #[trigger] crate::text::byte_offset(text, i)
                == span.1 implies !word[i] by {
            lemma_ascii_offset(text, i);
        }
        assert(stands_alone(text, word, span));
        lemma_kept_spans(text, word, plain, span);
    }
    span
}

/// By how much the text behind the first `i` spans moves when each is replaced by
/// something of length `n`.
pub open spec fn moved_by(found: Seq<(int, int)>, n: int, i: int) -> int
    decreases i,
{
    if i <= 0 {
        0
    } else {
        moved_by(found, n, i - 1) + n - (found[i - 1].1 - found[i - 1].0)
    }
}

proof fn lemma_moved_behind_first(found: Seq<(int, int)>, n: int, i: int)
    requires
        1 <= i <= found.len(),
    ensures
        moved_by(found, n, i) == n - (found[0].1 - found[0].0) + moved_by(
            found.drop_first(),
            n,
            i - 1,
        ),
    decreases i,
{
    if i > 1 {
        lemma_moved_behind_first(found, n, i - 1);
    } else {
        assert(moved_by(found, n, 0) == 0);
    }
}

/// Every span has become the replacement.
pub open spec fn spans_replaced(
    out: Seq<u8>,
    found: Seq<(int, int)>,
    replacement: Seq<u8>,
    cursor: int,
) -> bool {
    let n = replacement.len() as int;
    forall|i: int|
        #![trigger found[i]]
        0 <= i < found.len() ==> {
            let at = found[i].0 - cursor + moved_by(found, n, i);
            0 <= at && at + n <= out.len() && out.subrange(at, at + n) == replacement
        }
}

/// The byte `k` lies between the spans before `i` and the span `i`.
pub open spec fn lies_between(
    len: int,
    found: Seq<(int, int)>,
    cursor: int,
    i: int,
    k: int,
) -> bool {
    0 <= i <= found.len() && (if i == 0 {
        cursor
    } else {
        found[i - 1].1
    }) <= k < (if i == found.len() {
        len
    } else {
        found[i].0
    })
}

/// What lies between the spans stands as it stood, moved by what was replaced
/// before it.
pub open spec fn rest_stands(
    out: Seq<u8>,
    bytes: Seq<u8>,
    found: Seq<(int, int)>,
    n: int,
    cursor: int,
) -> bool {
    forall|i: int, k: int| #[trigger]
        lies_between(bytes.len() as int, found, cursor, i, k) ==> {
            let at = k - cursor + moved_by(found, n, i);
            0 <= at < out.len() && out[at] == bytes[k]
        }
}

/// The text stands between the spans as it stood, and every span has become the
/// replacement.
pub open spec fn stands_replaced(
    out: Seq<u8>,
    bytes: Seq<u8>,
    found: Seq<(int, int)>,
    replacement: Seq<u8>,
    cursor: int,
) -> bool {
    let n = replacement.len() as int;
    &&& out.len() == bytes.len() - cursor + moved_by(found, n, found.len() as int)
    &&& spans_replaced(out, found, replacement, cursor)
    &&& rest_stands(out, bytes, found, n, cursor)
}

proof fn lemma_spans_behind_first(
    head: Seq<u8>,
    tail: Seq<u8>,
    found: Seq<(int, int)>,
    replacement: Seq<u8>,
    cursor: int,
)
    requires
        found.len() > 0,
        head.len() == found[0].0 - cursor + replacement.len(),
        head.skip(found[0].0 - cursor) == replacement,
        0 <= cursor <= found[0].0,
        spans_replaced(tail, found.drop_first(), replacement, found[0].1),
    ensures
        spans_replaced(head + tail, found, replacement, cursor),
{
    let n = replacement.len() as int;
    let rest = found.drop_first();
    let out = head + tail;
    assert forall|i: int|
        #![trigger found[i]]
        0 <= i < found.len() implies {
        let at = found[i].0 - cursor + moved_by(found, n, i);
        0 <= at && at + n <= out.len() && out.subrange(at, at + n) == replacement
    } by {
        if i == 0 {
            let at = found[0].0 - cursor;
            assert(out.subrange(at, at + n) =~= head.skip(at));
        } else {
            lemma_moved_behind_first(found, n, i);
            assert(rest[i - 1] == found[i]);
            let low = rest[i - 1].0 - found[0].1 + moved_by(rest, n, i - 1);
            let at = found[i].0 - cursor + moved_by(found, n, i);
            assert(at == low + head.len());
            assert(out.subrange(at, at + n) =~= tail.subrange(low, low + n));
        }
    }
}

proof fn lemma_rest_behind_first(
    head: Seq<u8>,
    tail: Seq<u8>,
    bytes: Seq<u8>,
    found: Seq<(int, int)>,
    n: int,
    cursor: int,
)
    requires
        found.len() > 0,
        0 <= n,
        0 <= cursor <= found[0].0 <= bytes.len(),
        head.len() == found[0].0 - cursor + n,
        head.take(found[0].0 - cursor) == bytes.subrange(cursor, found[0].0),
        rest_stands(tail, bytes, found.drop_first(), n, found[0].1),
    ensures
        rest_stands(head + tail, bytes, found, n, cursor),
{
    let rest = found.drop_first();
    let out = head + tail;
    assert forall|i: int, k: int| #[trigger]
        lies_between(bytes.len() as int, found, cursor, i, k) implies {
        let at = k - cursor + moved_by(found, n, i);
        0 <= at < out.len() && out[at] == bytes[k]
    } by {
        if i == 0 {
            let part = bytes.subrange(cursor, found[0].0);
            assert(part[k - cursor] == bytes[k]);
            assert(head.take(found[0].0 - cursor)[k - cursor] == head[k - cursor]);
        } else {
            lemma_moved_behind_first(found, n, i);
            if i < found.len() {
                assert(rest[i - 1] == found[i]);
            }
            if i > 1 {
                assert(rest[i - 2] == found[i - 1]);
            }
            assert(lies_between(bytes.len() as int, rest, found[0].1, i - 1, k));
        }
    }
}

proof fn lemma_spliced_stands(
    bytes: Seq<u8>,
    found: Seq<(int, int)>,
    replacement: Seq<u8>,
    cursor: int,
)
    requires
        cuttable(bytes, found, cursor),
        0 <= cursor <= bytes.len(),
    ensures
        stands_replaced(
            spliced(bytes, found, replacement, cursor),
            bytes,
            found,
            replacement,
            cursor,
        ),
    decreases found.len(),
{
    let n = replacement.len() as int;
    let out = spliced(bytes, found, replacement, cursor);
    if found.len() == 0 {
        assert(moved_by(found, n, 0) == 0);
        assert forall|i: int, k: int| #[trigger]
            lies_between(bytes.len() as int, found, cursor, i, k) implies {
            let at = k - cursor + moved_by(found, n, i);
            0 <= at < out.len() && out[at] == bytes[k]
        } by {
            assert(i == 0);
        }
    } else {
        let rest = found.drop_first();
        let tail = spliced(bytes, rest, replacement, found[0].1);
        let part = bytes.subrange(cursor, found[0].0);
        let head = part + replacement;
        lemma_spliced_stands(bytes, rest, replacement, found[0].1);
        assert(out == head + tail);
        lemma_moved_behind_first(found, n, found.len() as int);
        assert(head.skip(found[0].0 - cursor) =~= replacement);
        assert(head.take(found[0].0 - cursor) =~= part);
        lemma_spans_behind_first(head, tail, found, replacement, cursor);
        lemma_rest_behind_first(head, tail, bytes, found, n, cursor);
    }
}

/// Replacing puts the replacement in the place of every match and leaves the rest
/// of the text as it is, in its order.
pub proof fn lemma_replacing_keeps_the_rest(
    text: Seq<char>,
    query: Seq<char>,
    replacement: Seq<char>,
    match_case: bool,
    whole_words: bool,
)
    ensures
        stands_replaced(
            replaced(text, query, replacement, match_case, whole_words),
            encode_utf8(text),
            matched_spans(text, query, match_case, whole_words),
            encode_utf8(replacement),
            0,
        ),
{
    lemma_matches_are_cuttable(text, query, match_case, whole_words);
    lemma_spliced_stands(
        encode_utf8(text),
        matched_spans(text, query, match_case, whole_words),
        encode_utf8(replacement),
        0,
    );
}

} // verus!
