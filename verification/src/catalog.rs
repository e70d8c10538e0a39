//! The seed catalog: the posts that a fresh store starts with, and the text
//! form in which they are written down.

use vstd::prelude::*;
use vstd::string::*;
use vstd::slice::{slice_subrange, slice_to_vec};
use vstd::utf8::encode_utf8;
use crate::store::{row_option_view, Row};

verus! {

/// The number of posts in the seed catalog.
pub const SEED_COUNT: usize = 10;

/// The byte that parts the key of a seed row from its value: a colon.
pub const SEED_SEPARATOR: u8 = 0x3a;

/// The key of the seed post number `i`, counted from 0.
pub open spec fn seed_title_text(i: int) -> Seq<char> {
    if i == 0 {
        "post-001-{\"title\"_\"introduction\""@
    } else if i == 1 {
        "post-002-{\"title\"_\"stickies\""@
    } else if i == 2 {
        "post-003-{\"title\"_\"howtos\""@
    } else if i == 3 {
        "post-004-{\"title\"_\"beginner\""@
    } else if i == 4 {
        "post-005-{\"title\"_\"intermediate\""@
    } else if i == 5 {
        "post-006-{\"title\"_\"advanced\""@
    } else if i == 6 {
        "post-007-{\"title\"_\"FAQS\""@
    } else if i == 7 {
        "post-008-{\"title\"_\"contacts\""@
    } else if i == 8 {
        "post-009-{\"title\"_\"help\""@
    } else {
        "post-010-{\"title\"_\"about\""@
    }
}

/// The value of the seed post number `i`, counted from 0.
pub open spec fn seed_body_text(i: int) -> Seq<char> {
    if i == 0 {
        "\"post\"_\"welcome to the forum\"}"@
    } else if i == 1 {
        "\"post\"_\"common threads\"}"@
    } else if i == 2 {
        "\"post\"_\"how do I do this\"}"@
    } else if i == 3 {
        "\"post\"_\"intro code for beginners\"}"@
    } else if i == 4 {
        "\"post\"_\"know enough beyond beginner\"}"@
    } else if i == 5 {
        "\"post\"_\"I am sharing tips\"}"@
    } else if i == 6 {
        "\"post\"_\"frequently asked questions\"}"@
    } else if i == 7 {
        "\"post\"_\"useful contacts\"}"@
    } else if i == 8 {
        "\"post\"_\"forum development\"}"@
    } else {
        "\"post\"_\"contact information\"}"@
    }
}

/// The seed row number `i`: its key, a colon, its value.
pub open spec fn seed_row_text(i: int) -> Seq<char> {
    seed_title_text(i) + seq![':'] + seed_body_text(i)
}

/// The key of the seed post number `i`.
fn seed_title(i: usize) -> (title: &'static str)
    ensures
        title@ == seed_title_text(i as int),
{
    if i == 0 {
        "post-001-{\"title\"_\"introduction\""
    } else if i == 1 {
        "post-002-{\"title\"_\"stickies\""
    } else if i == 2 {
        "post-003-{\"title\"_\"howtos\""
    } else if i == 3 {
        "post-004-{\"title\"_\"beginner\""
    } else if i == 4 {
        "post-005-{\"title\"_\"intermediate\""
    } else if i == 5 {
        "post-006-{\"title\"_\"advanced\""
    } else if i == 6 {
        "post-007-{\"title\"_\"FAQS\""
    } else if i == 7 {
        "post-008-{\"title\"_\"contacts\""
    } else if i == 8 {
        "post-009-{\"title\"_\"help\""
    } else {
        "post-010-{\"title\"_\"about\""
    }
}

/// The value of the seed post number `i`.
fn seed_body(i: usize) -> (body: &'static str)
    ensures
        body@ == seed_body_text(i as int),
{
    if i == 0 {
        "\"post\"_\"welcome to the forum\"}"
    } else if i == 1 {
        "\"post\"_\"common threads\"}"
    } else if i == 2 {
        "\"post\"_\"how do I do this\"}"
    } else if i == 3 {
        "\"post\"_\"intro code for beginners\"}"
    } else if i == 4 {
        "\"post\"_\"know enough beyond beginner\"}"
    } else if i == 5 {
        "\"post\"_\"I am sharing tips\"}"
    } else if i == 6 {
        "\"post\"_\"frequently asked questions\"}"
    } else if i == 7 {
        "\"post\"_\"useful contacts\"}"
    } else if i == 8 {
        "\"post\"_\"forum development\"}"
    } else {
        "\"post\"_\"contact information\"}"
    }
}

/// The seed catalog: one row of text for each seed post, in the catalog's order.
pub fn all_posts() -> (rows: Vec<String>)
    ensures
        rows@.len() == SEED_COUNT,
        forall|i: int| 0 <= i < SEED_COUNT ==> (#[trigger] rows@[i])@ == seed_row_text(i),
{
    let mut rows: Vec<String> = Vec::new();
    let mut i: usize = 0;
    while i < SEED_COUNT
        invariant
            i <= SEED_COUNT,
            rows@.len() == i,
            forall|j: int| 0 <= j < i ==> (#[trigger] rows@[j])@ == seed_row_text(j),
        decreases SEED_COUNT - i,
    {
        let mut row = String::from_str(seed_title(i));
        proof {
            reveal_strlit(":");
        }
        row.append(":");
        row.append(seed_body(i));
        assert(row@ =~= seed_row_text(i as int));
        rows.push(row);
        i = i + 1;
    }
    rows
}

/// The place of the first `byte` in `bytes`, or the length of `bytes` if it
/// holds none.
pub open spec fn first_index_of(bytes: Seq<u8>, byte: u8) -> int
    decreases bytes.len(),
{
    if bytes.len() == 0 || bytes[0] == byte {
        0
    } else {
        1 + first_index_of(bytes.drop_first(), byte)
    }
}

/// The key and the value that a seed row holds: the key is what stands before
/// the first separator, the value what stands between the first separator and
/// the second, or the end of the row. A row without a separator holds none.
pub open spec fn seed_row_parts(bytes: Seq<u8>) -> Option<(Seq<u8>, Seq<u8>)> {
    let colon = first_index_of(bytes, SEED_SEPARATOR);
    if colon >= bytes.len() {
        None
    } else {
        let rest = bytes.skip(colon + 1);
        Some((bytes.take(colon), rest.take(first_index_of(rest, SEED_SEPARATOR))))
    }
}

/// The first `byte` of `bytes` is at `at` when none stands before `at`, and
/// `at` holds one or is the end.
proof fn lemma_first_index_of(bytes: Seq<u8>, byte: u8, at: int)
    requires
        0 <= at <= bytes.len(),
        forall|j: int| 0 <= j < at ==> bytes[j] != byte,
        at == bytes.len() || bytes[at] == byte,
    ensures
        first_index_of(bytes, byte) == at,
    decreases at,
{
    if at > 0 {
        lemma_first_index_of(bytes.drop_first(), byte, at - 1);
    }
}

/// Finds the first `byte` of `bytes` at or after `from`.
fn find_byte(bytes: &[u8], byte: u8, from: usize) -> (at: usize)
    requires
        from <= bytes.len(),
    ensures
        from <= at <= bytes.len(),
        at == from + first_index_of(bytes@.skip(from as int), byte),
{
    let mut at = from;
    while at < bytes.len() && bytes[at] != byte
        invariant
            from <= at <= bytes.len(),
            forall|j: int| from <= j < at ==> bytes@[j] != byte,
        decreases bytes.len() - at,
    {
        at = at + 1;
    }
    proof {
        lemma_first_index_of(bytes@.skip(from as int), byte, at - from);
    }
    at
}

/// Reads one seed row: its key and its value as the store will hold them.
/// `None` for a row without a separator.
pub fn parse_seed_row(row: &str) -> (parsed: Option<Row>)
    ensures
        row_option_view(parsed) == seed_row_parts(encode_utf8(row@)),
{
    let bytes = row.as_bytes();
    let colon = find_byte(bytes, SEED_SEPARATOR, 0);
    assert(bytes@.skip(0) =~= bytes@);
    if colon >= bytes.len() {
        return None;
    }
    let end = find_byte(bytes, SEED_SEPARATOR, colon + 1);
    let key = slice_to_vec(slice_subrange(bytes, 0, colon));
    let value = slice_to_vec(slice_subrange(bytes, colon + 1, end));
    proof {
        let rest = bytes@.skip(colon + 1);
        assert(key@ =~= bytes@.take(colon as int));
        assert(value@ =~= rest.take(first_index_of(rest, SEED_SEPARATOR)));
    }
    Some(Row { key, value })
}

/// Reads a seed catalog: the row of each line, in order. `None` if a line
/// has no separator.
pub fn seed_rows(lines: &Vec<String>) -> (parsed: Option<Vec<Row>>)
    ensures
        parsed is None <==> exists|i: int|
            0 <= i < lines@.len() && seed_row_parts(encode_utf8(#[trigger] lines@[i]@)) is None,
        parsed matches Some(rows) ==> rows@.len() == lines@.len() && forall|i: int|
            0 <= i < lines@.len() ==> Some((#[trigger] rows@[i])@) == seed_row_parts(
                encode_utf8(lines@[i]@),
            ),
{
    let mut rows: Vec<Row> = Vec::new();
    let mut i: usize = 0;
    while i < lines.len()
        invariant
            i <= lines@.len(),
            rows@.len() == i,
            forall|j: int|
                0 <= j < i ==> Some((#[trigger] rows@[j])@) == seed_row_parts(
                    encode_utf8(lines@[j]@),
                ),
            forall|j: int|
                0 <= j < i ==> seed_row_parts(encode_utf8(#[trigger] lines@[j]@)) is Some,
        decreases lines@.len() - i,
    {
        match parse_seed_row(lines[i].as_str()) {
            Some(row) => {
                rows.push(row);
            },
            None => {
                return None;
            },
        }
        i = i + 1;
    }
    Some(rows)
}

} // verus!
