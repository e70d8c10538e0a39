//! The post repository: what each operation on the posts writes to the store
//! and what it answers, given what it has read there.
//!
//! Every function here is one step of a transaction's body. None of them
//! touches the store: the caller reads, hands over what it has read, and
//! performs the writes that it gets back.

use vstd::prelude::*;
use vstd::slice::slice_to_vec;
use vstd::utf8::{decode_utf8, valid_utf8};
use crate::keyspace::{post_key_begin, post_key_end, post_range_begin, post_range_end};
use crate::store::{mutations_view, rows_view, value_view, Mutation, MutationView, Row};
use crate::text::{bytes_equal, decode_text};

verus! {

/// The number of rows that one scan of the posts returns at most.
pub const SCAN_LIMIT: usize = 1024;

/// One post: its key and its value, as text.
#[derive(Clone, Debug, PartialEq, Eq)]
pub struct Post {
    pub key: String,
    pub value: String,
}

impl View for Post {
    type V = (Seq<char>, Seq<char>);

    open spec fn view(&self) -> (Seq<char>, Seq<char>) {
        (self.key@, self.value@)
    }
}

/// Why an operation of the repository failed.
#[derive(Clone, Copy, Debug, PartialEq, Eq)]
pub enum RepoError {
    /// The store could not commit the transaction within its attempts.
    ConflictExhausted,
    /// The key holds no value.
    NotFound,
    /// What the store holds is not text.
    Decode,
}

/// The posts of `posts` as plain values.
pub open spec fn posts_view(posts: Seq<Post>) -> Seq<(Seq<char>, Seq<char>)> {
    posts.map_values(|post: Post| post@)
}

/// The result of reading a value, as plain values.
pub open spec fn text_result_view(result: Result<String, RepoError>) -> Result<
    Seq<char>,
    RepoError,
> {
    match result {
        Ok(text) => Ok(text@),
        Err(error) => Err(error),
    }
}

/// The result of reading rows, as plain values.
pub open spec fn posts_result_view(result: Result<Vec<Post>, RepoError>) -> Result<
    Seq<(Seq<char>, Seq<char>)>,
    RepoError,
> {
    match result {
        Ok(posts) => Ok(posts_view(posts@)),
        Err(error) => Err(error),
    }
}

/// The writes of `create`: none if `key` already holds `value`, else the one
/// that gives `key` the value `value`.
pub open spec fn create_plan(key: Seq<u8>, value: Seq<u8>, current: Option<Seq<u8>>) -> Seq<
    MutationView,
> {
    if current == Some(value) {
        Seq::empty()
    } else {
        seq![MutationView::Put { key, value }]
    }
}

/// The writes of the second phase of `commit`: none if the key is published
/// already, whatever it holds, else the one that publishes `value` under `key`.
pub open spec fn publish_plan(key: Seq<u8>, value: Seq<u8>, marker: Option<Seq<u8>>) -> Seq<
    MutationView,
> {
    if marker is Some {
        Seq::empty()
    } else {
        seq![MutationView::Put { key, value }]
    }
}

/// The writes of `delete`: the one that clears `key`.
pub open spec fn delete_plan(key: Seq<u8>) -> Seq<MutationView> {
    seq![MutationView::Clear { key }]
}

/// The write that stores `row`.
pub open spec fn put_of(row: (Seq<u8>, Seq<u8>)) -> MutationView {
    MutationView::Put { key: row.0, value: row.1 }
}

/// The writes of `reset`: one that clears the whole range of the posts, then
/// one for each seed row, in the order of the rows.
pub open spec fn reset_plan(rows: Seq<(Seq<u8>, Seq<u8>)>) -> Seq<MutationView> {
    seq![MutationView::ClearRange { begin: post_range_begin(), end: post_range_end() }]
        + rows.map_values(|row: (Seq<u8>, Seq<u8>)| put_of(row))
}

/// What `get` answers when the read of the key returned `found`.
pub open spec fn value_outcome(found: Option<Seq<u8>>) -> Result<Seq<char>, RepoError> {
    match found {
        None => Err(RepoError::NotFound),
        Some(bytes) => if valid_utf8(bytes) {
            Ok(decode_utf8(bytes))
        } else {
            Err(RepoError::Decode)
        },
    }
}

/// Both the key and the value of `row` are text.
pub open spec fn row_is_text(row: (Seq<u8>, Seq<u8>)) -> bool {
    valid_utf8(row.0) && valid_utf8(row.1)
}

/// The post that `row` holds.
pub open spec fn post_of(row: (Seq<u8>, Seq<u8>)) -> (Seq<char>, Seq<char>) {
    (decode_utf8(row.0), decode_utf8(row.1))
}

/// The posts that `rows` hold: the post of each row, in the order of the
/// rows, unless a row is not text.
pub open spec fn rows_outcome(rows: Seq<(Seq<u8>, Seq<u8>)>) -> Result<
    Seq<(Seq<char>, Seq<char>)>,
    RepoError,
> {
    if forall|i: int| 0 <= i < rows.len() ==> row_is_text(#[trigger] rows[i]) {
        Ok(rows.map_values(|row: (Seq<u8>, Seq<u8>)| post_of(row)))
    } else {
        Err(RepoError::Decode)
    }
}

/// What a listing keeps of the rows that a scan returned: the first
/// `SCAN_LIMIT` of them.
pub open spec fn capped(rows: Seq<(Seq<u8>, Seq<u8>)>) -> Seq<(Seq<u8>, Seq<u8>)> {
    if rows.len() > SCAN_LIMIT {
        rows.take(SCAN_LIMIT as int)
    } else {
        rows
    }
}

/// What `list_available` answers when the scan returned `rows`: the posts of
/// the rows that it keeps.
pub open spec fn listing_outcome(rows: Seq<(Seq<u8>, Seq<u8>)>) -> Result<
    Seq<(Seq<char>, Seq<char>)>,
    RepoError,
> {
    rows_outcome(capped(rows))
}

/// The writes of a `create` of `key` with `value`, in a transaction that has
/// read `current` under `key`.
pub fn create_writes(key: &[u8], value: &[u8], current: &Option<Vec<u8>>) -> (writes: Vec<Mutation>)
    ensures
        mutations_view(writes@) == create_plan(key@, value@, value_view(*current)),
{
    let same = match current {
        Some(bytes) => bytes_equal(bytes.as_slice(), value),
        None => false,
    };
    let mut writes: Vec<Mutation> = Vec::new();
    if !same {
        writes.push(Mutation::Put { key: slice_to_vec(key), value: slice_to_vec(value) });
    }
    assert(mutations_view(writes@) =~= create_plan(key@, value@, value_view(*current)));
    writes
}

/// The writes of the second phase of a `commit` of `key` with `value`, after
/// the first phase has read `marker` under `key`.
pub fn publish_writes(key: &[u8], value: &[u8], marker: &Option<Vec<u8>>) -> (writes: Vec<Mutation>)
    ensures
        mutations_view(writes@) == publish_plan(key@, value@, value_view(*marker)),
{
    let mut writes: Vec<Mutation> = Vec::new();
    if marker.is_none() {
        writes.push(Mutation::Put { key: slice_to_vec(key), value: slice_to_vec(value) });
    }
    assert(mutations_view(writes@) =~= publish_plan(key@, value@, value_view(*marker)));
    writes
}

/// The writes of a `delete` of `key`.
pub fn delete_writes(key: &[u8]) -> (writes: Vec<Mutation>)
    ensures
        mutations_view(writes@) == delete_plan(key@),
{
    let mut writes: Vec<Mutation> = Vec::new();
    writes.push(Mutation::Clear { key: slice_to_vec(key) });
    assert(mutations_view(writes@) =~= delete_plan(key@));
    writes
}

/// The writes of a `reset` to the seed rows `rows`.
pub fn reset_writes(rows: &Vec<Row>) -> (writes: Vec<Mutation>)
    ensures
        mutations_view(writes@) == reset_plan(rows_view(rows@)),
{
    let mut writes: Vec<Mutation> = Vec::new();
    writes.push(Mutation::ClearRange { begin: post_key_begin(), end: post_key_end() });
    let mut i: usize = 0;
    while i < rows.len()
        invariant
            i <= rows@.len(),
            mutations_view(writes@) == reset_plan(rows_view(rows@).take(i as int)),
        decreases rows@.len() - i,
    {
        let row = &rows[i];
        let ghost before = writes@;
        writes.push(
            Mutation::Put {
                key: slice_to_vec(row.key.as_slice()),
                value: slice_to_vec(row.value.as_slice()),
            },
        );
        i = i + 1;
        proof {
            let seeds = rows_view(rows@);
            assert(mutations_view(writes@) =~= mutations_view(before).push(put_of(seeds[i - 1])));
            assert(seeds.take(i as int) =~= seeds.take(i - 1).push(seeds[i - 1]));
            assert(reset_plan(seeds.take(i as int)) =~= reset_plan(seeds.take(i - 1)).push(
                put_of(seeds[i - 1]),
            ));
        }
    }
    assert(rows_view(rows@).take(rows@.len() as int) =~= rows_view(rows@));
    writes
}

/// The answer of `get` when the read of the key returned `found`.
pub fn read_value(found: &Option<Vec<u8>>) -> (result: Result<String, RepoError>)
    ensures
        text_result_view(result) == value_outcome(value_view(*found)),
{
    match found {
        None => Err(RepoError::NotFound),
        Some(bytes) => match decode_text(bytes.as_slice()) {
            Some(text) => Ok(text),
            None => Err(RepoError::Decode),
        },
    }
}

/// Reads the first `count` rows of `rows` as posts.
fn decode_first(rows: &Vec<Row>, count: usize) -> (result: Result<Vec<Post>, RepoError>)
    requires
        count <= rows@.len(),
    ensures
        posts_result_view(result) == rows_outcome(rows_view(rows@).take(count as int)),
{
    let ghost first = rows_view(rows@).take(count as int);
    let mut posts: Vec<Post> = Vec::new();
    let mut i: usize = 0;
    while i < count
        invariant
            i <= count <= rows@.len(),
            first == rows_view(rows@).take(count as int),
            posts@.len() == i,
            forall|j: int| 0 <= j < i ==> row_is_text(#[trigger] first[j]),
            forall|j: int| 0 <= j < i ==> (#[trigger] posts@[j])@ == post_of(first[j]),
        decreases count - i,
    {
        let row = &rows[i];
        let key = decode_text(row.key.as_slice());
        let value = decode_text(row.value.as_slice());
        match (key, value) {
            (Some(key), Some(value)) => {
                posts.push(Post { key, value });
            },
            _ => {
                assert(!row_is_text(first[i as int]));
                return Err(RepoError::Decode);
            },
        }
        i = i + 1;
    }
    assert(posts_view(posts@) =~= first.map_values(|row: (Seq<u8>, Seq<u8>)| post_of(row)));
    Ok(posts)
}

/// The posts that `rows` hold, in the order of the rows, unless a row is not
/// text.
pub fn decode_rows(rows: &Vec<Row>) -> (result: Result<Vec<Post>, RepoError>)
    ensures
        posts_result_view(result) == rows_outcome(rows_view(rows@)),
{
    assert(rows_view(rows@).take(rows@.len() as int) =~= rows_view(rows@));
    decode_first(rows, rows.len())
}

/// The answer of `list_available` when the scan returned `rows`: the posts
/// of the first `SCAN_LIMIT` rows, whatever else the store sent.
pub fn list_rows(rows: &Vec<Row>) -> (result: Result<Vec<Post>, RepoError>)
    ensures
        posts_result_view(result) == listing_outcome(rows_view(rows@)),
{
    if rows.len() > SCAN_LIMIT {
        decode_first(rows, SCAN_LIMIT)
    } else {
        decode_rows(rows)
    }
}

} // verus!
