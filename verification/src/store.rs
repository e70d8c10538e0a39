//! The transactional key-value store as the repository sees it: the rows it
//! holds, the writes a transaction can make, and what a read returns.
//!
//! The store itself runs elsewhere. This module holds the data that travels to
//! and from it, and a mathematical model of its contents against which the
//! repository's transactions are specified.

use vstd::prelude::*;
use crate::keyspace::{in_key_range, key_lt};

verus! {

/// One key with its value, as the store holds them.
#[derive(Clone, Debug, PartialEq, Eq)]
pub struct Row {
    pub key: Vec<u8>,
    pub value: Vec<u8>,
}

impl View for Row {
    type V = (Seq<u8>, Seq<u8>);

    open spec fn view(&self) -> (Seq<u8>, Seq<u8>) {
        (self.key@, self.value@)
    }
}

/// One write of a transaction.
#[derive(Clone, Debug, PartialEq, Eq)]
pub enum Mutation {
    /// Gives `key` the value `value`, whether or not it had one.
    Put { key: Vec<u8>, value: Vec<u8> },
    /// Removes `key` if it is there.
    Clear { key: Vec<u8> },
    /// Removes every key from `begin` (inclusive) to `end` (exclusive).
    ClearRange { begin: Vec<u8>, end: Vec<u8> },
}

/// A write of a transaction, as plain values.
pub enum MutationView {
    Put { key: Seq<u8>, value: Seq<u8> },
    Clear { key: Seq<u8> },
    ClearRange { begin: Seq<u8>, end: Seq<u8> },
}

impl View for Mutation {
    type V = MutationView;

    open spec fn view(&self) -> MutationView {
        match self {
            Mutation::Put { key, value } => MutationView::Put { key: key@, value: value@ },
            Mutation::Clear { key } => MutationView::Clear { key: key@ },
            Mutation::ClearRange { begin, end } => MutationView::ClearRange {
                begin: begin@,
                end: end@,
            },
        }
    }
}

/// The rows of `rows` as plain values.
pub open spec fn rows_view(rows: Seq<Row>) -> Seq<(Seq<u8>, Seq<u8>)> {
    rows.map_values(|row: Row| row@)
}

/// An optional row as plain values.
pub open spec fn row_option_view(row: Option<Row>) -> Option<(Seq<u8>, Seq<u8>)> {
    match row {
        Some(row) => Some(row@),
        None => None,
    }
}

/// The writes of `writes` as plain values.
pub open spec fn mutations_view(writes: Seq<Mutation>) -> Seq<MutationView> {
    writes.map_values(|write: Mutation| write@)
}

/// The bytes of an optional value as plain values.
pub open spec fn value_view(value: Option<Vec<u8>>) -> Option<Seq<u8>> {
    match value {
        Some(bytes) => Some(bytes@),
        None => None,
    }
}

/// The contents of the store: which keys it holds, and the value of each.
pub type Contents = Map<Seq<u8>, Seq<u8>>;

/// What a read of `key` returns.
pub open spec fn lookup(contents: Contents, key: Seq<u8>) -> Option<Seq<u8>> {
    if contents.contains_key(key) {
        Some(contents[key])
    } else {
        None
    }
}

/// The contents after one write.
pub open spec fn apply(contents: Contents, write: MutationView) -> Contents {
    match write {
        MutationView::Put { key, value } => contents.insert(key, value),
        MutationView::Clear { key } => contents.remove(key),
        MutationView::ClearRange { begin, end } => contents.remove_keys(
            Set::new(|key: Seq<u8>| in_key_range(key, begin, end)),
        ),
    }
}

/// The contents after a transaction has committed `writes`, applied in order.
pub open spec fn apply_all(contents: Contents, writes: Seq<MutationView>) -> Contents
    decreases writes.len(),
{
    if writes.len() == 0 {
        contents
    } else {
        apply(apply_all(contents, writes.drop_last()), writes.last())
    }
}

/// `rows` is what a read of the range from `begin` (inclusive) to `end`
/// (exclusive) returns when it asks for `limit` rows at most: rows that the
/// store holds in that range, in ascending order of their keys, and the first
/// ones of the range if there are more than `limit`.
pub open spec fn is_range_read(
    contents: Contents,
    begin: Seq<u8>,
    end: Seq<u8>,
    limit: nat,
    rows: Seq<(Seq<u8>, Seq<u8>)>,
) -> bool {
    &&& rows.len() <= limit
    &&& forall|i: int|
        0 <= i < rows.len() ==> in_key_range((#[trigger] rows[i]).0, begin, end)
            && contents.contains_pair(rows[i].0, rows[i].1)
    &&& forall|i: int, j: int|
        0 <= i < j < rows.len() ==> key_lt((#[trigger] rows[i]).0, (#[trigger] rows[j]).0)
    &&& forall|key: Seq<u8>|
        #![trigger contents.contains_key(key)]
        contents.contains_key(key) && in_key_range(key, begin, end) ==> {
            ||| exists|i: int| 0 <= i < rows.len() && (#[trigger] rows[i]).0 == key
            ||| rows.len() == limit && limit > 0 && key_lt(rows.last().0, key)
        }
}

} // verus!
