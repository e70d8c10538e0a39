//! What holds of the repository's operations, whatever the store holds.

use vstd::prelude::*;
use vstd::utf8::encode_utf8;
use vstd::set_lib::lemma_len_subset;
use crate::keyspace::{
    is_post_key, lemma_key_lt_irreflexive, post_range_begin, post_range_end,
};
use crate::repository::{
    capped, listing_outcome, put_of, reset_plan, rows_outcome, RepoError, SCAN_LIMIT,
};
use crate::session::{
    call_of, carry_out, first_step_of, next_step, run, session_valid, EventView, OpKind,
    OutputView, SessionView, StepView,
};
use crate::store::{apply, apply_all, is_range_read, lookup, Contents, MutationView};

verus! {

/// A transaction of one write changes the contents by that write.
proof fn lemma_apply_one(contents: Contents, write: MutationView)
    ensures
        apply_all(contents, seq![write]) == apply(contents, write),
{
    reveal_with_fuel(apply_all, 2);
    assert(seq![write].drop_last() =~= Seq::<MutationView>::empty());
}

/// After a `create` of `key` with `value`, a `get` of `key` answers `value`.
pub proof fn law_get_after_create(contents: Contents, key: Seq<u8>, value: Seq<char>, ceiling: u32)
    requires
        ceiling >= 1,
    ensures
        ({
            let created = carry_out(
                OpKind::Create,
                key,
                encode_utf8(value),
                Seq::empty(),
                ceiling,
                contents,
            );
            let read = carry_out(
                OpKind::Get,
                key,
                Seq::empty(),
                Seq::empty(),
                ceiling,
                created.contents,
            );
            &&& created.outcome is Some
            &&& created.outcome->0 is Ok
            &&& read.contents == created.contents
            &&& read.outcome == Some(Ok::<OutputView, RepoError>(OutputView::Value(value)))
        }),
{
    broadcast use {vstd::utf8::encode_utf8_valid_utf8, vstd::utf8::encode_utf8_decode_utf8};

    reveal_with_fuel(run, 3);
    lemma_apply_one(contents, MutationView::Put { key, value: encode_utf8(value) });
}

/// A second `create` of the same key with the same value changes nothing and
/// writes nothing: the store holds after two what it holds after one.
pub proof fn law_create_is_idempotent(
    contents: Contents,
    key: Seq<u8>,
    value: Seq<u8>,
    ceiling: u32,
)
    requires
        ceiling >= 1,
    ensures
        ({
            let once = carry_out(OpKind::Create, key, value, Seq::empty(), ceiling, contents);
            let twice = carry_out(
                OpKind::Create,
                key,
                value,
                Seq::empty(),
                ceiling,
                once.contents,
            );
            &&& once.outcome is Some
            &&& once.outcome->0 is Ok
            &&& lookup(once.contents, key) == Some(value)
            &&& twice.contents == once.contents
            &&& twice.commits == 0
            &&& twice.outcome == Some(Ok::<OutputView, RepoError>(OutputView::Unchanged))
        }),
{
    reveal_with_fuel(run, 3);
    lemma_apply_one(contents, MutationView::Put { key, value });
}

/// A `delete` of a key that the store does not hold succeeds and leaves the
/// store as it was; and after any `delete` of a key the key is gone, so that
/// a second one changes nothing.
pub proof fn law_delete_is_idempotent(contents: Contents, key: Seq<u8>, ceiling: u32)
    requires
        ceiling >= 1,
    ensures
        ({
            let once = carry_out(
                OpKind::Delete,
                key,
                Seq::empty(),
                Seq::empty(),
                ceiling,
                contents,
            );
            let twice = carry_out(
                OpKind::Delete,
                key,
                Seq::empty(),
                Seq::empty(),
                ceiling,
                once.contents,
            );
            &&& once.outcome == Some(Ok::<OutputView, RepoError>(OutputView::Applied))
            &&& twice.outcome == Some(Ok::<OutputView, RepoError>(OutputView::Applied))
            &&& lookup(once.contents, key) is None
            &&& twice.contents == once.contents
            &&& !contents.contains_key(key) ==> once.contents == contents
        }),
{
    reveal_with_fuel(run, 3);
    let once = apply(contents, MutationView::Clear { key });
    lemma_apply_one(contents, MutationView::Clear { key });
    lemma_apply_one(once, MutationView::Clear { key });
    assert(apply(once, MutationView::Clear { key }) =~= once);
    if !contents.contains_key(key) {
        assert(once =~= contents);
    }
}

/// Of two `commit`s of the same key, one after the other, the second writes
/// nothing: the two together commit one transaction with writes at most, and
/// the store holds after the second what it holds after the first.
pub proof fn law_commit_writes_once(
    contents: Contents,
    key: Seq<u8>,
    value: Seq<u8>,
    again: Seq<u8>,
    ceiling: u32,
)
    requires
        ceiling >= 1,
    ensures
        ({
            let first = carry_out(OpKind::Commit, key, value, Seq::empty(), ceiling, contents);
            let second = carry_out(
                OpKind::Commit,
                key,
                again,
                Seq::empty(),
                ceiling,
                first.contents,
            );
            &&& first.outcome is Some
            &&& first.outcome->0 is Ok
            &&& lookup(first.contents, key) is Some
            &&& second.outcome == Some(Ok::<OutputView, RepoError>(OutputView::Unchanged))
            &&& second.contents == first.contents
            &&& second.commits == 0
            &&& first.commits + second.commits <= 1
            &&& contents.contains_key(key) ==> first.commits == 0 && first.contents == contents
            &&& !contents.contains_key(key) ==> lookup(first.contents, key) == Some(value)
        }),
{
    reveal_with_fuel(run, 3);
    lemma_apply_one(contents, MutationView::Put { key, value });
}

/// An operation on one key leaves every other key as it was, and a `get`
/// leaves the whole store as it was: what a `create` has stored stays until
/// the same key is created again, deleted, or cleared by a reset.
pub proof fn law_other_keys_untouched(
    contents: Contents,
    kind: OpKind,
    key: Seq<u8>,
    value: Seq<u8>,
    other: Seq<u8>,
    ceiling: u32,
)
    requires
        kind == OpKind::Create || kind == OpKind::Get || kind == OpKind::Delete || kind
            == OpKind::Commit,
        other != key,
    ensures
        ({
            let after = carry_out(kind, key, value, Seq::empty(), ceiling, contents);
            &&& lookup(after.contents, other) == lookup(contents, other)
            &&& kind == OpKind::Get ==> after.contents == contents
        }),
{
    reveal_with_fuel(run, 3);
    lemma_apply_one(contents, MutationView::Put { key, value });
    lemma_apply_one(contents, MutationView::Clear { key });
}

/// The value of the last row of `seed` whose key is `key`, if there is one.
pub open spec fn seeded_value(seed: Seq<(Seq<u8>, Seq<u8>)>, key: Seq<u8>) -> Option<Seq<u8>>
    decreases seed.len(),
{
    if seed.len() == 0 {
        None
    } else if seed.last().0 == key {
        Some(seed.last().1)
    } else {
        seeded_value(seed.drop_last(), key)
    }
}

/// No two rows of `seed` have the same key.
pub open spec fn distinct_keys(seed: Seq<(Seq<u8>, Seq<u8>)>) -> bool {
    forall|i: int, j: int| 0 <= i < j < seed.len() ==> seed[i].0 != seed[j].0
}

/// A seeded value comes from a row of the seed; and where the keys of the
/// seed are distinct, every row is the seeded value of its key.
proof fn lemma_seeded_value(seed: Seq<(Seq<u8>, Seq<u8>)>, key: Seq<u8>)
    ensures
        seeded_value(seed, key) matches Some(value) ==> seed.contains((key, value)),
        seeded_value(seed, key) is None ==> forall|i: int|
            0 <= i < seed.len() ==> (#[trigger] seed[i]).0 != key,
        distinct_keys(seed) ==> forall|i: int|
            0 <= i < seed.len() && (#[trigger] seed[i]).0 == key ==> seeded_value(seed, key)
                == Some(seed[i].1),
    decreases seed.len(),
{
    if seed.len() > 0 {
        let front = seed.drop_last();
        lemma_seeded_value(front, key);
        if seed.last().0 == key {
            assert(seed[seed.len() - 1] == (key, seed.last().1));
        } else {
            if let Some(value) = seeded_value(front, key) {
                let i = choose|i: int| 0 <= i < front.len() && front[i] == (key, value);
                assert(seed[i] == (key, value));
            }
        }
        assert forall|i: int| 0 <= i < front.len() implies front[i] == seed[i] by {}
    }
}

/// After a `reset`, a key holds what the last seed row of that key gave it;
/// a key without a seed row holds nothing if it is the key of a post, and
/// what it held before if it is not.
pub proof fn law_reset_contents(
    contents: Contents,
    seed: Seq<(Seq<u8>, Seq<u8>)>,
    key: Seq<u8>,
    ceiling: u32,
)
    requires
        ceiling >= 1,
    ensures
        ({
            let after = carry_out(
                OpKind::Reset,
                Seq::empty(),
                Seq::empty(),
                seed,
                ceiling,
                contents,
            );
            &&& after.outcome == Some(Ok::<OutputView, RepoError>(OutputView::Applied))
            &&& after.commits == 1
            &&& after.contents == apply_all(contents, reset_plan(seed))
            &&& lookup(after.contents, key) == match seeded_value(seed, key) {
                Some(value) => Some(value),
                None => if is_post_key(key) {
                    None
                } else {
                    lookup(contents, key)
                },
            }
        }),
{
    reveal_with_fuel(run, 3);
    lemma_reset_lookup(contents, seed, key);
}

/// What a key holds after the writes of a `reset`.
proof fn lemma_reset_lookup(contents: Contents, seed: Seq<(Seq<u8>, Seq<u8>)>, key: Seq<u8>)
    ensures
        lookup(apply_all(contents, reset_plan(seed)), key) == match seeded_value(seed, key) {
            Some(value) => Some(value),
            None => if is_post_key(key) {
                None
            } else {
                lookup(contents, key)
            },
        },
    decreases seed.len(),
{
    let clear = MutationView::ClearRange { begin: post_range_begin(), end: post_range_end() };
    if seed.len() == 0 {
        assert(reset_plan(seed) =~= seq![clear]);
        lemma_apply_one(contents, clear);
    } else {
        let front = seed.drop_last();
        lemma_reset_lookup(contents, front, key);
        assert(reset_plan(seed).drop_last() =~= reset_plan(front));
        assert(reset_plan(seed).last() == put_of(seed.last()));
    }
}

/// A scan of the posts of a store whose posts are exactly the rows of
/// `seed`, no more than one scan returns, returns exactly those rows.
proof fn lemma_scan_of_exact_rows(
    contents: Contents,
    seed: Seq<(Seq<u8>, Seq<u8>)>,
    rows: Seq<(Seq<u8>, Seq<u8>)>,
)
    requires
        seed.len() <= SCAN_LIMIT,
        distinct_keys(seed),
        forall|i: int| 0 <= i < seed.len() ==> is_post_key((#[trigger] seed[i]).0),
        forall|key: Seq<u8>|
            is_post_key(key) ==> #[trigger] lookup(contents, key) == seeded_value(seed, key),
        is_range_read(contents, post_range_begin(), post_range_end(), SCAN_LIMIT as nat, rows),
    ensures
        rows.len() == seed.len(),
        rows.no_duplicates(),
        distinct_keys(rows),
        forall|i: int| 0 <= i < rows.len() ==> seed.contains(#[trigger] rows[i]),
        forall|i: int| 0 <= i < seed.len() ==> rows.contains(#[trigger] seed[i]),
        forall|i: int| 0 <= i < rows.len() ==> is_post_key((#[trigger] rows[i]).0),
        capped(rows) == rows,
{
    let row_keys = rows.map_values(|row: (Seq<u8>, Seq<u8>)| row.0);
    let seed_keys = seed.map_values(|row: (Seq<u8>, Seq<u8>)| row.0);

    assert forall|i: int, j: int| 0 <= i < j < rows.len() implies rows[i].0 != rows[j].0 by {
        lemma_key_lt_irreflexive(rows[i].0);
    }
    assert forall|i: int| 0 <= i < rows.len() implies seed.contains(#[trigger] rows[i]) by {
        assert(lookup(contents, rows[i].0) == seeded_value(seed, rows[i].0));
        lemma_seeded_value(seed, rows[i].0);
    }
    assert(row_keys.no_duplicates());
    assert(seed_keys.no_duplicates());
    row_keys.unique_seq_to_set();
    seed_keys.unique_seq_to_set();
    assert forall|key: Seq<u8>| row_keys.to_set().contains(key) implies seed_keys.to_set().contains(
        key,
    ) by {
        let i = choose|i: int| 0 <= i < row_keys.len() && row_keys[i] == key;
        assert(seed.contains(rows[i]));
        let j = choose|j: int| 0 <= j < seed.len() && seed[j] == rows[i];
        assert(seed_keys[j] == key);
    }
    assert forall|i: int| 0 <= i < seed.len() implies rows.contains(#[trigger] seed[i]) by {
        let key = seed[i].0;
        assert(lookup(contents, key) == seeded_value(seed, key));
        lemma_seeded_value(seed, key);
        assert(contents.contains_key(key));
        if exists|j: int| 0 <= j < rows.len() && (#[trigger] rows[j]).0 == key {
            let j = choose|j: int| 0 <= j < rows.len() && (#[trigger] rows[j]).0 == key;
            assert(rows[j] == seed[i]);
        } else {
            assert(rows.len() == SCAN_LIMIT);
            assert(seed_keys[i] == key);
            let others = seed_keys.to_set().remove(key);
            assert(row_keys.to_set().subset_of(others)) by {
                assert forall|k: Seq<u8>| row_keys.to_set().contains(k) implies others.contains(
                    k,
                ) by {
                    let j = choose|j: int| 0 <= j < row_keys.len() && row_keys[j] == k;
                    assert(rows[j].0 == k);
                }
            }
            lemma_len_subset(row_keys.to_set(), others);
            assert(false);
        }
    }
    assert(row_keys.to_set() =~= seed_keys.to_set()) by {
        assert forall|key: Seq<u8>| seed_keys.to_set().contains(key) implies row_keys.to_set().contains(
            key,
        ) by {
            let i = choose|i: int| 0 <= i < seed_keys.len() && seed_keys[i] == key;
            assert(rows.contains(seed[i]));
            let j = choose|j: int| 0 <= j < rows.len() && rows[j] == seed[i];
            assert(row_keys[j] == key);
        }
    }
    assert forall|i: int, j: int| 0 <= i < j < rows.len() implies rows[i] != rows[j] by {}
}

/// After a `reset` to seed rows that are posts with distinct keys, no more
/// than one scan returns, a scan of the posts returns exactly the seed rows:
/// every row of the seed, no other row, and none twice. The listing keeps
/// them all.
pub proof fn law_list_after_reset(
    contents: Contents,
    seed: Seq<(Seq<u8>, Seq<u8>)>,
    rows: Seq<(Seq<u8>, Seq<u8>)>,
    ceiling: u32,
)
    requires
        ceiling >= 1,
        seed.len() <= SCAN_LIMIT,
        distinct_keys(seed),
        forall|i: int| 0 <= i < seed.len() ==> is_post_key((#[trigger] seed[i]).0),
        is_range_read(
            carry_out(OpKind::Reset, Seq::empty(), Seq::empty(), seed, ceiling, contents).contents,
            post_range_begin(),
            post_range_end(),
            SCAN_LIMIT as nat,
            rows,
        ),
    ensures
        rows.len() == seed.len(),
        rows.no_duplicates(),
        distinct_keys(rows),
        forall|i: int| 0 <= i < rows.len() ==> seed.contains(#[trigger] rows[i]),
        forall|i: int| 0 <= i < seed.len() ==> rows.contains(#[trigger] seed[i]),
        forall|i: int| 0 <= i < rows.len() ==> is_post_key((#[trigger] rows[i]).0),
        listing_outcome(rows) == rows_outcome(rows),
{
    reveal_with_fuel(run, 3);
    let after = apply_all(contents, reset_plan(seed));
    assert forall|key: Seq<u8>| is_post_key(key) implies #[trigger] lookup(after, key)
        == seeded_value(seed, key) by {
        lemma_reset_lookup(contents, seed, key);
    }
    lemma_scan_of_exact_rows(after, seed, rows);
}

/// What a session says after the store has answered its next `count` calls
/// with a conflict each.
pub open spec fn after_conflicts(step: StepView, count: nat) -> StepView
    decreases count,
{
    if count == 0 {
        step
    } else {
        match step {
            StepView::Done { .. } => step,
            StepView::Call { session, .. } => after_conflicts(
                next_step(session, EventView::Conflict),
                (count - 1) as nat,
            ),
        }
    }
}

/// A session whose transaction has `attempts_left` attempts goes on through
/// fewer conflicts than that, and gives up at the last of them.
proof fn lemma_conflicts_exhaust(session: SessionView, count: nat)
    requires
        session_valid(session),
        count <= session.attempts_left,
    ensures
        count < session.attempts_left ==> after_conflicts(call_of(session), count) is Call,
        count == session.attempts_left ==> after_conflicts(call_of(session), count)
            == (StepView::Done { outcome: Err(RepoError::ConflictExhausted) }),
    decreases count,
{
    if count > 0 && session.attempts_left > 1 {
        let next = next_step(session, EventView::Conflict);
        lemma_conflicts_exhaust(next->session, (count - 1) as nat);
    } else if count > 0 {
        reveal_with_fuel(after_conflicts, 2);
    }
}

/// No operation retries for ever: when the store answers with a conflict
/// every time, the operation goes on for `ceiling` attempts and then fails
/// with `ConflictExhausted`.
pub proof fn law_conflicts_exhaust(
    kind: OpKind,
    key: Seq<u8>,
    value: Seq<u8>,
    rows: Seq<(Seq<u8>, Seq<u8>)>,
    ceiling: u32,
    count: nat,
)
    requires
        count <= ceiling,
    ensures
        ({
            let step = after_conflicts(first_step_of(kind, key, value, rows, ceiling), count);
            &&& count < ceiling ==> step is Call
            &&& count == ceiling ==> step == (StepView::Done {
                outcome: Err(RepoError::ConflictExhausted),
            })
        }),
{
    if ceiling > 0 {
        let first = first_step_of(kind, key, value, rows, ceiling);
        lemma_conflicts_exhaust(first->session, count);
    }
}

/// What the store holds after a `create` of each row of `posts`, one after
/// the other.
pub open spec fn create_each(contents: Contents, posts: Seq<(Seq<u8>, Seq<u8>)>, ceiling: u32) -> Contents
    decreases posts.len(),
{
    if posts.len() == 0 {
        contents
    } else {
        carry_out(
            OpKind::Create,
            posts.last().0,
            posts.last().1,
            Seq::empty(),
            ceiling,
            create_each(contents, posts.drop_last(), ceiling),
        ).contents
    }
}

/// No `create` is lost: after the `create`s of rows with distinct keys, in
/// whatever order they took place, every one of the keys holds its value.
pub proof fn law_no_create_is_lost(
    contents: Contents,
    posts: Seq<(Seq<u8>, Seq<u8>)>,
    ceiling: u32,
    i: int,
)
    requires
        ceiling >= 1,
        distinct_keys(posts),
        0 <= i < posts.len(),
    ensures
        lookup(create_each(contents, posts, ceiling), posts[i].0) == Some(posts[i].1),
    decreases posts.len(),
{
    let before = create_each(contents, posts.drop_last(), ceiling);
    if i == posts.len() - 1 {
        law_create_is_idempotent(before, posts.last().0, posts.last().1, ceiling);
    } else {
        law_no_create_is_lost(contents, posts.drop_last(), ceiling, i);
        law_other_keys_untouched(
            before,
            OpKind::Create,
            posts.last().0,
            posts.last().1,
            posts[i].0,
            ceiling,
        );
    }
}

/// After the `create`s of `posts`, a key holds what the last of them with
/// that key stored, and a key that none of them names holds what it held.
proof fn lemma_create_each_lookup(
    contents: Contents,
    posts: Seq<(Seq<u8>, Seq<u8>)>,
    ceiling: u32,
    key: Seq<u8>,
)
    requires
        ceiling >= 1,
    ensures
        lookup(create_each(contents, posts, ceiling), key) == match seeded_value(posts, key) {
            Some(value) => Some(value),
            None => lookup(contents, key),
        },
    decreases posts.len(),
{
    if posts.len() > 0 {
        let before = create_each(contents, posts.drop_last(), ceiling);
        lemma_create_each_lookup(contents, posts.drop_last(), ceiling, key);
        if posts.last().0 == key {
            law_create_is_idempotent(before, key, posts.last().1, ceiling);
        } else {
            law_other_keys_untouched(
                before,
                OpKind::Create,
                posts.last().0,
                posts.last().1,
                key,
                ceiling,
            );
        }
    }
}

/// After the `create`s of posts with distinct keys, no more than one scan
/// returns, in a store that held no post before, a scan of the posts returns
/// one row for each `create`, in whatever order the `create`s took place:
/// exactly the rows that were created, and the listing keeps them all.
pub proof fn law_list_after_creates(
    contents: Contents,
    posts: Seq<(Seq<u8>, Seq<u8>)>,
    rows: Seq<(Seq<u8>, Seq<u8>)>,
    ceiling: u32,
)
    requires
        ceiling >= 1,
        posts.len() <= SCAN_LIMIT,
        distinct_keys(posts),
        forall|i: int| 0 <= i < posts.len() ==> is_post_key((#[trigger] posts[i]).0),
        forall|key: Seq<u8>| is_post_key(key) ==> !contents.contains_key(key),
        is_range_read(
            create_each(contents, posts, ceiling),
            post_range_begin(),
            post_range_end(),
            SCAN_LIMIT as nat,
            rows,
        ),
    ensures
        rows.len() == posts.len(),
        rows.no_duplicates(),
        forall|i: int| 0 <= i < rows.len() ==> posts.contains(#[trigger] rows[i]),
        forall|i: int| 0 <= i < posts.len() ==> rows.contains(#[trigger] posts[i]),
        listing_outcome(rows) == rows_outcome(rows),
{
    let after = create_each(contents, posts, ceiling);
    assert forall|key: Seq<u8>| is_post_key(key) implies #[trigger] lookup(after, key)
        == seeded_value(posts, key) by {
        lemma_create_each_lookup(contents, posts, ceiling, key);
    }
    lemma_scan_of_exact_rows(after, posts, rows);
}

} // verus!
