//! The load simulator's plan: what each worker of a pool does, on which
//! keys, and what it does when the post it went for is gone.
//!
//! The workers themselves, their threads and their dice belong to whoever
//! runs the simulation. This module decides.

use vstd::prelude::*;
use vstd::string::*;
use vstd::utf8::encode_utf8;
use crate::keyspace::{is_post_key, lemma_post_keys_are_prefixed, post_range_begin};
use crate::repository::Post;
use crate::session::{operation_parts, OpKind, Operation};
use crate::text::{
    append_decimal, decimal, is_digit, lemma_decimal_is_digits, lemma_decimal_is_injective,
    lemma_digits_end_at_mark,
};

verus! {

/// What a worker can do in one round.
#[derive(Clone, Copy, Debug, PartialEq, Eq)]
pub enum WorkerOp {
    Create,
    Get,
    Delete,
    Commit,
}

/// One round of a worker, as the caller's policy chose it: what to do, and
/// on which of the worker's keys.
#[derive(Clone, Copy, Debug, PartialEq, Eq)]
pub struct Round {
    pub op: WorkerOp,
    pub slot: usize,
}

/// The key number `slot` of worker number `worker`: `post-w`, the worker in
/// decimal, a hyphen, the slot in decimal.
pub open spec fn worker_key_text(worker: nat, slot: nat) -> Seq<char> {
    "post-w"@ + decimal(worker) + seq!['-'] + decimal(slot)
}

/// The value that worker number `worker` stores under its key number `slot`.
pub open spec fn worker_value_text(worker: nat, slot: nat) -> Seq<char> {
    "worker "@ + decimal(worker) + " slot "@ + decimal(slot)
}

/// The kind of operation that a worker's choice stands for.
pub open spec fn kind_of(op: WorkerOp) -> OpKind {
    match op {
        WorkerOp::Create => OpKind::Create,
        WorkerOp::Get => OpKind::Get,
        WorkerOp::Delete => OpKind::Delete,
        WorkerOp::Commit => OpKind::Commit,
    }
}

/// The operation of one round of worker number `worker`, by its kind, key,
/// value and rows: it acts on the worker's key of that slot, and what it
/// stores there is the worker's value of that slot.
pub open spec fn planned_parts(worker: nat, round: Round) -> (
    OpKind,
    Seq<u8>,
    Seq<u8>,
    Seq<(Seq<u8>, Seq<u8>)>,
) {
    let key = encode_utf8(worker_key_text(worker, round.slot as nat));
    let value = match round.op {
        WorkerOp::Create | WorkerOp::Commit => encode_utf8(
            worker_value_text(worker, round.slot as nat),
        ),
        WorkerOp::Get | WorkerOp::Delete => Seq::empty(),
    };
    (kind_of(round.op), key, value, Seq::empty())
}

/// The key number `slot` of worker number `worker`.
pub fn worker_key(worker: usize, slot: usize) -> (key: String)
    ensures
        key@ == worker_key_text(worker as nat, slot as nat),
{
    let mut key = String::from_str("post-w");
    append_decimal(&mut key, worker);
    proof {
        reveal_strlit("-");
    }
    key.append("-");
    append_decimal(&mut key, slot);
    assert(key@ =~= worker_key_text(worker as nat, slot as nat));
    key
}

/// The value that worker number `worker` stores under its key number `slot`.
pub fn worker_value(worker: usize, slot: usize) -> (value: String)
    ensures
        value@ == worker_value_text(worker as nat, slot as nat),
{
    let mut value = String::from_str("worker ");
    append_decimal(&mut value, worker);
    value.append(" slot ");
    append_decimal(&mut value, slot);
    value
}

/// The operation of one round of worker number `worker`.
pub fn plan_round(worker: usize, round: Round) -> (operation: Operation)
    ensures
        operation_parts(operation) == planned_parts(worker as nat, round),
{
    let key = worker_key(worker, round.slot);
    match round.op {
        WorkerOp::Create => Operation::Create { key, value: worker_value(worker, round.slot) },
        WorkerOp::Get => Operation::Get { key },
        WorkerOp::Delete => Operation::Delete { key },
        WorkerOp::Commit => Operation::Commit { key, value: worker_value(worker, round.slot) },
    }
}

/// `script` holds the operations of worker number `worker` under `policy`:
/// one for each round, in order.
pub open spec fn is_script_of(script: Seq<Operation>, worker: nat, policy: Seq<Round>) -> bool {
    &&& script.len() == policy.len()
    &&& forall|i: int|
        0 <= i < policy.len() ==> operation_parts(#[trigger] script[i]) == planned_parts(
            worker,
            policy[i],
        )
}

/// The operations of worker number `worker`, one for each round of its
/// policy, in order.
pub fn worker_script(worker: usize, policy: &Vec<Round>) -> (script: Vec<Operation>)
    ensures
        is_script_of(script@, worker as nat, policy@),
{
    let mut script: Vec<Operation> = Vec::new();
    let mut i: usize = 0;
    while i < policy.len()
        invariant
            i <= policy@.len(),
            is_script_of(script@, worker as nat, policy@.take(i as int)),
        decreases policy@.len() - i,
    {
        script.push(plan_round(worker, policy[i]));
        i = i + 1;
    }
    assert(policy@.take(policy@.len() as int) =~= policy@);
    script
}

/// The scripts of a pool of `workers` workers that all follow `policy`:
/// the script of worker 0, of worker 1, and so on.
pub fn pool_scripts(workers: usize, policy: &Vec<Round>) -> (scripts: Vec<Vec<Operation>>)
    ensures
        scripts@.len() == workers,
        forall|w: int|
            0 <= w < workers ==> is_script_of((#[trigger] scripts@[w])@, w as nat, policy@),
{
    let mut scripts: Vec<Vec<Operation>> = Vec::new();
    let mut worker: usize = 0;
    while worker < workers
        invariant
            worker <= workers,
            scripts@.len() == worker,
            forall|w: int|
                0 <= w < worker ==> is_script_of((#[trigger] scripts@[w])@, w as nat, policy@),
        decreases workers - worker,
    {
        scripts.push(worker_script(worker, policy));
        worker = worker + 1;
    }
    scripts
}

/// What a worker does when the post it went for is gone.
#[derive(Clone, Debug, PartialEq, Eq)]
pub enum Recovery {
    /// Go for the post under `key`, with `tries_left` further tries after it.
    Retry { key: String, tries_left: u32 },
    /// Report that no post could be had.
    GiveUp,
}

/// The place in a list of `count` candidates that the sample `sample` picks.
pub open spec fn picked(count: nat, sample: nat) -> nat
    recommends
        count > 0,
{
    sample % count
}

/// Decides how to go on after the post that a worker went for was gone, from
/// the posts `available` that a fresh listing returned, the sample that the
/// worker drew, and the number of tries that it has left. The worker gives up
/// when it has no try left or when there is no post to go for; else it goes
/// for the post that its sample picks among the available ones.
pub fn refresh_choice(available: &Vec<Post>, sample: usize, tries_left: u32) -> (recovery:
    Recovery)
    ensures
        tries_left == 0 || available@.len() == 0 ==> recovery == Recovery::GiveUp,
        tries_left > 0 && available@.len() > 0 ==> (recovery matches Recovery::Retry {
            key,
            tries_left: left,
        } && left == tries_left - 1 && key@ == available@[picked(
            available@.len(),
            sample as nat,
        ) as int].key@),
{
    if tries_left == 0 || available.len() == 0 {
        return Recovery::GiveUp;
    }
    let index = sample % available.len();
    Recovery::Retry { key: available[index].key.clone(), tries_left: tries_left - 1 }
}

/// The keys of the workers are keys of posts: a scan of the posts finds what
/// the workers have stored.
pub proof fn law_worker_keys_are_post_keys(worker: nat, slot: nat)
    ensures
        is_post_key(encode_utf8(worker_key_text(worker, slot))),
{
    let stem = "post-w"@;
    let text = worker_key_text(worker, slot);
    reveal_strlit("post-w");
    lemma_decimal_is_digits(worker);
    lemma_decimal_is_digits(slot);
    assert(vstd::utf8::is_ascii_chars(text)) by {
        assert forall|i: int| 0 <= i < text.len() implies '\0' <= #[trigger] text[i]
            <= '\u{7f}' by {
            let w = decimal(worker);
            let s = decimal(slot);
            if i < stem.len() {
                assert(text[i] == stem[i]);
            } else if i < stem.len() + w.len() {
                assert(text[i] == w[i - stem.len()]);
                assert(is_digit(w[i - stem.len()]));
            } else if i == stem.len() + w.len() {
                assert(text[i] == '-');
            } else {
                assert(text[i] == s[i - stem.len() - w.len() - 1]);
                assert(is_digit(s[i - stem.len() - w.len() - 1]));
            }
        }
    }
    vstd::utf8::is_ascii_chars_encode_utf8(text);
    let bytes = encode_utf8(text);
    assert(text[0] == 'p' && text[1] == 'o' && text[2] == 's' && text[3] == 't' && text[4] == '-');
    assert(bytes.take(5) =~= post_range_begin());
    lemma_post_keys_are_prefixed(bytes);
}

/// No two workers share a key, and no worker has two slots under one key.
pub proof fn law_worker_keys_differ(worker: nat, slot: nat, other: nat, other_slot: nat)
    requires
        worker != other || slot != other_slot,
    ensures
        worker_key_text(worker, slot) != worker_key_text(other, other_slot),
        encode_utf8(worker_key_text(worker, slot)) != encode_utf8(
            worker_key_text(other, other_slot),
        ),
{
    broadcast use vstd::utf8::encode_utf8_decode_utf8;

    let stem = "post-w"@;
    let left = worker_key_text(worker, slot);
    let right = worker_key_text(other, other_slot);
    if left == right {
        let rest_left = decimal(worker) + seq!['-'] + decimal(slot);
        let rest_right = decimal(other) + seq!['-'] + decimal(other_slot);
        assert(left =~= stem + rest_left);
        assert(right =~= stem + rest_right);
        assert(rest_left =~= (stem + rest_left).skip(stem.len() as int));
        assert(rest_right =~= (stem + rest_right).skip(stem.len() as int));
        lemma_decimal_is_digits(worker);
        lemma_decimal_is_digits(other);
        lemma_digits_end_at_mark(
            decimal(worker),
            decimal(slot),
            decimal(other),
            decimal(other_slot),
            '-',
        );
        lemma_decimal_is_injective(worker, other);
        lemma_decimal_is_injective(slot, other_slot);
    }
    if encode_utf8(left) == encode_utf8(right) {
        assert(vstd::utf8::decode_utf8(encode_utf8(left)) == left);
        assert(vstd::utf8::decode_utf8(encode_utf8(right)) == right);
    }
}

} // verus!
