//! One operation of the repository as a conversation with the store.
//!
//! A session never touches the store. It says which call is to be made next,
//! takes what the store answered, and says so again until the operation is
//! over. Whoever drives it makes the calls. A transaction that the store
//! could not commit is run again from its first read, up to a ceiling of
//! attempts.

use vstd::prelude::*;
use vstd::slice::slice_to_vec;
use vstd::utf8::encode_utf8;
use crate::keyspace::{post_key_begin, post_key_end, post_range_begin, post_range_end};
use crate::repository::{
    create_plan, create_writes, delete_plan, delete_writes, list_rows, listing_outcome,
    posts_view, publish_plan, publish_writes, read_value, reset_plan, reset_writes,
    value_outcome, Post, RepoError, SCAN_LIMIT,
};
use crate::store::{
    apply_all, lookup, mutations_view, rows_view, value_view, Contents, Mutation, MutationView, Row,
};
use crate::text::encode_text;

verus! {

/// An operation of the repository, with its arguments.
#[derive(Clone, Debug, PartialEq, Eq)]
pub enum Operation {
    /// Stores `value` under `key`, unless `key` holds just that already.
    Create { key: String, value: String },
    /// Reads the value under `key`.
    Get { key: String },
    /// Removes `key`.
    Delete { key: String },
    /// Publishes `value` under `key`, unless `key` is published already.
    Commit { key: String, value: String },
    /// Reads the posts that the store holds.
    ListAvailable,
    /// Replaces all posts by the seed rows `rows`.
    Reset { rows: Vec<Row> },
}

/// What an operation is, without its arguments.
#[derive(Clone, Copy, Debug, PartialEq, Eq)]
pub enum OpKind {
    Create,
    Get,
    Delete,
    Commit,
    ListAvailable,
    Reset,
}

/// Where a session stands in its current transaction.
#[derive(Clone, Copy, Debug, PartialEq, Eq)]
pub enum Phase {
    /// It awaits the answer to a read.
    Reading,
    /// It awaits the answer to a commit of writes.
    Writing,
}

/// A call on the store.
#[derive(Clone, Debug, PartialEq, Eq)]
pub enum Request {
    /// Read `key` in a new transaction.
    Read { key: Vec<u8> },
    /// In a new transaction, read the rows whose keys lie from `begin`
    /// (inclusive) to `end` (exclusive), the first `limit` of them at most.
    Scan { begin: Vec<u8>, end: Vec<u8>, limit: usize },
    /// Make `writes` and commit: in a new transaction if `fresh`, else in the
    /// transaction of the read that came before.
    Write { writes: Vec<Mutation>, fresh: bool },
}

/// What the store answered.
#[derive(Clone, Debug, PartialEq, Eq)]
pub enum Event {
    /// The value that a read found, if any.
    Value(Option<Vec<u8>>),
    /// The rows that a scan found.
    Rows(Vec<Row>),
    /// The transaction is committed.
    Committed,
    /// The store could not complete the transaction; it may be run again.
    Conflict,
}

/// What an operation answers when it succeeds.
#[derive(Clone, Debug, PartialEq, Eq)]
pub enum Output {
    /// A transaction with writes was committed.
    Applied,
    /// Nothing had to be written.
    Unchanged,
    /// The value that `get` read.
    Value(String),
    /// The posts that `list_available` read.
    Posts(Vec<Post>),
}

/// A call on the store, as plain values.
pub enum RequestView {
    Read { key: Seq<u8> },
    Scan { begin: Seq<u8>, end: Seq<u8>, limit: usize },
    Write { writes: Seq<MutationView>, fresh: bool },
}

/// An answer of the store, as plain values.
pub enum EventView {
    Value(Option<Seq<u8>>),
    Rows(Seq<(Seq<u8>, Seq<u8>)>),
    Committed,
    Conflict,
}

/// The answer of an operation, as plain values.
pub enum OutputView {
    Applied,
    Unchanged,
    Value(Seq<char>),
    Posts(Seq<(Seq<char>, Seq<char>)>),
}

impl View for Request {
    type V = RequestView;

    open spec fn view(&self) -> RequestView {
        match self {
            Request::Read { key } => RequestView::Read { key: key@ },
            Request::Scan { begin, end, limit } => RequestView::Scan {
                begin: begin@,
                end: end@,
                limit: *limit,
            },
            Request::Write { writes, fresh } => RequestView::Write {
                writes: mutations_view(writes@),
                fresh: *fresh,
            },
        }
    }
}

impl View for Event {
    type V = EventView;

    open spec fn view(&self) -> EventView {
        match self {
            Event::Value(found) => EventView::Value(value_view(*found)),
            Event::Rows(rows) => EventView::Rows(rows_view(rows@)),
            Event::Committed => EventView::Committed,
            Event::Conflict => EventView::Conflict,
        }
    }
}

impl View for Output {
    type V = OutputView;

    open spec fn view(&self) -> OutputView {
        match self {
            Output::Applied => OutputView::Applied,
            Output::Unchanged => OutputView::Unchanged,
            Output::Value(text) => OutputView::Value(text@),
            Output::Posts(posts) => OutputView::Posts(posts_view(posts@)),
        }
    }
}

/// The state of a session, as plain values.
pub struct SessionView {
    /// The operation that the session carries out.
    pub kind: OpKind,
    /// The key of the operation, as the store holds it; empty where it has none.
    pub key: Seq<u8>,
    /// The value of the operation, as the store holds it; empty where it has none.
    pub value: Seq<u8>,
    /// The seed rows of a reset; empty for the other operations.
    pub rows: Seq<(Seq<u8>, Seq<u8>)>,
    /// Where the session stands in its current transaction.
    pub phase: Phase,
    /// The number of attempts that each transaction has.
    pub ceiling: u32,
    /// The number of attempts that the current transaction has left, the
    /// running one included.
    pub attempts_left: u32,
}

/// An operation under way.
pub struct Session {
    kind: OpKind,
    key: Vec<u8>,
    value: Vec<u8>,
    rows: Vec<Row>,
    phase: Phase,
    ceiling: u32,
    attempts_left: u32,
}

impl View for Session {
    type V = SessionView;

    closed spec fn view(&self) -> SessionView {
        SessionView {
            kind: self.kind,
            key: self.key@,
            value: self.value@,
            rows: rows_view(self.rows@),
            phase: self.phase,
            ceiling: self.ceiling,
            attempts_left: self.attempts_left,
        }
    }
}

/// What a session says after each answer.
pub enum Step {
    /// The call `request` is to be made, and its answer handed to `session`.
    Call { session: Session, request: Request },
    /// The operation is over, with this result.
    Done { outcome: Result<Output, RepoError> },
}

/// What a session says, as plain values.
pub enum StepView {
    Call { session: SessionView, request: RequestView },
    Done { outcome: Result<OutputView, RepoError> },
}

impl View for Step {
    type V = StepView;

    open spec fn view(&self) -> StepView {
        match self {
            Step::Call { session, request } => StepView::Call {
                session: session@,
                request: request@,
            },
            Step::Done { outcome } => StepView::Done {
                outcome: match outcome {
                    Ok(output) => Ok(output@),
                    Err(error) => Err(*error),
                },
            },
        }
    }
}

/// The phase in which an operation of this kind begins.
pub open spec fn first_phase(kind: OpKind) -> Phase {
    match kind {
        OpKind::Create | OpKind::Get | OpKind::Commit | OpKind::ListAvailable => Phase::Reading,
        OpKind::Delete | OpKind::Reset => Phase::Writing,
    }
}

/// The states that a session can be in: it has an attempt left, and it
/// awaits an answer that its operation asks for.
pub open spec fn session_valid(session: SessionView) -> bool {
    &&& 1 <= session.attempts_left <= session.ceiling
    &&& match session.kind {
        OpKind::Create | OpKind::Commit => true,
        OpKind::Get | OpKind::ListAvailable => session.phase == Phase::Reading,
        OpKind::Delete | OpKind::Reset => session.phase == Phase::Writing,
    }
}

/// The call whose answer `session` awaits. A session that awaits the commit
/// of a `create` or of a `commit` has found that the write is due, and its
/// writes are those of the operation on a key without that value.
pub open spec fn pending(session: SessionView) -> RequestView {
    match session.phase {
        Phase::Reading => match session.kind {
            OpKind::ListAvailable => RequestView::Scan {
                begin: post_range_begin(),
                end: post_range_end(),
                limit: SCAN_LIMIT,
            },
            _ => RequestView::Read { key: session.key },
        },
        Phase::Writing => match session.kind {
            OpKind::Delete => RequestView::Write { writes: delete_plan(session.key), fresh: true },
            OpKind::Reset => RequestView::Write { writes: reset_plan(session.rows), fresh: true },
            OpKind::Commit => RequestView::Write {
                writes: publish_plan(session.key, session.value, None),
                fresh: true,
            },
            _ => RequestView::Write {
                writes: create_plan(session.key, session.value, None),
                fresh: false,
            },
        },
    }
}

/// `event` is an answer to the call that `session` awaits.
pub open spec fn answers(session: SessionView, event: EventView) -> bool {
    match event {
        EventView::Conflict => true,
        EventView::Committed => session.phase == Phase::Writing,
        EventView::Value(_) => session.phase == Phase::Reading && session.kind
            != OpKind::ListAvailable,
        EventView::Rows(_) => session.phase == Phase::Reading && session.kind
            == OpKind::ListAvailable,
    }
}

/// The step that asks for the call that `session` awaits.
pub open spec fn call_of(session: SessionView) -> StepView {
    StepView::Call { session, request: pending(session) }
}

/// What a session says when its transaction met a conflict: the transaction
/// is run again from its first call if it has an attempt left, else the
/// operation fails.
pub open spec fn after_conflict(session: SessionView) -> StepView {
    if session.attempts_left <= 1 {
        StepView::Done { outcome: Err(RepoError::ConflictExhausted) }
    } else {
        let phase = if session.kind == OpKind::Commit {
            session.phase
        } else {
            first_phase(session.kind)
        };
        call_of(
            SessionView { phase, attempts_left: (session.attempts_left - 1) as u32, ..session },
        )
    }
}

/// What a session says when its read returned `found`.
pub open spec fn after_value(session: SessionView, found: Option<Seq<u8>>) -> StepView {
    match session.kind {
        OpKind::Create => if create_plan(session.key, session.value, found).len() == 0 {
            StepView::Done { outcome: Ok(OutputView::Unchanged) }
        } else {
            call_of(SessionView { phase: Phase::Writing, ..session })
        },
        OpKind::Commit => if publish_plan(session.key, session.value, found).len() == 0 {
            StepView::Done { outcome: Ok(OutputView::Unchanged) }
        } else {
            call_of(
                SessionView { phase: Phase::Writing, attempts_left: session.ceiling, ..session },
            )
        },
        _ => StepView::Done {
            outcome: match value_outcome(found) {
                Ok(text) => Ok(OutputView::Value(text)),
                Err(error) => Err(error),
            },
        },
    }
}

/// What a session says when its scan returned `rows`: the posts of the
/// first `SCAN_LIMIT` rows.
pub open spec fn after_rows(rows: Seq<(Seq<u8>, Seq<u8>)>) -> StepView {
    StepView::Done {
        outcome: match listing_outcome(rows) {
            Ok(posts) => Ok(OutputView::Posts(posts)),
            Err(error) => Err(error),
        },
    }
}

/// What `session` says when the store answers `event`. An event that is no
/// answer to the call that the session awaits changes nothing: the session
/// asks for that call again.
pub open spec fn next_step(session: SessionView, event: EventView) -> StepView {
    if !answers(session, event) {
        call_of(session)
    } else {
        match event {
            EventView::Conflict => after_conflict(session),
            EventView::Committed => StepView::Done { outcome: Ok(OutputView::Applied) },
            EventView::Value(found) => after_value(session, found),
            EventView::Rows(rows) => after_rows(rows),
        }
    }
}

/// The kind of `operation`, its key and value as the store holds them, and
/// its seed rows, as a session keeps them.
pub open spec fn operation_parts(operation: Operation) -> (
    OpKind,
    Seq<u8>,
    Seq<u8>,
    Seq<(Seq<u8>, Seq<u8>)>,
) {
    match operation {
        Operation::Create { key, value } => (
            OpKind::Create,
            encode_utf8(key@),
            encode_utf8(value@),
            Seq::empty(),
        ),
        Operation::Get { key } => (OpKind::Get, encode_utf8(key@), Seq::empty(), Seq::empty()),
        Operation::Delete { key } => (
            OpKind::Delete,
            encode_utf8(key@),
            Seq::empty(),
            Seq::empty(),
        ),
        Operation::Commit { key, value } => (
            OpKind::Commit,
            encode_utf8(key@),
            encode_utf8(value@),
            Seq::empty(),
        ),
        Operation::ListAvailable => (
            OpKind::ListAvailable,
            Seq::empty(),
            Seq::empty(),
            Seq::empty(),
        ),
        Operation::Reset { rows } => (
            OpKind::Reset,
            Seq::empty(),
            Seq::empty(),
            rows_view(rows@),
        ),
    }
}

/// What a session says first, for an operation of this kind on `key`,
/// `value` and `rows`, with `ceiling` attempts for each of its transactions:
/// its first call, or failure if it has no attempt.
pub open spec fn first_step_of(
    kind: OpKind,
    key: Seq<u8>,
    value: Seq<u8>,
    rows: Seq<(Seq<u8>, Seq<u8>)>,
    ceiling: u32,
) -> StepView {
    if ceiling == 0 {
        StepView::Done { outcome: Err(RepoError::ConflictExhausted) }
    } else {
        call_of(
            SessionView {
                kind,
                key,
                value,
                rows,
                phase: first_phase(kind),
                ceiling,
                attempts_left: ceiling,
            },
        )
    }
}

/// What a session says first, for `operation`.
pub open spec fn first_step(operation: Operation, ceiling: u32) -> StepView {
    let (kind, key, value, rows) = operation_parts(operation);
    first_step_of(kind, key, value, rows, ceiling)
}

/// The largest number of answers that `session` can still take before its
/// operation is over.
pub open spec fn steps_left(session: SessionView) -> int {
    2 * session.attempts_left + (if session.kind == OpKind::Commit && session.phase
        == Phase::Reading {
        2 * session.ceiling
    } else {
        0
    }) - (if session.phase == Phase::Writing {
        1int
    } else {
        0int
    })
}

/// How an operation went against a store that answers truthfully.
pub struct Run {
    /// What the store holds afterwards.
    pub contents: Contents,
    /// The result of the operation; `None` if it is not over.
    pub outcome: Option<Result<OutputView, RepoError>>,
    /// The number of transactions with writes that were committed.
    pub commits: nat,
}

/// Carries on from `step` against a store that holds `contents`, answers
/// every read with what it holds and commits every transaction at the first
/// attempt, for `fuel` calls at most. It stops at a scan, whose answer the
/// contents alone do not fix.
pub open spec fn run(step: StepView, contents: Contents, fuel: nat) -> Run
    decreases fuel,
{
    match step {
        StepView::Done { outcome } => Run { contents, outcome: Some(outcome), commits: 0 },
        StepView::Call { session, request } => if fuel == 0 {
            Run { contents, outcome: None, commits: 0 }
        } else {
            match request {
                RequestView::Read { key } => run(
                    next_step(session, EventView::Value(lookup(contents, key))),
                    contents,
                    (fuel - 1) as nat,
                ),
                RequestView::Write { writes, .. } => {
                    let rest = run(
                        next_step(session, EventView::Committed),
                        apply_all(contents, writes),
                        (fuel - 1) as nat,
                    );
                    Run { commits: rest.commits + 1, ..rest }
                },
                RequestView::Scan { .. } => Run { contents, outcome: None, commits: 0 },
            }
        },
    }
}

/// Carries out a whole operation against a store that holds `contents` and
/// answers truthfully. Two calls are enough for every operation.
pub open spec fn carry_out(
    kind: OpKind,
    key: Seq<u8>,
    value: Seq<u8>,
    rows: Seq<(Seq<u8>, Seq<u8>)>,
    ceiling: u32,
    contents: Contents,
) -> Run {
    run(first_step_of(kind, key, value, rows, ceiling), contents, 2)
}

impl Session {
    /// The kind of the operation that the session carries out.
    pub fn kind(&self) -> (kind: OpKind)
        ensures
            kind == self@.kind,
    {
        self.kind
    }

    /// Where the session stands in its current transaction.
    pub fn phase(&self) -> (phase: Phase)
        ensures
            phase == self@.phase,
    {
        self.phase
    }

    /// The number of attempts that the current transaction has left, the
    /// running one included.
    pub fn attempts_left(&self) -> (left: u32)
        ensures
            left == self@.attempts_left,
    {
        self.attempts_left
    }

    /// Builds the call that the session awaits the answer to.
    fn call(self) -> (step: Step)
        requires
            session_valid(self@),
        ensures
            step@ == call_of(self@),
    {
        let request = match self.phase {
            Phase::Reading => match self.kind {
                OpKind::ListAvailable => Request::Scan {
                    begin: post_key_begin(),
                    end: post_key_end(),
                    limit: SCAN_LIMIT,
                },
                _ => Request::Read { key: slice_to_vec(self.key.as_slice()) },
            },
            Phase::Writing => match self.kind {
                OpKind::Delete => Request::Write {
                    writes: delete_writes(self.key.as_slice()),
                    fresh: true,
                },
                OpKind::Reset => Request::Write { writes: reset_writes(&self.rows), fresh: true },
                OpKind::Commit => Request::Write {
                    writes: publish_writes(self.key.as_slice(), self.value.as_slice(), &None),
                    fresh: true,
                },
                _ => Request::Write {
                    writes: create_writes(self.key.as_slice(), self.value.as_slice(), &None),
                    fresh: false,
                },
            },
        };
        Step::Call { session: self, request }
    }

    /// Begins `operation`, with `ceiling` attempts for each of its transactions.
    pub fn begin(operation: Operation, ceiling: u32) -> (step: Step)
        ensures
            step@ == first_step(operation, ceiling),
            step matches Step::Call { session, .. } ==> session_valid(session@),
    {
        if ceiling == 0 {
            return Step::Done { outcome: Err(RepoError::ConflictExhausted) };
        }
        let session = match operation {
            Operation::Create { key, value } => Session {
                kind: OpKind::Create,
                key: encode_text(key.as_str()),
                value: encode_text(value.as_str()),
                rows: Vec::new(),
                phase: Phase::Reading,
                ceiling,
                attempts_left: ceiling,
            },
            Operation::Get { key } => Session {
                kind: OpKind::Get,
                key: encode_text(key.as_str()),
                value: Vec::new(),
                rows: Vec::new(),
                phase: Phase::Reading,
                ceiling,
                attempts_left: ceiling,
            },
            Operation::Delete { key } => Session {
                kind: OpKind::Delete,
                key: encode_text(key.as_str()),
                value: Vec::new(),
                rows: Vec::new(),
                phase: Phase::Writing,
                ceiling,
                attempts_left: ceiling,
            },
            Operation::Commit { key, value } => Session {
                kind: OpKind::Commit,
                key: encode_text(key.as_str()),
                value: encode_text(value.as_str()),
                rows: Vec::new(),
                phase: Phase::Reading,
                ceiling,
                attempts_left: ceiling,
            },
            Operation::ListAvailable => Session {
                kind: OpKind::ListAvailable,
                key: Vec::new(),
                value: Vec::new(),
                rows: Vec::new(),
                phase: Phase::Reading,
                ceiling,
                attempts_left: ceiling,
            },
            Operation::Reset { rows } => Session {
                kind: OpKind::Reset,
                key: Vec::new(),
                value: Vec::new(),
                rows,
                phase: Phase::Writing,
                ceiling,
                attempts_left: ceiling,
            },
        };
        proof {
            let (kind, key, value, rows) = operation_parts(operation);
            assert(session@.key =~= key);
            assert(session@.value =~= value);
            assert(session@.rows =~= rows);
        }
        session.call()
    }

    /// Takes the store's answer to the call that the session awaits, and
    /// says what comes next.
    ///
    /// With every answer to the awaited call the session comes nearer to its
    /// end: an operation is over after `steps_left` answers at most.
    pub fn resume(self, event: Event) -> (step: Step)
        requires
            session_valid(self@),
        ensures
            step@ == next_step(self@, event@),
            step matches Step::Call { session, .. } ==> session_valid(session@) && (answers(
                self@,
                event@,
            ) ==> steps_left(session@) < steps_left(self@)),
    {
        let mut session = self;
        match event {
            Event::Conflict => {
                if session.attempts_left <= 1 {
                    return Step::Done { outcome: Err(RepoError::ConflictExhausted) };
                }
                session.attempts_left = session.attempts_left - 1;
                session.phase = match session.kind {
                    OpKind::Commit => session.phase,
                    OpKind::Create | OpKind::Get | OpKind::ListAvailable => Phase::Reading,
                    OpKind::Delete | OpKind::Reset => Phase::Writing,
                };
                session.call()
            },
            Event::Committed => match session.phase {
                Phase::Writing => Step::Done { outcome: Ok(Output::Applied) },
                Phase::Reading => session.call(),
            },
            Event::Value(found) => match (session.phase, session.kind) {
                (Phase::Writing, _) | (Phase::Reading, OpKind::ListAvailable) => session.call(),
                (Phase::Reading, OpKind::Create) => {
                    let due = create_writes(
                        session.key.as_slice(),
                        session.value.as_slice(),
                        &found,
                    );
                    assert(due@.len() == mutations_view(due@).len());
                    if due.len() == 0 {
                        Step::Done { outcome: Ok(Output::Unchanged) }
                    } else {
                        session.phase = Phase::Writing;
                        session.call()
                    }
                },
                (Phase::Reading, OpKind::Commit) => {
                    let due = publish_writes(
                        session.key.as_slice(),
                        session.value.as_slice(),
                        &found,
                    );
                    assert(due@.len() == mutations_view(due@).len());
                    if due.len() == 0 {
                        Step::Done { outcome: Ok(Output::Unchanged) }
                    } else {
                        session.phase = Phase::Writing;
                        session.attempts_left = session.ceiling;
                        session.call()
                    }
                },
                (Phase::Reading, _) => match read_value(&found) {
                    Ok(text) => Step::Done { outcome: Ok(Output::Value(text)) },
                    Err(error) => Step::Done { outcome: Err(error) },
                },
            },
            Event::Rows(rows) => match (session.phase, session.kind) {
                (Phase::Reading, OpKind::ListAvailable) => match list_rows(&rows) {
                    Ok(posts) => Step::Done { outcome: Ok(Output::Posts(posts)) },
                    Err(error) => Step::Done { outcome: Err(error) },
                },
                _ => session.call(),
            },
        }
    }
}

} // verus!
