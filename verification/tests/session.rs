use std::collections::BTreeMap;

use postboard::catalog::{all_posts, seed_rows};
use postboard::repository::{Post, RepoError, SCAN_LIMIT};
use postboard::session::{Event, OpKind, Operation, Output, Phase, Request, Session, Step};
use postboard::simulator::{pool_scripts, Round, WorkerOp};
use postboard::store::{Mutation, Row};

/// A store in memory that answers truthfully, and counts what it is asked.
struct Shelf {
    rows: BTreeMap<Vec<u8>, Vec<u8>>,
    commits: usize,
    reads: usize,
}

fn shelf() -> Shelf {
    Shelf { rows: BTreeMap::new(), commits: 0, reads: 0 }
}

fn answer(shelf: &mut Shelf, request: Request) -> Event {
    match request {
        Request::Read { key } => {
            shelf.reads += 1;
            Event::Value(shelf.rows.get(&key).cloned())
        }
        Request::Scan { begin, end, limit } => {
            shelf.reads += 1;
            Event::Rows(
                shelf
                    .rows
                    .range(begin..end)
                    .take(limit)
                    .map(|(key, value)| Row { key: key.clone(), value: value.clone() })
                    .collect(),
            )
        }
        Request::Write { writes, .. } => {
            for write in writes {
                match write {
                    Mutation::Put { key, value } => {
                        shelf.rows.insert(key, value);
                    }
                    Mutation::Clear { key } => {
                        shelf.rows.remove(&key);
                    }
                    Mutation::ClearRange { begin, end } => {
                        shelf.rows.retain(|key, _| !(begin <= *key && *key < end));
                    }
                }
            }
            shelf.commits += 1;
            Event::Committed
        }
    }
}

fn carry_out(shelf: &mut Shelf, operation: Operation) -> Result<Output, RepoError> {
    let mut step = Session::begin(operation, 3);
    loop {
        match step {
            Step::Done { outcome } => return outcome,
            Step::Call { session, request } => {
                let event = answer(shelf, request);
                step = session.resume(event);
            }
        }
    }
}

fn create(key: &str, value: &str) -> Operation {
    Operation::Create { key: String::from(key), value: String::from(value) }
}

fn commit(key: &str, value: &str) -> Operation {
    Operation::Commit { key: String::from(key), value: String::from(value) }
}

fn get(key: &str) -> Operation {
    Operation::Get { key: String::from(key) }
}

fn delete(key: &str) -> Operation {
    Operation::Delete { key: String::from(key) }
}

fn post(key: &str, value: &str) -> Post {
    Post { key: String::from(key), value: String::from(value) }
}

fn first_call(operation: Operation, ceiling: u32) -> (Session, Request) {
    match Session::begin(operation, ceiling) {
        Step::Call { session, request } => (session, request),
        Step::Done { .. } => panic!("the session is over before its first call"),
    }
}

fn next_call(session: Session, event: Event) -> (Session, Request) {
    match session.resume(event) {
        Step::Call { session, request } => (session, request),
        Step::Done { .. } => panic!("the session is over"),
    }
}

fn outcome(session: Session, event: Event) -> Result<Output, RepoError> {
    match session.resume(event) {
        Step::Done { outcome } => outcome,
        Step::Call { .. } => panic!("the session goes on"),
    }
}

fn put(key: &str, value: &str) -> Mutation {
    Mutation::Put { key: key.as_bytes().to_vec(), value: value.as_bytes().to_vec() }
}

#[test]
fn get_after_create_reads_the_value() {
    let mut shelf = shelf();
    assert_eq!(carry_out(&mut shelf, create("post-1", "hello")), Ok(Output::Applied));
    assert_eq!(carry_out(&mut shelf, get("post-1")), Ok(Output::Value(String::from("hello"))));
    assert_eq!(carry_out(&mut shelf, create("post-2", "other")), Ok(Output::Applied));
    assert_eq!(carry_out(&mut shelf, get("post-1")), Ok(Output::Value(String::from("hello"))));
    assert_eq!(carry_out(&mut shelf, create("post-1", "changed")), Ok(Output::Applied));
    assert_eq!(carry_out(&mut shelf, get("post-1")), Ok(Output::Value(String::from("changed"))));
    assert_eq!(carry_out(&mut shelf, delete("post-1")), Ok(Output::Applied));
    assert_eq!(carry_out(&mut shelf, get("post-1")), Err(RepoError::NotFound));
}

#[test]
fn create_twice_is_create_once() {
    let mut shelf = shelf();
    assert_eq!(carry_out(&mut shelf, create("post-1", "hello")), Ok(Output::Applied));
    let after_one = shelf.rows.clone();
    assert_eq!(shelf.commits, 1);
    assert_eq!(carry_out(&mut shelf, create("post-1", "hello")), Ok(Output::Unchanged));
    assert_eq!(shelf.rows, after_one);
    assert_eq!(shelf.commits, 1);
}

#[test]
fn delete_of_a_missing_key_succeeds_and_changes_nothing() {
    let mut shelf = shelf();
    carry_out(&mut shelf, create("post-1", "hello")).unwrap();
    let before = shelf.rows.clone();
    assert_eq!(carry_out(&mut shelf, delete("post-9")), Ok(Output::Applied));
    assert_eq!(shelf.rows, before);
    assert_eq!(carry_out(&mut shelf, delete("post-1")), Ok(Output::Applied));
    assert_eq!(carry_out(&mut shelf, delete("post-1")), Ok(Output::Applied));
    assert!(shelf.rows.is_empty());
}

#[test]
fn get_of_a_missing_key_is_not_found() {
    let mut shelf = shelf();
    assert_eq!(carry_out(&mut shelf, get("post-1")), Err(RepoError::NotFound));
    assert_eq!(shelf.commits, 0);
}

#[test]
fn get_of_bytes_that_are_no_text_is_a_decode_error() {
    let mut shelf = shelf();
    shelf.rows.insert(b"post-1".to_vec(), vec![0xff, 0xfe]);
    assert_eq!(carry_out(&mut shelf, get("post-1")), Err(RepoError::Decode));
}

#[test]
fn list_after_reset_is_the_seed() {
    let mut shelf = shelf();
    carry_out(&mut shelf, create("post-zzz", "stale")).unwrap();
    shelf.rows.insert(b"other".to_vec(), b"kept".to_vec());
    shelf.rows.insert(b"post.".to_vec(), b"kept too".to_vec());
    let seed = seed_rows(&all_posts()).unwrap();
    assert_eq!(
        carry_out(&mut shelf, Operation::Reset { rows: seed.clone() }),
        Ok(Output::Applied)
    );
    let listed = match carry_out(&mut shelf, Operation::ListAvailable) {
        Ok(Output::Posts(posts)) => posts,
        other => panic!("unexpected outcome {:?}", other),
    };
    let mut expected: Vec<Post> = seed
        .iter()
        .map(|row| Post {
            key: String::from_utf8(row.key.clone()).unwrap(),
            value: String::from_utf8(row.value.clone()).unwrap(),
        })
        .collect();
    expected.sort_by(|a, b| a.key.cmp(&b.key));
    let mut sorted = listed.clone();
    sorted.sort_by(|a, b| a.key.cmp(&b.key));
    assert_eq!(sorted, expected);
    assert_eq!(listed.len(), 10);
    assert_eq!(
        listed[0],
        post("post-001-{\"title\"_\"introduction\"", "\"post\"_\"welcome to the forum\"}")
    );
    assert_eq!(shelf.rows.get(&b"other".to_vec()), Some(&b"kept".to_vec()));
    assert_eq!(shelf.rows.get(&b"post.".to_vec()), Some(&b"kept too".to_vec()));
    assert_eq!(shelf.rows.len(), 12);
}

#[test]
fn reset_is_one_transaction() {
    let mut shelf = shelf();
    let seed = seed_rows(&all_posts()).unwrap();
    carry_out(&mut shelf, Operation::Reset { rows: seed }).unwrap();
    assert_eq!(shelf.commits, 1);
    assert_eq!(shelf.reads, 0);
}

#[test]
fn list_of_an_empty_store_is_empty() {
    let mut shelf = shelf();
    assert_eq!(carry_out(&mut shelf, Operation::ListAvailable), Ok(Output::Posts(Vec::new())));
}

#[test]
fn list_fails_on_a_row_that_is_no_text() {
    let mut shelf = shelf();
    shelf.rows.insert(b"post-1".to_vec(), vec![0xc0]);
    assert_eq!(carry_out(&mut shelf, Operation::ListAvailable), Err(RepoError::Decode));
}

#[test]
fn list_returns_1024_rows_at_most() {
    let mut shelf = shelf();
    for i in 0..1030 {
        shelf.rows.insert(format!("post-{:04}", i).into_bytes(), b"v".to_vec());
    }
    match carry_out(&mut shelf, Operation::ListAvailable) {
        Ok(Output::Posts(posts)) => {
            assert_eq!(posts.len(), 1024);
            assert_eq!(posts[0].key, "post-0000");
            assert_eq!(posts[1023].key, "post-1023");
        }
        other => panic!("unexpected outcome {:?}", other),
    }
}

#[test]
fn ten_workers_with_distinct_keys_leave_ten_rows() {
    let mut shelf = shelf();
    let scripts = pool_scripts(10, &vec![Round { op: WorkerOp::Create, slot: 0 }]);
    for script in scripts.into_iter().rev() {
        for operation in script {
            assert_eq!(carry_out(&mut shelf, operation), Ok(Output::Applied));
        }
    }
    match carry_out(&mut shelf, Operation::ListAvailable) {
        Ok(Output::Posts(posts)) => {
            assert_eq!(posts.len(), 10);
            for worker in 0..10 {
                assert!(posts.contains(&post(
                    &format!("post-w{}-0", worker),
                    &format!("worker {} slot 0", worker)
                )));
            }
        }
        other => panic!("unexpected outcome {:?}", other),
    }
}

#[test]
fn workers_that_create_and_delete_leave_nothing() {
    let mut shelf = shelf();
    let policy = vec![
        Round { op: WorkerOp::Create, slot: 0 },
        Round { op: WorkerOp::Commit, slot: 1 },
        Round { op: WorkerOp::Get, slot: 1 },
        Round { op: WorkerOp::Delete, slot: 0 },
        Round { op: WorkerOp::Delete, slot: 1 },
    ];
    for script in pool_scripts(4, &policy) {
        for operation in script {
            assert!(carry_out(&mut shelf, operation).is_ok());
        }
    }
    assert_eq!(carry_out(&mut shelf, Operation::ListAvailable), Ok(Output::Posts(Vec::new())));
}

#[test]
fn commit_twice_writes_once() {
    let mut shelf = shelf();
    assert_eq!(carry_out(&mut shelf, commit("post-1", "v")), Ok(Output::Applied));
    assert_eq!(shelf.commits, 1);
    assert_eq!(carry_out(&mut shelf, commit("post-1", "v")), Ok(Output::Unchanged));
    assert_eq!(shelf.commits, 1);
    assert_eq!(carry_out(&mut shelf, commit("post-1", "another")), Ok(Output::Unchanged));
    assert_eq!(shelf.commits, 1);
    assert_eq!(carry_out(&mut shelf, get("post-1")), Ok(Output::Value(String::from("v"))));
}

#[test]
fn commit_checks_in_one_transaction_and_writes_in_another() {
    let (session, request) = first_call(commit("post-1", "v"), 3);
    assert_eq!(request, Request::Read { key: b"post-1".to_vec() });
    let (session, request) = next_call(session, Event::Value(None));
    assert_eq!(request, Request::Write { writes: vec![put("post-1", "v")], fresh: true });
    assert_eq!(outcome(session, Event::Committed), Ok(Output::Applied));
}

#[test]
fn create_reads_and_writes_in_one_transaction() {
    let (session, request) = first_call(create("post-1", "v"), 3);
    assert_eq!(request, Request::Read { key: b"post-1".to_vec() });
    let (session, request) = next_call(session, Event::Value(Some(b"old".to_vec())));
    assert_eq!(request, Request::Write { writes: vec![put("post-1", "v")], fresh: false });
    assert_eq!(outcome(session, Event::Committed), Ok(Output::Applied));
}

#[test]
fn delete_writes_blindly() {
    let (session, request) = first_call(delete("post-1"), 3);
    assert_eq!(
        request,
        Request::Write { writes: vec![Mutation::Clear { key: b"post-1".to_vec() }], fresh: true }
    );
    assert_eq!(outcome(session, Event::Committed), Ok(Output::Applied));
}

#[test]
fn list_scans_the_reserved_range() {
    let (session, request) = first_call(Operation::ListAvailable, 3);
    assert_eq!(
        request,
        Request::Scan { begin: b"post-".to_vec(), end: b"post.".to_vec(), limit: SCAN_LIMIT }
    );
    let rows = vec![Row { key: b"post-1".to_vec(), value: b"a".to_vec() }];
    assert_eq!(outcome(session, Event::Rows(rows)), Ok(Output::Posts(vec![post("post-1", "a")])));
}

#[test]
fn reset_writes_the_clear_and_the_rows() {
    let rows = vec![Row { key: b"post-1".to_vec(), value: b"a".to_vec() }];
    let (_, request) = first_call(Operation::Reset { rows }, 3);
    assert_eq!(
        request,
        Request::Write {
            writes: vec![
                Mutation::ClearRange { begin: b"post-".to_vec(), end: b"post.".to_vec() },
                put("post-1", "a"),
            ],
            fresh: true,
        }
    );
}

#[test]
fn no_attempt_means_conflict_exhausted() {
    match Session::begin(create("post-1", "v"), 0) {
        Step::Done { outcome } => assert_eq!(outcome, Err(RepoError::ConflictExhausted)),
        Step::Call { .. } => panic!("a session without attempts made a call"),
    }
}

#[test]
fn conflicts_are_retried_up_to_the_ceiling() {
    let (session, _) = first_call(create("post-1", "v"), 3);
    let (session, request) = next_call(session, Event::Conflict);
    assert_eq!(request, Request::Read { key: b"post-1".to_vec() });
    let (session, request) = next_call(session, Event::Conflict);
    assert_eq!(request, Request::Read { key: b"post-1".to_vec() });
    assert_eq!(outcome(session, Event::Conflict), Err(RepoError::ConflictExhausted));
}

#[test]
fn a_conflict_at_commit_runs_the_whole_transaction_again() {
    let (session, _) = first_call(create("post-1", "v"), 2);
    let (session, request) = next_call(session, Event::Value(None));
    assert_eq!(request, Request::Write { writes: vec![put("post-1", "v")], fresh: false });
    let (session, request) = next_call(session, Event::Conflict);
    assert_eq!(request, Request::Read { key: b"post-1".to_vec() });
    assert_eq!(outcome(session, Event::Value(Some(b"v".to_vec()))), Ok(Output::Unchanged));
}

#[test]
fn a_conflict_in_the_second_phase_of_commit_repeats_the_write_only() {
    let (session, _) = first_call(commit("post-1", "v"), 2);
    let (session, _) = next_call(session, Event::Conflict);
    let (session, request) = next_call(session, Event::Value(None));
    assert_eq!(request, Request::Write { writes: vec![put("post-1", "v")], fresh: true });
    let (session, request) = next_call(session, Event::Conflict);
    assert_eq!(request, Request::Write { writes: vec![put("post-1", "v")], fresh: true });
    assert_eq!(outcome(session, Event::Conflict), Err(RepoError::ConflictExhausted));
}

#[test]
fn an_answer_to_another_call_repeats_the_call() {
    let (session, _) = first_call(get("post-1"), 1);
    let (session, request) = next_call(session, Event::Committed);
    assert_eq!(request, Request::Read { key: b"post-1".to_vec() });
    let (session, request) = next_call(session, Event::Rows(Vec::new()));
    assert_eq!(request, Request::Read { key: b"post-1".to_vec() });
    assert_eq!(outcome(session, Event::Value(Some(b"x".to_vec()))), Ok(Output::Value(String::from("x"))));

    let (session, _) = first_call(delete("post-1"), 1);
    let (session, request) = next_call(session, Event::Value(None));
    assert_eq!(
        request,
        Request::Write { writes: vec![Mutation::Clear { key: b"post-1".to_vec() }], fresh: true }
    );
    assert_eq!(outcome(session, Event::Committed), Ok(Output::Applied));

    let (session, _) = first_call(Operation::ListAvailable, 1);
    let (_, request) = next_call(session, Event::Value(None));
    assert_eq!(
        request,
        Request::Scan { begin: b"post-".to_vec(), end: b"post.".to_vec(), limit: 1024 }
    );
}

#[test]
fn a_session_tells_where_it_stands() {
    let (session, _) = first_call(create("post-1", "v"), 3);
    assert_eq!(session.kind(), OpKind::Create);
    assert_eq!(session.phase(), Phase::Reading);
    assert_eq!(session.attempts_left(), 3);
    let (session, _) = next_call(session, Event::Value(None));
    assert_eq!(session.phase(), Phase::Writing);
    assert_eq!(session.attempts_left(), 3);
    let (session, _) = next_call(session, Event::Conflict);
    assert_eq!(session.phase(), Phase::Reading);
    assert_eq!(session.attempts_left(), 2);

    let (session, _) = first_call(commit("post-1", "v"), 4);
    let (session, _) = next_call(session, Event::Conflict);
    assert_eq!(session.attempts_left(), 3);
    let (session, _) = next_call(session, Event::Value(None));
    assert_eq!(session.kind(), OpKind::Commit);
    assert_eq!(session.phase(), Phase::Writing);
    assert_eq!(session.attempts_left(), 4);
}

#[test]
fn a_listing_keeps_1024_rows_of_what_the_store_sends() {
    let (session, _) = first_call(Operation::ListAvailable, 1);
    let rows: Vec<Row> = (0..1500)
        .map(|i| Row { key: format!("post-{:04}", i).into_bytes(), value: b"v".to_vec() })
        .collect();
    match outcome(session, Event::Rows(rows)) {
        Ok(Output::Posts(posts)) => {
            assert_eq!(posts.len(), 1024);
            assert_eq!(posts[1023], post("post-1023", "v"));
        }
        other => panic!("unexpected outcome {:?}", other),
    }
}
