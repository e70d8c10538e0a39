use postboard::keyspace::post_key;
use postboard::repository::Post;
use postboard::session::Operation;
use postboard::simulator::{
    plan_round, pool_scripts, refresh_choice, worker_key, worker_script, worker_value, Recovery,
    Round, WorkerOp,
};

fn post(key: &str) -> Post {
    Post { key: String::from(key), value: String::from("v") }
}

#[test]
fn worker_key_names_worker_and_slot() {
    assert_eq!(worker_key(0, 0), "post-w0-0");
    assert_eq!(worker_key(3, 12), "post-w3-12");
    assert_eq!(worker_key(120, 7), "post-w120-7");
}

#[test]
fn worker_value_names_worker_and_slot() {
    assert_eq!(worker_value(0, 0), "worker 0 slot 0");
    assert_eq!(worker_value(41, 9), "worker 41 slot 9");
}

#[test]
fn worker_keys_are_distinct_post_keys() {
    let mut keys = Vec::new();
    for worker in [0, 1, 2, 10, 11, 12, 21, 110] {
        for slot in [0, 1, 2, 10, 11, 101] {
            let key = worker_key(worker, slot);
            assert!(post_key(key.as_bytes()));
            assert!(!keys.contains(&key));
            keys.push(key);
        }
    }
    assert_ne!(worker_key(1, 11), worker_key(11, 1));
    assert_ne!(worker_key(12, 3), worker_key(1, 23));
}

#[test]
fn plan_round_acts_on_the_workers_key() {
    assert_eq!(
        plan_round(2, Round { op: WorkerOp::Create, slot: 5 }),
        Operation::Create {
            key: String::from("post-w2-5"),
            value: String::from("worker 2 slot 5")
        }
    );
    assert_eq!(
        plan_round(2, Round { op: WorkerOp::Commit, slot: 0 }),
        Operation::Commit {
            key: String::from("post-w2-0"),
            value: String::from("worker 2 slot 0")
        }
    );
    assert_eq!(
        plan_round(7, Round { op: WorkerOp::Get, slot: 1 }),
        Operation::Get { key: String::from("post-w7-1") }
    );
    assert_eq!(
        plan_round(7, Round { op: WorkerOp::Delete, slot: 1 }),
        Operation::Delete { key: String::from("post-w7-1") }
    );
}

#[test]
fn worker_script_follows_the_policy() {
    let policy = vec![
        Round { op: WorkerOp::Create, slot: 0 },
        Round { op: WorkerOp::Get, slot: 0 },
        Round { op: WorkerOp::Delete, slot: 0 },
    ];
    assert_eq!(
        worker_script(4, &policy),
        vec![
            Operation::Create {
                key: String::from("post-w4-0"),
                value: String::from("worker 4 slot 0")
            },
            Operation::Get { key: String::from("post-w4-0") },
            Operation::Delete { key: String::from("post-w4-0") },
        ]
    );
    assert_eq!(worker_script(4, &Vec::new()), Vec::<Operation>::new());
}

#[test]
fn pool_scripts_has_one_script_for_each_worker() {
    let policy = vec![Round { op: WorkerOp::Create, slot: 0 }];
    let scripts = pool_scripts(10, &policy);
    assert_eq!(scripts.len(), 10);
    for (worker, script) in scripts.iter().enumerate() {
        assert_eq!(script, &worker_script(worker, &policy));
    }
    assert_eq!(pool_scripts(0, &policy), Vec::<Vec<Operation>>::new());
}

#[test]
fn refresh_choice_picks_by_the_sample() {
    let available = vec![post("post-a"), post("post-b"), post("post-c")];
    assert_eq!(
        refresh_choice(&available, 0, 2),
        Recovery::Retry { key: String::from("post-a"), tries_left: 1 }
    );
    assert_eq!(
        refresh_choice(&available, 4, 1),
        Recovery::Retry { key: String::from("post-b"), tries_left: 0 }
    );
    assert_eq!(
        refresh_choice(&available, 8, 5),
        Recovery::Retry { key: String::from("post-c"), tries_left: 4 }
    );
}

#[test]
fn refresh_choice_gives_up_without_tries_or_posts() {
    let available = vec![post("post-a")];
    assert_eq!(refresh_choice(&available, 0, 0), Recovery::GiveUp);
    assert_eq!(refresh_choice(&Vec::new(), 0, 3), Recovery::GiveUp);
    assert_eq!(refresh_choice(&Vec::new(), 7, 0), Recovery::GiveUp);
}
