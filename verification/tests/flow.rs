use redisbrute::pool::CredentialPool;
use redisbrute::pool::PoolStatus;
use redisbrute::queue::produce;
use redisbrute::queue::WorkQueue;
use redisbrute::run;
use redisbrute::worker::AclScan;
use redisbrute::worker::AuthMode;
use redisbrute::worker::ProbeDecision;
use redisbrute::worker::Worker;
use redisbrute::Args;

fn args_for(target: &str, users: &str, target_list: Option<String>) -> Args {
    Args {
        timeout: 5,
        target: String::from(target),
        target_list,
        users: String::from(users),
        passwords: String::from("wordlist.txt"),
        threads: 5,
        output_file: None,
    }
}

/// A simulated target for one worker: it accepts exactly one credential
/// pair, and answers every auth command like the real service would.
fn sim_reply(accepts: bool) -> Vec<u8> {
    if accepts {
        b"+OK\r\n".to_vec()
    } else {
        b"-ERR invalid password\r\n".to_vec()
    }
}

#[test]
fn run_without_list_uses_single_target() {
    let args = args_for("10.0.0.1:6379", "", None);
    let targets = run(&args, &None);
    assert_eq!(targets, vec![String::from("10.0.0.1:6379")]);
}

#[test]
fn run_with_list_uses_every_line() {
    let args = args_for("ignored:1", "", Some(String::from("targets.txt")));
    let lines = vec![String::from("a:1"), String::from("b:2")];
    let targets = run(&args, &Some(lines.clone()));
    assert_eq!(targets, lines);
}

#[test]
fn worker_new_splits_target_and_picks_mode() {
    let w = Worker::new(&String::from("10.0.0.1:6380"), &String::from(""));
    assert_eq!(w.get_ip(), "10.0.0.1");
    assert_eq!(w.get_port(), "6380");
    assert_eq!(w.mode, AuthMode::DefaultAuth);

    let w = Worker::new(&String::from("10.0.0.2"), &String::from("users.txt"));
    assert_eq!(w.get_ip(), "10.0.0.2");
    assert_eq!(w.get_port(), "6379");
    assert_eq!(w.mode, AuthMode::Acl);
}

#[test]
fn no_auth_detection_records_one_sentinel_finding() {
    // A target whose diagnostic probe answers +PONG: the probe decision
    // skips brute force entirely, and the one recorded finding carries the
    // sentinel username and password.
    let w = Worker::new(&String::from("10.0.0.1:6379"), &String::from(""));
    let decision = w.check_authentication(&b"+PONG\r\n".to_vec());
    assert_eq!(decision, ProbeDecision::RecordNoAuthAndSkip);

    let mut attempts = 0;
    let mut findings = Vec::new();
    if decision == ProbeDecision::Proceed {
        attempts += 1;
    } else if decision == ProbeDecision::RecordNoAuthAndSkip {
        findings.push(w.no_auth_found());
    }
    assert_eq!(attempts, 0);
    assert_eq!(findings.len(), 1);
    assert_eq!(findings[0].username, "n/a");
    assert_eq!(findings[0].password, "n/a");
    assert_eq!(findings[0].ip, "10.0.0.1");
    assert_eq!(findings[0].port, "6379");
}

#[test]
fn noauth_reply_lets_brute_force_proceed() {
    let w = Worker::new(&String::from("10.0.0.1:6379"), &String::from(""));
    let decision = w.check_authentication(&b"-NOAUTH Authentication required.\r\n".to_vec());
    assert_eq!(decision, ProbeDecision::Proceed);
}

#[test]
fn ambiguous_reply_skips_without_finding() {
    let w = Worker::new(&String::from("10.0.0.1:6379"), &String::from(""));
    let decision = w.check_authentication(&b"-ERR something else\r\n".to_vec());
    assert_eq!(decision, ProbeDecision::SkipAmbiguous);
}

#[test]
fn queue_hands_out_in_fifo_order_each_once() {
    let mut q = WorkQueue::new();
    q.push(String::from("one"));
    q.push(String::from("two"));
    q.push(String::from("three"));
    assert_eq!(q.len(), 3);
    let mut popped = Vec::new();
    while let Some(item) = q.pop() {
        popped.push(item);
    }
    assert_eq!(
        popped,
        vec![String::from("one"), String::from("two"), String::from("three")]
    );
    assert!(q.is_empty());
    assert_eq!(q.pop(), None);
}

#[test]
fn produce_escapes_each_line_on_the_way_in() {
    let mut q = WorkQueue::new();
    let lines = vec![String::from("pa'ss"), String::from("plain")];
    produce(&lines, &mut q);
    assert_eq!(q.pop(), Some(String::from("pa\\'ss")));
    assert_eq!(q.pop(), Some(String::from("plain")));
    assert_eq!(q.pop(), None);
}

#[test]
fn default_mode_finds_exactly_one_credential() {
    // Wordlist ["wrong1", "correct", "wrong2"] against a target that
    // accepts only "correct": exactly one finding, sentinel username, and
    // all three passwords are still attempted.
    let w = Worker::new(&String::from("10.0.0.1:6379"), &String::from(""));
    let mut q = WorkQueue::new();
    let lines = vec![
        String::from("wrong1"),
        String::from("correct"),
        String::from("wrong2"),
    ];
    produce(&lines, &mut q);

    let mut attempts = 0;
    let mut findings = Vec::new();
    while let Some(password) = q.pop() {
        attempts += 1;
        let reply = sim_reply(password == "correct");
        if let Some(found) = w.check_non_acl(&password, &reply) {
            findings.push(found);
        }
    }
    assert_eq!(attempts, 3);
    assert_eq!(findings.len(), 1);
    assert_eq!(findings[0].password, "correct");
    assert_eq!(findings[0].username, "n/a");
}

#[test]
fn run_queue_attempts_every_password_and_finds_the_valid_one() {
    // The verified drain: all queued passwords are attempted in order and
    // the findings are exactly the accepted ones.
    let w = Worker::new(&String::from("10.0.0.1:6379"), &String::from(""));
    let mut q = WorkQueue::new();
    produce(
        &vec![
            String::from("wrong1"),
            String::from("correct"),
            String::from("wrong2"),
        ],
        &mut q,
    );
    let replies = vec![sim_reply(false), sim_reply(true), sim_reply(false)];
    let found = w.run_queue(&mut q, &replies);
    assert!(q.is_empty());
    assert_eq!(found.len(), 1);
    assert_eq!(found[0].password, "correct");
    assert_eq!(found[0].username, "n/a");
}

#[test]
fn check_acl_records_and_prunes_the_first_match() {
    let w = Worker::new(&String::from("10.0.0.1:6379"), &String::from("users.txt"));
    let mut pool = CredentialPool::new(vec![
        String::from("alice"),
        String::from("bob"),
        String::from("carol"),
    ]);
    let replies = vec![sim_reply(false), sim_reply(true), sim_reply(false)];
    let (finding, status) = w.check_acl(&mut pool, &String::from("pw1"), &replies);
    let finding = finding.unwrap();
    assert_eq!(finding.username, "bob");
    assert_eq!(finding.password, "pw1");
    assert_eq!(status, PoolStatus::Remaining);
    assert_eq!(
        pool.snapshot(),
        vec![String::from("alice"), String::from("carol")]
    );
}

#[test]
fn check_acl_without_match_leaves_the_pool_unchanged() {
    let w = Worker::new(&String::from("10.0.0.1:6379"), &String::from("users.txt"));
    let mut pool = CredentialPool::new(vec![String::from("alice"), String::from("bob")]);
    let replies = vec![sim_reply(false), sim_reply(false)];
    let (finding, status) = w.check_acl(&mut pool, &String::from("pw1"), &replies);
    assert!(finding.is_none());
    assert_eq!(status, PoolStatus::Remaining);
    assert_eq!(
        pool.snapshot(),
        vec![String::from("alice"), String::from("bob")]
    );
}

#[test]
fn acl_pruning_removes_only_the_matched_user() {
    // Usernames ["alice", "bob", "carol"], password "pw1" succeeds only
    // for "bob": afterwards the pool holds exactly ["alice", "carol"] and
    // one finding for ("bob", "pw1") was recorded.
    let w = Worker::new(&String::from("10.0.0.1:6379"), &String::from("users.txt"));
    let mut pool = CredentialPool::new(vec![
        String::from("alice"),
        String::from("bob"),
        String::from("carol"),
    ]);
    let password = String::from("pw1");

    let mut findings = Vec::new();
    let mut scan = AclScan::start(pool.snapshot());
    while let Some(_command) = scan.next_command(&password) {
        let user = scan.users[scan.idx].clone();
        scan.on_reply(&sim_reply(user == "bob" && password == "pw1"));
    }
    if let Some(user) = scan.matched_user() {
        findings.push(w.found(user, &password));
    }
    let status = match scan.matched {
        Some(pos) => pool.remove_positions(&vec![pos]),
        None => PoolStatus::Remaining,
    };

    assert_eq!(
        pool.snapshot(),
        vec![String::from("alice"), String::from("carol")]
    );
    assert_eq!(status, PoolStatus::Remaining);
    assert_eq!(findings.len(), 1);
    assert_eq!(findings[0].username, "bob");
    assert_eq!(findings[0].password, "pw1");
}

#[test]
fn acl_scan_stops_at_first_match() {
    // Both remaining users would accept, but the scan records only the
    // first match for one password attempt.
    let mut scan = AclScan::start(vec![String::from("alice"), String::from("bob")]);
    let password = String::from("pw");
    let mut attempts = 0;
    while let Some(_command) = scan.next_command(&password) {
        attempts += 1;
        scan.on_reply(&sim_reply(true));
    }
    assert_eq!(attempts, 1);
    assert_eq!(scan.matched, Some(0));
}

#[test]
fn pool_exhaustion_stops_the_run() {
    // Every username is eventually matched: once the pool is empty the
    // system issues no further attempts and does not crash.
    let mut pool = CredentialPool::new(vec![String::from("alice"), String::from("bob")]);
    let passwords = vec![String::from("pw-a"), String::from("pw-b")];

    let mut last_status = PoolStatus::Remaining;
    let mut issued_after_exhaustion = 0;
    for password in &passwords {
        if last_status == PoolStatus::Exhausted {
            issued_after_exhaustion += 1;
            continue;
        }
        let mut scan = AclScan::start(pool.snapshot());
        while let Some(_command) = scan.next_command(password) {
            let user = scan.users[scan.idx].clone();
            // pw-a matches alice, pw-b matches bob.
            let accepts = (password.as_str() == "pw-a" && user == "alice") || (
            password.as_str() == "pw-b" && user == "bob");
            scan.on_reply(&sim_reply(accepts));
        }
        if let Some(pos) = scan.matched {
            last_status = pool.remove_positions(&vec![pos]);
        }
    }

    assert_eq!(last_status, PoolStatus::Exhausted);
    assert!(pool.is_empty());
    assert_eq!(issued_after_exhaustion, 0);
    // A scan over the empty pool issues no commands at all.
    let scan = AclScan::start(pool.snapshot());
    assert!(scan.done());
    assert_eq!(scan.next_command(&String::from("anything")), None);
}

#[test]
fn pool_removal_applies_positions_in_ascending_order() {
    let mut pool = CredentialPool::new(vec![
        String::from("a"),
        String::from("b"),
        String::from("c"),
        String::from("d"),
    ]);
    let status = pool.remove_positions(&vec![0, 2]);
    assert_eq!(pool.snapshot(), vec![String::from("b"), String::from("d")]);
    assert_eq!(status, PoolStatus::Remaining);
    assert_eq!(pool.len(), 2);
}

#[test]
fn pool_removing_everything_reports_exhausted() {
    let mut pool = CredentialPool::new(vec![String::from("a"), String::from("b")]);
    let status = pool.remove_positions(&vec![0, 1]);
    assert_eq!(status, PoolStatus::Exhausted);
    assert!(pool.is_empty());
}

#[test]
fn pool_removing_nothing_keeps_everything() {
    let mut pool = CredentialPool::new(vec![String::from("a")]);
    let status = pool.remove_positions(&Vec::new());
    assert_eq!(status, PoolStatus::Remaining);
    assert_eq!(pool.snapshot(), vec![String::from("a")]);
}

#[test]
fn distinct_passwords_are_attempted_at_most_once() {
    // Exhaustive single use: with distinct passwords and a producer that
    // finished before the drain, every password comes out exactly once.
    let mut q = WorkQueue::new();
    let lines: Vec<String> = (0..20).map(|i| format!("pw{}", i)).collect();
    produce(&lines, &mut q);
    let mut seen = Vec::new();
    while let Some(p) = q.pop() {
        assert!(!seen.contains(&p));
        seen.push(p);
    }
    assert_eq!(seen.len(), lines.len());
    for line in &lines {
        assert!(seen.contains(line));
    }
}
