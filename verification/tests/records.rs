use process_find::record::{join_command, project, resolve_user};
use process_find::{find_records, FindError, ProcessDescriptor, ProcessRecord, Snapshot, UserEntry};

fn process(pid: u32, name: &str) -> ProcessDescriptor {
    ProcessDescriptor {
        pid,
        parent: None,
        name: name.to_string(),
        uid: 0,
        status: "Sleeping".to_string(),
        memory: 0,
        command: Vec::new(),
        cwd: String::new(),
    }
}

fn snapshot_of(processes: Vec<ProcessDescriptor>) -> Snapshot {
    Snapshot { processes, users: Vec::new() }
}

fn pids(records: &[ProcessRecord]) -> Vec<u32> {
    records.iter().map(|record| record.pid).collect()
}

fn users() -> Vec<UserEntry> {
    vec![
        UserEntry { uid: 0, name: "root".to_string() },
        UserEntry { uid: 1000, name: "alice".to_string() },
        UserEntry { uid: 1000, name: "shadowed".to_string() },
    ]
}

#[test]
fn every_record_carries_the_needle() {
    let snapshot = snapshot_of(vec![
        process(1, "init"),
        process(2, "worker"),
        process(3, "init"),
        process(4, "worker"),
        process(5, "initd"),
    ]);
    let records = find_records(&snapshot, "worker");
    assert_eq!(records.len(), 2);
    for record in &records {
        assert_eq!(record.name, "worker");
    }
}

#[test]
fn absent_needle_gives_no_record() {
    let snapshot = snapshot_of(vec![process(1, "init"), process(2, "worker")]);
    assert!(find_records(&snapshot, "nonexistent-xyz").is_empty());
}

#[test]
fn empty_snapshot_gives_no_record() {
    let snapshot = snapshot_of(Vec::new());
    assert!(find_records(&snapshot, "init").is_empty());
    assert!(find_records(&snapshot, "").is_empty());
}

#[test]
fn record_count_equals_number_of_namesakes() {
    let names = ["a", "b", "a", "c", "a", "b", "a"];
    let processes: Vec<ProcessDescriptor> =
        names.iter().enumerate().map(|(i, name)| process(i as u32 + 10, name)).collect();
    let snapshot = snapshot_of(processes);
    assert_eq!(find_records(&snapshot, "a").len(), 4);
    assert_eq!(find_records(&snapshot, "b").len(), 2);
    assert_eq!(find_records(&snapshot, "c").len(), 1);
    assert_eq!(find_records(&snapshot, "d").len(), 0);
}

#[test]
fn records_keep_snapshot_order() {
    let snapshot = snapshot_of(vec![
        process(900, "w"),
        process(5, "other"),
        process(17, "w"),
        process(400, "w"),
        process(6, "other"),
        process(2, "w"),
    ]);
    assert_eq!(pids(&find_records(&snapshot, "w")), vec![900, 17, 400, 2]);
    assert_eq!(pids(&find_records(&snapshot, "other")), vec![5, 6]);
}

#[test]
fn needles_of_different_case_match_disjoint_processes() {
    let snapshot = snapshot_of(vec![
        process(1, "Foo"),
        process(2, "foo"),
        process(3, "Foo"),
        process(4, "FOO"),
    ]);
    let upper = pids(&find_records(&snapshot, "Foo"));
    let lower = pids(&find_records(&snapshot, "foo"));
    assert_eq!(upper, vec![1, 3]);
    assert_eq!(lower, vec![2]);
    assert!(upper.iter().all(|pid| !lower.contains(pid)));
}

#[test]
fn init_with_pid_one_is_found() {
    let snapshot = snapshot_of(vec![process(1, "init"), process(2, "kthreadd")]);
    let records = find_records(&snapshot, "init");
    assert_eq!(records.len(), 1);
    assert_eq!(records[0].pid, 1);
    assert_eq!(records[0].name, "init");
}

#[test]
fn two_workers_are_both_found() {
    let snapshot = snapshot_of(vec![
        process(100, "worker"),
        process(150, "idle"),
        process(200, "worker"),
    ]);
    let records = find_records(&snapshot, "worker");
    assert_eq!(records.len(), 2);
    assert_eq!(pids(&records), vec![100, 200]);
}

#[test]
fn empty_needle_matches_only_empty_names() {
    let named = snapshot_of(vec![process(1, "init"), process(2, " "), process(3, "a")]);
    assert!(find_records(&named, "").is_empty());
    let with_nameless = snapshot_of(vec![process(1, "init"), process(7, ""), process(8, "")]);
    assert_eq!(pids(&find_records(&with_nameless, "")), vec![7, 8]);
}

#[test]
fn needle_of_other_case_matches_nothing() {
    let snapshot = snapshot_of(vec![process(1, "Worker")]);
    assert!(find_records(&snapshot, "worker").is_empty());
    assert!(find_records(&snapshot, "WORKER").is_empty());
    assert_eq!(find_records(&snapshot, "Worker").len(), 1);
}

#[test]
fn needle_is_not_trimmed_nor_matched_in_part() {
    let snapshot = snapshot_of(vec![process(1, "worker"), process(2, "worker "), process(3, "work")]);
    assert_eq!(pids(&find_records(&snapshot, "worker")), vec![1]);
    assert_eq!(pids(&find_records(&snapshot, "worker ")), vec![2]);
    assert_eq!(pids(&find_records(&snapshot, "work")), vec![3]);
    assert!(find_records(&snapshot, " worker").is_empty());
    assert!(find_records(&snapshot, "orke").is_empty());
}

#[test]
fn projection_copies_every_attribute() {
    let descriptor = ProcessDescriptor {
        pid: 4242,
        parent: Some(17),
        name: "worker".to_string(),
        uid: 1000,
        status: "Runnable".to_string(),
        memory: 5_000_000_000,
        command: vec!["worker".to_string(), "--jobs".to_string(), "4".to_string()],
        cwd: "/srv/work".to_string(),
    };
    let record = project(&users(), &descriptor);
    assert_eq!(record.pid, 4242);
    assert_eq!(record.ppid, 17);
    assert_eq!(record.name, "worker");
    assert_eq!(record.username, "alice");
    assert_eq!(record.status, "Runnable");
    assert_eq!(record.memory, 5_000_000_000);
    assert_eq!(record.command, "worker --jobs 4");
    assert_eq!(record.cwd, "/srv/work");
}

#[test]
fn projection_fills_in_what_is_unknown() {
    let mut descriptor = process(9, "orphan");
    descriptor.uid = 77;
    let record = project(&users(), &descriptor);
    assert_eq!(record.ppid, 0);
    assert_eq!(record.username, "???");
    assert_eq!(record.command, "");
}

#[test]
fn search_uses_the_user_table_of_the_snapshot() {
    let mut first = process(1, "daemon");
    first.uid = 1000;
    let mut second = process(2, "daemon");
    second.uid = 5;
    let snapshot = Snapshot { processes: vec![first, second], users: users() };
    let records = find_records(&snapshot, "daemon");
    assert_eq!(records.len(), 2);
    assert_eq!(records[0].username, "alice");
    assert_eq!(records[1].username, "???");
}

#[test]
fn user_lookup_takes_the_first_entry() {
    let table = users();
    assert_eq!(resolve_user(&table, 0), "root");
    assert_eq!(resolve_user(&table, 1000), "alice");
    assert_eq!(resolve_user(&table, 1001), "???");
    assert_eq!(resolve_user(&Vec::new(), 0), "???");
}

#[test]
fn command_line_is_joined_by_single_spaces() {
    let parts = |words: &[&str]| words.iter().map(|word| word.to_string()).collect::<Vec<_>>();
    assert_eq!(join_command(&parts(&[])), "");
    assert_eq!(join_command(&parts(&["sh"])), "sh");
    assert_eq!(join_command(&parts(&["sh", "-c", "echo hi"])), "sh -c echo hi");
    assert_eq!(join_command(&parts(&["a", "", "b"])), "a  b");
    assert_eq!(join_command(&parts(&["", ""])), " ");
}

#[test]
fn failures_describe_themselves() {
    assert_eq!(
        FindError::Snapshot.message(),
        "the process table of this platform cannot be read"
    );
    let refused = FindError::Projection { pid: 7, field: "cwd".to_string() };
    assert_eq!(refused.message(), "the heap cannot hold the field cwd");
}
