use tasker::{list_combined, list_jobs, meta_yaml_list, Error, Status, TaskInfo};

const HEADER: &str = "PID\tStatus\tLabel\n";

#[test]
fn list_merges_live_and_inventory_sorted() {
    let listing = format!("{}123\t0\tcom.tasker.tasks.b\n", HEADER);
    let files = vec![("com.tasker.tasks.a.yaml".to_string(), true)];
    let jobs = list_jobs(&listing, &files, "", "/nonexistent").unwrap();
    assert_eq!(jobs.len(), 2);
    assert_eq!(jobs[0].label, "com.tasker.tasks.a");
    assert_eq!(jobs[0].status, Status::UNLOADED);
    assert_eq!(jobs[0].pid, None);
    assert_eq!(jobs[1].label, "com.tasker.tasks.b");
    assert_eq!(jobs[1].status, Status::RUNNING);
    assert_eq!(jobs[1].pid, Some(123));
}

#[test]
fn list_prefers_live_record_and_filters() {
    let listing = format!(
        "{}-\t1\tcom.tasker.tasks.b\n-\t0\tcom.apple.other\n-\t0\tcom.tasker.tasks.b\n",
        HEADER
    );
    let files = vec![
        ("com.tasker.tasks.b.yaml".to_string(), true),
        ("com.tasker.tasks.c.yaml".to_string(), false),
        ("notes.txt".to_string(), true),
    ];
    let jobs = list_jobs(&listing, &files, "tasks", "/nonexistent").unwrap();
    assert_eq!(jobs.len(), 1);
    assert_eq!(jobs[0].label, "com.tasker.tasks.b");
    assert_eq!(jobs[0].status, Status::ERROR);
    assert_eq!(jobs[0].last_exit_status, Some(1));
}

#[test]
fn listing_line_statuses() {
    let loaded = TaskInfo::from_line("-\t0\tcom.tasker.tasks.x", "/nonexistent");
    assert_eq!(loaded.status, Status::LOADED);
    assert_eq!(TaskInfo::from_fields(&vec!["-".to_string(), "0".to_string()], true).status, Status::NORMAL);
    assert_eq!(TaskInfo::from_line("7 0 com.tasker.tasks.x", "/nonexistent").status, Status::RUNNING);
    let short = TaskInfo::from_line("", "/nonexistent");
    assert_eq!(short.label, "");
    assert_eq!(short.last_exit_status, Some(0));
}

#[test]
fn filter_keeps_first_of_repeated_label() {
    let listing = format!("{}5\t0\tcom.tasker.tasks.z\n-\t3\tcom.tasker.tasks.z\n", HEADER);
    let set = TaskInfo::from_str_filter(&listing, "", "/nonexistent");
    assert_eq!(set.len(), 1);
    assert_eq!(set[0].pid, Some(5));
}

#[test]
fn merge_keeps_live_record() {
    let live = vec![TaskInfo { pid: Some(1), last_exit_status: Some(0), label: "m".to_string(), status: Status::RUNNING }];
    let inventory = vec![TaskInfo::from_just_label("z"), TaskInfo::from_just_label("m"), TaskInfo::from_just_label("a")];
    let merged = list_combined(live, inventory);
    let labels: Vec<&str> = merged.iter().map(|t| t.label.as_str()).collect();
    assert_eq!(labels, vec!["a", "m", "z"]);
    assert_eq!(merged[1].status, Status::RUNNING);
}

#[test]
fn inventory_rejects_name_without_label() {
    let files = vec![("com.tasker.tasks.\n.yaml".to_string(), true)];
    assert!(matches!(meta_yaml_list(&files, ""), Err(Error::FailedToReadMetaFolder(_))));
    let ok = meta_yaml_list(&vec![(".yaml".to_string(), true)], "").unwrap();
    assert!(ok.is_empty());
}
