use tasker::{
    create_task, delete_task, load_task, move_by_rename, read_last_n_lines, unload_task, update_yaml,
    view_std_out, Action, Config, Configuration, Env, Error, Outcome, Progress, Step, TreeWalk,
};

fn env() -> Env {
    Env::new("/tmp/tasker_root", "localhost", 54321, "admin", "password1234", None, None).unwrap()
}

/// Runs a step function, answering each action with `answer`; returns the
/// actions asked for and the result.
fn drive<F, A>(mut step: F, mut answer: A) -> (Vec<Action>, Result<String, Error>)
where
    F: FnMut(&mut Progress, Outcome) -> Step,
    A: FnMut(&Action) -> Outcome,
{
    let mut progress = Progress::new();
    let mut outcome = Outcome::Done;
    let mut actions = Vec::new();
    for _ in 0..100 {
        match step(&mut progress, outcome) {
            Step::Finish(r) => return (actions, r),
            Step::Perform(a) => {
                outcome = answer(&a);
                actions.push(a);
            }
        }
    }
    panic!("the operation did not end");
}

#[test]
fn move_test() {
    let mut walk = TreeWalk::new("/Users/congyuwang/Desktop/test_dir/out/", "/Users/congyuwang/Desktop/out/", false);
    let mut outcome = Outcome::Done;
    let result = loop {
        match move_by_rename(&mut walk, outcome) {
            Step::Finish(r) => break r,
            Step::Perform(Action::ReadDir(_)) => {
                outcome = Outcome::Failed(Error::RenameError("no such directory".to_string()))
            }
            Step::Perform(_) => outcome = Outcome::Done,
        }
    };
    match result {
        Ok(_) => {}
        Err(m) => println!("{:?}", m),
    }
}

#[test]
fn move_walk_renames_into_parallel_paths() {
    let mut walk = TreeWalk::new("/src", "/dst", false);
    let mut outcome = Outcome::Done;
    let mut actions = Vec::new();
    let result = loop {
        match move_by_rename(&mut walk, outcome) {
            Step::Finish(r) => break r,
            Step::Perform(a) => {
                outcome = match &a {
                    Action::ReadDir(d) if d == "/src" => Outcome::Entries(vec![
                        ("a.txt".to_string(), false),
                        ("sub".to_string(), true),
                    ]),
                    Action::ReadDir(d) if d == "/src/sub" => Outcome::Entries(vec![("b.txt".to_string(), false)]),
                    _ => Outcome::Done,
                };
                actions.push(a);
            }
        }
    };
    assert_eq!(result, Ok(String::new()));
    assert_eq!(
        actions,
        vec![
            Action::CreateDir("/dst".to_string()),
            Action::ReadDir("/src".to_string()),
            Action::Rename("/src/a.txt".to_string(), "/dst/a.txt".to_string()),
            Action::CreateDir("/dst/sub".to_string()),
            Action::ReadDir("/src/sub".to_string()),
            Action::Rename("/src/sub/b.txt".to_string(), "/dst/sub/b.txt".to_string()),
            Action::RemoveTree("/src".to_string()),
        ]
    );
}

#[test]
fn delete_relocates_what_exists_and_succeeds() {
    let e = env();
    let (actions, result) = drive(
        |p, o| delete_task(&e, "com.tasker.tasks.job", p, o),
        |a| match a {
            Action::MoveTree(from, _) if from.ends_with("/tasks/com.tasker.tasks.job") => {
                Outcome::Failed(Error::RenameError("no task directory".to_string()))
            }
            _ => Outcome::Done,
        },
    );
    assert_eq!(result, Ok(String::new()));
    assert_eq!(
        actions,
        vec![
            Action::Unload("/Library/LaunchDaemons/com.tasker.tasks.job.plist".to_string()),
            Action::RemoveFile("/Library/LaunchDaemons/com.tasker.tasks.job.plist".to_string()),
            Action::MoveTree(
                "/tmp/tasker_root/tasks/com.tasker.tasks.job".to_string(),
                "/tmp/tasker_root/trash/com.tasker.tasks.job".to_string()
            ),
            Action::CopyFile(
                "/tmp/tasker_root/meta/com.tasker.tasks.job.yaml".to_string(),
                "/tmp/tasker_root/trash/com.tasker.tasks.job/com.tasker.tasks.job.yaml".to_string()
            ),
            Action::RemoveFile("/tmp/tasker_root/meta/com.tasker.tasks.job.yaml".to_string()),
            Action::MoveTree(
                "/tmp/tasker_root/out/com.tasker.tasks.job".to_string(),
                "/tmp/tasker_root/trash/com.tasker.tasks.job/out".to_string()
            ),
        ]
    );
}

#[test]
fn create_rewrites_root_alias_before_load() {
    let e = env();
    let parsed = Configuration::new("job", "/bin/sh")
        .add_config(Config::ProgramArguments(vec!["~root~/run.py".to_string(), "-v".to_string()]));
    let mut parsed = Some(parsed);
    let (actions, result) = drive(
        |p, o| create_task(&e, "/tmp/upload.zip", p, o),
        |a| match a {
            Action::ReadDir(_) => Outcome::Entries(vec![
                ("run.py".to_string(), false),
                ("job.yaml".to_string(), false),
                ("lib".to_string(), true),
            ]),
            Action::ReadText(_) => Outcome::Text("Label: job\n".to_string()),
            Action::ParseDeclarative(_) => Outcome::Parsed(parsed.take().unwrap()),
            Action::ListJobs => Outcome::Listing("PID\tStatus\tLabel\n".to_string(), vec![]),
            _ => Outcome::Done,
        },
    );
    assert_eq!(result, Ok(String::new()));
    let write = actions
        .iter()
        .position(|a| matches!(a, Action::WriteFile(p, _) if p.ends_with(".plist")))
        .unwrap();
    let load = actions.iter().position(|a| matches!(a, Action::Load(_))).unwrap();
    assert!(write < load);
    match &actions[write] {
        Action::WriteFile(path, text) => {
            assert_eq!(path, "/Library/LaunchDaemons/com.tasker.tasks.job.plist");
            assert!(text.contains("\t\t<string>/tmp/tasker_root/tasks/com.tasker.tasks.job/run.py</string>\n"));
            assert!(text.contains("\t\t<string>-v</string>\n"));
            assert!(text.contains("<key>WorkingDirectory</key>\n\t<string>/tmp/tasker_root/tasks/com.tasker.tasks.job/</string>"));
            assert!(text.contains("<string>/tmp/tasker_root/out/com.tasker.tasks.job/stdout.log</string>"));
        }
        _ => unreachable!(),
    }
    assert_eq!(actions[0], Action::RemoveTree("/tmp/tasker.task.com/temp_unzip/".to_string()));
    assert_eq!(actions[3], Action::ReadText("/tmp/tasker.task.com/temp_unzip/job.yaml".to_string()));
    assert!(actions.contains(&Action::WriteFile(
        "/tmp/tasker_root/meta/com.tasker.tasks.job.yaml".to_string(),
        "Label: job\n".to_string()
    )));
}

#[test]
fn create_stops_at_invalid_job() {
    let e = env();
    let mut parsed = Some(Configuration::new("bad label!", "/bin/sh"));
    let (actions, result) = drive(
        |p, o| create_task(&e, "/tmp/upload.zip", p, o),
        |a| match a {
            Action::ReadDir(_) => Outcome::Entries(vec![("x.yaml".to_string(), false)]),
            Action::ReadText(_) => Outcome::Text("text".to_string()),
            Action::ParseDeclarative(_) => Outcome::Parsed(parsed.take().unwrap()),
            _ => Outcome::Done,
        },
    );
    assert!(matches!(result, Err(Error::ConfigLabelError(_))));
    assert_eq!(actions.len(), 5);
}

#[test]
fn unload_of_unloaded_job_still_removes_descriptor_and_fails() {
    let e = env();
    let (actions, result) = drive(
        |p, o| unload_task(&e, "com.tasker.tasks.job", p, o),
        |a| match a {
            Action::ListJobs => Outcome::Listing("PID\tStatus\tLabel\n".to_string(), vec![]),
            _ => Outcome::Done,
        },
    );
    assert!(matches!(result, Err(Error::FailedToUnloadTask(_))));
    assert_eq!(actions.len(), 3);
    assert!(matches!(actions[1], Action::Unload(_)));
    assert!(matches!(actions[2], Action::RemoveFile(_)));
}

#[test]
fn unload_of_loaded_job_succeeds() {
    let e = env();
    let (_, result) = drive(
        |p, o| unload_task(&e, "com.tasker.tasks.job", p, o),
        |a| match a {
            Action::ListJobs => {
                Outcome::Listing("PID\tStatus\tLabel\n12\t0\tcom.tasker.tasks.job\n".to_string(), vec![])
            }
            _ => Outcome::Done,
        },
    );
    assert_eq!(result, Ok(String::new()));
}

#[test]
fn load_of_loaded_job_fails() {
    let e = env();
    let (actions, result) = drive(
        |p, o| load_task(&e, "com.tasker.tasks.job", p, o),
        |_| Outcome::Listing("PID\tStatus\tLabel\n12\t0\tcom.tasker.tasks.job\n".to_string(), vec![]),
    );
    assert!(matches!(result, Err(Error::FailedToLoadTask(_))));
    assert_eq!(actions, vec![Action::ListJobs]);
}

#[test]
fn load_of_unknown_job_fails() {
    let e = env();
    let (_, result) = drive(
        |p, o| load_task(&e, "com.tasker.tasks.job", p, o),
        |_| Outcome::Listing("PID\tStatus\tLabel\n".to_string(), vec![]),
    );
    assert!(matches!(result, Err(Error::TaskDoesNotExist(_))));
}

#[test]
fn update_with_other_label_fails() {
    let e = env();
    let mut parsed = Some(Configuration::new("other", "/bin/sh"));
    let (_, result) = drive(
        |p, o| update_yaml(&e, "Label: other\n", "com.tasker.tasks.job", p, o),
        |_| Outcome::Parsed(parsed.take().unwrap()),
    );
    assert!(matches!(result, Err(Error::WrongLabelInYaml(_))));
}

#[test]
fn update_of_unloaded_job_does_not_load_it() {
    let e = env();
    let mut parsed = Some(Configuration::new("job", "/bin/sh"));
    let (actions, result) = drive(
        |p, o| update_yaml(&e, "Label: job\n", "com.tasker.tasks.job", p, o),
        |a| match a {
            Action::ParseDeclarative(_) => Outcome::Parsed(parsed.take().unwrap()),
            Action::ListJobs => Outcome::Listing(
                "PID\tStatus\tLabel\n".to_string(),
                vec![("com.tasker.tasks.job.yaml".to_string(), true)],
            ),
            _ => Outcome::Done,
        },
    );
    assert_eq!(result, Ok(String::new()));
    assert!(!actions.iter().any(|a| matches!(a, Action::Load(_) | Action::Unload(_))));
    assert!(actions.iter().any(|a| matches!(a, Action::WriteFile(p, _) if p.ends_with(".plist"))));
}

#[test]
fn std_out_keeps_last_matching_lines() {
    assert_eq!(read_last_n_lines("a1\nb\na2\na3\n", 2, "a"), "a2\na3");
    assert_eq!(read_last_n_lines("a1\nb\n", 0, ""), "");
    assert_eq!(read_last_n_lines("x\ny", 5, ""), "x\ny");
    let e = env();
    let (actions, result) = drive(
        |p, o| view_std_out(&e, "com.tasker.tasks.job", 1, "", p, o),
        |_| Outcome::Text("one\ntwo\n".to_string()),
    );
    assert_eq!(result, Ok("two".to_string()));
    assert_eq!(actions, vec![Action::ReadText("/tmp/tasker_root/out/com.tasker.tasks.job/stdout.log".to_string())]);
}

#[test]
fn create_needs_exactly_one_declarative_file() {
    let e = env();
    let (_, none) = drive(
        |p, o| create_task(&e, "/tmp/upload.zip", p, o),
        |a| match a {
            Action::ReadDir(_) => Outcome::Entries(vec![("run.py".to_string(), false), ("conf.yaml".to_string(), true)]),
            _ => Outcome::Done,
        },
    );
    assert!(matches!(none, Err(Error::YamlNotFound(_))));
    let (_, two) = drive(
        |p, o| create_task(&e, "/tmp/upload.zip", p, o),
        |a| match a {
            Action::ReadDir(_) => Outcome::Entries(vec![("a.yaml".to_string(), false), ("b.yaml".to_string(), false)]),
            _ => Outcome::Done,
        },
    );
    assert!(matches!(two, Err(Error::YamlNotFound(_))));
}

#[test]
fn unload_of_loaded_job_succeeds_even_if_the_verb_fails() {
    let e = env();
    let (actions, result) = drive(
        |p, o| unload_task(&e, "com.tasker.tasks.job", p, o),
        |a| match a {
            Action::ListJobs => {
                Outcome::Listing("PID\tStatus\tLabel\n12\t0\tcom.tasker.tasks.job\n".to_string(), vec![])
            }
            Action::Unload(_) => Outcome::Failed(Error::CommandExecutionError("busy".to_string())),
            _ => Outcome::Done,
        },
    );
    assert_eq!(result, Ok(String::new()));
    assert!(matches!(actions[2], Action::RemoveFile(_)));
}

#[test]
fn copy_walk_copies_and_keeps_source() {
    let mut walk = TreeWalk::new("/src", "/dst", true);
    let mut outcome = Outcome::Done;
    let mut actions = Vec::new();
    let result = loop {
        match tasker::copy_folder(&mut walk, outcome) {
            Step::Finish(r) => break r,
            Step::Perform(a) => {
                outcome = match &a {
                    Action::ReadDir(d) if d == "/src" => Outcome::Entries(vec![
                        ("sub".to_string(), true),
                        ("a.txt".to_string(), false),
                    ]),
                    Action::ReadDir(_) => Outcome::Entries(vec![]),
                    _ => Outcome::Done,
                };
                actions.push(a);
            }
        }
    };
    assert_eq!(result, Ok(String::new()));
    assert_eq!(
        actions,
        vec![
            Action::CreateDir("/dst".to_string()),
            Action::ReadDir("/src".to_string()),
            Action::CopyFile("/src/a.txt".to_string(), "/dst/a.txt".to_string()),
            Action::CreateDir("/dst/sub".to_string()),
            Action::ReadDir("/src/sub".to_string()),
        ]
    );
}
