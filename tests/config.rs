use tasker::{AliveCondition, CalendarInterval, Config, Configuration, Error, ResourceLimit};

fn calendar(minute: i64, hour: i64) -> CalendarInterval {
    CalendarInterval { minute: Some(minute), hour: Some(hour), day: None, weekday: None, month: None }
}

fn no_limits() -> ResourceLimit {
    ResourceLimit {
        cpu: None,
        file_size: None,
        number_of_files: None,
        number_of_processes: None,
        resident_set_size: None,
        stack: None,
    }
}

fn mock_config(label: &str, program: &str, out: &str) -> Configuration {
    Configuration::new(label, program)
        .add_config(Config::StandardOutPath(out.to_string()))
        .add_config(Config::HardResourceLimits(ResourceLimit {
            number_of_files: Some(10000),
            number_of_processes: Some(8),
            ..no_limits()
        }))
        .add_config(Config::KeepAlive(AliveCondition {
            crashed: Some(true),
            other_job_enabled: Some(vec![
                (String::from("com.tasker.conflict"), false),
                (String::from("com.tasker.depended"), true),
            ]),
            successful_exit: Some(false),
        }))
        .add_config(Config::StartCalendarInterval(vec![calendar(15, 9), calendar(0, 13)]))
        .add_config(Config::ProgramArguments(vec![
            String::from("test_script.py"),
            String::from("--token=12345678"),
        ]))
        .add_config(Config::EnvironmentVariables(vec![
            (String::from("ALPHA"), String::from("2.37")),
            (String::from("TOKEN"), String::from("12345678")),
        ]))
}

#[test]
fn config_mock_config_yaml() {
    let test_config = mock_config("com.tasker.tasks.test_task", "/usr/bin/python", "/tmp/");
    let kinds: Vec<&str> = test_config.configuration.iter().map(|c| c.kind().name()).collect();
    assert_eq!(
        kinds,
        vec![
            "StandardOutPath",
            "HardResourceLimits",
            "KeepAlive",
            "StartCalendarInterval",
            "ProgramArguments",
            "EnvironmentVariables"
        ]
    );
    let declared = test_config.clone().to_declarative();
    assert_eq!(declared.label, "test_task");
    assert_eq!(declared.configuration, test_config.configuration);
}

#[test]
fn launchers_mock_config_yaml() {
    let test_config = mock_config("com.tasker.test_task", "/bin/python", "standard_in");
    assert_eq!(test_config.configuration.len(), 6);
    assert_eq!(test_config.configuration[0], Config::StandardOutPath(String::from("standard_in")));
    let declared = test_config.clone().to_declarative();
    assert_eq!(declared.label, "com.tasker.test_task");
}

#[test]
fn config_update_test_config() {
    let test_config = Configuration::new("com.tasker.tasks.test_task", "/usr/bin/python")
        .add_config(Config::StandardOutPath("/tmp/".to_string()))
        .add_config(Config::StandardOutPath("/var/tmp/".to_string()));
    let expected = Configuration::new("com.tasker.tasks.test_task", "/usr/bin/python")
        .add_config(Config::StandardOutPath("/var/tmp/".to_string()));
    assert_eq!(test_config, expected);
    assert_eq!(test_config.clone().to_declarative().label, "test_task");
}

#[test]
fn launchers_update_test_config() {
    let test_config = Configuration::new("com.tasker.test_task", "/bin/python")
        .add_config(Config::StandardOutPath("standard_in".to_string()))
        .add_config(Config::StandardOutPath("standard_in_new".to_string()));
    assert_eq!(
        test_config.configuration,
        vec![Config::StandardOutPath("standard_in_new".to_string())]
    );
}

#[test]
fn config_update_test_config_from_yaml() {
    let test_config = Configuration::new("test_task", "/usr/bin/python")
        .add_config(Config::StandardOutPath("/tmp/".to_string()))
        .add_config(Config::StartCalendarInterval(vec![calendar(15, 9)]).check().unwrap());
    assert_eq!(
        test_config.configuration,
        vec![
            Config::StandardOutPath("/tmp/".to_string()),
            Config::StartCalendarInterval(vec![calendar(15, 9)])
        ]
    );
}

#[test]
fn launchers_update_test_config_from_yaml() {
    let test_config = Configuration::new("com.tasker.test_task", "/bin/python")
        .add_config(Config::StandardOutPath("standard_in".to_string()))
        .add_config(Config::StartCalendarInterval(vec![calendar(15, 9)]));
    assert_eq!(test_config.configuration.len(), 2);
    assert_eq!(test_config.configuration[1], Config::StartCalendarInterval(vec![calendar(15, 9)]));
}

fn removal_fixture(label: &str, program: &str, out: &str) -> Configuration {
    Configuration::new(label, program)
        .add_config(Config::StandardOutPath(out.to_string()))
        .add_config(Config::KeepAlive(AliveCondition {
            crashed: Some(true),
            successful_exit: Some(false),
            other_job_enabled: None,
        }))
        .add_config(Config::StartCalendarInterval(vec![calendar(15, 9)]))
        .remove_config("KeepAlive")
}

#[test]
fn config_test_remove_config() {
    let test_config = removal_fixture("test_task", "/usr/bin/python", "/tmp/");
    assert_eq!(
        test_config.configuration,
        vec![
            Config::StandardOutPath("/tmp/".to_string()),
            Config::StartCalendarInterval(vec![calendar(15, 9)])
        ]
    );
}

#[test]
fn launchers_test_remove_config() {
    let test_config = removal_fixture("com.tasker.test_task", "/bin/python", "standard_in");
    assert_eq!(test_config.configuration.len(), 2);
    assert_eq!(test_config.configuration[0], Config::StandardOutPath("standard_in".to_string()));
}

fn plist_fixture(label: &str, program: &str, out: &str) -> Configuration {
    Configuration::new(label, program)
        .add_config(Config::StandardOutPath(out.to_string()))
        .add_config(Config::KeepAlive(AliveCondition {
            crashed: Some(true),
            other_job_enabled: Some(vec![
                (String::from("com.tasker.conflict"), false),
                (String::from("com.tasker.depended"), true),
            ]),
            successful_exit: Some(false),
        }))
        .add_config(Config::StartCalendarInterval(vec![calendar(15, 9), calendar(0, 13)]))
        .add_config(Config::ProgramArguments(vec![
            String::from("test_script.py"),
            String::from("--token=12345678"),
        ]))
        .add_config(Config::EnvironmentVariables(vec![(String::from("TOKEN"), String::from("12345678"))]))
}

fn expected_plist(label: &str, program: &str, out: &str) -> String {
    String::new()
        + "<?xml version=\"1.0\" encoding=\"UTF-8\"?>\n"
        + "<!DOCTYPE plist PUBLIC \"-//Apple//DTD PLIST 1.0//EN\" \"http://www.apple.com/DTDs/PropertyList-1.0.dtd\">\n"
        + "<plist version=\"1.0\">\n"
        + "<dict>\n"
        + "\t<key>Label</key>\n"
        + "\t<string>"
        + label
        + "</string>\n"
        + "\t<key>Program</key>\n"
        + "\t<string>"
        + program
        + "</string>\n"
        + "\t<key>StandardOutPath</key>\n"
        + "\t<string>"
        + out
        + "</string>\n"
        + "\t<key>KeepAlive</key>\n"
        + "\t<dict>\n"
        + "\t\t<key>SuccessfulExit</key>\n"
        + "\t\t<false />\n"
        + "\t\t<key>OtherJobEnabled</key>\n"
        + "\t\t<dict>\n"
        + "\t\t\t<key>com.tasker.conflict</key>\n"
        + "\t\t\t<false />\n"
        + "\t\t\t<key>com.tasker.depended</key>\n"
        + "\t\t\t<true />\n"
        + "\t\t</dict>\n"
        + "\t\t<key>Crashed</key>\n"
        + "\t\t<true />\n"
        + "\t</dict>\n"
        + "\t<key>StartCalendarInterval</key>\n"
        + "\t<array>\n"
        + "\t\t<dict>\n"
        + "\t\t\t<key>Minute</key>\n"
        + "\t\t\t<integer>15</integer>\n"
        + "\t\t\t<key>Hour</key>\n"
        + "\t\t\t<integer>9</integer>\n"
        + "\t\t</dict>\n"
        + "\t\t<dict>\n"
        + "\t\t\t<key>Minute</key>\n"
        + "\t\t\t<integer>0</integer>\n"
        + "\t\t\t<key>Hour</key>\n"
        + "\t\t\t<integer>13</integer>\n"
        + "\t\t</dict>\n"
        + "\t</array>\n"
        + "\t<key>ProgramArguments</key>\n"
        + "\t<array>\n"
        + "\t\t<string>test_script.py</string>\n"
        + "\t\t<string>--token=12345678</string>\n"
        + "\t</array>\n"
        + "\t<key>EnvironmentVariables</key>\n"
        + "\t<dict>\n"
        + "\t\t<key>TOKEN</key>\n"
        + "\t\t<string>12345678</string>\n"
        + "\t</dict>\n"
        + "</dict>\n"
        + "</plist>"
}

#[test]
fn config_test_get_plist() {
    let config = plist_fixture("com.tasker.tasks.test_task", "/usr/bin/python", "/tmp/");
    assert_eq!(
        config.to_plist(),
        expected_plist("com.tasker.tasks.test_task", "/usr/bin/python", "/tmp/")
    );
}

#[test]
fn launchers_test_get_plist() {
    let config = plist_fixture("com.tasker.test_task", "/bin/python", "standard_in");
    assert_eq!(config.to_plist(), expected_plist("com.tasker.test_task", "/bin/python", "standard_in"));
}

#[test]
fn plist_is_deterministic() {
    let config = plist_fixture("com.tasker.tasks.a", "/bin/sh", "/tmp/x");
    assert_eq!(config.to_plist().as_bytes(), config.to_plist().as_bytes());
}

#[test]
fn plist_escapes_markup_and_writes_scalars() {
    let config = Configuration::new("com.tasker.tasks.a", "/bin/a&b")
        .add_config(Config::RunAtLoad(true))
        .add_config(Config::ExitTimeOut(-3))
        .add_config(Config::SoftResourceLimit(ResourceLimit { stack: Some(8), ..no_limits() }));
    let text = config.to_plist();
    assert!(text.contains("\t<string>/bin/a&amp;b</string>\n"));
    assert!(text.contains("\t<key>RunAtLoad</key>\n\t<true />\n"));
    assert!(text.contains("\t<key>ExitTimeOut</key>\n\t<integer>-3</integer>\n"));
    assert!(text.contains("\t<key>SoftResourceLimit</key>\n\t<dict>\n\t\t<key>Stack</key>\n\t\t<integer>8</integer>\n\t</dict>\n"));
}

#[test]
fn upsert_twice_keeps_later_value_in_place() {
    let c = Configuration::new("a", "/p")
        .add_config(Config::RunAtLoad(true))
        .add_config(Config::UserName("x".to_string()))
        .add_config(Config::StartInterval(5))
        .add_config(Config::UserName("y".to_string()));
    assert_eq!(
        c.configuration,
        vec![Config::RunAtLoad(true), Config::UserName("y".to_string()), Config::StartInterval(5)]
    );
}

#[test]
fn remove_keeps_order_of_others() {
    let c = Configuration::new("a", "/p")
        .add_config(Config::RunAtLoad(true))
        .add_config(Config::UserName("x".to_string()))
        .add_config(Config::StartInterval(5))
        .remove_config("UserName");
    assert_eq!(c.configuration, vec![Config::RunAtLoad(true), Config::StartInterval(5)]);
    let same = c.clone().remove_config("NoSuchKind");
    assert_eq!(same, c);
}

fn valid_base(label: &str, program: &str) -> Configuration {
    Configuration::new(label, program)
}

#[test]
fn validation_rejects_bad_label() {
    let r = valid_base("bad label!", "/bin/sh").validate();
    assert!(matches!(r, Err(Error::ConfigLabelError(_))));
}

#[test]
fn validation_rejects_relative_program() {
    let r = valid_base("test_task", "python").validate();
    match r {
        Err(Error::ConfigProgramError(m)) => assert_eq!(m, "program path `python` is not an absolute path"),
        other => panic!("unexpected {:?}", other),
    }
}

#[test]
fn validation_rejects_missing_program() {
    let r = valid_base("test_task", "/python").validate();
    match r {
        Err(Error::ConfigProgramError(m)) => {
            assert_eq!(m, "program `/python` is not found or not permitted to access")
        }
        other => panic!("unexpected {:?}", other),
    }
}

#[test]
fn validation_rejects_hour_thirty() {
    let r = valid_base("test_task", "/bin/sh")
        .add_config(Config::StartCalendarInterval(vec![calendar(15, 30)]))
        .validate();
    match r {
        Err(Error::ConfigRangeError(m)) => assert_eq!(m, "`hour` with value `30` is out of range (0, 23)"),
        other => panic!("unexpected {:?}", other),
    }
}

#[test]
fn validation_rejects_501_processes() {
    let limit = ResourceLimit { number_of_processes: Some(501), ..no_limits() };
    assert!(matches!(limit.check(), Err(Error::ConfigRangeError(_))));
    let r = valid_base("test_task", "/bin/sh").add_config(Config::HardResourceLimits(limit)).validate();
    assert!(matches!(r, Err(Error::ConfigRangeError(_))));
    let ok = ResourceLimit { number_of_processes: Some(500), ..no_limits() };
    assert_eq!(ok.check(), Ok(ok));
}

#[test]
fn validation_rejects_missing_directory() {
    let r = valid_base("test_task", "/bin/sh")
        .add_config(Config::WorkingDirectory("/tmp/no such path".to_string()))
        .validate();
    match r {
        Err(Error::ConfigPathError(m)) => assert_eq!(m, "`/tmp/no such path` is not a directory"),
        other => panic!("unexpected {:?}", other),
    }
}

#[test]
fn validation_rejects_unsorted_map() {
    let r = valid_base("test_task", "/bin/sh")
        .add_config(Config::EnvironmentVariables(vec![
            ("B".to_string(), "1".to_string()),
            ("A".to_string(), "2".to_string()),
        ]))
        .validate();
    assert!(matches!(r, Err(Error::YamlError(_))));
}

#[test]
fn validation_accepts_and_namespaces() {
    let c = valid_base("test_task", "/bin/sh")
        .add_config(Config::StartInterval(10))
        .add_config(Config::WorkingDirectory("/tmp".to_string()))
        .add_config(Config::StartInterval(20));
    let v = c.validate().unwrap();
    assert_eq!(v.label, "com.tasker.tasks.test_task");
    assert_eq!(
        v.configuration,
        vec![Config::StartInterval(20), Config::WorkingDirectory("/tmp".to_string())]
    );
}

#[test]
fn declarative_round_trip() {
    let c = valid_base("job.one", "/bin/sh")
        .add_config(Config::RunAtLoad(false))
        .add_config(Config::WorkingDirectory("/tmp".to_string()))
        .validate()
        .unwrap();
    let again = c.clone().to_declarative().validate().unwrap();
    assert_eq!(again, c);
}

#[test]
fn validate_given_reports_first_violation() {
    let c = valid_base("job", "/bin/sh")
        .add_config(Config::StandardOutPath("/x".to_string()))
        .add_config(Config::ExitTimeOut(-1));
    let r = c.clone().validate_given(true, &vec![false, true]);
    assert!(matches!(r, Err(Error::ConfigPathError(_))));
    let r = c.validate_given(true, &vec![true, true]);
    assert!(matches!(r, Err(Error::ConfigRangeError(_))));
}

#[test]
#[should_panic(expected = "program path `python` is not an absolute path")]
fn config_panic_program_path() {
    let config = Configuration::new("test_task", "python")
        .add_config(Config::StandardOutPath("/tmp/".to_string()))
        .add_config(Config::StartCalendarInterval(vec![calendar(15, 20)]));
    config.validate().unwrap();
}

#[test]
#[should_panic(expected = "program `/python` is not found or not permitted to access")]
fn config_panic_program_not_found() {
    let config = Configuration::new("test_task", "/python")
        .add_config(Config::StandardOutPath("/tmp/".to_string()))
        .add_config(Config::StartCalendarInterval(vec![calendar(15, 20)]));
    config.validate().unwrap();
}

#[test]
fn range_messages_name_the_first_field() {
    let c = CalendarInterval { minute: None, hour: Some(30), day: None, weekday: None, month: Some(13) };
    assert_eq!(
        c.check(),
        Err(Error::ConfigRangeError("`hour` with value `30` is out of range (0, 23)".to_string()))
    );
    let l = ResourceLimit { number_of_processes: Some(501), ..no_limits() };
    assert_eq!(
        l.check(),
        Err(Error::ConfigRangeError("`number_of_processes` with value `501` is out of range (0, 500)".to_string()))
    );
}
