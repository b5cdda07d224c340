use std::io::Write;
use tasker::{
    decompress, get_plist_from_conf, get_user_group_pair_id, join_path, replace_root_alias,
    resolve_owner, unpack_plan, ArchiveEntry, Configuration, Env, Error, Extraction,
};

#[test]
fn address_joins_domain_and_port() {
    let e = Env::new("/srv/tasker", "localhost", 54321, "admin", "password1234", None, None).unwrap();
    assert_eq!(e.address(), "localhost:54321");
    assert_eq!(e.meta_dir, "/srv/tasker/meta");
    assert_eq!(e.meta_file, "/srv/tasker/meta/tasker.meta");
    assert_eq!(e.get_trash_folder_name("j"), "/srv/tasker/trash/j");
}

#[test]
fn env_rejects_bad_settings() {
    assert!(matches!(
        Env::new("/r", "-bad-.com", 1, "admin", "password1234", None, None),
        Err(Error::IllegalDomainName(_))
    ));
    assert!(Env::new("/r", "a.b.c", 65354, "admin", "password1234", None, None).is_err());
    assert!(Env::new("/r", "a.b.c", 80, "adm", "password1234", None, None).is_err());
    assert!(Env::new("/r", "a.b.c", 80, "admin", "short", None, None).is_err());
    let long = "a".repeat(64);
    assert!(Env::new("/r", &long, 80, "admin", "password1234", None, None).is_err());
}

#[test]
fn paths_join_like_std() {
    assert_eq!(join_path("/a", "b"), "/a/b");
    assert_eq!(join_path("/a/", "b"), "/a/b");
    assert_eq!(join_path("/a", "/b"), "/b");
    assert_eq!(join_path("", "b"), "b");
}

#[test]
fn root_alias_is_replaced_only_at_start() {
    let mut p = "~root~/bin/run".to_string();
    replace_root_alias(&mut p, "/t/job");
    assert_eq!(p, "/t/job/bin/run");
    let mut q = "x~root~/y".to_string();
    replace_root_alias(&mut q, "/t/job");
    assert_eq!(q, "x~root~/y");
}

#[test]
fn owner_resolution() {
    assert_eq!(resolve_owner(1, 2, None, None), (1, 2));
    assert_eq!(resolve_owner(1, 2, None, Some(9)), (1, 9));
    assert_eq!(resolve_owner(1, 2, Some((5, 6)), None), (5, 6));
    assert_eq!(resolve_owner(1, 2, Some((5, 6)), Some(9)), (5, 9));
    assert_eq!(get_user_group_pair_id(3, 4, &None, &None), (3, 4));
    assert_eq!(get_user_group_pair_id(3, 4, &Some("root".to_string()), &None), (0, 0));
}

#[test]
fn unpack_plan_puts_directories_first_and_skips_metadata() {
    let entries = vec![
        ArchiveEntry { name: "job.yaml".to_string(), is_dir: false, data: b"Label: x".to_vec() },
        ArchiveEntry { name: "__MACOSX/._job.yaml".to_string(), is_dir: false, data: vec![] },
        ArchiveEntry { name: "lib/".to_string(), is_dir: true, data: vec![] },
        ArchiveEntry { name: "lib/a.py".to_string(), is_dir: false, data: b"print(1)".to_vec() },
    ];
    assert_eq!(
        unpack_plan(&entries, "/tmp/out"),
        vec![
            Extraction::Dir("/tmp/out/lib/".to_string()),
            Extraction::File("/tmp/out/job.yaml".to_string(), b"Label: x".to_vec()),
            Extraction::File("/tmp/out/lib/a.py".to_string(), b"print(1)".to_vec()),
        ]
    );
}

#[test]
fn decompress_rejects_garbage() {
    assert!(matches!(decompress(b"not a zip".to_vec(), "/tmp/out"), Err(Error::DecompressionError(_))));
}

#[test]
fn plist_from_conf_matches_method() {
    let c = Configuration::new("com.tasker.tasks.x", "/bin/sh");
    assert_eq!(get_plist_from_conf(&c), c.to_plist());
}

#[test]
fn decompress_test() {
    match decompress(Vec::new(), "/Users/congyuwang/Desktop/test_dir/out") {
        Ok(_) => {}
        Err(m) => println!("{:?}", m),
    }
}

#[test]
fn decompress_reads_a_real_archive() {
    let mut writer = zip::ZipWriter::new(std::io::Cursor::new(Vec::new()));
    let options = zip::write::SimpleFileOptions::default();
    writer.add_directory("lib/", options).unwrap();
    writer.start_file("job.yaml", options).unwrap();
    writer.write_all(b"Label: x").unwrap();
    writer.start_file("__MACOSX/._job.yaml", options).unwrap();
    writer.write_all(b"junk").unwrap();
    let bytes = writer.finish().unwrap().into_inner();
    let plan = decompress(bytes, "/tmp/out").unwrap();
    assert_eq!(
        plan,
        vec![
            Extraction::Dir("/tmp/out/lib/".to_string()),
            Extraction::File("/tmp/out/job.yaml".to_string(), b"Label: x".to_vec()),
        ]
    );
}
