use wie_jni::paths::StoragePath;
use wie_jni::storage::{
    normalize, record_name, sanitize_aid, AndroidDatabase, AndroidDatabaseRepository,
    AndroidFilesystem,
};
use wie_jni::text::parse_u32;

fn names(parts: &[&str]) -> Vec<String> {
    parts.iter().map(|s| s.to_string()).collect()
}

fn base() -> StoragePath {
    StoragePath::new("/data/user/0/net.dlunch.wie/files".to_string()).joined("wie")
}

#[test]
fn sanitize_aid_strips_separators() {
    assert_eq!(sanitize_aid("com/example\\game\0x"), Some("comexamplegamex".to_string()));
    assert_eq!(sanitize_aid("plain.id"), Some("plain.id".to_string()));
    assert_eq!(sanitize_aid("한글앱"), Some("한글앱".to_string()));
}

#[test]
fn sanitize_aid_refuses_unusable_ids() {
    assert_eq!(sanitize_aid(""), None);
    assert_eq!(sanitize_aid("///"), None);
    assert_eq!(sanitize_aid("."), None);
    assert_eq!(sanitize_aid(".."), None);
    assert_eq!(sanitize_aid("./."), None);
    assert_eq!(sanitize_aid("/.\\"), None);
    assert_eq!(sanitize_aid("..."), Some("...".to_string()));
}

#[test]
fn normalize_keeps_plain_names() {
    assert_eq!(normalize("a/./b"), Some(names(&["a", "b"])));
    assert_eq!(normalize("a//b/"), Some(names(&["a", "b"])));
    assert_eq!(normalize("./save.dat"), Some(names(&["save.dat"])));
    assert_eq!(normalize("dir/sub/file.bin"), Some(names(&["dir", "sub", "file.bin"])));
}

#[test]
fn normalize_refuses_escapes_and_empty_paths() {
    assert_eq!(normalize("../etc/passwd"), None);
    assert_eq!(normalize("a/../b"), None);
    assert_eq!(normalize("/abs/path"), None);
    assert_eq!(normalize("."), None);
    assert_eq!(normalize(""), None);
    assert_eq!(normalize("./"), None);
}

#[test]
fn path_for_places_files_below_the_app() {
    let fs = AndroidFilesystem::new(base());
    let p = fs.path_for("com.example/game", "save/slot1.dat").unwrap();
    assert_eq!(p.root, "/data/user/0/net.dlunch.wie/files");
    assert_eq!(p.parts, names(&["wie", "com.examplegame", "fs", "save", "slot1.dat"]));
}

#[test]
fn path_for_refuses_bad_requests() {
    let fs = AndroidFilesystem::new(base());
    assert_eq!(fs.path_for("..", "save.dat"), None);
    assert_eq!(fs.path_for("app", "../other/save.dat"), None);
    assert_eq!(fs.path_for("app", "/save.dat"), None);
    assert_eq!(fs.path_for("app", "."), None);
}

#[test]
fn database_path_uses_placeholders() {
    let repo = AndroidDatabaseRepository::new(base());
    let p = repo.get_path_for_database("scores", "app1");
    assert_eq!(p.parts, names(&["wie", "app1", "db", "scores"]));
    let p = repo.get_path_for_database("scores", "/");
    assert_eq!(p.parts, names(&["wie", "_", "db", "scores"]));
    let p = repo.get_path_for_database("../escape", "app1");
    assert_eq!(p.parts, names(&["wie", "app1", "db", "_"]));
    let p = repo.get_path_for_database("a/b", "..");
    assert_eq!(p.parts, names(&["wie", "_", "db", "a", "b"]));
    assert_eq!(p.root, "/data/user/0/net.dlunch.wie/files");
}

#[test]
fn record_names_are_decimal() {
    assert_eq!(record_name(0), "0");
    assert_eq!(record_name(7), "7");
    assert_eq!(record_name(1234), "1234");
    assert_eq!(record_name(u32::MAX), "4294967295");
}

#[test]
fn record_name_round_trip() {
    for id in [0u32, 1, 9, 10, 99, 100, 65535, 4294967295] {
        assert_eq!(parse_u32(&record_name(id)), Some(id));
    }
}

#[test]
fn record_path_is_below_the_store() {
    let db = AndroidDatabase::new(base().joined("app").joined("db").joined("scores"));
    let p = db.get_path_for_record(12);
    assert_eq!(p.parts, names(&["wie", "app", "db", "scores", "12"]));
    assert_eq!(db.base_path().parts, names(&["wie", "app", "db", "scores"]));
}

#[test]
fn empty_record_id_starts_at_one() {
    let db = AndroidDatabase::new(base());
    assert_eq!(db.find_empty_record_id(&vec![]), 1);
    assert_eq!(db.find_empty_record_id(&names(&["2", "3"])), 1);
}

#[test]
fn empty_record_id_fills_the_first_gap() {
    let db = AndroidDatabase::new(base());
    assert_eq!(db.find_empty_record_id(&names(&["1", "2", "4"])), 3);
    assert_eq!(db.find_empty_record_id(&names(&["3", "1", "2"])), 4);
    assert_eq!(db.find_empty_record_id(&names(&["01", "x", "1"])), 2);
}

#[test]
fn record_ids_are_read_from_names() {
    assert_eq!(
        AndroidDatabase::record_ids_from_names(&names(&["1", "20", "+3", "007"])),
        Some(vec![1, 20, 3, 7])
    );
    assert_eq!(AndroidDatabase::record_ids_from_names(&vec![]), Some(vec![]));
}

#[test]
fn record_ids_refuse_non_numbers() {
    assert_eq!(AndroidDatabase::record_ids_from_names(&names(&["1", "abc"])), None);
    assert_eq!(AndroidDatabase::record_ids_from_names(&names(&["4294967296"])), None);
    assert_eq!(AndroidDatabase::record_ids_from_names(&names(&[""])), None);
    assert_eq!(AndroidDatabase::record_ids_from_names(&names(&["+"])), None);
    assert_eq!(AndroidDatabase::record_ids_from_names(&names(&["-1"])), None);
}

#[test]
fn parse_u32_matches_std() {
    for s in ["0", "42", "+42", "0042", "4294967295", "4294967296", "", "+", "-0", " 1", "1 ", "++1", "99999999999"] {
        assert_eq!(parse_u32(s), s.parse::<u32>().ok(), "input {:?}", s);
    }
}

#[test]
fn normalize_follows_unix_splitting() {
    assert_eq!(normalize(".hidden/b"), Some(names(&[".hidden", "b"])));
    assert_eq!(normalize("a/.../b"), Some(names(&["a", "...", "b"])));
    assert_eq!(normalize("a\\b"), Some(names(&["a\\b"])));
    assert_eq!(normalize("./."), None);
    assert_eq!(normalize("..hidden"), Some(names(&["..hidden"])));
    assert_eq!(normalize("a/b/.."), None);
}

#[test]
fn next_id_after_add_and_delete() {
    let db = AndroidDatabase::new(base());
    let mut entries = names(&["1", "2", "4"]);
    let r = db.find_empty_record_id(&entries);
    assert_eq!(r, 3);
    assert_eq!(db.find_empty_record_id(&entries), r);
    entries.push(record_name(r));
    assert_eq!(parse_u32(&record_name(r)), Some(r));
    assert!(db.find_empty_record_id(&entries) > r);
    entries.retain(|e| *e != record_name(2));
    assert!(db.find_empty_record_id(&entries) <= 2);
}
