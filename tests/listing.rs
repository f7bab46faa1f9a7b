use rusqlite::Connection;
use sqlfs_readdir::{
    child_name, glob_pattern, list, list_bytes, normalize_path, on_query, on_row, status_code,
    DirSink, NameList, ReadDirError,
};

fn store(keys: &[&str]) -> Connection {
    let conn = Connection::open_in_memory().unwrap();
    conn.execute_batch("create table meta_data (key);").unwrap();
    for k in keys {
        conn.execute("insert into meta_data (key) values (?1);", (k,)).unwrap();
    }
    conn
}

fn listing(conn: &Connection, path: &str) -> (Result<(), ReadDirError>, Vec<String>) {
    let mut sink = NameList::new();
    let r = list(conn, path, &mut sink);
    (r, sink.names().clone())
}

#[test]
fn it_works() {
    assert_eq!(2 + 2, 4);
}

#[test]
fn empty_directory_lists_dots() {
    let conn = store(&["b", "b/c", "ab"]);
    let (r, names) = listing(&conn, "a");
    assert!(r.is_ok());
    assert_eq!(names, vec![".", ".."]);
}

#[test]
fn empty_store_lists_dots() {
    let conn = store(&[]);
    let (r, names) = listing(&conn, "/");
    assert!(r.is_ok());
    assert_eq!(names, vec![".", ".."]);
}

#[test]
fn grandchildren_are_not_listed() {
    let conn = store(&["a", "a/b", "a/b/c"]);
    let (r, names) = listing(&conn, "a");
    assert!(r.is_ok());
    assert_eq!(names, vec![".", "..", "b"]);
}

#[test]
fn own_key_is_not_listed() {
    let conn = store(&["a", "a/b"]);
    let (r, names) = listing(&conn, "a");
    assert!(r.is_ok());
    assert_eq!(names, vec![".", "..", "b"]);
}

#[test]
fn children_listed_by_last_component() {
    let conn = store(&["x/y", "x/y/z", "x/w", "x", "xy/q", "x/é"]);
    let (r, names) = listing(&conn, "x/");
    assert!(r.is_ok());
    assert_eq!(names, vec![".", "..", "y", "w", "é"]);
    for n in &names[2..] {
        assert!(!n.contains('/'));
    }
}

#[test]
fn repeated_listing_is_identical() {
    let conn = store(&["d", "d/1", "d/2", "d/2/3"]);
    let first = listing(&conn, "d");
    let second = listing(&conn, "d");
    assert!(first.0.is_ok() && second.0.is_ok());
    assert_eq!(first.1, second.1);
    assert_eq!(first.1, vec![".", "..", "1", "2"]);
}

#[test]
fn row_failure_is_busy_and_keeps_names() {
    let conn = store(&["a/b", "a/c"]);
    conn.execute_batch("insert into meta_data (key) values (cast(x'612fff' as text));").unwrap();
    conn.execute("insert into meta_data (key) values (?1);", ("a/d",)).unwrap();
    let (r, names) = listing(&conn, "a");
    assert!(matches!(r, Err(ReadDirError::EBusy)), "{:?} {:?}", r, names);
    assert_eq!(names, vec![".", "..", "b", "c"]);
    assert_eq!(status_code(r), 16);
}

#[test]
fn prepare_failure_is_permission_denied() {
    let conn = Connection::open_in_memory().unwrap();
    let (r, names) = listing(&conn, "a");
    assert!(matches!(r, Err(ReadDirError::EAcess { .. })));
    assert_eq!(names, vec![".", ".."]);
}

#[test]
fn outer_separators_list_alike() {
    let conn = store(&["a", "a/b", "a/c", "a/c/d"]);
    let expected = vec![".", "..", "b", "c"];
    for p in ["/a/", "a/", "/a", "a", "//a//"] {
        let (r, names) = listing(&conn, p);
        assert!(r.is_ok());
        assert_eq!(names, expected);
    }
}

#[test]
fn invalid_utf8_path_is_rejected() {
    let conn = store(&["a", "a/b"]);
    let mut sink = NameList::new();
    let r = list_bytes(&conn, &[b'a', 0xff], &mut sink);
    assert!(matches!(r, Err(ReadDirError::InvalidEncoding)));
    assert!(sink.names().is_empty());
}

#[test]
fn byte_path_is_listed() {
    let conn = store(&["a", "a/b"]);
    let mut sink = NameList::new();
    let r = list_bytes(&conn, b"/a/", &mut sink);
    assert!(r.is_ok());
    assert_eq!(sink.names(), &vec![".", "..", "b"]);
}

#[test]
fn status_codes() {
    assert_eq!(status_code(Ok(())), 0);
    assert_eq!(status_code(Err(ReadDirError::EBusy)), 16);
    assert_eq!(status_code(Err(ReadDirError::InvalidEncoding)), 13);
    let conn = Connection::open_in_memory().unwrap();
    let (r, _) = listing(&conn, "a");
    assert_eq!(status_code(r), 13);
    assert_eq!(i32::from(ReadDirError::EBusy), 16);
}

#[test]
fn normalize_trims_both_ends() {
    assert_eq!(normalize_path("//a/b//"), "a/b");
    assert_eq!(normalize_path("a/b"), "a/b");
    assert_eq!(normalize_path("/"), "");
    assert_eq!(normalize_path(""), "");
    assert_eq!(normalize_path("/é/"), "é");
}

#[test]
fn glob_pattern_appends_wildcard() {
    assert_eq!(glob_pattern("a/b"), "a/b/*");
    assert_eq!(glob_pattern(""), "*");
}

#[test]
fn child_name_cases() {
    assert_eq!(child_name("a", "a/b"), Some("b"));
    assert_eq!(child_name("a", "a/b/c"), None);
    assert_eq!(child_name("a", "a"), None);
    assert_eq!(child_name("a", "a/"), None);
    assert_eq!(child_name("a", "ab/c"), None);
    assert_eq!(child_name("a", "b/a"), None);
    assert_eq!(child_name("", "x"), Some("x"));
    assert_eq!(child_name("", "/x"), None);
    assert_eq!(child_name("", "x/y"), None);
    assert_eq!(child_name("", ""), None);
}

#[test]
fn name_list_keeps_order() {
    let mut sink = NameList::new();
    sink.add_entry("z");
    sink.add_entry("a");
    assert_eq!(sink.names(), &vec!["z", "a"]);
}

#[test]
fn root_lists_top_level_keys() {
    let conn = store(&["a", "a/b", "c", "c/d/e"]);
    for p in ["/", "", "//"] {
        let (r, names) = listing(&conn, p);
        assert!(r.is_ok());
        assert_eq!(names, vec![".", "..", "a", "c"]);
    }
}

#[test]
fn on_row_steps() {
    let mut sink = NameList::new();
    assert!(on_row("a", Ok(Some("a/b".to_string())), &mut sink).is_none());
    assert!(on_row("a", Ok(Some("a/b/c".to_string())), &mut sink).is_none());
    assert!(on_row("a", Ok(Some("a".to_string())), &mut sink).is_none());
    assert_eq!(sink.names(), &vec!["b"]);
    assert!(matches!(on_row("a", Ok(None), &mut sink), Some(Ok(()))));
    assert!(matches!(on_row("a", Err(()), &mut sink), Some(Err(ReadDirError::EBusy))));
    assert_eq!(sink.names(), &vec!["b"]);
}

#[test]
fn on_query_steps() {
    let ok: Result<u32, rusqlite::Error> = Ok(7);
    assert!(matches!(on_query(ok), Ok(7)));
    let refused: Result<u32, rusqlite::Error> = Err(rusqlite::Error::QueryReturnedNoRows);
    assert!(matches!(
        on_query(refused),
        Err(ReadDirError::EAcess { source: rusqlite::Error::QueryReturnedNoRows })
    ));
}
