use zipher_engine::engine::{
    db_paths, export_sql, migrate_to_encrypted, open_cipher_conn, ConnStep, Migration,
    MigrationError, MigrationEvent, MigrationStage,
};
use zipher_engine::paths::{join, parent, same_path, with_extension};
use zipher_engine::text::{contains, joined, push_decimal, push_decimal_int};

#[test]
fn databases_of_a_directory() {
    let (data, cache) = db_paths("/home/a/wallet");
    assert_eq!(data, "/home/a/wallet/zipher-data.sqlite");
    assert_eq!(cache, "/home/a/wallet/zipher-cache.sqlite");
    assert_eq!(db_paths("wallet/").0, "wallet/zipher-data.sqlite");
    assert_eq!(db_paths("").0, "zipher-data.sqlite");
}

#[test]
fn paths_agree_with_std() {
    let samples = [
        "", "/", "//", ".", "..", "./", "/.", "a", "a/", "a/.", "./a", "/a", "/a/b", "a//b", "a/./b/",
        "a/../b", "/a/b/c.tar.gz", ".hidden", "a/.hidden", "a.", "a.b/", "x/..", "/..", "a/b.sqlite",
    ];
    for a in samples {
        let std_parent = std::path::Path::new(a).parent().map(|p| p.to_str().unwrap().to_string());
        assert_eq!(parent(a), std_parent, "parent of {:?}", a);
        let std_ext = std::path::Path::new(a).with_extension("sqlite.enc_tmp");
        assert_eq!(with_extension(a, "sqlite.enc_tmp"), std_ext.to_str().unwrap(), "extension of {:?}", a);
        let std_join = std::path::Path::new(a).join("file.x");
        assert_eq!(join(a, "file.x"), std_join.to_str().unwrap(), "join to {:?}", a);
        for b in samples {
            let same = std::path::Path::new(a) == std::path::Path::new(b);
            assert_eq!(same_path(a, b), same, "{:?} and {:?}", a, b);
        }
    }
}

#[test]
fn the_directory_of_a_file_is_where_it_was_joined() {
    assert_eq!(parent(&join("/w/x", "f")), Some("/w/x".to_string()));
    assert_eq!(parent(&join("/w/x/", "f")), Some("/w/x".to_string()));
    assert_eq!(parent("/"), None);
    assert_eq!(parent(""), None);
}

#[test]
fn same_path_is_an_equivalence_on_samples() {
    assert!(same_path("a//b", "a/b/"));
    assert!(same_path("a/b/", "a//b"));
    assert!(same_path("a/./b", "a/b"));
    assert!(!same_path("./a", "a"));
    assert!(!same_path("/a", "a"));
}

#[test]
fn the_key_is_set_first() {
    let steps = open_cipher_conn(&Some("k".to_string()));
    assert_eq!(steps.len(), 3);
    assert!(matches!(&steps[0], ConnStep::Key(k) if k == "k"));
    assert!(matches!(steps[1], ConnStep::BusyTimeoutSecs(10)));
    assert!(matches!(steps[2], ConnStep::WriteAheadLog));
    let plain = open_cipher_conn(&None);
    assert_eq!(plain.len(), 2);
    assert!(matches!(plain[0], ConnStep::BusyTimeoutSecs(10)));
}

#[test]
fn quotes_in_a_key_are_doubled() {
    assert_eq!(
        export_sql("/d/x.enc", "it's"),
        "ATTACH DATABASE '/d/x.enc' AS encrypted KEY 'it''s';\n         SELECT sqlcipher_export('encrypted');\n         DETACH DATABASE encrypted;"
    );
    let m = migrate_to_encrypted("/data/o'brien/zipher-data.sqlite", "k");
    assert_eq!(m.copy_path, "/data/o'brien/zipher-data.sqlite.enc_tmp");
    assert_eq!(
        m.sql,
        "ATTACH DATABASE '/data/o''brien/zipher-data.sqlite.enc_tmp' AS encrypted KEY 'k';\n         SELECT sqlcipher_export('encrypted');\n         DETACH DATABASE encrypted;"
    );
}

fn run(mut m: Migration, events: Vec<MigrationEvent>) -> Migration {
    for e in events {
        m = m.step(e);
    }
    m
}

#[test]
fn a_plain_database_is_encrypted() {
    let m = migrate_to_encrypted("/d/zipher-data.sqlite", "key");
    assert_eq!(m.copy_path, "/d/zipher-data.sqlite.enc_tmp");
    assert_eq!(m.sql, export_sql("/d/zipher-data.sqlite.enc_tmp", "key"));
    assert!(matches!(m.stage, MigrationStage::TryKey));
    let m = run(m, vec![MigrationEvent::Readable(false), MigrationEvent::Readable(true)]);
    assert!(matches!(m.stage, MigrationStage::Export));
    let m = m.step(MigrationEvent::Finished);
    assert!(matches!(m.stage, MigrationStage::Replace));
    let m = m.step(MigrationEvent::Finished);
    assert!(matches!(m.stage, MigrationStage::Done(Ok(true))));
    let m = m.step(MigrationEvent::Failed("late".to_string()));
    assert!(matches!(m.stage, MigrationStage::Done(Ok(true))));
}

#[test]
fn an_encrypted_database_is_left_alone() {
    let m = migrate_to_encrypted("x.sqlite", "key");
    let m = m.step(MigrationEvent::Readable(true));
    assert!(matches!(m.stage, MigrationStage::Done(Ok(false))));
}

#[test]
fn without_a_key_nothing_is_encrypted() {
    let m = migrate_to_encrypted("x.sqlite", "");
    assert!(matches!(m.stage, MigrationStage::Done(Ok(false))));
}

#[test]
fn directories_have_their_own_databases() {
    assert!(same_path(&db_paths("/a").0, &db_paths("//a/.").0));
    assert!(!same_path(&db_paths("/a").0, &db_paths("/b").0));
    assert!(!same_path(&db_paths("/a").0, &db_paths("/a").1));
    assert_eq!(parent(&db_paths("/a/").1), Some("/a".to_string()));
}

#[test]
fn an_unreadable_database_is_reported() {
    let m = migrate_to_encrypted("/d/x.sqlite", "key");
    let m = run(m, vec![MigrationEvent::Readable(false), MigrationEvent::Readable(false)]);
    let e = match m.stage {
        MigrationStage::Done(Err(e)) => e,
        _ => panic!("not ended"),
    };
    assert!(matches!(e, MigrationError::Unreadable));
    assert_eq!(
        e.message("/d/x.sqlite"),
        "Database at \"/d/x.sqlite\" is neither plain nor validly encrypted"
    );
    let m = run(
        migrate_to_encrypted("/d/x.sqlite", "key"),
        vec![
            MigrationEvent::Readable(false),
            MigrationEvent::Readable(true),
            MigrationEvent::Failed("disk full".to_string()),
        ],
    );
    match m.stage {
        MigrationStage::Done(Err(e)) => assert_eq!(e.message("/d/x.sqlite"), "disk full"),
        _ => panic!("not ended"),
    }
}

#[test]
fn texts() {
    assert!(contains("a PrevHash b", "PrevHash"));
    assert!(contains("abc", ""));
    assert!(!contains("", "a"));
    assert!(!contains("prevhash", "PrevHash"));
    assert!(contains("aab", "ab"));
    assert_eq!(joined("a: ", "b"), "a: b");
    let mut s = String::from("n=");
    push_decimal(&mut s, 0);
    s.push(' ');
    push_decimal(&mut s, u64::MAX);
    assert_eq!(s, "n=0 18446744073709551615");
    let mut s = String::new();
    push_decimal_int(&mut s, -25);
    s.push(' ');
    push_decimal_int(&mut s, i32::MIN);
    s.push(' ');
    push_decimal_int(&mut s, 7);
    assert_eq!(s, "-25 -2147483648 7");
}
