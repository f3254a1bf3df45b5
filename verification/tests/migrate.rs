use spacedrive_core::migrate::{
    migration_checksum, migration_order, migration_steps, needs_run, sha256_digest, sha256_of_reads,
    steps_applied,
};

#[test]
fn checksum_is_lowercase_hex_sha256() {
    assert_eq!(
        migration_checksum(b""),
        "e3b0c44298fc1c149afbf4c8996fb92427ae41e4649b934ca495991b7852b855"
    );
    assert_eq!(
        migration_checksum(b"abc"),
        "ba7816bf8f01cfea414140de5dae2223b00361a396177a9cb410ff61f20015ad"
    );
    assert_eq!(sha256_digest(b"abc")[0], 0xba);
    assert_eq!(sha256_digest(b"abc").len(), 32);
}

fn names(v: &[&str]) -> Vec<String> {
    v.iter().map(|s| s.to_string()).collect()
}

#[test]
fn migrations_run_by_timestamp() {
    let order = migration_order(names(&[
        "20230712063345_init",
        "migration_table",
        "20230619144125_init",
        "20230724131659_relation",
        "20230712063345_second",
    ]));
    assert_eq!(
        order,
        names(&[
            "20230619144125_init",
            "20230712063345_init",
            "20230712063345_second",
            "20230724131659_relation",
        ])
    );
}

#[test]
fn signed_timestamps_order_too() {
    let order = migration_order(names(&["+0000000000002_b", "-0000000000001_a", "00000000000000_c"]));
    assert_eq!(order, names(&["-0000000000001_a", "00000000000000_c", "+0000000000002_b"]));
}

#[test]
fn steps_end_with_semicolons_and_the_tail_is_dropped() {
    let steps = migration_steps("CREATE TABLE a (id INT);\nCREATE TABLE b (id INT);\n");
    assert_eq!(steps, names(&["CREATE TABLE a (id INT);", "\nCREATE TABLE b (id INT);"]));
    assert!(migration_steps("no statement").is_empty());
    assert_eq!(migration_steps(";;"), names(&[";", ";"]));
}

#[test]
fn recorded_migrations_are_skipped() {
    let recorded = vec!["aa".to_string(), "bb".to_string()];
    assert!(!needs_run(&recorded, "bb"));
    assert!(needs_run(&recorded, "cc"));
    assert!(needs_run(&vec![], "aa"));
}

#[test]
fn steps_applied_stop_at_the_first_failure() {
    assert_eq!(steps_applied(&vec![]), 0);
    assert_eq!(steps_applied(&vec![true, true, true]), 3);
    assert_eq!(steps_applied(&vec![true, false, true]), 1);
    assert_eq!(steps_applied(&vec![false]), 0);
}

#[test]
fn digest_of_reads_ignores_the_split() {
    let whole = sha256_digest(b"hello, world");
    let split = sha256_of_reads(&vec![Ok(b"hello".to_vec()), Ok(b", ".to_vec()), Ok(b"world".to_vec())]).unwrap();
    assert_eq!(split, whole);
    let other = sha256_of_reads(&vec![Ok(b"hello, w".to_vec()), Ok(vec![]), Ok(b"orld".to_vec())]).unwrap();
    assert_eq!(other, whole);
    assert_eq!(
        sha256_of_reads(&vec![Ok(b"a".to_vec()), Err("disk".to_string()), Err("later".to_string())]),
        Err("disk".to_string())
    );
}
