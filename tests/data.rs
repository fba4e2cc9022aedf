use parrot::data::{from_metadata, DataManager, Metadata, Snapshot, SnapshotData, SnapshotStatus};
use parrot::error::{wrap, Error};

fn snapshot(name: &str, out: &[u8], err: &[u8]) -> Snapshot {
    let data = |body: &[u8], ext: &str| {
        if body.is_empty() {
            None
        } else {
            Some(SnapshotData { path: format!("{}{}", name, ext), body: body.to_vec() })
        }
    };
    Snapshot {
        exit_code: Some(3),
        stderr: data(err, ".err"),
        stdout: data(out, ".out"),
        cmd: format!("run {}", name),
        name: String::from(name),
        description: Some(String::from("about #t")),
        tags: vec![String::from("t")],
        status: SnapshotStatus::Passed,
        deleted: false,
    }
}

#[test]
fn add_rejects_duplicate_live_names() {
    let mut data = DataManager::new(vec![]);
    assert!(data.add_snapshot(snapshot("greet", b"hi\n", b"")).is_ok());
    let err = data.add_snapshot(snapshot("greet", b"x", b"")).err().unwrap();
    assert_eq!(err.message, "A snapshot with that name already exists.");
    assert_eq!(data.snapshots().len(), 1);
    assert!(data.has_name("greet"));
    assert!(!data.has_name("gree"));
}

#[test]
fn persist_writes_live_snapshots_in_order() {
    let mut dead = snapshot("b", b"1", b"2");
    dead.deleted = true;
    let data = DataManager::new(vec![snapshot("a", b"1", b""), dead, snapshot("c", b"", b"e")]);
    let metas = data.persist();
    assert_eq!(metas.snapshots.len(), 2);
    let a = &metas.snapshots[0];
    assert_eq!(a.name, "a");
    assert_eq!(a.cmd, "run a");
    assert_eq!(a.stdout, Some(String::from("a.out")));
    assert_eq!(a.stderr, None);
    assert_eq!(a.exit_code, Some(3));
    assert_eq!(a.tags, vec![String::from("t")]);
    assert_eq!(metas.snapshots[1].name, "c");
    assert_eq!(metas.snapshots[1].stderr, Some(String::from("c.err")));
    assert_eq!(data.gc(), vec![String::from("b.out"), String::from("b.err")]);
}

#[test]
fn empty_repository_persists_nothing() {
    let data = DataManager::new(vec![]);
    assert_eq!(data.persist().snapshots.len(), 0);
    assert_eq!(data.gc().len(), 0);
    assert_eq!(data.get_all_snapshots().len(), 0);
}

#[test]
fn metadata_round_trip() {
    let s = snapshot("greet", b"hi\n", b"oops");
    let meta = Metadata::from_snapshot(&s);
    let back = from_metadata(meta, Some(b"hi\n".to_vec()), Some(b"oops".to_vec()));
    assert_eq!(back.name, s.name);
    assert_eq!(back.cmd, s.cmd);
    assert_eq!(back.description, s.description);
    assert_eq!(back.tags, s.tags);
    assert_eq!(back.exit_code, s.exit_code);
    assert_eq!(back.stdout, s.stdout);
    assert_eq!(back.stderr, s.stderr);
    assert_eq!(back.status, SnapshotStatus::Waiting);
    assert!(!back.deleted);
}

#[test]
fn error_helpers() {
    let e: Result<(), Error> = Error::from_str("bad");
    let e = e.err().unwrap();
    assert_eq!(e.message, "bad");
    assert_eq!(e.cause, None);
    let w: Result<u8, Error> = wrap(Err(String::from("io")), "Could not read");
    let w = w.err().unwrap();
    assert_eq!(w.message, "Could not read");
    assert_eq!(w.cause, Some(String::from("io")));
    assert_eq!(wrap(Ok::<u8, String>(4), "x").ok(), Some(4));
}
