use parrot::editor::{edit_template, parse_file, strip_comment, EDITOR_HINTS};
use parrot::util::{get_random_name, normalize_name, to_snapshot, to_snapshot_data, trim, ExecOutput};

#[test]
fn normalize_names() {
    assert_eq!(normalize_name("  my test\tname \n"), "my_test_name");
    assert_eq!(normalize_name("plain"), "plain");
    assert_eq!(normalize_name("   "), "");
    assert_eq!(trim("\u{3000} a b \u{a0}"), "a b");
}

#[test]
fn random_names_have_the_right_shape() {
    let a = get_random_name();
    let b = get_random_name();
    assert_eq!(a.chars().count(), 31);
    assert!(a.starts_with('_'));
    assert!(a[1..].chars().all(|c| c.is_ascii_alphanumeric()));
    assert_ne!(a, b);
}

#[test]
fn snapshot_data_only_for_non_empty_bodies() {
    assert_eq!(to_snapshot_data(vec![], "greet", ".out"), None);
    let d = to_snapshot_data(b"hi\n".to_vec(), "greet", ".out").unwrap();
    assert_eq!(d.path, "greet.out");
    assert_eq!(d.body, b"hi\n".to_vec());
    let s = to_snapshot(
        String::from("greet"),
        None,
        vec![],
        String::from("echo hi"),
        ExecOutput { exit_code: Some(0), stdout: b"hi\n".to_vec(), stderr: vec![] },
    );
    assert_eq!(s.stdout.unwrap().path, "greet.out");
    assert_eq!(s.stderr, None);
    assert_eq!(s.exit_code, Some(0));
    assert!(!s.deleted);
}

#[test]
fn strip_comments() {
    assert_eq!(strip_comment("name // note"), ("name ", true));
    assert_eq!(strip_comment("no comment"), ("no comment", false));
    assert_eq!(strip_comment("/ a / b"), ("/ a / b", false));
    assert_eq!(strip_comment("// all"), ("", true));
}

#[test]
fn parse_edited_file() {
    let r = parse_file("  my name  \nfirst #one line\n// only comment\n\nsecond #two-2 #x_y //#hidden\n// hints");
    assert_eq!(r.name, Some(String::from("my name")));
    assert_eq!(
        r.description,
        Some(String::from("first #one line\n\nsecond #two-2 #x_y"))
    );
    assert_eq!(
        r.tags,
        vec![String::from("one"), String::from("two-2"), String::from("x_y")]
    );
}

#[test]
fn parse_blank_file() {
    let r = parse_file("\n\n// The first line will be used as snapshot name\n");
    assert_eq!(r.name, None);
    assert_eq!(r.description, None);
    assert!(r.tags.is_empty());
    let t = parse_file("# ## #a#b");
    assert_eq!(t.name, Some(String::from("# ## #a#b")));
    let d = parse_file("n\n# ## #a#b");
    assert_eq!(d.tags, vec![String::from("a"), String::from("b")]);
}

#[test]
fn template_round_trips_through_the_parser() {
    let t = edit_template("greet", "says hi #demo", "echo hi");
    assert!(t.starts_with("greet\nsays hi #demo\n\n"));
    assert!(t.ends_with("// Test command: echo hi"));
    assert!(t.contains(EDITOR_HINTS));
    let r = parse_file(&t);
    assert_eq!(r.name, Some(String::from("greet")));
    assert_eq!(r.description, Some(String::from("says hi #demo")));
    assert_eq!(r.tags, vec![String::from("demo")]);
}

#[test]
fn random_name_is_prefixed_suffix() {
    assert_eq!(parrot::util::prefixed_name("abc123"), "_abc123");
    assert_eq!(parrot::util::prefixed_name(""), "_");
}

#[test]
fn name_is_first_non_comment_line() {
    let r = parse_file("// a hint\n  //another\nreal name // note\nabout #it\n");
    assert_eq!(r.name, Some(String::from("real name")));
    assert_eq!(r.description, Some(String::from("about #it")));
    assert_eq!(r.tags, vec![String::from("it")]);
    let only_comments = parse_file("// x\n// y");
    assert_eq!(only_comments.name, None);
    assert_eq!(only_comments.description, None);
}
