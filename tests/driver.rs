use parrot::data::{Snapshot, SnapshotData, SnapshotStatus};
use parrot::driver::{edit_snapshot, repl_status, run_snapshot, update_snapshot, Input, InputLine, Key, ReplStatus};
use parrot::editor::EditResult;
use parrot::parser::{parse, Command, Target};
use parrot::util::ExecOutput;

fn greet() -> Snapshot {
    Snapshot {
        exit_code: Some(0),
        stderr: None,
        stdout: Some(SnapshotData { path: String::from("greet.out"), body: b"hi\n".to_vec() }),
        cmd: String::from("echo hi"),
        name: String::from("greet"),
        description: None,
        tags: vec![],
        status: SnapshotStatus::Waiting,
        deleted: false,
    }
}

fn output(code: Option<i32>, out: &[u8], err: &[u8]) -> ExecOutput {
    ExecOutput { exit_code: code, stdout: out.to_vec(), stderr: err.to_vec() }
}

#[test]
fn run_passes_on_same_output() {
    let mut s = greet();
    assert!(run_snapshot(&mut s, &output(Some(0), b"hi\n", b"")));
    assert_eq!(s.status, SnapshotStatus::Passed);
}

#[test]
fn run_fails_on_any_difference() {
    let mut s = greet();
    assert!(!run_snapshot(&mut s, &output(Some(0), b"HI\n", b"")));
    assert_eq!(s.status, SnapshotStatus::Failed);
    let mut s = greet();
    assert!(!run_snapshot(&mut s, &output(Some(1), b"hi\n", b"")));
    let mut s = greet();
    assert!(!run_snapshot(&mut s, &output(None, b"hi\n", b"")));
    let mut s = greet();
    assert!(!run_snapshot(&mut s, &output(Some(0), b"hi\n", b"warn")));
    assert_eq!(s.stdout.unwrap().body, b"hi\n".to_vec());
}

#[test]
fn update_overwrites_changed_bodies() {
    let mut s = greet();
    assert!(!update_snapshot(&mut s, output(Some(0), b"hi\n", b"")));
    assert_eq!(s.status, SnapshotStatus::Passed);
    assert!(update_snapshot(&mut s, output(Some(2), b"", b"bad")));
    assert_eq!(s.exit_code, Some(2));
    assert_eq!(s.stdout, None);
    let err = s.stderr.clone().unwrap();
    assert_eq!(err.path, "greet.err");
    assert_eq!(err.body, b"bad".to_vec());
}

#[test]
fn edit_applies_new_name_and_description() {
    let mut s = greet();
    let unchanged = EditResult { name: Some(String::from("greet")), description: None, tags: vec![] };
    assert!(!edit_snapshot(&mut s, unchanged));
    let nameless = EditResult { name: None, description: Some(String::from("hello #x")), tags: vec![String::from("x")] };
    assert!(edit_snapshot(&mut s, nameless));
    assert_eq!(s.name, "greet");
    assert_eq!(s.description, Some(String::from("hello #x")));
    assert_eq!(s.tags, vec![String::from("x")]);
    let renamed = EditResult { name: Some(String::from("hello")), description: Some(String::from("hello #x")), tags: vec![] };
    assert!(edit_snapshot(&mut s, renamed));
    assert_eq!(s.name, "hello");
    assert_eq!(s.tags, vec![String::from("x")]);
}

#[test]
fn only_quit_ends_the_repl() {
    assert!(matches!(repl_status(&Command::Quit), ReplStatus::Exit));
    assert!(matches!(repl_status(&Command::Run(Target::All)), ReplStatus::Continue));
    assert!(matches!(repl_status(&Command::Clear), ReplStatus::Continue));
}

#[test]
fn input_line_editing() {
    let mut line = InputLine::new();
    assert_eq!(line.on_key(Key::Enter), None);
    assert_eq!(line.on_key(Key::Char('q')), None);
    assert_eq!(line.on_key(Key::Char('x')), None);
    assert_eq!(line.on_key(Key::Backspace), None);
    assert_eq!(line.text(), "q");
    assert_eq!(line.on_key(Key::Char('t')), None);
    assert_eq!(line.on_key(Key::CtrlL), None);
    assert_eq!(line.on_key(Key::Up), Some(Input::Up));
    assert_eq!(line.on_key(Key::Down), Some(Input::Down));
    let typed = line.on_key(Key::Enter);
    assert_eq!(typed, Some(Input::Command(String::from("qt"))));
    assert_eq!(line.text(), "");
    assert_eq!(line.on_key(Key::Backspace), None);
    assert_eq!(line.on_key(Key::Esc), Some(Input::Quit));
}

#[test]
fn malformed_repl_input_is_reported_and_next_input_accepted() {
    let mut line = InputLine::new();
    for c in "qt".chars() {
        line.on_key(Key::Char(c));
    }
    let first = match line.on_key(Key::Enter) {
        Some(Input::Command(c)) => c,
        _ => panic!("expected a command"),
    };
    assert_eq!(parse(&first), Err(String::from("Unknown command")));
    for c in "q".chars() {
        line.on_key(Key::Char(c));
    }
    let second = match line.on_key(Key::Enter) {
        Some(Input::Command(c)) => c,
        _ => panic!("expected a command"),
    };
    assert_eq!(parse(&second), Ok(Command::Quit));
}
