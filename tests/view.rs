use parrot::data::{DataManager, Snapshot, SnapshotData, SnapshotStatus};
use parrot::driver::{delete_step, delete_target};
use parrot::parser::{Filter, Target};
use parrot::view::View;

fn snap(name: &str, tags: &[&str]) -> Snapshot {
    Snapshot {
        exit_code: Some(0),
        stderr: None,
        stdout: Some(SnapshotData {
            path: format!("{}.out", name),
            body: b"hi\n".to_vec(),
        }),
        cmd: String::from("echo hi"),
        name: String::from(name),
        description: None,
        tags: tags.iter().map(|t| t.to_string()).collect(),
        status: SnapshotStatus::Waiting,
        deleted: false,
    }
}

fn names(view: &View, snaps: &[Snapshot]) -> Vec<String> {
    view.get_view().iter().map(|i| snaps[*i].name.clone()).collect()
}

#[test]
fn view_up_wraps_to_bottom() {
    let mut view = View::new((0..7).collect());
    assert_eq!(view.height, 5);
    assert_eq!(view.window, (0, 5));
    assert_eq!(view.cursor, 0);
    view.up();
    assert_eq!(view.window, (2, 7));
    assert_eq!(view.cursor, 4);
    view.up();
    assert_eq!(view.cursor, 3);
}

#[test]
fn view_down_scrolls_then_wraps() {
    let mut view = View::new((0..7).collect());
    for _ in 0..4 {
        view.down();
    }
    assert_eq!(view.cursor, 4);
    assert_eq!(view.window, (0, 5));
    view.down();
    assert_eq!(view.window, (1, 6));
    view.down();
    assert_eq!(view.window, (2, 7));
    view.down();
    assert_eq!(view.window, (0, 5));
    assert_eq!(view.cursor, 0);
}

#[test]
fn view_on_empty_and_small_data() {
    let mut empty = View::new(vec![]);
    assert_eq!(empty.get_selected(), None);
    empty.up();
    empty.down();
    assert_eq!(empty.window, (0, 0));
    assert_eq!(empty.cursor, 0);
    let mut small = View::new(vec![0, 1]);
    small.up();
    assert_eq!(small.window, (0, 2));
    assert_eq!(small.cursor, 1);
    assert_eq!(small.get_selected(), Some(1));
    small.down();
    assert_eq!(small.cursor, 0);
    assert_eq!(small.get_selected_mut(), Some(0));
}

#[test]
fn filters_narrow_and_clear_restores() {
    let snaps = vec![
        snap("alpha", &["x"]),
        snap("beta", &["y"]),
        snap("alphabet", &["x", "y"]),
        snap("gamma", &[]),
    ];
    let mut view = View::new((0..4).collect());
    view.apply_filter(&snaps, Filter::Name(String::from("alpha")));
    assert_eq!(names(&view, &snaps), vec!["alpha", "alphabet"]);
    assert_eq!(view.window, (0, 2));
    view.apply_filter(&snaps, Filter::Tag(String::from("y")));
    assert_eq!(names(&view, &snaps), vec!["alphabet"]);
    view.clear_filters(&snaps);
    assert_eq!(names(&view, &snaps), vec!["alpha", "beta", "alphabet", "gamma"]);
    assert_eq!(view.window, (0, 4));
    view.apply_filter(&snaps, Filter::Passed);
    assert_eq!(view.get_view().len(), 0);
    assert_eq!(view.window, (0, 0));
    assert_eq!(view.cursor, 0);
}

#[test]
fn name_filter_twice_is_once() {
    let snaps = vec![snap("ab", &[]), snap("b", &[]), snap("cab", &[])];
    let mut once = View::new((0..3).collect());
    once.apply_filter(&snaps, Filter::Name(String::from("ab")));
    let mut twice = View::new((0..3).collect());
    twice.apply_filter(&snaps, Filter::Name(String::from("ab")));
    twice.apply_filter(&snaps, Filter::Name(String::from("ab")));
    assert_eq!(once.get_view(), twice.get_view());
    assert_eq!(once.window, twice.window);
    assert_eq!(once.cursor, twice.cursor);
}

#[test]
fn cursor_is_clamped_when_view_shrinks() {
    let snaps = vec![snap("a1", &[]), snap("a2", &[]), snap("b", &[]), snap("c", &[])];
    let mut view = View::new((0..4).collect());
    view.up();
    assert_eq!(view.cursor, 3);
    view.apply_filter(&snaps, Filter::Name(String::from("a")));
    assert_eq!(view.window, (0, 2));
    assert_eq!(view.cursor, 1);
    assert_eq!(view.get_selected(), Some(1));
}

#[test]
fn clear_skips_deleted_and_keeps_order() {
    let mut data = DataManager::new(vec![snap("a", &[]), snap("b", &[]), snap("c", &[])]);
    let mut view = View::new(data.get_all_snapshots());
    view.down();
    let count = delete_target(&mut data, &view, Target::Selected);
    assert_eq!(count, 1);
    view.apply_filter(data.snapshots(), Filter::Deleted);
    assert_eq!(names(&view, data.snapshots()), vec!["a", "c"]);
    view.clear_filters(data.snapshots());
    assert_eq!(names(&view, data.snapshots()), vec!["a", "c"]);
}

#[test]
fn repl_filter_run_clear_delete_scenario() {
    let mut data = DataManager::new(vec![snap("a", &[]), snap("b", &[])]);
    let mut view = View::new(data.get_all_snapshots());
    view.apply_filter(data.snapshots(), Filter::Name(String::from("a")));
    assert_eq!(view.get_view().clone(), vec![0]);
    view.clear_filters(data.snapshots());
    let count = delete_target(&mut data, &view, Target::All);
    assert_eq!(count, 2);
    let gone = data.gc();
    assert_eq!(gone, vec![String::from("a.out"), String::from("b.out")]);
    view.apply_filter(data.snapshots(), Filter::Deleted);
    assert_eq!(view.get_view().len(), 0);
    assert_eq!(data.persist().snapshots.len(), 0);
}

#[test]
fn delete_step_marks_collects_and_hides() {
    let mut data = DataManager::new(vec![snap("a", &[]), snap("b", &[]), snap("c", &[])]);
    let mut view = View::new(data.get_all_snapshots());
    view.down();
    let (count, dead) = delete_step(&mut data, &mut view, Target::Selected);
    assert_eq!(count, 1);
    assert_eq!(dead, vec![String::from("b.out")]);
    assert!(data.snapshots()[1].deleted);
    assert_eq!(names(&view, data.snapshots()), vec!["a", "c"]);
    assert_eq!(view.window, (0, 2));
    assert_eq!(view.cursor, 1);
    let (count, dead) = delete_step(&mut data, &mut view, Target::All);
    assert_eq!(count, 2);
    assert_eq!(dead.len(), 3);
    assert_eq!(view.get_view().len(), 0);
    assert_eq!(data.persist().snapshots.len(), 0);
}
