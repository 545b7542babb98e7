use delete_rest::SelectedDirectory;
use delete_rest::action::{Action, MoveOrCopy};
use delete_rest::config::ConfigFile;
use delete_rest::executor::{PlannedOp, kept_count, plan_action};
use delete_rest::file_source::{FileSource, SelectedFiles};
use delete_rest::keepfile::KeepFile;
use delete_rest::pattern::Format;

fn img_collection() -> SelectedFiles {
    SelectedFiles {
        dir: SelectedDirectory::new("d".to_owned()),
        files: vec![
            "d/IMG_0001.jpg".to_owned(),
            "d/IMG_0002.jpg".to_owned(),
            "d/IMG_0003.txt".to_owned(),
        ],
    }
}

fn img_config() -> ConfigFile {
    ConfigFile {
        name: Some("imgs".to_owned()),
        extensions: vec!["jpg".to_owned()],
        formats: vec![Format::new(r#"IMG_\d+"#).unwrap()],
    }
}

fn keep_one() -> KeepFile {
    match KeepFile::parse("1\n") {
        Ok(kf) => kf,
        Err(_) => panic!("keep file should parse"),
    }
}

#[test]
fn move_scenario_touches_only_the_requested_file() {
    let action = Action::new(None, Some("out".to_owned()), false);

    let matching = img_collection().filter_by(img_config().into_filter());
    assert_eq!(matching.count(), 2);
    assert_eq!(
        matching.files(),
        vec!["d/IMG_0001.jpg".to_owned(), "d/IMG_0002.jpg".to_owned()]
    );

    let surviving = matching.filter_by(keep_one().into_action_matcher(&action));
    assert_eq!(surviving.files(), vec!["d/IMG_0001.jpg".to_owned()]);
    assert_eq!(kept_count(&action, 2, 1), 1);

    let ops = plan_action(&action, surviving.dir(), &surviving.files());
    assert_eq!(ops.len(), 1);
    match &ops[0] {
        PlannedOp::Transfer { op, from, to } => {
            assert_eq!(*op, MoveOrCopy::Move);
            assert_eq!(from, "d/IMG_0001.jpg");
            assert_eq!(to, "out/IMG_0001.jpg");
        }
        PlannedOp::Remove { .. } => panic!("expected a transfer"),
    }
}

#[test]
fn delete_scenario_deletes_only_the_unrequested_file() {
    let action = Action::new(None, None, true);

    let matching = img_collection().filter_by(img_config().into_filter());
    assert_eq!(matching.count(), 2);

    let surviving = matching.filter_by(keep_one().into_action_matcher(&action));
    assert_eq!(surviving.files(), vec!["d/IMG_0002.jpg".to_owned()]);

    // The user-facing "keeping" count is the complement of the survivors.
    assert_eq!(kept_count(&action, 2, 1), 1);

    // The plan is the same whether or not the run is dry: dry-run only
    // suppresses carrying it out.
    let ops = plan_action(&action, surviving.dir(), &surviving.files());
    assert_eq!(ops.len(), 1);
    match &ops[0] {
        PlannedOp::Remove { path } => assert_eq!(path, "d/IMG_0002.jpg"),
        PlannedOp::Transfer { .. } => panic!("expected a removal"),
    }
}

#[test]
fn remapping_preserves_subdirectories() {
    let action = Action::new(Some("backup".to_owned()), None, false);
    let files = vec![
        "d/sub/IMG_0004.jpg".to_owned(),
        "d/IMG_0005.jpg".to_owned(),
    ];
    let ops = plan_action(&action, "d", &files);
    assert_eq!(ops.len(), 2);
    match &ops[0] {
        PlannedOp::Transfer { op, from, to } => {
            assert_eq!(*op, MoveOrCopy::Copy);
            assert_eq!(from, "d/sub/IMG_0004.jpg");
            assert_eq!(to, "backup/sub/IMG_0004.jpg");
        }
        PlannedOp::Remove { .. } => panic!("expected a transfer"),
    }
    match &ops[1] {
        PlannedOp::Transfer { to, .. } => assert_eq!(to, "backup/IMG_0005.jpg"),
        PlannedOp::Remove { .. } => panic!("expected a transfer"),
    }
}

#[test]
fn file_outside_the_source_directory_is_skipped() {
    let action = Action::new(Some("out".to_owned()), None, false);
    let files = vec![
        "elsewhere/IMG_0001.jpg".to_owned(),
        "d/IMG_0002.jpg".to_owned(),
    ];
    let ops = plan_action(&action, "d", &files);
    assert_eq!(ops.len(), 1);
    match &ops[0] {
        PlannedOp::Transfer { from, to, .. } => {
            assert_eq!(from, "d/IMG_0002.jpg");
            assert_eq!(to, "out/IMG_0002.jpg");
        }
        PlannedOp::Remove { .. } => panic!("expected a transfer"),
    }
}

#[test]
fn delete_plan_removes_every_survivor() {
    let action = Action::new(None, None, true);
    let files = vec!["d/a1.txt".to_owned(), "d/b2.txt".to_owned()];
    let ops = plan_action(&action, "d", &files);
    assert_eq!(ops.len(), 2);
    match &ops[0] {
        PlannedOp::Remove { path } => assert_eq!(path, "d/a1.txt"),
        PlannedOp::Transfer { .. } => panic!("expected a removal"),
    }
    match &ops[1] {
        PlannedOp::Remove { path } => assert_eq!(path, "d/b2.txt"),
        PlannedOp::Transfer { .. } => panic!("expected a removal"),
    }
}
