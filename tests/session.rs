use conseil::config::Config;
use conseil::diff::RawDiffLine;
use conseil::labeler::{first_line_of, label_from_parts, make_label, CommitLabeler};
use conseil::session::{Action, BuildError, ConseilApp, Message};

const C0: &str = "0a1b2c3d4e5f60718293a4b5c6d7e8f901234567";
const C1: &str = "1111111111222222222233333333334444444444";
const C2: &str = "abcdefabcdefabcdefabcdefabcdefabcdefabcd";

fn app() -> ConseilApp {
    let s = |v: &[&str]| v.iter().map(|x| x.to_string()).collect::<Vec<String>>();
    ConseilApp::new(Config::new(s(&["heading"]), s(&["filename", "diff"]), vec![]))
}

#[test]
fn label_uses_first_line_and_short_id() {
    assert_eq!(make_label(C0, "fix bug"), "fix bug : 0a1b2c...");
    assert_eq!(make_label(C0, "  fix bug  \n\nlong body"), "fix bug : 0a1b2c...");
    assert_eq!(make_label("abc", "x"), "x : abc...");
    assert_eq!(make_label(C1, "\u{3000}\tfix\u{a0}bug\u{2009} \r\nbody"), "fix\u{a0}bug : 111111...");
    assert_eq!(first_line_of("one\ntwo"), "one");
    assert_eq!(first_line_of("no break"), "no break");
    assert_eq!(label_from_parts("msg", C2), "msg : abcdef...");
}

#[test]
fn labeler_visits_each_commit_once() {
    let mut w = CommitLabeler::new();
    assert!(w.visit(&C0.to_string(), &"fix bug".to_string()));
    assert!(w.visit(&C1.to_string(), &"second".to_string()));
    assert!(!w.visit(&C0.to_string(), &"fix bug".to_string()));
    assert_eq!(w.labels, vec!["fix bug : 0a1b2c...".to_string(), "second : 111111...".to_string()]);
    assert_eq!(w.ids.len(), 2);
    assert!(w.has_visited(&C1.to_string()));
    assert!(!w.has_visited(&C2.to_string()));
}

#[test]
fn label_collision_last_write_wins() {
    let mut w = CommitLabeler::new();
    let a = "1234567aaaaaaaaaaaaaaaaaaaaaaaaaaaaaaaaa".to_string();
    let b = "1234567bbbbbbbbbbbbbbbbbbbbbbbbbbbbbbbbb".to_string();
    assert!(w.visit(&a, &"same".to_string()));
    assert!(w.visit(&b, &"same".to_string()));
    assert_eq!(w.labels[0], w.labels[1]);
    assert_eq!(w.find(&"same : 123456...".to_string()), Some(b));
    assert_eq!(w.find(&"other : 123456...".to_string()), None);
}

#[test]
fn selection_resolves_through_lookup() {
    let mut s = app();
    s.record_commit(&C0.to_string(), &"fix bug".to_string());
    s.record_commit(&"not-hex".to_string(), &"odd".to_string());
    match s.update(Message::CommitIDSelected("fix bug : 0a1b2c...".to_string())) {
        Action::BuildCommit(Some(id)) => assert_eq!(id, C0),
        other => panic!("unexpected {:?}", other),
    }
    assert_eq!(s.commit_id, Some("fix bug : 0a1b2c...".to_string()));
    assert!(matches!(s.update(Message::CommitIDSelected("odd : not-he...".to_string())), Action::BuildCommit(None)));
    assert!(matches!(s.update(Message::CommitIDSelected("missing".to_string())), Action::BuildCommit(None)));
}

#[test]
fn end_to_end_session() {
    let mut s = app();
    assert!(matches!(s.update(Message::RepoButtonPressed("/repo".to_string())), Action::OpenRepository(p) if p == "/repo"));
    assert_eq!(s.repository_opened("/repo".to_string(), true), Ok(()));
    assert!(s.record_commit(&C0.to_string(), &"fix bug".to_string()));
    assert!(s.record_commit(&C1.to_string(), &"older".to_string()));
    assert!(s.record_commit(&C2.to_string(), &"root".to_string()));
    assert_eq!(s.commits.labels.len(), 3);
    let target = match s.update(Message::CommitIDSelected("fix bug : 0a1b2c...".to_string())) {
        Action::BuildCommit(t) => t,
        other => panic!("unexpected {:?}", other),
    };
    assert_eq!(target, Some(C0.to_string()));
    let diff = vec![RawDiffLine { path: "a.txt".to_string(), origin: '+', content: b"hello\n".to_vec() }];
    assert_eq!(s.write_content(Some(diff)), Ok(()));
    assert_eq!(s.make_markdown_file(), "# Heading 1\nFile: `a.txt`\n```diff\n+hello\n```\n");
    match s.update(Message::HeadingInputChanged(0, "Release".to_string())) {
        Action::Nothing => {}
        other => panic!("unexpected {:?}", other),
    }
    match s.update(Message::ExportButtonPressed) {
        Action::Export(t) => assert_eq!(t, "# Release\nFile: `a.txt`\n```diff\n+hello\n```\n"),
        other => panic!("unexpected {:?}", other),
    }
}

#[test]
fn root_commit_fails_and_keeps_document() {
    let mut s = app();
    let diff = vec![RawDiffLine { path: "a.txt".to_string(), origin: '+', content: b"hello\n".to_vec() }];
    assert_eq!(s.write_content(Some(diff)), Ok(()));
    let before = s.make_markdown_file();
    assert_eq!(s.write_content(None), Err(BuildError::NoParent));
    assert_eq!(s.make_markdown_file(), before);
    assert_eq!(s.document.blocks.len(), 3);
}

#[test]
fn divider_is_clamped() {
    let mut s = app();
    s.update(Message::OnVertResize(10));
    assert_eq!(s.vert_divider_pos, Some(300));
    s.update(Message::OnVertResize(900));
    assert_eq!(s.vert_divider_pos, Some(500));
    s.update(Message::OnVertResize(420));
    assert_eq!(s.vert_divider_pos, Some(420));
}

#[test]
fn search_and_repo_reset() {
    let mut s = app();
    assert!(matches!(s.update(Message::SearchInputChanged("/home".to_string())), Action::ListDirectories(p) if p == "/home"));
    s.set_search_results(vec!["/home/a".to_string()]);
    assert_eq!(s.search_results.len(), 1);
    s.record_commit(&C0.to_string(), &"fix bug".to_string());
    s.write_content(Some(vec![])).unwrap();
    assert!(matches!(s.update(Message::RepoButtonPressed("/other".to_string())), Action::OpenRepository(_)));
    assert_eq!(s.document.blocks.len(), 1);
    assert_eq!(s.commits.labels.len(), 1);
    assert_eq!(s.repository_opened("/other".to_string(), true), Ok(()));
    assert_eq!(s.repo_name, "/other");
    assert!(s.commits.labels.is_empty());
    assert!(s.document.blocks.is_empty());
    assert_eq!(s.commit_id, None);
    assert_eq!(s.title(), "Conseil v0.1");
}

#[test]
fn failed_open_keeps_session() {
    let mut s = app();
    assert_eq!(s.repository_opened("/repo".to_string(), true), Ok(()));
    s.record_commit(&C0.to_string(), &"fix bug".to_string());
    let diff = vec![RawDiffLine { path: "a.txt".to_string(), origin: '+', content: b"hello\n".to_vec() }];
    assert_eq!(s.write_content(Some(diff)), Ok(()));
    let before = s.make_markdown_file();
    assert!(matches!(s.update(Message::RepoButtonPressed("/missing".to_string())), Action::OpenRepository(_)));
    assert_eq!(s.repository_opened("/missing".to_string(), false), Err(BuildError::RepositoryOpen));
    assert_eq!(s.make_markdown_file(), before);
    assert_eq!(s.repo_name, "/repo");
    assert_eq!(s.commits.labels, vec!["fix bug : 0a1b2c...".to_string()]);
}
