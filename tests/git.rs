use site_markup::git::{tracks_extension, CommitContext, CommitFilter, LatestCommitInfo, LatestCommits, MarkupType};

fn info(dt: i64, id: &str, is_revision: bool) -> LatestCommitInfo {
    LatestCommitInfo { dt, id: id.to_string(), is_revision }
}

#[test]
fn first_commit_is_not_a_revision() {
    let mut c = LatestCommits::new();
    let p = "posts/2014-04-27-ores.markdown".to_string();
    assert_eq!(c.get_path(&p), None);
    c.record(p.clone(), "b6f61cd4154b23b05b65e37cf9097fa3d3d9113f".to_string(), 1398621340);
    assert_eq!(c.get_path(&p), Some(&info(1398621340, "b6f61cd4154b23b05b65e37cf9097fa3d3d9113f", false)));
}

#[test]
fn newer_commit_replaces_older_marks_revision() {
    let mut c = LatestCommits::new();
    let p = "a.dj".to_string();
    let q = "b.dj".to_string();
    c.record(p.clone(), "newer".to_string(), 200);
    c.record(q.clone(), "other".to_string(), 50);
    c.record(p.clone(), "older".to_string(), 100);
    assert_eq!(c.get_path(&p), Some(&info(200, "newer", true)));
    c.record(p.clone(), "newest".to_string(), 300);
    assert_eq!(c.get_path(&p), Some(&info(300, "newest", true)));
    c.record(p.clone(), "same-time".to_string(), 300);
    assert_eq!(c.get_path(&p), Some(&info(300, "newest", true)));
    assert_eq!(c.get_path(&q), Some(&info(50, "other", false)));
}

#[test]
fn ignored_commits_are_known() {
    let f = CommitFilter::new();
    assert!(f.is_ignored(&"011cebb16131566a186b1fe7c8ba884890a688d6".to_string()));
    assert!(f.is_ignored(&"b5310570e82f3b89792a5987214344627b4f8f3b".to_string()));
    assert!(!f.is_ignored(&"b6f61cd4154b23b05b65e37cf9097fa3d3d9113f".to_string()));
    assert!(!f.is_ignored(&"".to_string()));
}

#[test]
fn markup_extensions() {
    assert_eq!(MarkupType::from_extension(&"markdown".to_string()), Some(MarkupType::Markdown));
    assert_eq!(MarkupType::from_extension(&"md".to_string()), Some(MarkupType::Markdown));
    assert_eq!(MarkupType::from_extension(&"dj".to_string()), Some(MarkupType::Djot));
    assert_eq!(MarkupType::from_extension(&"png".to_string()), None);
    assert!(tracks_extension(None));
    assert!(tracks_extension(Some(&"dj".to_string())));
    assert!(!tracks_extension(Some(&"css".to_string())));
}

#[test]
fn commit_context_short_id() {
    let c = CommitContext::from(&info(5, "b6f61cd4154b23b05b65e37cf9097fa3d3d9113f", true));
    assert_eq!(c.id, "b6f61cd4154b23b05b65e37cf9097fa3d3d9113f");
    assert_eq!(c.short_id, "b6f61cd");
    assert_eq!(c.dt, 5);
    assert!(c.is_revision);
    assert_eq!(CommitContext::from(&info(0, "abc", false)).short_id, "abc");
}
