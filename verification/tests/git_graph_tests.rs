use mermansi::adapters::git_graph::{render_git_graph, GitCommit, GitGraph};
use mermansi::{render_source, MermansiError, MermansiOptions};

fn commit(id: &str, seq: i64, branch: &str, parents: &[&str]) -> GitCommit {
    GitCommit {
        id: id.to_string(),
        message: String::new(),
        seq,
        commit_type: 0,
        tags: Vec::new(),
        parents: parents.iter().map(|p| p.to_string()).collect(),
        branch: branch.to_string(),
        custom_type: None,
        custom_id: None,
    }
}

fn graph(commits: Vec<GitCommit>, direction: &str) -> GitGraph {
    GitGraph {
        commits,
        branches: vec!["main".to_string()],
        current_branch: "main".to_string(),
        direction: direction.to_string(),
        acc_title: None,
    }
}

#[test]
fn git_graph_too_many_commits_is_refused() {
    let commits = (0..4097).map(|i| commit(&format!("c{i}"), i, "main", &[])).collect();
    let err = render_git_graph(&graph(commits, "LR"), &MermansiOptions::unicode()).unwrap_err();
    assert!(matches!(err, MermansiError::RenderLimit { context: "gitGraph commits", requested: 4097, limit: 4096 }));
}

#[test]
fn git_graph_without_commits_is_a_card() {
    let out = render_git_graph(&graph(Vec::new(), "LR"), &MermansiOptions::unicode()).unwrap();
    assert!(out.contains("Git graph: main"));
}

#[test]
fn git_graph_empty_card_too_narrow_is_refused() {
    let err = render_git_graph(&graph(Vec::new(), "LR"), &MermansiOptions::unicode().with_max_width(12)).unwrap_err();
    assert!(matches!(err, MermansiError::RenderLimit { context: "gitGraph empty card", requested: 16, limit: 12 }));
}

#[test]
fn git_graph_missing_parent_is_refused() {
    let err = render_git_graph(&graph(vec![commit("a", 0, "main", &["ghost"])], "LR"), &MermansiOptions::unicode())
        .unwrap_err();
    match err {
        MermansiError::GeometryLayout { family, message } => {
            assert_eq!(family, "gitGraph");
            assert_eq!(message, "parent commit is missing: ghost");
        },
        other => panic!("unexpected error {other:?}"),
    }
}

#[test]
fn git_graph_draws_lanes_commits_and_details() {
    let commits = vec![
        commit("a", 0, "main", &[]),
        commit("b", 1, "dev", &["a"]),
        commit("c", 2, "main", &["a", "b"]),
    ];
    let out = render_git_graph(&graph(commits, "LR"), &MermansiOptions::ascii()).unwrap();
    assert!(out.contains("Git graph"));
    assert!(out.contains("direction=LR  current=main"));
    assert!(out.contains("* main"));
    assert!(out.contains("dev"));
    assert!(out.contains("[2] b branch=dev"));
    assert!(out.contains("parents=a"));
    assert!(out.contains('>'));
}

#[test]
fn git_graph_vertical_flow() {
    let commits = vec![commit("a", 0, "main", &[]), commit("b", 1, "main", &["a"])];
    let out = render_git_graph(&graph(commits, "tb"), &MermansiOptions::ascii()).unwrap();
    assert!(out.contains("direction=TB"));
    assert!(out.contains('v'));
}

#[test]
fn git_graph_source_is_drawn_by_the_library() {
    let out = render_source("gitGraph\n    commit\n    commit\n", &MermansiOptions::unicode()).unwrap();
    assert!(out.contains("Git graph"));
    assert!(out.contains("current=main"));
}
