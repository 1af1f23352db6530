use ginst::program::{
    are_installed, count, count_missing, name_lines, search_from_name, set_status_all,
    status_lines, Program, Status,
};
use ginst::steps::Steps;

fn group(dists: &[&str], cmds: &[&str]) -> Steps {
    Steps {
        distro: dists.iter().map(|s| s.to_string()).collect(),
        steps: cmds.iter().map(|s| s.to_string()).collect(),
    }
}

fn prog(name: &str, status: Status, deps: Vec<Program>) -> Program {
    Program {
        name: name.to_string(),
        installation: Vec::new(),
        configuration: Vec::new(),
        dependencies: deps,
        status,
    }
}

#[test]
fn test_has_config() {
    let mut p = prog("neovim", Status::Missing, vec![]);
    p.configuration = vec![group(&["*"], &["echo configured"])];
    assert!(p.has_configuration_steps());
}

#[test]
fn test_has_install() {
    let mut p = prog("neovim", Status::Missing, vec![]);
    p.installation = vec![group(&["*"], &["echo installed"])];
    assert!(p.has_installation_steps());
}

#[test]
fn test_has_dependencies() {
    let dep = prog("git", Status::Missing, vec![]);
    let p = prog("neovim", Status::Missing, vec![dep]);
    assert!(p.has_dependencies());
}

#[test]
fn installed_leaf_follows_own_status() {
    let installed = prog("a", Status::Installed, vec![]);
    let missing = prog("b", Status::Missing, vec![]);
    assert!(installed.is_installed());
    assert!(!missing.is_installed());
}

#[test]
fn missing_transitive_dependency_blocks_install_state() {
    let leaf = prog("leaf", Status::Missing, vec![]);
    let mid = prog("mid", Status::Installed, vec![leaf]);
    let root = prog("root", Status::Installed, vec![mid]);
    assert!(!root.is_installed());
}

#[test]
fn installed_with_installed_dependencies() {
    let leaf = prog("leaf", Status::Installed, vec![]);
    let root = prog("root", Status::Installed, vec![leaf]);
    assert!(root.is_installed());
}

#[test]
fn are_installed_empty_list_is_true() {
    assert!(are_installed(&vec![]));
}

#[test]
fn count_includes_all_nested_dependencies() {
    let d3 = prog("d3", Status::Missing, vec![]);
    let d2 = prog("d2", Status::Missing, vec![d3]);
    let d1 = prog("d1", Status::Missing, vec![d2]);
    let top = prog("top", Status::Missing, vec![d1]);
    let other = prog("other", Status::Missing, vec![]);
    let programs = vec![top, other];
    assert_eq!(count(&programs), 5);
}

#[test]
fn count_missing_counts_inherited_missingness_twice() {
    // The leaf is missing; the parent's own status is Installed but it reads
    // as missing through the leaf, so both nodes count.
    let leaf = prog("leaf", Status::Missing, vec![]);
    let parent = prog("parent", Status::Installed, vec![leaf]);
    let programs = vec![parent];
    assert_eq!(count_missing(&programs), 2);
}

#[test]
fn count_missing_zero_when_all_installed() {
    let leaf = prog("leaf", Status::Installed, vec![]);
    let parent = prog("parent", Status::Installed, vec![leaf]);
    assert_eq!(count_missing(&vec![parent]), 0);
}

#[test]
fn search_finds_third_level_nested_dependency() {
    let x = prog("x", Status::Missing, vec![]);
    let second = prog("second", Status::Missing, vec![x]);
    let first = prog("first", Status::Missing, vec![second]);
    let programs = vec![first];
    let found = search_from_name(&"x".to_string(), &programs);
    assert!(found.is_some());
    assert_eq!(found.unwrap().get_name(), "x");
}

#[test]
fn search_returns_none_for_absent_name() {
    let x = prog("x", Status::Missing, vec![]);
    let first = prog("first", Status::Missing, vec![x]);
    let programs = vec![first];
    assert!(search_from_name(&"nowhere".to_string(), &programs).is_none());
}

#[test]
fn search_duplicate_names_resolve_to_first_in_preorder() {
    let mut dup_inner = prog("dup", Status::Missing, vec![]);
    dup_inner.installation = vec![group(&["*"], &["inner"])];
    let holder = prog("holder", Status::Missing, vec![dup_inner]);
    let mut dup_top = prog("dup", Status::Missing, vec![]);
    dup_top.installation = vec![group(&["*"], &["top"])];
    // Pre-order walks holder, then its nested dup, before the later sibling.
    let programs = vec![holder, dup_top];
    let found = search_from_name(&"dup".to_string(), &programs).unwrap();
    assert_eq!(found.installation[0].steps, vec!["inner".to_string()]);
}

#[test]
fn set_status_assigns_probe_results_in_preorder() {
    let d1 = prog("d1", Status::Missing, vec![]);
    let d2 = prog("d2", Status::Missing, vec![]);
    let a = prog("a", Status::Missing, vec![d1, d2]);
    let b = prog("b", Status::Missing, vec![]);
    let mut programs = vec![a, b];
    // Pre-order: a, d1, d2, b.
    let probes = vec![true, false, true, true];
    set_status_all(&mut programs, &probes);
    assert_eq!(programs[0].status, Status::Installed);
    assert_eq!(programs[0].dependencies[0].status, Status::Missing);
    assert_eq!(programs[0].dependencies[1].status, Status::Installed);
    assert_eq!(programs[1].status, Status::Installed);
}

#[test]
fn set_status_leaves_everything_but_status_alone() {
    let mut a = prog("a", Status::Missing, vec![]);
    a.installation = vec![group(&["*"], &["make a"])];
    let mut programs = vec![a];
    set_status_all(&mut programs, &vec![true]);
    assert_eq!(programs[0].name, "a");
    assert_eq!(programs[0].installation[0].steps, vec!["make a".to_string()]);
}

#[test]
fn name_lines_walk_children_before_later_siblings() {
    let d2 = prog("d2", Status::Missing, vec![]);
    let d1 = prog("d1", Status::Missing, vec![d2]);
    let a = prog("a", Status::Missing, vec![d1]);
    let b = prog("b", Status::Missing, vec![]);
    let programs = vec![a, b];
    let lines = name_lines(&programs);
    assert_eq!(
        lines,
        vec!["a".to_string(), "d1".to_string(), "d2".to_string(), "b".to_string()]
    );
}

#[test]
fn status_lines_pair_each_name_with_its_state() {
    let leaf = prog("leaf", Status::Missing, vec![]);
    let parent = prog("parent", Status::Installed, vec![leaf]);
    let programs = vec![parent];
    let lines = status_lines(&programs);
    // The parent reads as missing because its dependency is.
    assert_eq!(lines, vec!["parent,Missing".to_string(), "leaf,Missing".to_string()]);
}

#[test]
fn status_string_matches_install_state() {
    let installed = prog("a", Status::Installed, vec![]);
    let missing = prog("b", Status::Missing, vec![]);
    assert_eq!(installed.get_status_as_string(), "Installed");
    assert_eq!(missing.get_status_as_string(), "Missing");
}

#[test]
fn check_maps_probe_outcome_to_status() {
    let p = prog("a", Status::Missing, vec![]);
    assert_eq!(p.check(true), Status::Installed);
    assert_eq!(p.check(false), Status::Missing);
}

#[test]
fn getters_expose_name_and_dependencies() {
    let dep = prog("dep", Status::Missing, vec![]);
    let p = prog("p", Status::Missing, vec![dep]);
    assert_eq!(p.get_name(), "p");
    assert_eq!(p.get_dependencies().len(), 1);
    assert_eq!(p.get_dependencies()[0].get_name(), "dep");
    assert!(!p.get_dependencies()[0].has_dependencies());
}
