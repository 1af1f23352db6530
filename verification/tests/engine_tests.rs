use ginst::engine::{configure_all, install_all, Action};
use ginst::program::{Program, Status};
use ginst::steps::Steps;
use ginst::util::{count_missing, install_missing};

fn group(dists: &[&str], cmds: &[&str]) -> Steps {
    Steps {
        distro: dists.iter().map(|s| s.to_string()).collect(),
        steps: cmds.iter().map(|s| s.to_string()).collect(),
    }
}

fn prog(name: &str, status: Status, deps: Vec<Program>) -> Program {
    Program {
        name: name.to_string(),
        installation: Vec::new(),
        configuration: Vec::new(),
        dependencies: deps,
        status,
    }
}

fn run(cmd: &str) -> Action {
    Action::Run(cmd.to_string())
}

#[test]
fn installing_an_installed_program_plans_no_command() {
    let mut p = prog("tool", Status::Installed, vec![]);
    p.installation = vec![group(&["*"], &["make tool"])];
    let plan = p.install(&"fedora".to_string());
    assert_eq!(plan, vec![Action::AlreadyInstalled("tool".to_string())]);
    assert!(plan.iter().all(|a| !matches!(a, Action::Run(_))));
}

#[test]
fn missing_dependency_is_planned_before_own_steps() {
    let mut dep = prog("dep", Status::Missing, vec![]);
    dep.installation = vec![group(&["*"], &["install dep"])];
    let mut p = prog("main", Status::Missing, vec![dep]);
    p.installation = vec![group(&["*"], &["install main"])];
    let plan = p.install(&"fedora".to_string());
    assert_eq!(plan, vec![run("install dep"), run("install main")]);
}

#[test]
fn installed_dependencies_are_not_revisited() {
    let dep = prog("dep", Status::Installed, vec![]);
    let mut p = prog("main", Status::Missing, vec![dep]);
    p.installation = vec![group(&["*"], &["install main"])];
    let plan = p.install(&"fedora".to_string());
    assert_eq!(plan, vec![run("install main")]);
}

#[test]
fn install_without_matching_group_is_a_soft_notice() {
    let mut p = prog("main", Status::Missing, vec![]);
    p.installation = vec![group(&["debian"], &["apt install main"])];
    let plan = p.install(&"fedora".to_string());
    assert_eq!(plan, vec![Action::NoInstructions("main".to_string())]);
}

#[test]
fn install_runs_all_commands_of_the_picked_group() {
    let mut p = prog("main", Status::Missing, vec![]);
    p.installation = vec![group(&["fedora"], &["step one", "step two", "step three"])];
    let plan = p.install(&"fedora".to_string());
    assert_eq!(plan, vec![run("step one"), run("step two"), run("step three")]);
}

#[test]
fn configure_ignores_install_status() {
    let mut p = prog("main", Status::Installed, vec![]);
    p.configuration = vec![group(&["*"], &["copy config"])];
    let plan = p.configure(&"fedora".to_string());
    assert_eq!(plan, vec![run("copy config")]);
}

#[test]
fn configure_without_matching_group_is_a_soft_notice() {
    let p = prog("main", Status::Missing, vec![]);
    let plan = p.configure(&"fedora".to_string());
    assert_eq!(plan, vec![Action::NoInstructions("main".to_string())]);
}

#[test]
fn install_all_walks_dependencies_first() {
    let mut dep = prog("dep", Status::Missing, vec![]);
    dep.installation = vec![group(&["*"], &["install dep"])];
    let mut a = prog("a", Status::Missing, vec![dep]);
    a.installation = vec![group(&["*"], &["install a"])];
    let programs = vec![a];
    let plan = install_all(&programs, &"fedora".to_string());
    // The dependency is planned by the pre-pass and again through the
    // entry's own install, which still sees it as missing.
    assert_eq!(plan, vec![run("install dep"), run("install dep"), run("install a")]);
}

#[test]
fn configure_all_visits_parent_then_dependencies() {
    let mut dep = prog("dep", Status::Missing, vec![]);
    dep.configuration = vec![group(&["*"], &["conf dep"])];
    let mut a = prog("a", Status::Missing, vec![dep]);
    a.configuration = vec![group(&["*"], &["conf a"])];
    let plan = configure_all(&vec![a], &"fedora".to_string());
    assert_eq!(plan, vec![run("conf a"), run("conf dep")]);
}

#[test]
fn install_missing_installs_each_entry_in_turn() {
    let mut a = prog("a", Status::Missing, vec![]);
    a.installation = vec![group(&["*"], &["install a"])];
    let b = prog("b", Status::Installed, vec![]);
    let plan = install_missing(&vec![a, b], &"fedora".to_string());
    assert_eq!(plan, vec![run("install a"), Action::AlreadyInstalled("b".to_string())]);
}

#[test]
fn flat_count_missing_ignores_nesting_depth() {
    let leaf = prog("leaf", Status::Missing, vec![]);
    let parent = prog("parent", Status::Installed, vec![leaf]);
    let other = prog("other", Status::Installed, vec![]);
    // Only the top level is walked: the parent reads as missing through its
    // leaf, the other entry is installed.
    assert_eq!(count_missing(&vec![parent, other]), 1);
}
