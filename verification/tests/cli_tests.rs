use ginst::cli::{dispatch, file_type_of_extension, Arguments, Command, FileType, Response};
use ginst::engine::Action;
use ginst::program::{Program, Status};
use ginst::steps::Steps;

fn group(dists: &[&str], cmds: &[&str]) -> Steps {
    Steps {
        distro: dists.iter().map(|s| s.to_string()).collect(),
        steps: cmds.iter().map(|s| s.to_string()).collect(),
    }
}

fn prog(name: &str, status: Status, deps: Vec<Program>) -> Program {
    Program {
        name: name.to_string(),
        installation: Vec::new(),
        configuration: Vec::new(),
        dependencies: deps,
        status,
    }
}

fn args() -> Arguments {
    Arguments {
        command: None,
        file: "programs.json".to_string(),
        count: false,
        count_missing: false,
        check: false,
        list: false,
        status: false,
        shell: None,
    }
}

fn sample() -> Vec<Program> {
    let dep = prog("dep", Status::Missing, vec![]);
    let mut top = prog("top", Status::Installed, vec![dep]);
    top.installation = vec![group(&["*"], &["make top"])];
    vec![top]
}

#[test]
fn dispatch_counts_all_nodes() {
    let mut a = args();
    a.count = true;
    match dispatch(&a, &sample(), &"fedora".to_string()) {
        Response::Count(c) => assert_eq!(c, 2),
        other => panic!("unexpected response {:?}", resp_name(&other)),
    }
}

#[test]
fn dispatch_counts_missing_nodes() {
    let mut a = args();
    a.count_missing = true;
    match dispatch(&a, &sample(), &"fedora".to_string()) {
        // The top entry reads as missing through its dependency, and the
        // dependency counts again on its own.
        Response::CountMissing(c) => assert_eq!(c, 2),
        other => panic!("unexpected response {:?}", resp_name(&other)),
    }
}

#[test]
fn dispatch_check_reports_the_file_fine() {
    let mut a = args();
    a.check = true;
    assert!(matches!(dispatch(&a, &sample(), &"fedora".to_string()), Response::FileOk));
}

#[test]
fn dispatch_list_yields_preorder_names() {
    let mut a = args();
    a.list = true;
    match dispatch(&a, &sample(), &"fedora".to_string()) {
        Response::Names(names) => {
            assert_eq!(names, vec!["top".to_string(), "dep".to_string()])
        },
        other => panic!("unexpected response {:?}", resp_name(&other)),
    }
}

#[test]
fn dispatch_status_yields_preorder_status_lines() {
    let mut a = args();
    a.status = true;
    match dispatch(&a, &sample(), &"fedora".to_string()) {
        Response::StatusLines(lines) => {
            assert_eq!(lines, vec!["top,Missing".to_string(), "dep,Missing".to_string()])
        },
        other => panic!("unexpected response {:?}", resp_name(&other)),
    }
}

#[test]
fn dispatch_install_by_name_plans_that_program() {
    let mut a = args();
    a.command = Some(Command::Install { use_package_manager: false, program: Some("top".to_string()) });
    match dispatch(&a, &sample(), &"fedora".to_string()) {
        Response::Plan(plan) => {
            // The missing dependency has no instructions, then the program's
            // own command runs.
            assert_eq!(
                plan,
                vec![
                    Action::NoInstructions("dep".to_string()),
                    Action::Run("make top".to_string()),
                ]
            )
        },
        other => panic!("unexpected response {:?}", resp_name(&other)),
    }
}

#[test]
fn dispatch_install_unknown_name_reports_not_found() {
    let mut a = args();
    a.command = Some(Command::Install { use_package_manager: false, program: Some("ghost".to_string()) });
    match dispatch(&a, &sample(), &"fedora".to_string()) {
        Response::NotFound(name) => assert_eq!(name, "ghost"),
        other => panic!("unexpected response {:?}", resp_name(&other)),
    }
}

#[test]
fn dispatch_install_without_name_installs_each_entry() {
    let mut a = args();
    a.command = Some(Command::Install { use_package_manager: false, program: None });
    match dispatch(&a, &sample(), &"fedora".to_string()) {
        Response::Plan(plan) => {
            assert_eq!(
                plan,
                vec![
                    Action::NoInstructions("dep".to_string()),
                    Action::Run("make top".to_string()),
                ]
            )
        },
        other => panic!("unexpected response {:?}", resp_name(&other)),
    }
}

#[test]
fn dispatch_configure_all_covers_dependencies() {
    let mut a = args();
    a.command = Some(Command::Configure { all: true, program: None });
    match dispatch(&a, &sample(), &"fedora".to_string()) {
        Response::Plan(plan) => {
            assert_eq!(
                plan,
                vec![
                    Action::NoInstructions("top".to_string()),
                    Action::NoInstructions("dep".to_string()),
                ]
            )
        },
        other => panic!("unexpected response {:?}", resp_name(&other)),
    }
}

#[test]
fn dispatch_configure_by_name_plans_that_program() {
    let mut programs = sample();
    programs[0].configuration = vec![group(&["*"], &["conf top"])];
    let mut a = args();
    a.command = Some(Command::Configure { all: false, program: Some("top".to_string()) });
    match dispatch(&a, &programs, &"fedora".to_string()) {
        Response::Plan(plan) => assert_eq!(plan, vec![Action::Run("conf top".to_string())]),
        other => panic!("unexpected response {:?}", resp_name(&other)),
    }
}

#[test]
fn dispatch_with_nothing_asked_advises_usage() {
    let a = args();
    assert!(matches!(dispatch(&a, &sample(), &"fedora".to_string()), Response::Usage));
}

#[test]
fn file_type_recognised_by_extension() {
    assert_eq!(file_type_of_extension(&"json".to_string()), Some(FileType::Json));
    assert_eq!(file_type_of_extension(&"yaml".to_string()), Some(FileType::Yaml));
    assert_eq!(file_type_of_extension(&"yml".to_string()), Some(FileType::Yaml));
    assert_eq!(file_type_of_extension(&"toml".to_string()), None);
}

fn resp_name(r: &Response) -> &'static str {
    match r {
        Response::Count(_) => "Count",
        Response::CountMissing(_) => "CountMissing",
        Response::FileOk => "FileOk",
        Response::Names(_) => "Names",
        Response::StatusLines(_) => "StatusLines",
        Response::Plan(_) => "Plan",
        Response::NotFound(_) => "NotFound",
        Response::Usage => "Usage",
    }
}
