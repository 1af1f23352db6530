//! The command-line surface's decisions.
//!
//! Flag parsing and printing stay outside this crate; what stands here is
//! the dispatch itself: given the parsed arguments, the program tree and
//! the current distribution, decide what the run is to produce — a count,
//! lines to print, a plan to execute, or a message.

use vstd::prelude::*;
use crate::engine::{
    Action, spec_configure_all_plan, spec_configure_plan, spec_install_missing_plan,
    spec_install_plan, configure_all,
};
use crate::program::{
    Program, count, count_missing, name_lines, search_from_name, status_lines,
    spec_count_all, spec_count_missing_all, spec_names_all, spec_search, spec_status_lines_all,
};
use crate::util::install_missing;

verus! {

/// A quick operation asked for as a subcommand.
pub enum Command {
    /// Execute installation steps, for one named program or for every one.
    Install {
        /// Whether a package manager may be tried when no instructions fit.
        use_package_manager: bool,
        /// The program to install; all of them when absent.
        program: Option<String>,
    },
    /// Execute configuration steps, for one named program or for every one.
    Configure {
        /// Configure every program, dependencies included.
        all: bool,
        /// The program to configure.
        program: Option<String>,
    },
}

/// The format of a configuration file.
#[derive(Debug, Clone, Copy, PartialEq, Eq, Structural)]
pub enum FileType {
    Json,
    Yaml,
}

/// The parsed command line.
pub struct Arguments {
    /// A quick operation to run and exit.
    pub command: Option<Command>,
    /// Path of the file holding the program descriptions.
    pub file: String,
    /// Print how many programs the file holds, dependencies included.
    pub count: bool,
    /// Print how many programs read as missing.
    pub count_missing: bool,
    /// Only check that the file parses.
    pub check: bool,
    /// List every program's name.
    pub list: bool,
    /// List every program with its status.
    pub status: bool,
    /// The shell to execute commands in, when overridden.
    pub shell: Option<String>,
}

/// What one run of the tool produces.
pub enum Response {
    /// The total number of programs.
    Count(u8),
    /// The number of programs that read as missing.
    CountMissing(u8),
    /// The file parsed; nothing else was asked.
    FileOk,
    /// One name per node, in pre-order.
    Names(Vec<String>),
    /// One `name,status` line per node, in pre-order.
    StatusLines(Vec<String>),
    /// A plan of actions to run through the step runner.
    Plan(Vec<Action>),
    /// No program of the tree carries this name.
    NotFound(String),
    /// No operation was asked for; usage advice is due.
    Usage,
}

/// The file format an extension stands for, if a supported one.
pub fn file_type_of_extension(extension: &String) -> (r: Option<FileType>)
    ensures
        extension@ == "json"@ ==> (r matches Some(t) && t is Json),
        extension@ == "yaml"@ ==> (r matches Some(t) && t is Yaml),
        extension@ == "yml"@ ==> (r matches Some(t) && t is Yaml),
        extension@ != "json"@ && extension@ != "yaml"@ && extension@ != "yml"@ ==> r is None,
{
    proof {
        reveal_strlit("json");
        reveal_strlit("yaml");
        reveal_strlit("yml");
        assert("json"@[0] == 'j');
        assert("yaml"@[0] == 'y');
        assert("yml"@[0] == 'y');
    }
    if extension.eq(&"json".to_owned()) {
        Some(FileType::Json)
    } else if extension.eq(&"yaml".to_owned()) || extension.eq(&"yml".to_owned()) {
        Some(FileType::Yaml)
    } else {
        None
    }
}

/// Decide what the run produces.  The query flags win in their fixed order
/// (count, count missing, check, list, status); then a subcommand, turned
/// into the matching plan or a not-found message; with nothing asked for,
/// usage advice.
pub fn dispatch(args: &Arguments, programs: &Vec<Program>, dist: &String) -> (r: Response)
    requires
        args.count ==> spec_count_all(programs@) <= u8::MAX,
        !args.count && args.count_missing ==> spec_count_missing_all(programs@) <= u8::MAX,
        !args.count && !args.count_missing && !args.check && !args.list && !args.status ==> !(
        args.command matches Some(Command::Configure { all: false, program: None })),
    ensures
        args.count ==> (r matches Response::Count(c) && c == spec_count_all(programs@)),
        !args.count && args.count_missing ==> (r matches Response::CountMissing(c) && c
            == spec_count_missing_all(programs@)),
        !args.count && !args.count_missing && args.check ==> r is FileOk,
        !args.count && !args.count_missing && !args.check && args.list ==> (r
            matches Response::Names(v) && v.deep_view() == spec_names_all(programs@)),
        !args.count && !args.count_missing && !args.check && !args.list && args.status ==> (r
            matches Response::StatusLines(v) && v.deep_view() == spec_status_lines_all(programs@)),
        !args.count && !args.count_missing && !args.check && !args.list && !args.status ==> (
        match args.command {
            Some(Command::Install { use_package_manager: _, program: Some(name) }) => (
            match spec_search(name@, programs@) {
                Some(p) => (r matches Response::Plan(v) && v@ == spec_install_plan(p, dist@)),
                None => (r matches Response::NotFound(n) && n == name),
            }),
            Some(Command::Install { use_package_manager: _, program: None }) => (r
                matches Response::Plan(v) && v@ == spec_install_missing_plan(programs@, dist@)),
            Some(Command::Configure { all: true, program: _ }) => (r matches Response::Plan(v)
                && v@ == spec_configure_all_plan(programs@, dist@)),
            Some(Command::Configure { all: false, program: Some(name) }) => (
            match spec_search(name@, programs@) {
                Some(p) => (r matches Response::Plan(v) && v@ == spec_configure_plan(p, dist@)),
                None => (r matches Response::NotFound(n) && n == name),
            }),
            Some(Command::Configure { all: false, program: None }) => true,
            None => r is Usage,
        }),
{
    if args.count {
        Response::Count(count(programs))
    } else if args.count_missing {
        Response::CountMissing(count_missing(programs))
    } else if args.check {
        Response::FileOk
    } else if args.list {
        Response::Names(name_lines(programs))
    } else if args.status {
        Response::StatusLines(status_lines(programs))
    } else {
        match &args.command {
            Some(Command::Install { use_package_manager: _, program }) => {
                match program {
                    Some(name) => {
                        match search_from_name(name, programs) {
                            Some(prog) => Response::Plan(prog.install(dist)),
                            None => Response::NotFound(name.clone()),
                        }
                    },
                    None => Response::Plan(install_missing(programs, dist)),
                }
            },
            Some(Command::Configure { all, program }) => {
                if *all {
                    Response::Plan(configure_all(programs, dist))
                } else {
                    match program {
                        Some(name) => {
                            match search_from_name(name, programs) {
                                Some(prog) => Response::Plan(prog.configure(dist)),
                                None => Response::NotFound(name.clone()),
                            }
                        },
                        None => Response::Usage,
                    }
                }
            },
            None => Response::Usage,
        }
    }
}

} // verus!
