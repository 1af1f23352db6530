use ginst::configuration::Configuration;
use ginst::installation::Installation;
use ginst::instructionset::InstructionSet;
use ginst::steps::{steps_for_dist, Steps};

fn group(dists: &[&str], cmds: &[&str]) -> Steps {
    Steps {
        distro: dists.iter().map(|s| s.to_string()).collect(),
        steps: cmds.iter().map(|s| s.to_string()).collect(),
    }
}

#[test]
fn earlier_wildcard_group_beats_later_exact_match() {
    // Group order decides: the wildcard group comes first, so it wins even
    // though the second group names the distribution exactly.
    let groups = vec![group(&["*"], &["A"]), group(&["fedora"], &["B"])];
    let picked = steps_for_dist(&groups, &"fedora".to_string()).unwrap();
    assert_eq!(picked.steps, vec!["A".to_string()]);
}

#[test]
fn exact_match_found_when_no_earlier_group_applies() {
    let groups = vec![group(&["debian"], &["A"]), group(&["fedora"], &["B"])];
    let picked = steps_for_dist(&groups, &"fedora".to_string()).unwrap();
    assert_eq!(picked.steps, vec!["B".to_string()]);
}

#[test]
fn no_group_matches_unknown_distribution() {
    let groups = vec![group(&["debian"], &["A"]), group(&["fedora"], &["B"])];
    assert!(steps_for_dist(&groups, &"arch".to_string()).is_none());
}

#[test]
fn group_with_several_distros_applies_to_each() {
    let groups = vec![group(&["debian", "fedora"], &["X"])];
    assert!(steps_for_dist(&groups, &"debian".to_string()).is_some());
    assert!(steps_for_dist(&groups, &"fedora".to_string()).is_some());
    assert!(steps_for_dist(&groups, &"arch".to_string()).is_none());
}

#[test]
fn steps_len_and_emptiness() {
    let g = group(&["*"], &["one", "two"]);
    assert_eq!(g.len(), 2);
    assert!(!g.is_empty());
    let empty = group(&["*"], &[]);
    assert_eq!(empty.len(), 0);
    assert!(empty.is_empty());
}

#[test]
fn steps_applies_honours_wildcard_and_name() {
    let g = group(&["fedora", "*"], &["cmd"]);
    assert!(g.applies(&"anything".to_string()));
    let h = group(&["fedora"], &["cmd"]);
    assert!(h.applies(&"fedora".to_string()));
    assert!(!h.applies(&"debian".to_string()));
}

#[test]
fn instruction_set_grows_by_push() {
    let mut set = InstructionSet::new();
    assert!(set.is_empty());
    assert_eq!(set.len(), 0);
    set.push(group(&["fedora"], &["dnf install thing"]));
    assert!(!set.is_empty());
    assert_eq!(set.len(), 1);
}

#[test]
fn instruction_set_resolves_first_applicable_group() {
    let mut set = InstructionSet::new();
    set.push(group(&["debian"], &["apt"]));
    set.push(group(&["*"], &["fallback"]));
    let picked = set.for_dist("fedora".to_string()).unwrap();
    assert_eq!(picked.steps, vec!["fallback".to_string()]);
    assert!(set.for_dist("debian".to_string()).is_some());
}

#[test]
fn configuration_resolves_and_counts() {
    let conf = Configuration { steps: vec![group(&["*"], &["configure me"])] };
    assert_eq!(conf.len(), 1);
    let picked = conf.for_dist("fedora".to_string()).unwrap();
    assert_eq!(picked.steps, vec!["configure me".to_string()]);
}

#[test]
fn installation_resolves_and_counts() {
    let inst = Installation {
        steps: vec![group(&["debian"], &["apt install"]), group(&["fedora"], &["dnf install"])],
    };
    assert_eq!(inst.len(), 2);
    let picked = inst.for_dist("fedora".to_string()).unwrap();
    assert_eq!(picked.steps, vec!["dnf install".to_string()]);
    assert!(inst.for_dist("arch".to_string()).is_none());
}
