use std::path::Path;

use turm::job_acct::JobAcctWatcher;
use turm::path::{join_path, resolve, PathFields};

fn fields(array_id: &str) -> PathFields {
    PathFields {
        array_master: "100".to_string(),
        array_id: array_id.to_string(),
        id: "101".to_string(),
        host: "node1,node2".to_string(),
        user: "ada".to_string(),
        name: "train".to_string(),
    }
}

#[test]
fn joining_agrees_with_the_standard_library() {
    for dir in ["", "/", "/a", "/a/", "a", "a/b/"] {
        for path in ["", "x", "/x", "x/y", "./x", "../x"] {
            let expected = Path::new(dir).join(path);
            assert_eq!(join_path(dir, path), expected.to_str().unwrap());
        }
    }
}

#[test]
fn every_placeholder_is_replaced() {
    let f = fields("7");
    assert_eq!(
        f.expand("%A %a %J %j %N %n %s %t %u %x %%"),
        "100 7 101 101 node1 0 batch 0 ada train %"
    );
}

#[test]
fn other_percent_signs_stay() {
    let f = fields("7");
    assert_eq!(f.expand("%"), "%");
    assert_eq!(f.expand("%b"), "%b");
    assert_eq!(f.expand("100%"), "100%");
    assert_eq!(f.expand("%%A"), "%A");
    assert_eq!(f.expand("%%%A"), "%100");
    assert_eq!(f.expand("%é%u"), "%éada");
    assert_eq!(f.expand("ünï%x"), "ünïtrain");
    assert_eq!(f.expand(""), "");
}

#[test]
fn replacements_are_not_replaced_again() {
    let mut f = fields("7");
    f.name = "%u".to_string();
    assert_eq!(f.expand("%x-%x"), "%u-%u");
}

#[test]
fn a_host_list_counts_with_its_first_host() {
    let mut f = fields("7");
    f.host = "node9".to_string();
    assert_eq!(f.expand("%N"), "node9");
    f.host = "".to_string();
    assert_eq!(f.expand("[%N]"), "[]");
}

#[test]
fn relative_names_are_taken_from_the_working_directory() {
    assert_eq!(resolve("out-%A.txt", fields("7"), "/work"), "/work/out-100.txt");
    assert_eq!(resolve("/log/%j", fields("7"), "/work"), "/log/101");
}

#[test]
fn a_job_without_a_file_name_has_the_usual_one() {
    assert_eq!(resolve("", fields("7"), "/work"), "/work/slurm-100_7.out");
    assert_eq!(resolve("", fields("N/A"), "/work"), "/work/slurm-101.out");
    assert_eq!(resolve("%a", fields("N/A"), "/work"), "/work/4294967294");
}

#[test]
fn doubled_percent_signs_are_literal() {
    assert_eq!(fields("7").expand("50%% of %%x"), "50% of %x");
}

#[test]
fn the_watcher_resolves_paths() {
    assert_eq!(
        JobAcctWatcher::resolve_path("%x_%A_%a.log", "5", "2", "5_2", "n1", "bob", "fit", "/w/"),
        Some("/w/fit_5_2.log".to_string())
    );
}

#[test]
fn paths_in_an_absolute_directory_are_absolute() {
    for path in ["", "x", "/x", "%u"] {
        assert!(resolve(path, fields("1"), "/w").starts_with('/'));
    }
    assert_eq!(resolve("/plain", fields("1"), "/w"), "/plain");
}
