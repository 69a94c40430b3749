use abbs_meta::package::{scan_package_changes, urgency, Change, CommitInfo, IndexedCommit};

fn commit(hash: &str, version: &str, info: Option<CommitInfo>) -> IndexedCommit {
    IndexedCommit { githash: hash.to_string(), version: version.to_string(), commit: info }
}

fn info(message: &str, name: &str, email: &str, time: i64) -> CommitInfo {
    CommitInfo {
        message: Some(message.to_string()),
        committer_name: Some(name.to_string()),
        committer_email: Some(email.to_string()),
        time,
    }
}

#[test]
fn urgency_is_high_for_a_message_with_the_keyword() {
    assert_eq!(urgency("fix security hole"), "high");
    assert_eq!(urgency("security"), "high");
    assert_eq!(urgency("insecurity: none"), "high");
    assert_eq!(urgency("multi\nline\nsecurity fix"), "high");
}

#[test]
fn urgency_is_medium_for_any_other_message() {
    assert_eq!(urgency("bump version"), "medium");
    assert_eq!(urgency(""), "medium");
    assert_eq!(urgency("securit"), "medium");
    assert_eq!(urgency("ecurity"), "medium");
}

#[test]
fn urgency_is_case_sensitive() {
    assert_eq!(urgency("Security update"), "medium");
    assert_eq!(urgency("SECURITY"), "medium");
    assert_eq!(urgency("securitY"), "medium");
}

#[test]
fn urgency_agrees_with_the_standard_search() {
    let messages = [
        "fix security hole",
        "bump version",
        "sécurité",
        "安全 security 更新",
        "sec urity",
        "securitsecurity",
        "",
    ];
    for m in messages {
        let expected = if m.contains("security") { "high" } else { "medium" };
        assert_eq!(urgency(m), expected, "{m:?}");
    }
}

#[test]
fn no_commits_give_an_empty_changelog() {
    let r: Result<Vec<Change>, String> = scan_package_changes("jade", "stable", Ok(vec![]));
    assert_eq!(r, Ok(vec![]));
}

#[test]
fn a_failed_query_fails_the_call() {
    let r: Result<Vec<Change>, String> =
        scan_package_changes("jade", "stable", Err("database is locked".to_string()));
    assert_eq!(r, Err("database is locked".to_string()));
}

#[test]
fn a_commit_becomes_a_change() {
    let commits = vec![commit(
        "0123456789abcdef0123456789abcdef01234567",
        "1.2-3",
        Some(info("jade: fix security hole", "A Maintainer", "maint@example.org", 1650000000)),
    )];
    let r: Result<Vec<Change>, ()> = scan_package_changes("jade", "stable", Ok(commits));
    assert_eq!(
        r,
        Ok(vec![Change {
            pkg_name: "jade".to_string(),
            version: "1.2-3".to_string(),
            branch: "stable".to_string(),
            urgency: "high".to_string(),
            message: "jade: fix security hole".to_string(),
            githash: "0123456789abcdef0123456789abcdef01234567".to_string(),
            maintainer_name: "A Maintainer".to_string(),
            maintainer_email: "maint@example.org".to_string(),
            timestamp: 1650000000,
        }])
    );
}

#[test]
fn commits_that_cannot_be_resolved_are_dropped() {
    let commits = vec![
        commit("aa", "1.0", None),
        commit("bb", "1.1", Some(info("jade: update to 1.1", "M", "m@example.org", -5))),
        commit("cc", "1.2", None),
    ];
    let r: Result<Vec<Change>, ()> = scan_package_changes("jade", "testing", Ok(commits));
    let changes = r.unwrap();
    assert_eq!(changes.len(), 1);
    assert_eq!(changes[0].githash, "bb");
    assert_eq!(changes[0].version, "1.1");
    assert_eq!(changes[0].urgency, "medium");
    assert_eq!(changes[0].timestamp, -5);
    assert_eq!(changes[0].branch, "testing");
}

#[test]
fn commits_without_message_or_committer_are_dropped() {
    let mut no_message = info("m", "n", "e", 1);
    no_message.message = None;
    let mut no_name = info("m", "n", "e", 2);
    no_name.committer_name = None;
    let mut no_email = info("m", "n", "e", 3);
    no_email.committer_email = None;
    let commits = vec![
        commit("a1", "1", Some(no_message)),
        commit("a2", "2", Some(no_name)),
        commit("a3", "3", Some(no_email)),
        commit("a4", "4", Some(info("", "", "", 4))),
    ];
    let r: Result<Vec<Change>, ()> = scan_package_changes("p", "b", Ok(commits));
    let changes = r.unwrap();
    assert_eq!(changes.len(), 1);
    assert_eq!(changes[0].githash, "a4");
    assert_eq!(changes[0].message, "");
    assert_eq!(changes[0].maintainer_name, "");
    assert_eq!(changes[0].maintainer_email, "");
    assert_eq!(changes[0].urgency, "medium");
}

#[test]
fn changes_keep_the_order_of_the_index() {
    let commits = vec![
        commit("c3", "3", Some(info("third security", "n", "e", 30))),
        commit("c1", "1", Some(info("first", "n", "e", 10))),
        commit("c2", "2", Some(info("second", "n", "e", 20))),
    ];
    let r: Result<Vec<Change>, ()> = scan_package_changes("p", "b", Ok(commits));
    let changes = r.unwrap();
    let hashes: Vec<&str> = changes.iter().map(|c| c.githash.as_str()).collect();
    assert_eq!(hashes, vec!["c3", "c1", "c2"]);
    let urgencies: Vec<&str> = changes.iter().map(|c| c.urgency.as_str()).collect();
    assert_eq!(urgencies, vec!["high", "medium", "medium"]);
}
