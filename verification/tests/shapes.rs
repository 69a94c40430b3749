use abbs_meta::config::Config;
use abbs_meta::db::entities::{package_changes, package_dependencies, package_duplicate, trees};

#[test]
fn config_holds_its_three_settings() {
    let config = Config {
        abbs_path: "/srv/aosc-os-abbs".to_string(),
        thread: 8,
        commits_db_path: "/srv/commits.db".to_string(),
    };
    assert_eq!(config.clone(), config);
    assert_eq!(config.thread, 8);
}

#[test]
fn rows_are_plain_data() {
    let change = package_changes::Model {
        package: "jade".to_string(),
        githash: "abc".to_string(),
        version: "1.0".to_string(),
        branch: "stable".to_string(),
        urgency: "medium".to_string(),
        message: "jade: new".to_string(),
        maintainer_name: "M".to_string(),
        maintainer_email: "m@example.org".to_string(),
        timestamp: 7,
    };
    assert_eq!(change.clone(), change);
    let dependency = package_dependencies::Model {
        package: "jade".to_string(),
        dependency: "glibc".to_string(),
        relop: Some(">=".to_string()),
        version: None,
        architecture: "".to_string(),
        relationship: "PKGDEP".to_string(),
    };
    assert_eq!(dependency.clone(), dependency);
    assert!(matches!(package_dependencies::Relation::Packages, package_dependencies::Relation::Packages));
    let duplicate = package_duplicate::Model {
        package: "jade".to_string(),
        tree: "aosc-os-abbs".to_string(),
        category: "extra".to_string(),
        section: "doc".to_string(),
        directory: "jade".to_string(),
    };
    assert_eq!(duplicate.clone(), duplicate);
    let tree = trees::Model {
        tid: 1,
        name: "aosc-os-abbs".to_string(),
        category: "base".to_string(),
        url: "https://example.org/abbs.git".to_string(),
        mainbranch: "stable".to_string(),
    };
    assert_eq!(tree.clone(), tree);
}
