use humility_cmd::descriptors::command_names;

fn names(packages: &[&str]) -> Vec<String> {
    command_names(&packages.iter().map(|p| p.to_string()).collect())
}

#[test]
fn commands_are_the_packages_of_the_convention() {
    let found = names(&["humility-cmd-tasks", "humility", "humility-cmd", "cmd-x", "xhumility-cmd-y"]);
    assert_eq!(found, vec!["tasks"]);
}

#[test]
fn commands_come_once_and_in_ascending_order() {
    let found = names(&[
        "humility-cmd-tasks",
        "humility-cmd-probe",
        "humility-core",
        "humility-cmd-tasks",
        "humility-cmd-apptable",
        "humility-cmd-probe",
    ]);
    assert_eq!(found, vec!["apptable", "probe", "tasks"]);
}

#[test]
fn shorter_name_comes_before_its_extensions() {
    let found = names(&["humility-cmd-abc", "humility-cmd-ab", "humility-cmd-", "humility-cmd-B", "humility-cmd-\u{e9}"]);
    assert_eq!(found, vec!["", "B", "ab", "abc", "\u{e9}"]);
}

#[test]
fn order_of_the_packages_does_not_matter() {
    let one = names(&["humility-cmd-i2c", "humility-cmd-gpio", "humility-cmd-spi"]);
    let other = names(&["humility-cmd-spi", "humility-cmd-i2c", "humility-cmd-gpio"]);
    assert_eq!(one, other);
    assert_eq!(one, vec!["gpio", "i2c", "spi"]);
}

#[test]
fn no_package_no_command() {
    assert!(names(&[]).is_empty());
}
