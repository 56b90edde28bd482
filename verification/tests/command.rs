use myconfig::command::{build_invocation, copy_strings, Invocation};

fn words(values: &[&str]) -> Vec<String> {
    values.iter().map(|value| value.to_string()).collect()
}

#[test]
fn build_invocation_plain() {
    let argv = build_invocation("cargo", &words(&["-q", "install", "ripgrep"]), false);
    assert_eq!(argv, words(&["cargo", "-q", "install", "ripgrep"]));
}

#[test]
fn build_invocation_elevated() {
    let argv = build_invocation("apt", &words(&["update", "-qq"]), true);
    assert_eq!(argv, words(&["sudo", "apt", "update", "-qq"]));
}

#[test]
fn build_invocation_without_arguments() {
    assert_eq!(build_invocation("ls", &Vec::new(), false), words(&["ls"]));
    assert_eq!(build_invocation("ls", &Vec::new(), true), words(&["sudo", "ls"]));
}

#[test]
fn arguments_are_passed_as_they_stand() {
    let argv = build_invocation("echo", &words(&["a b", "$HOME", "'q'", ""]), false);
    assert_eq!(argv, words(&["echo", "a b", "$HOME", "'q'", ""]));
}

#[test]
fn command_line_of_plain_and_elevated() {
    let plain = Invocation::cmd(words(&["curl", "-L"]));
    assert!(!plain.elevate);
    assert_eq!(plain.command_line(), words(&["curl", "-L"]));
    assert_eq!(plain.program(), "curl");
    let elevated = Invocation::sudo(words(&["apt", "install"]));
    assert!(elevated.elevate);
    assert_eq!(elevated.command_line(), words(&["sudo", "apt", "install"]));
    assert_eq!(elevated.program(), "sudo");
}

#[test]
fn program_of_empty_command() {
    assert_eq!(Invocation::cmd(Vec::new()).program(), "");
    assert_eq!(Invocation::sudo(Vec::new()).program(), "sudo");
}

#[test]
fn duplicate_and_copy_keep_the_text() {
    let inv = Invocation::sudo(words(&["apt", "install", "-y", "x.deb"]));
    assert_eq!(inv.duplicate(), inv);
    let items = words(&["a", "", "c"]);
    assert_eq!(copy_strings(&items), items);
}
