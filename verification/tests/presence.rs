use myconfig::command::Invocation;
use myconfig::common::{
    find_installed, find_not_installed, home_dir, is_installed, lookup_command,
    partition_by_installed, symlink, version, which, AppError, Lookup,
};

fn text(value: &str) -> String {
    value.to_string()
}

fn texts(values: &[&str]) -> Vec<String> {
    values.iter().map(|value| value.to_string()).collect()
}

fn answer(name: &str, output: Option<&str>) -> Lookup {
    Lookup { name: text(name), output: output.map(text) }
}

#[test]
fn should_find_ls() {
    let lookups = vec![answer("ls", Some("/usr/bin/ls\n"))];
    let ls = which("ls", &lookups);
    assert_eq!(Some(text("/usr/bin/ls\n")), ls);
}

#[test]
fn which_reports_nothing_for_empty_output() {
    let lookups = vec![answer("ghost", Some(""))];
    assert_eq!(which("ghost", &lookups), None);
    assert!(!is_installed("ghost", &lookups));
}

#[test]
fn which_reports_nothing_when_the_tool_could_not_run() {
    let lookups = vec![answer("ghost", None)];
    assert_eq!(which("ghost", &lookups), None);
}

#[test]
fn which_reports_nothing_without_an_answer() {
    let lookups = vec![answer("ls", Some("/usr/bin/ls\n"))];
    assert_eq!(which("cat", &lookups), None);
    assert_eq!(which("ls", &Vec::new()), None);
}

#[test]
fn which_goes_by_the_first_answer_for_a_name() {
    let lookups = vec![
        answer("cat", Some("/bin/cat\n")),
        answer("ls", Some("")),
        answer("ls", Some("/usr/bin/ls\n")),
    ];
    assert_eq!(which("ls", &lookups), None);
    assert_eq!(which("cat", &lookups), Some(text("/bin/cat\n")));
}

#[test]
fn installed_and_missing_partition_the_names() {
    let names = texts(&["curl", "git", "jq", "htop"]);
    let lookups = vec![
        answer("curl", Some("/usr/bin/curl\n")),
        answer("git", Some("")),
        answer("htop", Some("/usr/bin/htop\n")),
    ];
    let found = find_installed(&names, &lookups);
    let absent = find_not_installed(&names, &lookups);
    assert_eq!(found, texts(&["curl", "htop"]));
    assert_eq!(absent, texts(&["git", "jq"]));
    for name in names.iter() {
        assert!(found.contains(name) != absent.contains(name));
    }
    assert_eq!(found.len() + absent.len(), names.len());
    let (left, right) = partition_by_installed(&names, &lookups);
    assert_eq!(left, found);
    assert_eq!(right, absent);
}

#[test]
fn partition_of_no_names_is_empty() {
    let names: Vec<String> = Vec::new();
    let lookups = vec![answer("curl", Some("/usr/bin/curl\n"))];
    assert!(find_installed(&names, &lookups).is_empty());
    assert!(find_not_installed(&names, &lookups).is_empty());
}

#[test]
fn everything_is_missing_without_answers() {
    let names = texts(&["a", "b"]);
    assert!(find_installed(&names, &Vec::new()).is_empty());
    assert_eq!(find_not_installed(&names, &Vec::new()), names);
}

#[test]
fn lookup_command_asks_which() {
    let inv = lookup_command("ls");
    assert_eq!(inv, Invocation { argv: texts(&["which", "ls"]), elevate: false });
    assert_eq!(inv.command_line(), texts(&["which", "ls"]));
}

#[test]
fn version_command_asks_which_to_describe() {
    let inv = version("ls");
    assert_eq!(inv, Invocation { argv: texts(&["which", "ls", "-v"]), elevate: false });
}

#[test]
fn symlink_links_destination_to_source() {
    let inv = symlink("/repo/vimrc", "/home/u/.vimrc");
    assert_eq!(
        inv,
        Invocation { argv: texts(&["ln", "-s", "/repo/vimrc", "/home/u/.vimrc"]), elevate: false }
    );
}

#[test]
fn error_messages() {
    assert_eq!(AppError::NoUserDirs.message(), "Unable to get user's dirs");
    assert_eq!(AppError::NoHomeDir.message(), "Unable to get user's home dir");
    assert_eq!(AppError::NoInstalledProg(text("jq")).message(), "Unable to find program jq");
    assert_eq!(
        AppError::IoError(text("/tmp/x"), text("not found")).message(),
        "IoError with file /tmp/x not found"
    );
    assert_eq!(
        AppError::NoDestination(text("font")).message(),
        "Unable to get path to destination of font"
    );
}

#[test]
fn error_duplicate_is_equal() {
    let errors = vec![
        AppError::NoUserDirs,
        AppError::NoHomeDir,
        AppError::NoInstalledProg(text("jq")),
        AppError::IoError(text("a"), text("b")),
        AppError::NoDestination(text("c")),
    ];
    for error in errors.iter() {
        assert_eq!(&error.duplicate(), error);
    }
}

#[test]
fn home_dir_needs_the_user_directories() {
    assert_eq!(home_dir(None), Err(AppError::NoUserDirs));
    assert_eq!(home_dir(Some(None)), Err(AppError::NoHomeDir));
    assert_eq!(home_dir(Some(Some(text("/home/u")))), Ok(text("/home/u")));
    assert_eq!(home_dir(Some(Some(text("")))), Ok(text("")));
}
