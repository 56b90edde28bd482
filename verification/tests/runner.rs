use myconfig::command::Invocation;
use myconfig::common::{AppError, Lookup};
use myconfig::packages::{Download, PackagesConfig};
use myconfig::runner::{install_all, Action, Event, Operation, Outcome, Pass, Verdict};

fn name(value: &str) -> String {
    value.to_string()
}

fn names(values: &[&str]) -> Vec<String> {
    values.iter().map(|value| value.to_string()).collect()
}

fn present(program: &str) -> Lookup {
    Lookup { name: name(program), output: Some(format!("/usr/bin/{}\n", program)) }
}

fn sample(dry_run: bool) -> PackagesConfig {
    PackagesConfig::new(
        name("tmp"),
        dry_run,
        names(&["git", "jq"]),
        names(&["x/y"]),
        vec![Download { name: name("code"), url: name("https://e.org/code.deb"), dst: name("") }],
        names(&["rg"]),
        vec![Download { name: name("font"), url: name("https://e.org/f.ttf"), dst: name("f.ttf") }],
    )
}

fn command_of(action: Action) -> Invocation {
    match action {
        Action::Log(inv) => inv,
        Action::Spawn(inv) => inv,
        other => panic!("no command: {:?}", other),
    }
}

/// Drives `pass` to its end. Lookups are answered with `lookups`, recordings
/// with `Logged`, and the started command number `k` with `exits[k]`, or with
/// success when there is no such entry. Returns the command lines handed
/// out and the result.
fn drive(
    mut pass: Pass,
    lookups: &Vec<Lookup>,
    exits: &Vec<Outcome>,
) -> (Vec<Vec<String>>, Result<(), AppError>) {
    let mut lines: Vec<Vec<String>> = Vec::new();
    let mut started: usize = 0;
    let mut rounds: usize = 0;
    loop {
        rounds += 1;
        assert!(rounds < 1000);
        match pass.action() {
            Action::Lookup(_) => {
                pass = pass.advance(Event::Looked(lookups.clone()));
            }
            Action::Log(inv) => {
                lines.push(inv.command_line());
                pass = pass.advance(Event::Done(Outcome::Logged));
            }
            Action::Spawn(inv) => {
                lines.push(inv.command_line());
                let outcome = exits.get(started).cloned().unwrap_or(Outcome::Exited(true));
                started += 1;
                pass = pass.advance(Event::Done(outcome));
            }
            Action::Finish(result) => {
                assert!(pass.is_finished());
                return (lines, result);
            }
        }
    }
}

#[test]
fn operations_come_in_order() {
    assert_eq!(Operation::Ppas.next(), Some(Operation::Apt));
    assert_eq!(Operation::Apt.next(), Some(Operation::Debs));
    assert_eq!(Operation::Debs.next(), Some(Operation::Cargo));
    assert_eq!(Operation::Cargo.next(), Some(Operation::Curls));
    assert_eq!(Operation::Curls.next(), None);
}

#[test]
fn only_installs_are_strict() {
    assert!(!Operation::Ppas.is_strict());
    assert!(Operation::Apt.is_strict());
    assert!(Operation::Debs.is_strict());
    assert!(Operation::Cargo.is_strict());
    assert!(!Operation::Curls.is_strict());
}

#[test]
fn verdicts() {
    for op in [Operation::Ppas, Operation::Apt, Operation::Debs, Operation::Cargo, Operation::Curls]
    {
        assert_eq!(op.judge("apt", &Outcome::Logged), Verdict::Proceed);
        assert_eq!(op.judge("apt", &Outcome::Exited(true)), Verdict::Proceed);
        assert_eq!(
            op.judge("apt", &Outcome::SpawnFailed(name("denied"))),
            Verdict::Abort(AppError::IoError(name("apt"), name("denied")))
        );
        assert_eq!(
            op.judge("apt", &Outcome::NotFound),
            Verdict::Abort(AppError::NoInstalledProg(name("apt")))
        );
    }
    assert_eq!(Operation::Ppas.judge("sudo", &Outcome::Exited(false)), Verdict::Proceed);
    assert_eq!(Operation::Curls.judge("curl", &Outcome::Exited(false)), Verdict::Proceed);
    assert_eq!(Operation::Apt.judge("sudo", &Outcome::Exited(false)), Verdict::Abandon);
    assert_eq!(Operation::Debs.judge("curl", &Outcome::Exited(false)), Verdict::Abandon);
    assert_eq!(Operation::Cargo.judge("cargo", &Outcome::Exited(false)), Verdict::Abandon);
}

#[test]
fn a_pass_starts_by_looking_up_nothing_for_the_ppas() {
    let pass = install_all("/home/u", false, sample(false));
    assert!(!pass.is_finished());
    assert_eq!(pass.action(), Action::Lookup(Vec::new()));
    assert!(pass.skipped().is_empty());
    assert_eq!(pass.config().apt(), &names(&["git", "jq"]));
}

#[test]
fn a_full_pass_runs_everything_in_order() {
    let pass = install_all("/home/u", false, sample(false));
    let (lines, result) = drive(pass, &Vec::new(), &Vec::new());
    assert_eq!(result, Ok(()));
    assert_eq!(
        lines,
        vec![
            names(&["sudo", "add-apt-repository", "-y", "ppa:x/y"]),
            names(&["sudo", "apt", "update", "-qq"]),
            names(&["sudo", "apt", "-qqy", "install", "git", "jq"]),
            names(&["curl", "-L", "-o", "tmp/code.deb", "https://e.org/code.deb"]),
            names(&["sudo", "apt", "install", "-y", "tmp/code.deb"]),
            names(&["cargo", "-q", "install", "rg"]),
            names(&["curl", "-L", "-o", "/home/u/f.ttf", "https://e.org/f.ttf"]),
        ]
    );
}

#[test]
fn a_pass_asks_for_the_names_of_each_operation() {
    let mut pass = install_all("/home/u", true, sample(true));
    let mut asked: Vec<Vec<String>> = Vec::new();
    let mut rounds: usize = 0;
    loop {
        rounds += 1;
        assert!(rounds < 100);
        match pass.action() {
            Action::Lookup(wanted) => {
                asked.push(wanted);
                pass = pass.advance(Event::Looked(Vec::new()));
            }
            Action::Finish(result) => {
                assert_eq!(result, Ok(()));
                break;
            }
            _ => {
                pass = pass.advance(Event::Done(Outcome::Logged));
            }
        }
    }
    assert_eq!(
        asked,
        vec![Vec::new(), names(&["git", "jq"]), names(&["code"]), names(&["rg"]), Vec::new()]
    );
}

#[test]
fn a_dry_run_never_starts_a_command() {
    let mut pass = install_all("/home/u", true, sample(true));
    let mut recorded: usize = 0;
    let mut rounds: usize = 0;
    loop {
        rounds += 1;
        assert!(rounds < 100);
        match pass.action() {
            Action::Lookup(_) => {
                pass = pass.advance(Event::Looked(Vec::new()));
            }
            Action::Log(_) => {
                recorded += 1;
                pass = pass.advance(Event::Done(Outcome::Logged));
            }
            Action::Spawn(inv) => panic!("started {:?}", inv),
            Action::Finish(result) => {
                assert_eq!(result, Ok(()));
                break;
            }
        }
    }
    assert_eq!(recorded, 7);
}

#[test]
fn present_packages_are_left_alone_in_a_pass() {
    let lookups = vec![present("git"), present("jq"), present("code"), present("rg")];
    let pass = install_all("/home/u", false, sample(false));
    let (lines, result) = drive(pass, &lookups, &Vec::new());
    assert_eq!(result, Ok(()));
    assert_eq!(
        lines,
        vec![
            names(&["sudo", "add-apt-repository", "-y", "ppa:x/y"]),
            names(&["sudo", "apt", "update", "-qq"]),
            names(&["curl", "-L", "-o", "/home/u/f.ttf", "https://e.org/f.ttf"]),
        ]
    );
}

#[test]
fn installed_curl_needs_no_install_in_a_pass() {
    let config = PackagesConfig::new(
        name("tmp"),
        false,
        names(&["curl"]),
        Vec::new(),
        Vec::new(),
        Vec::new(),
        Vec::new(),
    );
    let mut pass = install_all("/home/u", false, config);
    pass = pass.advance(Event::Looked(Vec::new()));
    assert_eq!(command_of(pass.action()).command_line(), names(&["sudo", "apt", "update", "-qq"]));
    pass = pass.advance(Event::Done(Outcome::Exited(true)));
    assert_eq!(pass.action(), Action::Lookup(names(&["curl"])));
    pass = pass.advance(Event::Looked(vec![present("curl")]));
    assert_eq!(pass.skipped(), &names(&["curl"]));
    let (lines, result) = drive(pass, &Vec::new(), &Vec::new());
    assert!(lines.is_empty());
    assert_eq!(result, Ok(()));
}

#[test]
fn forced_update_installs_present_debs_again() {
    let lookups = vec![present("git"), present("jq"), present("code"), present("rg")];
    let pass = install_all("/home/u", true, sample(false));
    let (lines, result) = drive(pass, &lookups, &Vec::new());
    assert_eq!(result, Ok(()));
    assert_eq!(
        lines,
        vec![
            names(&["sudo", "add-apt-repository", "-y", "ppa:x/y"]),
            names(&["sudo", "apt", "update", "-qq"]),
            names(&["curl", "-L", "-o", "tmp/code.deb", "https://e.org/code.deb"]),
            names(&["sudo", "apt", "install", "-y", "tmp/code.deb"]),
            names(&["curl", "-L", "-o", "/home/u/f.ttf", "https://e.org/f.ttf"]),
        ]
    );
}

#[test]
fn a_command_that_cannot_start_ends_the_pass() {
    let pass = install_all("/home/u", false, sample(false));
    let exits = vec![Outcome::Exited(true), Outcome::SpawnFailed(name("No such file"))];
    let (lines, result) = drive(pass, &Vec::new(), &exits);
    assert_eq!(result, Err(AppError::IoError(name("sudo"), name("No such file"))));
    assert_eq!(lines.len(), 2);
}

#[test]
fn the_error_names_the_program_that_could_not_start() {
    let pass = install_all("/home/u", false, sample(false));
    let exits = vec![
        Outcome::Exited(true),
        Outcome::Exited(true),
        Outcome::Exited(true),
        Outcome::SpawnFailed(name("denied")),
    ];
    let (lines, result) = drive(pass, &Vec::new(), &exits);
    assert_eq!(result, Err(AppError::IoError(name("curl"), name("denied"))));
    assert_eq!(lines.len(), 4);
}

#[test]
fn a_failed_ppa_is_passed_over() {
    let pass = install_all("/home/u", false, sample(false));
    let exits = vec![Outcome::Exited(false), Outcome::Exited(false)];
    let (lines, result) = drive(pass, &Vec::new(), &exits);
    assert_eq!(result, Ok(()));
    assert_eq!(lines.len(), 7);
    assert_eq!(lines[1], names(&["sudo", "apt", "update", "-qq"]));
}

#[test]
fn a_failed_fetch_gives_up_the_debs_but_not_the_pass() {
    let pass = install_all("/home/u", false, sample(false));
    let exits = vec![
        Outcome::Exited(true),
        Outcome::Exited(true),
        Outcome::Exited(true),
        Outcome::Exited(false),
    ];
    let (lines, result) = drive(pass, &Vec::new(), &exits);
    assert_eq!(result, Ok(()));
    assert_eq!(
        lines,
        vec![
            names(&["sudo", "add-apt-repository", "-y", "ppa:x/y"]),
            names(&["sudo", "apt", "update", "-qq"]),
            names(&["sudo", "apt", "-qqy", "install", "git", "jq"]),
            names(&["curl", "-L", "-o", "tmp/code.deb", "https://e.org/code.deb"]),
            names(&["cargo", "-q", "install", "rg"]),
            names(&["curl", "-L", "-o", "/home/u/f.ttf", "https://e.org/f.ttf"]),
        ]
    );
}

#[test]
fn a_failed_direct_download_is_passed_over() {
    let config = PackagesConfig::new(
        name("tmp"),
        false,
        Vec::new(),
        Vec::new(),
        Vec::new(),
        Vec::new(),
        vec![
            Download { name: name("a"), url: name("https://e.org/a"), dst: name("a") },
            Download { name: name("b"), url: name("https://e.org/b"), dst: name("") },
        ],
    );
    let pass = install_all("/srv", false, config);
    let exits = vec![Outcome::Exited(true), Outcome::Exited(false), Outcome::Exited(false)];
    let (lines, result) = drive(pass, &Vec::new(), &exits);
    assert_eq!(result, Ok(()));
    assert_eq!(
        lines,
        vec![
            names(&["sudo", "apt", "update", "-qq"]),
            names(&["curl", "-L", "-o", "/srv/a", "https://e.org/a"]),
            names(&["curl", "-L", "-o", "/srv/temp_install", "https://e.org/b"]),
        ]
    );
}

#[test]
fn an_event_that_answers_nothing_changes_nothing() {
    let mut pass = install_all("/home/u", false, sample(false));
    pass = pass.advance(Event::Done(Outcome::Exited(true)));
    assert_eq!(pass.action(), Action::Lookup(Vec::new()));
    pass = pass.advance(Event::Looked(Vec::new()));
    let before = command_of(pass.action());
    pass = pass.advance(Event::Looked(vec![present("git")]));
    assert_eq!(command_of(pass.action()), before);
}

#[test]
fn a_finished_pass_stays_finished() {
    let mut pass = install_all("/home/u", false, sample(false));
    pass = pass.advance(Event::Looked(Vec::new()));
    pass = pass.advance(Event::Done(Outcome::SpawnFailed(name("gone"))));
    assert!(pass.is_finished());
    let result = Err(AppError::IoError(name("sudo"), name("gone")));
    assert_eq!(pass.action(), Action::Finish(result.clone()));
    pass = pass.advance(Event::Looked(Vec::new()));
    pass = pass.advance(Event::Done(Outcome::Exited(true)));
    assert_eq!(pass.action(), Action::Finish(result));
}

#[test]
fn an_empty_configuration_only_refreshes_the_index() {
    let config = PackagesConfig::new(
        name("tmp"),
        false,
        Vec::new(),
        Vec::new(),
        Vec::new(),
        Vec::new(),
        Vec::new(),
    );
    let (lines, result) = drive(install_all("/home/u", false, config), &Vec::new(), &Vec::new());
    assert_eq!(result, Ok(()));
    assert_eq!(lines, vec![names(&["sudo", "apt", "update", "-qq"])]);
}

#[test]
fn a_program_that_is_not_found_ends_the_pass() {
    let pass = install_all("/home/u", false, sample(false));
    let exits = vec![
        Outcome::Exited(true),
        Outcome::Exited(true),
        Outcome::Exited(true),
        Outcome::Exited(true),
        Outcome::Exited(true),
        Outcome::NotFound,
    ];
    let (lines, result) = drive(pass, &Vec::new(), &exits);
    assert_eq!(result, Err(AppError::NoInstalledProg(name("cargo"))));
    assert_eq!(lines.len(), 6);
    assert_eq!(lines[5], names(&["cargo", "-q", "install", "rg"]));
}

#[test]
fn a_pass_registers_each_normalized_ppa_once() {
    let config = PackagesConfig::new(
        name("tmp"),
        true,
        Vec::new(),
        names(&["foo", "ppa:foo"]),
        Vec::new(),
        Vec::new(),
        Vec::new(),
    );
    let (lines, result) = drive(install_all("/home/u", false, config), &Vec::new(), &Vec::new());
    assert_eq!(result, Ok(()));
    assert_eq!(
        lines,
        vec![
            names(&["sudo", "add-apt-repository", "-y", "ppa:foo"]),
            names(&["sudo", "apt", "update", "-qq"]),
        ]
    );
}
