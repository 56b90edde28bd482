//! Presence of programs on the system, and the errors of a run.

use vstd::prelude::*;
use crate::command::Invocation;
use crate::text::owned;

verus! {

/// What the path lookup tool answered for one program name: the text it
/// printed, or `None` when the tool could not be run at all.
#[derive(Debug, Clone, PartialEq, Eq)]
pub struct Lookup {
    pub name: String,
    pub output: Option<String>,
}

/// The mathematical value of a [`Lookup`].
pub struct LookupView {
    pub name: Seq<char>,
    pub output: Option<Seq<char>>,
}

impl View for Lookup {
    type V = LookupView;

    open spec fn view(&self) -> LookupView {
        LookupView { name: self.name@, output: self.output.deep_view() }
    }
}

impl DeepView for Lookup {
    type V = LookupView;

    open spec fn deep_view(&self) -> LookupView {
        self@
    }
}

/// The path that one answer of the lookup tool stands for: its text, unless
/// the tool could not run or printed nothing.
pub open spec fn found_path(output: Option<Seq<char>>) -> Option<Seq<char>> {
    match output {
        Some(text) => if text.len() > 0 {
            Some(text)
        } else {
            None
        },
        None => None,
    }
}

/// Where `name` resolves to according to `lookups`. The first answer recorded
/// for `name` decides; a name without an answer does not resolve.
pub open spec fn resolve(lookups: Seq<LookupView>, name: Seq<char>) -> Option<Seq<char>>
    decreases lookups.len(),
{
    if lookups.len() == 0 {
        None
    } else if lookups[0].name == name {
        found_path(lookups[0].output)
    } else {
        resolve(lookups.drop_first(), name)
    }
}

/// Whether `name` is an executable on the system according to `lookups`.
pub open spec fn present(lookups: Seq<LookupView>, name: Seq<char>) -> bool {
    resolve(lookups, name) is Some
}

/// The names among `names` whose presence is `wanted`, in their order.
pub open spec fn with_presence(
    names: Seq<Seq<char>>,
    lookups: Seq<LookupView>,
    wanted: bool,
) -> Seq<Seq<char>> {
    names.filter(|name: Seq<char>| present(lookups, name) == wanted)
}

/// The names among `names` that are present on the system, in their order.
pub open spec fn installed(names: Seq<Seq<char>>, lookups: Seq<LookupView>) -> Seq<Seq<char>> {
    with_presence(names, lookups, true)
}

/// The names among `names` that are absent from the system, in their order.
pub open spec fn missing(names: Seq<Seq<char>>, lookups: Seq<LookupView>) -> Seq<Seq<char>> {
    with_presence(names, lookups, false)
}

/// The command that asks the system where `progname` resolves to.
pub fn lookup_command(progname: &str) -> (inv: Invocation)
    ensures
        inv@.argv == seq!["which"@, progname@],
        !inv@.elevate,
{
    let mut argv: Vec<String> = Vec::new();
    argv.push(owned("which"));
    argv.push(owned(progname));
    assert(argv.deep_view() =~= seq!["which"@, progname@]);
    Invocation::cmd(argv)
}

/// The command that asks the lookup tool to describe `program`.
pub fn version(program: &str) -> (inv: Invocation)
    ensures
        inv@.argv == seq!["which"@, program@, "-v"@],
        !inv@.elevate,
{
    let mut argv: Vec<String> = Vec::new();
    argv.push(owned("which"));
    argv.push(owned(program));
    argv.push(owned("-v"));
    assert(argv.deep_view() =~= seq!["which"@, program@, "-v"@]);
    Invocation::cmd(argv)
}

/// The command that links `dest` to `src`.
pub fn symlink(src: &str, dest: &str) -> (inv: Invocation)
    ensures
        inv@.argv == seq!["ln"@, "-s"@, src@, dest@],
        !inv@.elevate,
{
    let mut argv: Vec<String> = Vec::new();
    argv.push(owned("ln"));
    argv.push(owned("-s"));
    argv.push(owned(src));
    argv.push(owned(dest));
    assert(argv.deep_view() =~= seq!["ln"@, "-s"@, src@, dest@]);
    Invocation::cmd(argv)
}

/// Where `progname` resolves to on the system, going by `lookups`: the text
/// of the first answer recorded for it, or `None` when there is no answer,
/// the tool could not run, or it printed nothing.
pub fn which(progname: &str, lookups: &Vec<Lookup>) -> (path: Option<String>)
    ensures
        path.deep_view() == resolve(lookups.deep_view(), progname@),
{
    let wanted = owned(progname);
    let ghost all = lookups.deep_view();
    let mut i: usize = 0;
    assert(all.subrange(0, all.len() as int) =~= all);
    while i < lookups.len()
        invariant
            i <= lookups.len(),
            all == lookups.deep_view(),
            wanted@ == progname@,
            resolve(all, progname@) == resolve(all.subrange(i as int, all.len() as int), progname@),
        decreases lookups.len() - i,
    {
        let ghost rest = all.subrange(i as int, all.len() as int);
        assert(rest[0] == lookups[i as int]@);
        assert(rest.drop_first() =~= all.subrange(i + 1, all.len() as int));
        if lookups[i].name == wanted {
            match &lookups[i].output {
                Some(text) => {
                    if text.as_str().unicode_len() > 0 {
                        return Some(text.clone());
                    } else {
                        return None;
                    }
                },
                None => {
                    return None;
                },
            }
        }
        i += 1;
    }
    None
}

/// Whether `name` is an executable on the system, going by `lookups`.
pub fn is_installed(name: &str, lookups: &Vec<Lookup>) -> (found: bool)
    ensures
        found == present(lookups.deep_view(), name@),
{
    which(name, lookups).is_some()
}

/// The names among `exes` whose presence equals `wanted`, in their order.
fn select(exes: &Vec<String>, lookups: &Vec<Lookup>, wanted: bool) -> (chosen: Vec<String>)
    ensures
        chosen.deep_view() == with_presence(exes.deep_view(), lookups.deep_view(), wanted),
{
    let ghost names = exes.deep_view();
    let ghost facts = lookups.deep_view();
    let ghost keep = |name: Seq<char>| present(facts, name) == wanted;
    let mut chosen: Vec<String> = Vec::new();
    let mut i: usize = 0;
    proof {
        reveal(Seq::filter);
        assert(names.take(0) =~= Seq::<Seq<char>>::empty());
        assert(chosen.deep_view() =~= names.take(0).filter(keep));
    }
    while i < exes.len()
        invariant
            i <= exes.len(),
            names == exes.deep_view(),
            facts == lookups.deep_view(),
            keep == (|name: Seq<char>| present(facts, name) == wanted),
            chosen.deep_view() == names.take(i as int).filter(keep),
        decreases exes.len() - i,
    {
        let ghost before = chosen.deep_view();
        let found = is_installed(exes[i].as_str(), lookups);
        if found == wanted {
            chosen.push(exes[i].clone());
        }
        proof {
            reveal(Seq::filter);
            let upto = names.take(i + 1);
            assert(upto.drop_last() =~= names.take(i as int));
            assert(upto.last() == exes[i as int]@);
            if found == wanted {
                assert(chosen.deep_view() =~= before.push(exes[i as int]@));
            } else {
                assert(chosen.deep_view() =~= before);
            }
        }
        i += 1;
    }
    assert(names.take(exes.len() as int) =~= names);
    chosen
}

/// The programs among `exes` that are present on the system.
pub fn find_installed(exes: &Vec<String>, lookups: &Vec<Lookup>) -> (found: Vec<String>)
    ensures
        found.deep_view() == installed(exes.deep_view(), lookups.deep_view()),
{
    select(exes, lookups, true)
}

/// The programs among `exes` that are absent from the system.
pub fn find_not_installed(exes: &Vec<String>, lookups: &Vec<Lookup>) -> (absent: Vec<String>)
    ensures
        absent.deep_view() == missing(exes.deep_view(), lookups.deep_view()),
{
    select(exes, lookups, false)
}

/// Splits `exes` into the programs that are present and those that are absent.
pub fn partition_by_installed(exes: &Vec<String>, lookups: &Vec<Lookup>) -> (parts: (
    Vec<String>,
    Vec<String>,
))
    ensures
        parts.0.deep_view() == installed(exes.deep_view(), lookups.deep_view()),
        parts.1.deep_view() == missing(exes.deep_view(), lookups.deep_view()),
{
    (find_installed(exes, lookups), find_not_installed(exes, lookups))
}

/// What selecting names by presence keeps: exactly the names of `names` with
/// the wanted presence, and nothing twice that was not there twice.
proof fn lemma_with_presence(names: Seq<Seq<char>>, lookups: Seq<LookupView>, wanted: bool)
    ensures
        forall|name: Seq<char>| #[trigger]
            with_presence(names, lookups, wanted).contains(name) <==> (names.contains(name)
                && present(lookups, name) == wanted),
        names.no_duplicates() ==> with_presence(names, lookups, wanted).no_duplicates(),
    decreases names.len(),
{
    reveal(Seq::filter);
    let out = with_presence(names, lookups, wanted);
    if names.len() > 0 {
        let rest = names.drop_last();
        let last = names.last();
        let sub = with_presence(rest, lookups, wanted);
        let kept = present(lookups, last) == wanted;
        lemma_with_presence(rest, lookups, wanted);
        assert(out == if kept {
            sub.push(last)
        } else {
            sub
        });
        assert forall|name: Seq<char>| #[trigger]
            out.contains(name) <==> (names.contains(name) && present(lookups, name)
                == wanted) by {
            assert(names.contains(name) <==> (rest.contains(name) || name == last)) by {
                if names.contains(name) {
                    let i = choose|i: int| 0 <= i < names.len() && names[i] == name;
                    if i < rest.len() {
                        assert(rest[i] == name);
                    }
                }
                if rest.contains(name) {
                    let i = choose|i: int| 0 <= i < rest.len() && rest[i] == name;
                    assert(names[i] == name);
                }
                assert(names[names.len() - 1] == last);
            }
            assert(sub.contains(name) <==> (rest.contains(name) && present(lookups, name)
                == wanted));
            if kept {
                assert(out.contains(name) <==> (sub.contains(name) || name == last)) by {
                    if out.contains(name) {
                        let i = choose|i: int| 0 <= i < out.len() && out[i] == name;
                        if i < sub.len() {
                            assert(sub[i] == name);
                        }
                    }
                    if sub.contains(name) {
                        let i = choose|i: int| 0 <= i < sub.len() && sub[i] == name;
                        assert(out[i] == name);
                    }
                    assert(out[out.len() - 1] == last);
                }
            }
        }
        if names.no_duplicates() {
            assert(rest.no_duplicates()) by {
                assert forall|i: int, j: int|
                    0 <= i < rest.len() && 0 <= j < rest.len() && i != j implies rest[i]
                    != rest[j] by {
                    assert(rest[i] == names[i] && rest[j] == names[j]);
                }
            }
            if kept {
                if rest.contains(last) {
                    let i = choose|i: int| 0 <= i < rest.len() && rest[i] == last;
                    assert(names[i] == names[names.len() - 1]);
                }
                assert(!sub.contains(last));
                assert forall|i: int, j: int|
                    0 <= i < out.len() && 0 <= j < out.len() && i != j implies out[i]
                    != out[j] by {
                    if i < sub.len() {
                        assert(sub[i] == out[i]);
                        assert(sub.contains(out[i]));
                    }
                    if j < sub.len() {
                        assert(sub[j] == out[j]);
                        assert(sub.contains(out[j]));
                    }
                }
            }
        }
    }
}

/// The present and the absent names split the declared names: every declared
/// name is in exactly one of the two, neither holds a name that was not
/// declared, and neither repeats a name that was declared once.
pub proof fn lemma_presence_partition(names: Seq<Seq<char>>, lookups: Seq<LookupView>)
    ensures
        installed(names, lookups).to_set().union(missing(names, lookups).to_set())
            == names.to_set(),
        installed(names, lookups).to_set().disjoint(missing(names, lookups).to_set()),
        names.no_duplicates() ==> installed(names, lookups).no_duplicates() && missing(
            names,
            lookups,
        ).no_duplicates(),
{
    lemma_with_presence(names, lookups, true);
    lemma_with_presence(names, lookups, false);
    let both = installed(names, lookups).to_set().union(missing(names, lookups).to_set());
    assert forall|name: Seq<char>| both.contains(name) <==> names.to_set().contains(name) by {
        assert(installed(names, lookups).contains(name) <==> (names.contains(name) && present(
            lookups,
            name,
        )));
        assert(missing(names, lookups).contains(name) <==> (names.contains(name) && !present(
            lookups,
            name,
        )));
    }
    assert(both =~= names.to_set());
    assert forall|name: Seq<char>|
        !(installed(names, lookups).to_set().contains(name) && missing(
            names,
            lookups,
        ).to_set().contains(name)) by {
        assert(installed(names, lookups).contains(name) ==> present(lookups, name));
        assert(missing(names, lookups).contains(name) ==> !present(lookups, name));
    }
}

/// A name is absent exactly when it is declared and not present; nothing is
/// absent when every declared name is present.
pub proof fn lemma_missing_empty(names: Seq<Seq<char>>, lookups: Seq<LookupView>)
    ensures
        missing(names, lookups).len() == 0 <==> (forall|i: int|
            0 <= i < names.len() ==> present(lookups, #[trigger] names[i])),
{
    lemma_with_presence(names, lookups, false);
    let absent = missing(names, lookups);
    if absent.len() == 0 {
        assert forall|i: int| 0 <= i < names.len() implies present(
            lookups,
            #[trigger] names[i],
        ) by {
            if !present(lookups, names[i]) {
                assert(names.contains(names[i]));
                assert(absent.contains(names[i]));
            }
        }
    } else {
        assert(absent.contains(absent[0]));
        let name = absent[0];
        assert(names.contains(name) && !present(lookups, name));
        let i = choose|i: int| 0 <= i < names.len() && names[i] == name;
        assert(!present(lookups, names[i]));
    }
}

/// What can stop a run.
#[derive(Debug, Clone, PartialEq, Eq)]
pub enum AppError {
    /// The user's directories could not be determined.
    NoUserDirs,
    /// The user's home directory could not be determined.
    NoHomeDir,
    /// The named program is not on the system.
    NoInstalledProg(String),
    /// Working with the named file or program failed; the second text says how.
    IoError(String, String),
    /// The destination of the named download cannot be written as a path.
    NoDestination(String),
}

/// The mathematical value of an [`AppError`].
pub enum AppErrorView {
    NoUserDirs,
    NoHomeDir,
    NoInstalledProg(Seq<char>),
    IoError(Seq<char>, Seq<char>),
    NoDestination(Seq<char>),
}

impl View for AppError {
    type V = AppErrorView;

    open spec fn view(&self) -> AppErrorView {
        match self {
            AppError::NoUserDirs => AppErrorView::NoUserDirs,
            AppError::NoHomeDir => AppErrorView::NoHomeDir,
            AppError::NoInstalledProg(prog) => AppErrorView::NoInstalledProg(prog@),
            AppError::IoError(file, cause) => AppErrorView::IoError(file@, cause@),
            AppError::NoDestination(name) => AppErrorView::NoDestination(name@),
        }
    }
}

impl DeepView for AppError {
    type V = AppErrorView;

    open spec fn deep_view(&self) -> AppErrorView {
        self@
    }
}

/// The sentence that describes `error`.
pub open spec fn error_text(error: AppErrorView) -> Seq<char> {
    match error {
        AppErrorView::NoUserDirs => "Unable to get user's dirs"@,
        AppErrorView::NoHomeDir => "Unable to get user's home dir"@,
        AppErrorView::NoInstalledProg(prog) => "Unable to find program "@ + prog,
        AppErrorView::IoError(file, cause) => "IoError with file "@ + file + " "@ + cause,
        AppErrorView::NoDestination(name) => "Unable to get path to destination of "@ + name,
    }
}

impl AppError {
    /// The sentence that describes this error.
    pub fn message(&self) -> (text: String)
        ensures
            text@ == error_text(self@),
    {
        match self {
            AppError::NoUserDirs => owned("Unable to get user's dirs"),
            AppError::NoHomeDir => owned("Unable to get user's home dir"),
            AppError::NoInstalledProg(prog) => owned("Unable to find program ").concat(
                prog.as_str(),
            ),
            AppError::IoError(file, cause) => owned("IoError with file ").concat(
                file.as_str(),
            ).concat(" ").concat(cause.as_str()),
            AppError::NoDestination(name) => owned(
                "Unable to get path to destination of ",
            ).concat(name.as_str()),
        }
    }

    /// A copy of this error.
    pub fn duplicate(&self) -> (copy: AppError)
        ensures
            copy@ == self@,
    {
        match self {
            AppError::NoUserDirs => AppError::NoUserDirs,
            AppError::NoHomeDir => AppError::NoHomeDir,
            AppError::NoInstalledProg(prog) => AppError::NoInstalledProg(prog.clone()),
            AppError::IoError(file, cause) => AppError::IoError(file.clone(), cause.clone()),
            AppError::NoDestination(name) => AppError::NoDestination(name.clone()),
        }
    }
}

/// The user's home directory, from what is known of the user's
/// directories: `None` when they could not be determined at all, and an
/// inner `None` when the home directory among them cannot be written as text.
pub fn home_dir(user_dirs: Option<Option<String>>) -> (home: Result<String, AppError>)
    ensures
        match user_dirs {
            None => home matches Err(error) && error@ == AppErrorView::NoUserDirs,
            Some(None) => home matches Err(error) && error@ == AppErrorView::NoHomeDir,
            Some(Some(dir)) => home matches Ok(found) && found@ == dir@,
        },
{
    match user_dirs {
        None => Err(AppError::NoUserDirs),
        Some(None) => Err(AppError::NoHomeDir),
        Some(Some(dir)) => Ok(dir),
    }
}

} // verus!
