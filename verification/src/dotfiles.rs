//! The declared dotfiles and the check that their links are in place.
//!
//! The check only reads: it goes by what the file system answered for the
//! paths concerned and never asks for a change.

use vstd::prelude::*;
use crate::common::{AppError, AppErrorView};
use crate::text::{join_path, joined_path, owned};

verus! {

/// A declared dotfile: its name, the file it comes from, and where below the
/// user's home directory a link to that file is expected.
#[derive(Debug, Clone, PartialEq, Eq)]
pub struct DotFile {
    pub name: String,
    pub src: String,
    pub dst: String,
}

/// The mathematical value of a [`DotFile`].
pub struct DotFileView {
    pub name: Seq<char>,
    pub src: Seq<char>,
    pub dst: Seq<char>,
}

impl View for DotFile {
    type V = DotFileView;

    open spec fn view(&self) -> DotFileView {
        DotFileView { name: self.name@, src: self.src@, dst: self.dst@ }
    }
}

impl DeepView for DotFile {
    type V = DotFileView;

    open spec fn deep_view(&self) -> DotFileView {
        self@
    }
}

/// The declared dotfiles, in order.
#[derive(Debug, Clone, PartialEq, Eq)]
pub struct DotFilesConfig {
    pub symlinks: Vec<DotFile>,
}

impl View for DotFilesConfig {
    type V = Seq<DotFileView>;

    open spec fn view(&self) -> Seq<DotFileView> {
        self.symlinks.deep_view()
    }
}

/// What the file system answered for one path: a description of the entry
/// found there, or why none could be read.
#[derive(Debug, PartialEq, Eq)]
pub struct Stat {
    pub path: String,
    pub metadata: Result<String, String>,
}

/// The mathematical value of a [`Stat`].
pub struct StatView {
    pub path: Seq<char>,
    pub metadata: Result<Seq<char>, Seq<char>>,
}

impl View for Stat {
    type V = StatView;

    open spec fn view(&self) -> StatView {
        StatView {
            path: self.path@,
            metadata: match self.metadata {
                Ok(found) => Ok(found@),
                Err(cause) => Err(cause@),
            },
        }
    }
}

impl DeepView for Stat {
    type V = StatView;

    open spec fn deep_view(&self) -> StatView {
        self@
    }
}

/// What a successful check reports for one dotfile: where its link is, and
/// the descriptions of the source and of the entry at the link's place.
#[derive(Debug, Clone, PartialEq, Eq)]
pub struct Inspection {
    pub destination: String,
    pub src_metadata: String,
    pub dst_metadata: String,
}

/// The mathematical value of an [`Inspection`].
pub struct InspectionView {
    pub destination: Seq<char>,
    pub src_metadata: Seq<char>,
    pub dst_metadata: Seq<char>,
}

impl View for Inspection {
    type V = InspectionView;

    open spec fn view(&self) -> InspectionView {
        InspectionView {
            destination: self.destination@,
            src_metadata: self.src_metadata@,
            dst_metadata: self.dst_metadata@,
        }
    }
}

/// The cause reported for a path that the file system was not asked about.
pub open spec fn not_examined() -> Seq<char> {
    "not examined"@
}

/// What the file system answered for `path` according to `stats`. The first
/// answer recorded for the path decides; a path without an answer counts as
/// unreadable.
pub open spec fn examine(stats: Seq<StatView>, path: Seq<char>) -> Result<Seq<char>, Seq<char>>
    decreases stats.len(),
{
    if stats.len() == 0 {
        Err(not_examined())
    } else if stats[0].path == path {
        stats[0].metadata
    } else {
        examine(stats.drop_first(), path)
    }
}

/// The check of one dotfile whose link is expected at `destination`. The
/// source is read first, then the entry at the link's place; the first one
/// that cannot be read fails the check, and so does a link's place that
/// cannot be written as a path.
pub open spec fn checked_at(
    dotfile: DotFileView,
    destination: Option<Seq<char>>,
    stats: Seq<StatView>,
) -> Result<InspectionView, AppErrorView> {
    match examine(stats, dotfile.src) {
        Err(cause) => Err(AppErrorView::IoError(dotfile.src, cause)),
        Ok(src_metadata) => match destination {
            None => Err(AppErrorView::NoDestination(dotfile.name)),
            Some(destination) => match examine(stats, destination) {
                Err(cause) => Err(AppErrorView::IoError(destination, cause)),
                Ok(dst_metadata) => Ok(
                    InspectionView { destination, src_metadata, dst_metadata },
                ),
            },
        },
    }
}

/// The check of one dotfile whose link is expected below `home`.
pub open spec fn checked(dotfile: DotFileView, home: Seq<char>, stats: Seq<StatView>) -> Result<
    InspectionView,
    AppErrorView,
> {
    checked_at(dotfile, joined_path(home, dotfile.dst), stats)
}

/// The mathematical value of the result of one check.
pub open spec fn check_view(result: Result<Inspection, AppError>) -> Result<
    InspectionView,
    AppErrorView,
> {
    match result {
        Ok(inspection) => Ok(inspection@),
        Err(error) => Err(error@),
    }
}

/// What the file system answered for `path`, going by `stats`.
pub fn stat_of(stats: &Vec<Stat>, path: &str) -> (metadata: Result<String, String>)
    ensures
        (match metadata {
            Ok(found) => Ok(found@),
            Err(cause) => Err(cause@),
        }) == examine(stats.deep_view(), path@),
{
    let wanted = owned(path);
    let ghost all = stats.deep_view();
    let mut i: usize = 0;
    assert(all.subrange(0, all.len() as int) =~= all);
    while i < stats.len()
        invariant
            i <= stats.len(),
            all == stats.deep_view(),
            wanted@ == path@,
            examine(all, path@) == examine(all.subrange(i as int, all.len() as int), path@),
        decreases stats.len() - i,
    {
        let ghost rest = all.subrange(i as int, all.len() as int);
        assert(rest[0] == stats[i as int]@);
        assert(rest.drop_first() =~= all.subrange(i + 1, all.len() as int));
        if stats[i].path == wanted {
            return match &stats[i].metadata {
                Ok(found) => Ok(found.clone()),
                Err(cause) => Err(cause.clone()),
            };
        }
        i += 1;
    }
    Err(owned("not examined"))
}

impl DotFile {
    /// Where the link of this dotfile is expected below `user_home`, or
    /// `None` when that place cannot be written as a path.
    pub fn destination(&self, user_home: &str) -> (path: Option<String>)
        ensures
            path.deep_view() == joined_path(user_home@, self@.dst),
    {
        join_path(user_home, self.dst.as_str())
    }

    /// Checks this dotfile against what the file system answered, with its
    /// link expected at `destination`: both its source and the entry at the
    /// link's place must have been read. Success reports the two
    /// descriptions; they are not compared with each other.
    pub fn check_at(&self, destination: Option<String>, stats: &Vec<Stat>) -> (result: Result<
        Inspection,
        AppError,
    >)
        ensures
            check_view(result) == checked_at(self@, destination.deep_view(), stats.deep_view()),
    {
        let src_metadata = match stat_of(stats, self.src.as_str()) {
            Ok(found) => found,
            Err(cause) => {
                return Err(AppError::IoError(self.src.clone(), cause));
            },
        };
        let destination = match destination {
            Some(path) => path,
            None => {
                return Err(AppError::NoDestination(self.name.clone()));
            },
        };
        match stat_of(stats, destination.as_str()) {
            Ok(dst_metadata) => Ok(Inspection { destination, src_metadata, dst_metadata }),
            Err(cause) => Err(AppError::IoError(destination, cause)),
        }
    }

    /// Checks this dotfile against what the file system answered, with its
    /// link expected below `user_home`.
    pub fn check(&self, user_home: &str, stats: &Vec<Stat>) -> (result: Result<
        Inspection,
        AppError,
    >)
        ensures
            check_view(result) == checked(self@, user_home@, stats.deep_view()),
    {
        self.check_at(self.destination(user_home), stats)
    }
}

/// The checks of `dotfiles`, one result per dotfile and in their order.
pub open spec fn all_checked(dotfiles: Seq<DotFileView>, home: Seq<char>, stats: Seq<StatView>) -> Seq<
    Result<InspectionView, AppErrorView>,
> {
    dotfiles.map_values(|dotfile: DotFileView| checked(dotfile, home, stats))
}

/// Checks every declared dotfile against what the file system answered.
/// Each dotfile gets its own result: a failure of one neither ends the check
/// nor touches the result of another.
pub fn check_all(user_home: &str, dotfiles: &DotFilesConfig, stats: &Vec<Stat>) -> (results: Vec<
    Result<Inspection, AppError>,
>)
    ensures
        results@.map_values(|result: Result<Inspection, AppError>| check_view(result))
            == all_checked(dotfiles@, user_home@, stats.deep_view()),
{
    let mut results: Vec<Result<Inspection, AppError>> = Vec::new();
    let mut i: usize = 0;
    while i < dotfiles.symlinks.len()
        invariant
            i <= dotfiles.symlinks.len(),
            results.len() == i,
            forall|k: int|
                0 <= k < i ==> check_view(#[trigger] results[k]) == checked(
                    dotfiles@[k],
                    user_home@,
                    stats.deep_view(),
                ),
        decreases dotfiles.symlinks.len() - i,
    {
        let result = dotfiles.symlinks[i].check(user_home, stats);
        results.push(result);
        i += 1;
    }
    assert(results@.map_values(|result: Result<Inspection, AppError>| check_view(result))
        =~= all_checked(dotfiles@, user_home@, stats.deep_view()));
    results
}

/// The result of checking one dotfile depends on that dotfile alone: it is
/// the same whatever else is declared before or after it.
pub proof fn lemma_check_isolation(
    dotfiles: Seq<DotFileView>,
    others: Seq<DotFileView>,
    home: Seq<char>,
    stats: Seq<StatView>,
    i: int,
    j: int,
)
    requires
        0 <= i < dotfiles.len(),
        0 <= j < others.len(),
        dotfiles[i] == others[j],
    ensures
        all_checked(dotfiles, home, stats).len() == dotfiles.len(),
        all_checked(dotfiles, home, stats)[i] == all_checked(others, home, stats)[j],
        all_checked(dotfiles, home, stats)[i] == checked(dotfiles[i], home, stats),
{
}

} // verus!
