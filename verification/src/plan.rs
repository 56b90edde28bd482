//! What the reconcilers plan, as mathematical values, and what holds of it.

use vstd::prelude::*;
use crate::command::{Invocation, InvocationView};
use crate::common::{installed, missing, present, LookupView};
use crate::packages::{normalize_ppa, resolved_destination, DownloadView};
use crate::sets::{distinct, lemma_distinct};

verus! {

/// What one reconciler decided: the names it leaves alone because they are
/// already on the system, and the commands to run, in order.
#[derive(Debug, Clone, PartialEq, Eq)]
pub struct Plan {
    pub skipped: Vec<String>,
    pub commands: Vec<Invocation>,
}

/// The mathematical value of a [`Plan`].
pub struct PlanView {
    pub skipped: Seq<Seq<char>>,
    pub commands: Seq<InvocationView>,
}

impl View for Plan {
    type V = PlanView;

    open spec fn view(&self) -> PlanView {
        PlanView { skipped: self.skipped.deep_view(), commands: self.commands.deep_view() }
    }
}

/// The canonical identifiers of the declared PPAs: each one once, where it
/// first occurs, however often and in whichever form it is declared.
pub open spec fn normalized_ppas(ppas: Seq<Seq<char>>) -> Seq<Seq<char>> {
    distinct(ppas.map_values(|ppa: Seq<char>| normalize_ppa(ppa)))
}

/// The elevated command that registers the repository with the canonical
/// identifier `id`.
pub open spec fn register(id: Seq<char>) -> InvocationView {
    InvocationView { argv: seq!["add-apt-repository"@, "-y"@, id], elevate: true }
}

/// The elevated command that refreshes the package index.
pub open spec fn refresh_index() -> InvocationView {
    InvocationView { argv: seq!["apt"@, "update"@, "-qq"@], elevate: true }
}

/// Registering the PPAs: one registration per canonical identifier, in
/// order, then one refresh of the package index, whatever the identifiers
/// are.
pub open spec fn ppa_plan(ppas: Seq<Seq<char>>) -> PlanView {
    PlanView {
        skipped: Seq::empty(),
        commands: normalized_ppas(ppas).map_values(|id: Seq<char>| register(id)).push(
            refresh_index(),
        ),
    }
}

/// Every canonical identifier of a declared PPA is registered exactly once,
/// and no other; identifiers that normalize alike share one registration.
/// However many PPAs are declared, the package index is refreshed exactly
/// once, after every registration.
pub proof fn lemma_index_refreshed_once(ppas: Seq<Seq<char>>)
    ensures
        normalized_ppas(ppas).no_duplicates(),
        forall|id: Seq<char>| #[trigger]
            normalized_ppas(ppas).contains(id) <==> exists|i: int|
                0 <= i < ppas.len() && normalize_ppa(#[trigger] ppas[i]) == id,
        ppa_plan(ppas).commands.len() == normalized_ppas(ppas).len() + 1,
        ppa_plan(ppas).commands.len() <= ppas.len() + 1,
        ppa_plan(ppas).commands.last() == refresh_index(),
        forall|i: int|
            0 <= i < normalized_ppas(ppas).len() ==> #[trigger] ppa_plan(ppas).commands[i]
                == register(normalized_ppas(ppas)[i]),
        forall|id: Seq<char>| #[trigger] register(id) != refresh_index(),
{
    let canonical = ppas.map_values(|ppa: Seq<char>| normalize_ppa(ppa));
    lemma_distinct(canonical);
    assert forall|id: Seq<char>| #[trigger]
        normalized_ppas(ppas).contains(id) <==> exists|i: int|
            0 <= i < ppas.len() && normalize_ppa(#[trigger] ppas[i]) == id by {
        if canonical.contains(id) {
            let i = choose|i: int| 0 <= i < canonical.len() && canonical[i] == id;
            assert(normalize_ppa(ppas[i]) == id);
        }
        if exists|i: int| 0 <= i < ppas.len() && normalize_ppa(#[trigger] ppas[i]) == id {
            let i = choose|i: int| 0 <= i < ppas.len() && normalize_ppa(#[trigger] ppas[i]) == id;
            assert(canonical[i] == id);
        }
    }
    assert forall|id: Seq<char>| #[trigger] register(id) != refresh_index() by {
        assert(register(id).argv[0] == "add-apt-repository"@);
        assert(refresh_index().argv[0] == "apt"@);
        reveal_strlit("add-apt-repository");
        reveal_strlit("apt");
    }
}

/// One command that installs all of `names` at once, or no command when
/// there is nothing to install.
pub open spec fn batched(head: Seq<Seq<char>>, names: Seq<Seq<char>>, elevate: bool) -> Seq<
    InvocationView,
> {
    if names.len() == 0 {
        Seq::empty()
    } else {
        seq![InvocationView { argv: head + names, elevate }]
    }
}

/// Installing the apt packages: the present ones are left alone, the absent
/// ones go into a single elevated install.
pub open spec fn apt_plan(apt: Seq<Seq<char>>, lookups: Seq<LookupView>) -> PlanView {
    PlanView {
        skipped: installed(apt, lookups),
        commands: batched(seq!["apt"@, "-qqy"@, "install"@], missing(apt, lookups), true),
    }
}

/// Installing the cargo packages: the present ones are left alone, the absent
/// ones go into a single unprivileged install.
pub open spec fn cargo_plan(cargo: Seq<Seq<char>>, lookups: Seq<LookupView>) -> PlanView {
    PlanView {
        skipped: installed(cargo, lookups),
        commands: batched(seq!["cargo"@, "-q"@, "install"@], missing(cargo, lookups), false),
    }
}

/// The file that the package `name` is downloaded to: `<name>.deb` in
/// `temp_dir`.
pub open spec fn deb_file(temp_dir: Seq<char>, name: Seq<char>) -> Seq<char> {
    temp_dir + "/"@ + name + ".deb"@
}

/// The unprivileged command that fetches `url` into `file`.
pub open spec fn fetch(url: Seq<char>, file: Seq<char>) -> InvocationView {
    InvocationView { argv: seq!["curl"@, "-L"@, "-o"@, file, url], elevate: false }
}

/// The elevated command that installs the package file `file`.
pub open spec fn install_file(file: Seq<char>) -> InvocationView {
    InvocationView { argv: seq!["apt"@, "install"@, "-y"@, file], elevate: true }
}

/// Whether the package `deb` is left alone: it is present and no update is
/// forced.
pub open spec fn deb_skipped(deb: DownloadView, lookups: Seq<LookupView>, force: bool) -> bool {
    present(lookups, deb.name) && !force
}

/// The commands for one downloaded package: none when it is left alone, else
/// one fetch into its file followed by one install of that file.
pub open spec fn deb_steps(
    temp_dir: Seq<char>,
    deb: DownloadView,
    lookups: Seq<LookupView>,
    force: bool,
) -> Seq<InvocationView> {
    if deb_skipped(deb, lookups, force) {
        Seq::empty()
    } else {
        seq![
            fetch(deb.url, deb_file(temp_dir, deb.name)),
            install_file(deb_file(temp_dir, deb.name)),
        ]
    }
}

/// Installing the downloaded packages: the commands of each package, one
/// package after the other.
pub open spec fn deb_plan(
    temp_dir: Seq<char>,
    debs: Seq<DownloadView>,
    lookups: Seq<LookupView>,
    force: bool,
) -> PlanView {
    PlanView {
        skipped: debs.filter(|deb: DownloadView| deb_skipped(deb, lookups, force)).map_values(
            |deb: DownloadView| deb.name,
        ),
        commands: debs.map_values(
            |deb: DownloadView| deb_steps(temp_dir, deb, lookups, force),
        ).flatten(),
    }
}

/// The plan for several downloaded packages is the plan for all but the last
/// followed by what the last one adds: its name among the skipped when it is
/// left alone, else its own commands behind all earlier ones.
pub proof fn lemma_deb_plan_extends(
    temp_dir: Seq<char>,
    debs: Seq<DownloadView>,
    deb: DownloadView,
    lookups: Seq<LookupView>,
    force: bool,
)
    ensures
        deb_plan(temp_dir, debs.push(deb), lookups, force).skipped == if deb_skipped(
            deb,
            lookups,
            force,
        ) {
            deb_plan(temp_dir, debs, lookups, force).skipped.push(deb.name)
        } else {
            deb_plan(temp_dir, debs, lookups, force).skipped
        },
        deb_plan(temp_dir, debs.push(deb), lookups, force).commands == deb_plan(
            temp_dir,
            debs,
            lookups,
            force,
        ).commands + deb_steps(temp_dir, deb, lookups, force),
{
    reveal(Seq::filter);
    let more = debs.push(deb);
    assert(more.drop_last() =~= debs);
    let skip = |deb: DownloadView| deb_skipped(deb, lookups, force);
    let name = |deb: DownloadView| deb.name;
    if deb_skipped(deb, lookups, force) {
        assert(more.filter(skip) == debs.filter(skip).push(deb));
        assert(more.filter(skip).map_values(name) =~= debs.filter(skip).map_values(name).push(
            deb.name,
        ));
    } else {
        assert(more.filter(skip) == debs.filter(skip));
    }
    let steps = |deb: DownloadView| deb_steps(temp_dir, deb, lookups, force);
    assert(more.map_values(steps) =~= debs.map_values(steps).push(steps(deb)));
    debs.map_values(steps).lemma_flatten_push(steps(deb));
}

/// When none of the declared apt packages is absent, nothing is run for
/// them; otherwise exactly one elevated install names every absent package
/// and no present one.
pub proof fn lemma_apt_short_circuit(apt: Seq<Seq<char>>, lookups: Seq<LookupView>)
    ensures
        missing(apt, lookups).len() == 0 ==> apt_plan(apt, lookups).commands.len() == 0,
        missing(apt, lookups).len() > 0 ==> apt_plan(apt, lookups).commands == seq![
            InvocationView {
                argv: seq!["apt"@, "-qqy"@, "install"@] + missing(apt, lookups),
                elevate: true,
            },
        ],
{
}

/// When none of the declared cargo packages is absent, nothing is run for
/// them; otherwise exactly one unprivileged install names every absent
/// package and no present one.
pub proof fn lemma_cargo_short_circuit(cargo: Seq<Seq<char>>, lookups: Seq<LookupView>)
    ensures
        missing(cargo, lookups).len() == 0 ==> cargo_plan(cargo, lookups).commands.len() == 0,
        missing(cargo, lookups).len() > 0 ==> cargo_plan(cargo, lookups).commands == seq![
            InvocationView {
                argv: seq!["cargo"@, "-q"@, "install"@] + missing(cargo, lookups),
                elevate: false,
            },
        ],
{
}

/// For a downloaded package that is present on the system, nothing is
/// fetched or installed without a forced update, and with one there is
/// exactly one fetch followed by exactly one install of the fetched file.
pub proof fn lemma_deb_force_update(
    temp_dir: Seq<char>,
    deb: DownloadView,
    lookups: Seq<LookupView>,
)
    requires
        present(lookups, deb.name),
    ensures
        deb_steps(temp_dir, deb, lookups, false).len() == 0,
        deb_steps(temp_dir, deb, lookups, true) == seq![
            fetch(deb.url, deb_file(temp_dir, deb.name)),
            install_file(deb_file(temp_dir, deb.name)),
        ],
        deb_plan(temp_dir, seq![deb], lookups, false).commands.len() == 0,
        deb_plan(temp_dir, seq![deb], lookups, false).skipped == seq![deb.name],
        deb_plan(temp_dir, seq![deb], lookups, true).commands == deb_steps(
            temp_dir,
            deb,
            lookups,
            true,
        ),
        deb_plan(temp_dir, seq![deb], lookups, true).skipped.len() == 0,
{
    let none = Seq::<DownloadView>::empty();
    assert(none.push(deb) =~= seq![deb]);
    reveal(Seq::filter);
    lemma_deb_plan_extends(temp_dir, none, deb, lookups, false);
    lemma_deb_plan_extends(temp_dir, none, deb, lookups, true);
    assert(deb_plan(temp_dir, none, lookups, false).commands =~= Seq::<
        InvocationView,
    >::empty());
    assert(deb_plan(temp_dir, none, lookups, true).commands =~= Seq::<InvocationView>::empty());
    assert(deb_plan(temp_dir, none, lookups, false).skipped =~= Seq::<Seq<char>>::empty());
    assert(deb_plan(temp_dir, none, lookups, true).skipped =~= Seq::<Seq<char>>::empty());
    assert(deb_plan(temp_dir, seq![deb], lookups, false).skipped =~= seq![deb.name]);
    assert(deb_plan(temp_dir, seq![deb], lookups, true).commands =~= deb_steps(
        temp_dir,
        deb,
        lookups,
        true,
    ));
}

/// Whether every download of `curl` has a destination below `home`.
pub open spec fn all_resolved(home: Seq<char>, curl: Seq<DownloadView>) -> bool {
    forall|i: int| 0 <= i < curl.len() ==> resolved_destination(home, #[trigger] curl[i].dst) is Some
}

/// The fetch of the download `item` into its destination below `home`.
pub open spec fn direct_fetch(home: Seq<char>, item: DownloadView) -> InvocationView {
    fetch(item.url, resolved_destination(home, item.dst).unwrap())
}

/// Whether `index` is the first download of `curl` without a destination
/// below `home`.
pub open spec fn first_unresolved(home: Seq<char>, curl: Seq<DownloadView>, index: int) -> bool {
    &&& 0 <= index < curl.len()
    &&& resolved_destination(home, curl[index].dst) is None
    &&& forall|j: int| 0 <= j < index ==> resolved_destination(home, #[trigger] curl[j].dst) is Some
}

/// Fetching every download of `curl` into its destination below `home`, in
/// order. Nothing is left alone: direct downloads are always fetched again.
pub open spec fn curl_plan(home: Seq<char>, curl: Seq<DownloadView>) -> PlanView {
    PlanView {
        skipped: Seq::empty(),
        commands: curl.map_values(|item: DownloadView| direct_fetch(home, item)),
    }
}

} // verus!
