//! The declared packages and the reconcilers that plan their installation.

use vstd::prelude::*;
use crate::command::{Invocation, InvocationView};
use crate::common::{
    find_installed, find_not_installed, is_installed, missing, AppError, AppErrorView, Lookup,
};
use crate::plan::{
    all_resolved, apt_plan, batched, cargo_plan, curl_plan, deb_file, deb_plan, direct_fetch,
    fetch, first_unresolved, install_file, lemma_deb_plan_extends, normalized_ppas, ppa_plan,
    refresh_index, register, Plan,
};
use crate::runner::{carry_out, Action};
use crate::sets::{distinct, distinct_strings, lemma_distinct};
use crate::text::{join_path, joined_path, owned, starts_with};

verus! {

/// The prefix that marks a repository identifier as a PPA.
pub open spec fn ppa_prefix() -> Seq<char> {
    "ppa:"@
}

/// The canonical form of a PPA identifier: the identifier itself when it
/// already carries the prefix, else the prefix followed by the identifier.
pub open spec fn normalize_ppa(ppa: Seq<char>) -> Seq<char> {
    if ppa_prefix().is_prefix_of(ppa) {
        ppa
    } else {
        ppa_prefix() + ppa
    }
}

/// Brings a PPA identifier into its canonical, prefixed form.
pub fn normalize_ppa_str(ppa: &String) -> (ppa_str: String)
    ensures
        ppa_str@ == normalize_ppa(ppa@),
{
    if starts_with(ppa.as_str(), "ppa:") {
        ppa.clone()
    } else {
        owned("ppa:").concat(ppa.as_str())
    }
}

/// Normalizing a PPA identifier gives a prefixed identifier, and normalizing
/// it once more changes nothing.
pub proof fn lemma_normalize_ppa_idempotent(ppa: Seq<char>)
    ensures
        ppa_prefix().is_prefix_of(normalize_ppa(ppa)),
        normalize_ppa(normalize_ppa(ppa)) == normalize_ppa(ppa),
{
    if !ppa_prefix().is_prefix_of(ppa) {
        assert((ppa_prefix() + ppa).subrange(0, ppa_prefix().len() as int) =~= ppa_prefix());
    }
}

/// A prefixed identifier is its own canonical form, so an identifier without
/// the prefix and the same identifier behind the prefix normalize alike.
pub proof fn lemma_normalize_ppa_prefixed(ppa: Seq<char>)
    ensures
        normalize_ppa(ppa_prefix() + ppa) == ppa_prefix() + ppa,
        !ppa_prefix().is_prefix_of(ppa) ==> normalize_ppa(ppa) == normalize_ppa(
            ppa_prefix() + ppa,
        ),
{
    assert((ppa_prefix() + ppa).subrange(0, ppa_prefix().len() as int) =~= ppa_prefix());
}

/// Something to download: the name it is known by, where it comes from and
/// where it goes, relative to a base directory. An empty `dst` stands for the
/// default destination.
#[derive(Debug, Clone, PartialEq, Eq)]
pub struct Download {
    pub name: String,
    pub url: String,
    pub dst: String,
}

/// The mathematical value of a [`Download`].
pub struct DownloadView {
    pub name: Seq<char>,
    pub url: Seq<char>,
    pub dst: Seq<char>,
}

impl View for Download {
    type V = DownloadView;

    open spec fn view(&self) -> DownloadView {
        DownloadView { name: self.name@, url: self.url@, dst: self.dst@ }
    }
}

impl DeepView for Download {
    type V = DownloadView;

    open spec fn deep_view(&self) -> DownloadView {
        self@
    }
}

/// The subdirectory that downloads without a destination go to.
pub open spec fn default_destination() -> Seq<char> {
    "temp_install"@
}

/// The destination of a download relative to the base directory: the declared
/// one, or the default when none is declared.
pub open spec fn effective_destination(dst: Seq<char>) -> Seq<char> {
    if dst.len() == 0 {
        default_destination()
    } else {
        dst
    }
}

/// Where a download goes below `base`: its effective destination joined onto
/// `base`.
pub open spec fn resolved_destination(base: Seq<char>, dst: Seq<char>) -> Option<Seq<char>> {
    joined_path(base, effective_destination(dst))
}

impl Download {
    /// The subdirectory that downloads without a destination go to.
    pub fn default_destination() -> (dst: String)
        ensures
            dst@ == default_destination(),
    {
        owned("temp_install")
    }

    /// This download's destination relative to the base directory: the
    /// declared one, or the default when none is declared. It is never empty.
    pub fn destination(&self) -> (dst: String)
        ensures
            dst@ == effective_destination(self@.dst),
            dst@.len() > 0,
    {
        proof {
            reveal_strlit("temp_install");
        }
        if self.dst.as_str().unicode_len() == 0 {
            Download::default_destination()
        } else {
            self.dst.clone()
        }
    }

    /// Where this download goes below `base`, or `None` when the joined path
    /// cannot be written as text.
    pub fn resolve(&self, base: &str) -> (path: Option<String>)
        ensures
            path.deep_view() == resolved_destination(base@, self@.dst),
    {
        let dst = self.destination();
        join_path(base, dst.as_str())
    }

    /// Whether `other` declares the same download.
    pub fn same_as(&self, other: &Download) -> (same: bool)
        ensures
            same == (self@ == other@),
    {
        self.name == other.name && self.url == other.url && self.dst == other.dst
    }

    /// A copy of this download.
    pub fn duplicate(&self) -> (copy: Download)
        ensures
            copy@ == self@,
    {
        Download { name: self.name.clone(), url: self.url.clone(), dst: self.dst.clone() }
    }
}

/// A download without a declared destination goes to the default
/// subdirectory below the base directory, and one with a declared
/// destination goes to exactly that destination below the base directory.
pub proof fn lemma_destination_defaulting(base: Seq<char>, dst: Seq<char>)
    ensures
        dst.len() == 0 ==> resolved_destination(base, dst) == joined_path(
            base,
            default_destination(),
        ),
        dst.len() > 0 ==> resolved_destination(base, dst) == joined_path(base, dst),
{
}

/// Whether one of `items` declares the same download as `wanted`.
fn contains_download(items: &Vec<Download>, wanted: &Download) -> (found: bool)
    ensures
        found == items.deep_view().contains(wanted@),
{
    let mut i: usize = 0;
    while i < items.len()
        invariant
            i <= items.len(),
            forall|k: int| 0 <= k < i ==> items.deep_view()[k] != wanted@,
        decreases items.len() - i,
    {
        if items[i].same_as(wanted) {
            assert(items.deep_view()[i as int] == wanted@);
            return true;
        }
        i += 1;
    }
    false
}

/// The downloads of `items` without repetitions, each where it first occurs.
pub fn distinct_downloads(items: &Vec<Download>) -> (kept: Vec<Download>)
    ensures
        kept.deep_view() == distinct(items.deep_view()),
{
    let ghost all = items.deep_view();
    let mut kept: Vec<Download> = Vec::new();
    let mut i: usize = 0;
    assert(kept.deep_view() =~= distinct(all.take(0)));
    while i < items.len()
        invariant
            i <= items.len(),
            all == items.deep_view(),
            kept.deep_view() == distinct(all.take(i as int)),
        decreases items.len() - i,
    {
        let ghost before = kept.deep_view();
        let seen = contains_download(&kept, &items[i]);
        if !seen {
            kept.push(items[i].duplicate());
        }
        proof {
            let upto = all.take(i + 1);
            assert(upto.drop_last() =~= all.take(i as int));
            assert(upto.last() == items[i as int]@);
            if !seen {
                assert(kept.deep_view() =~= before.push(items[i as int]@));
            } else {
                assert(kept.deep_view() =~= before);
            }
        }
        i += 1;
    }
    assert(all.take(items.len() as int) =~= all);
    kept
}

/// Three arguments as owned strings.
fn three_args(first: &str, second: &str, third: &str) -> (args: Vec<String>)
    ensures
        args.deep_view() == seq![first@, second@, third@],
        args.len() == 3,
        args[0]@ == first@,
        args[1]@ == second@,
        args[2]@ == third@,
{
    let mut args: Vec<String> = Vec::new();
    args.push(owned(first));
    args.push(owned(second));
    args.push(owned(third));
    assert(args.deep_view() =~= seq![first@, second@, third@]);
    args
}

/// One command that runs `head` on all of `names`, or no command when `names`
/// is empty.
fn batch(head: Vec<String>, names: &Vec<String>, elevate: bool) -> (commands: Vec<Invocation>)
    ensures
        commands.deep_view() == batched(head.deep_view(), names.deep_view(), elevate),
{
    let mut commands: Vec<Invocation> = Vec::new();
    if names.len() == 0 {
        assert(commands.deep_view() =~= Seq::<InvocationView>::empty());
        return commands;
    }
    let ghost first = head.deep_view();
    let mut argv = head;
    let mut i: usize = 0;
    while i < names.len()
        invariant
            i <= names.len(),
            argv.len() == first.len() + i,
            forall|k: int| 0 <= k < first.len() ==> argv[k]@ == first[k],
            forall|k: int| 0 <= k < i ==> argv[first.len() + k]@ == names[k]@,
        decreases names.len() - i,
    {
        argv.push(names[i].clone());
        i += 1;
    }
    proof {
        let want = first + names.deep_view();
        assert forall|k: int| 0 <= k < argv.len() implies argv.deep_view()[k] == want[k] by {
            if k >= first.len() {
                assert(argv[first.len() + (k - first.len())]@ == names[k - first.len()]@);
            }
        }
        assert(argv.deep_view() =~= want);
    }
    let command = Invocation { argv, elevate };
    commands.push(command);
    assert(commands.deep_view() =~= seq![command@]);
    commands
}

/// The unprivileged command that fetches `url` into `file`.
fn fetch_command(url: &str, file: &str) -> (inv: Invocation)
    ensures
        inv@ == fetch(url@, file@),
{
    let mut argv = three_args("curl", "-L", "-o");
    argv.push(owned(file));
    argv.push(owned(url));
    assert(argv.deep_view() =~= seq!["curl"@, "-L"@, "-o"@, file@, url@]);
    Invocation::cmd(argv)
}

/// The elevated command that installs the package file `file`.
fn install_file_command(file: &str) -> (inv: Invocation)
    ensures
        inv@ == install_file(file@),
{
    let mut argv = three_args("apt", "install", "-y");
    argv.push(owned(file));
    assert(argv.deep_view() =~= seq!["apt"@, "install"@, "-y"@, file@]);
    Invocation::sudo(argv)
}

/// The elevated command that registers the repository with the canonical
/// identifier `id`.
fn register_command(id: &String) -> (inv: Invocation)
    ensures
        inv@ == register(id@),
{
    let mut argv: Vec<String> = Vec::new();
    argv.push(owned("add-apt-repository"));
    argv.push(owned("-y"));
    argv.push(id.clone());
    assert(argv.deep_view() =~= seq!["add-apt-repository"@, "-y"@, id@]);
    Invocation::sudo(argv)
}

impl Download {
    /// The fetch of this download into `path`, the destination it resolved
    /// to; without a destination there is no command but an error that names
    /// the download.
    pub fn fetch_to(&self, path: Option<String>) -> (fetched: Result<Invocation, AppError>)
        ensures
            match path {
                Some(file) => fetched matches Ok(inv) && inv@ == fetch(self@.url, file@),
                None => fetched matches Err(error) && error@ == AppErrorView::NoDestination(
                    self@.name,
                ),
            },
    {
        match path {
            Some(file) => Ok(fetch_command(self.url.as_str(), file.as_str())),
            None => Err(AppError::NoDestination(self.name.clone())),
        }
    }
}

/// One download in a line of text: its name, its source and its declared
/// destination.
pub open spec fn described(item: DownloadView) -> Seq<char> {
    item.name + " "@ + item.url + " "@ + item.dst
}

/// The lines that sum up what `config` declares: the PPAs, the apt packages,
/// the cargo packages, the downloaded packages and the direct downloads, each
/// kind in declaration order and each line behind the label of its kind.
pub open spec fn summary_lines(config: PackagesConfigView) -> Seq<Seq<char>> {
    config.ppas.map_values(|ppa: Seq<char>| "ppa: "@ + ppa) + config.apt.map_values(
        |apt: Seq<char>| "apt: "@ + apt,
    ) + config.cargo.map_values(|cargo: Seq<char>| "cargo: "@ + cargo) + config.debs.map_values(
        |deb: DownloadView| "manual deb: "@ + described(deb),
    ) + config.curl.map_values(|item: DownloadView| "manual curl: "@ + described(item))
}

/// Appends one line per item to `lines`: the item behind `label`.
fn push_labelled(lines: &mut Vec<String>, label: &str, items: &Vec<String>)
    ensures
        final(lines).deep_view() == old(lines).deep_view() + items.deep_view().map_values(
            |item: Seq<char>| label@ + item,
        ),
{
    let ghost before = lines.deep_view();
    let ghost texts = items.deep_view();
    let ghost line = |item: Seq<char>| label@ + item;
    let mut i: usize = 0;
    assert(lines.deep_view() =~= before + texts.take(0).map_values(line));
    while i < items.len()
        invariant
            i <= items.len(),
            texts == items.deep_view(),
            line == (|item: Seq<char>| label@ + item),
            lines.deep_view() == before + texts.take(i as int).map_values(line),
        decreases items.len() - i,
    {
        let ghost so_far = lines.deep_view();
        let text = owned(label).concat(items[i].as_str());
        lines.push(text);
        proof {
            assert(lines.deep_view() =~= so_far.push(label@ + items[i as int]@));
            assert(texts.take(i + 1).map_values(line) =~= texts.take(i as int).map_values(
                line,
            ).push(line(texts[i as int])));
            assert(lines.deep_view() =~= before + texts.take(i + 1).map_values(line));
        }
        i += 1;
    }
    assert(texts.take(items.len() as int) =~= texts);
}

/// Each of `items` in a line of text.
fn describe_all(items: &Vec<Download>) -> (texts: Vec<String>)
    ensures
        texts.deep_view() == items.deep_view().map_values(|item: DownloadView| described(item)),
{
    let mut texts: Vec<String> = Vec::new();
    let mut i: usize = 0;
    while i < items.len()
        invariant
            i <= items.len(),
            texts.len() == i,
            forall|k: int| 0 <= k < i ==> texts[k]@ == described(items[k]@),
        decreases items.len() - i,
    {
        let item = &items[i];
        let text = item.name.clone().concat(" ").concat(item.url.as_str()).concat(" ").concat(
            item.dst.as_str(),
        );
        texts.push(text);
        i += 1;
    }
    assert(texts.deep_view() =~= items.deep_view().map_values(
        |item: DownloadView| described(item),
    ));
    texts
}

/// The declared packages of one machine.
///
/// The five collections are sets: no value occurs twice in any of them. They
/// keep the order in which their values were first declared.
#[derive(Debug, PartialEq, Eq)]
pub struct PackagesConfig {
    dry_run: bool,
    temp_dir: String,
    apt: Vec<String>,
    ppas: Vec<String>,
    debs: Vec<Download>,
    cargo: Vec<String>,
    curl: Vec<Download>,
}

/// The mathematical value of a [`PackagesConfig`].
pub struct PackagesConfigView {
    pub dry_run: bool,
    pub temp_dir: Seq<char>,
    pub apt: Seq<Seq<char>>,
    pub ppas: Seq<Seq<char>>,
    pub debs: Seq<DownloadView>,
    pub cargo: Seq<Seq<char>>,
    pub curl: Seq<DownloadView>,
}

impl PackagesConfigView {
    /// Whether the five collections are sets.
    pub open spec fn deduplicated(self) -> bool {
        &&& self.apt.no_duplicates()
        &&& self.ppas.no_duplicates()
        &&& self.debs.no_duplicates()
        &&& self.cargo.no_duplicates()
        &&& self.curl.no_duplicates()
    }
}

impl View for PackagesConfig {
    type V = PackagesConfigView;

    closed spec fn view(&self) -> PackagesConfigView {
        PackagesConfigView {
            dry_run: self.dry_run,
            temp_dir: self.temp_dir@,
            apt: self.apt.deep_view(),
            ppas: self.ppas.deep_view(),
            debs: self.debs.deep_view(),
            cargo: self.cargo.deep_view(),
            curl: self.curl.deep_view(),
        }
    }
}

impl PackagesConfig {
    #[verifier::type_invariant]
    spec fn well_formed(&self) -> bool {
        self@.deduplicated()
    }

    /// A configuration that declares the given packages, each collection
    /// reduced to a set.
    pub fn new(
        temp_dir: String,
        dry_run: bool,
        apt: Vec<String>,
        ppas: Vec<String>,
        debs: Vec<Download>,
        cargo: Vec<String>,
        curl: Vec<Download>,
    ) -> (config: PackagesConfig)
        ensures
            config@ == (PackagesConfigView {
                dry_run,
                temp_dir: temp_dir@,
                apt: distinct(apt.deep_view()),
                ppas: distinct(ppas.deep_view()),
                debs: distinct(debs.deep_view()),
                cargo: distinct(cargo.deep_view()),
                curl: distinct(curl.deep_view()),
            }),
            config@.deduplicated(),
    {
        proof {
            lemma_distinct(apt.deep_view());
            lemma_distinct(ppas.deep_view());
            lemma_distinct(debs.deep_view());
            lemma_distinct(cargo.deep_view());
            lemma_distinct(curl.deep_view());
        }
        PackagesConfig {
            dry_run,
            temp_dir,
            apt: distinct_strings(&apt),
            ppas: distinct_strings(&ppas),
            debs: distinct_downloads(&debs),
            cargo: distinct_strings(&cargo),
            curl: distinct_downloads(&curl),
        }
    }

    /// Whether commands are only recorded instead of run.
    pub fn dry_run(&self) -> (dry_run: bool)
        ensures
            dry_run == self@.dry_run,
    {
        self.dry_run
    }

    /// Switches recording instead of running on or off.
    pub fn set_dry_run(&mut self, dry_run: bool)
        ensures
            final(self)@ == (PackagesConfigView { dry_run, ..old(self)@ }),
    {
        proof {
            use_type_invariant(&*self);
        }
        self.dry_run = dry_run;
    }

    /// Decides how `command` is carried out: in a dry run it is only recorded
    /// as the command that would have run, otherwise it is started.
    pub fn exec_or_log_command(&self, command: Invocation) -> (action: Action)
        ensures
            action@ == carry_out(self@.dry_run, command@),
            self@.dry_run ==> !(action is Spawn),
    {
        if self.dry_run {
            Action::Log(command)
        } else {
            Action::Spawn(command)
        }
    }

    /// The lines that sum up what is declared, for a reader.
    pub fn summary(&self) -> (lines: Vec<String>)
        ensures
            lines.deep_view() == summary_lines(self@),
    {
        let mut lines: Vec<String> = Vec::new();
        assert(lines.deep_view() =~= Seq::<Seq<char>>::empty());
        push_labelled(&mut lines, "ppa: ", &self.ppas);
        push_labelled(&mut lines, "apt: ", &self.apt);
        push_labelled(&mut lines, "cargo: ", &self.cargo);
        let debs = describe_all(&self.debs);
        push_labelled(&mut lines, "manual deb: ", &debs);
        let curl = describe_all(&self.curl);
        push_labelled(&mut lines, "manual curl: ", &curl);
        assert(lines.deep_view() =~= summary_lines(self@));
        lines
    }

    /// The scratch directory for downloaded package files.
    pub fn temp_dir(&self) -> (temp_dir: &String)
        ensures
            temp_dir@ == self@.temp_dir,
    {
        &self.temp_dir
    }

    /// The declared apt packages: a set, in declaration order.
    pub fn apt(&self) -> (apt: &Vec<String>)
        ensures
            apt.deep_view() == self@.apt,
            self@.deduplicated(),
    {
        proof {
            use_type_invariant(self);
        }
        &self.apt
    }

    /// The declared PPA identifiers: a set, in declaration order.
    pub fn ppas(&self) -> (ppas: &Vec<String>)
        ensures
            ppas.deep_view() == self@.ppas,
            self@.deduplicated(),
    {
        proof {
            use_type_invariant(self);
        }
        &self.ppas
    }

    /// The declared downloaded packages: a set, in declaration order.
    pub fn debs(&self) -> (debs: &Vec<Download>)
        ensures
            debs.deep_view() == self@.debs,
            self@.deduplicated(),
    {
        proof {
            use_type_invariant(self);
        }
        &self.debs
    }

    /// The declared cargo packages: a set, in declaration order.
    pub fn cargo(&self) -> (cargo: &Vec<String>)
        ensures
            cargo.deep_view() == self@.cargo,
            self@.deduplicated(),
    {
        proof {
            use_type_invariant(self);
        }
        &self.cargo
    }

    /// The declared direct downloads: a set, in declaration order.
    pub fn curl(&self) -> (curl: &Vec<Download>)
        ensures
            curl.deep_view() == self@.curl,
            self@.deduplicated(),
    {
        proof {
            use_type_invariant(self);
        }
        &self.curl
    }

    /// The names under which the downloaded packages are looked up.
    pub fn deb_names(&self) -> (names: Vec<String>)
        ensures
            names.deep_view() == self@.debs.map_values(|deb: DownloadView| deb.name),
    {
        let mut names: Vec<String> = Vec::new();
        let mut i: usize = 0;
        while i < self.debs.len()
            invariant
                i <= self.debs.len(),
                names.len() == i,
                forall|k: int| 0 <= k < i ==> names[k]@ == self.debs[k]@.name,
            decreases self.debs.len() - i,
        {
            names.push(self.debs[i].name.clone());
            i += 1;
        }
        assert(names.deep_view() =~= self@.debs.map_values(|deb: DownloadView| deb.name));
        names
    }

    /// The canonical identifiers of the declared PPAs, each one once.
    fn canonical_ppas(&self) -> (ids: Vec<String>)
        ensures
            ids.deep_view() == normalized_ppas(self@.ppas),
    {
        let mut canonical: Vec<String> = Vec::new();
        let mut i: usize = 0;
        while i < self.ppas.len()
            invariant
                i <= self.ppas.len(),
                canonical.len() == i,
                forall|k: int| 0 <= k < i ==> canonical[k]@ == normalize_ppa(self.ppas[k]@),
            decreases self.ppas.len() - i,
        {
            canonical.push(normalize_ppa_str(&self.ppas[i]));
            i += 1;
        }
        assert(canonical.deep_view() =~= self@.ppas.map_values(
            |ppa: Seq<char>| normalize_ppa(ppa),
        ));
        distinct_strings(&canonical)
    }

    /// Plans the registration of the declared PPAs: one elevated registration
    /// per canonical identifier, so that identifiers which normalize alike
    /// are registered once, then exactly one elevated refresh of the package
    /// index.
    pub fn install_ppas(&self) -> (plan: Plan)
        ensures
            plan@ == ppa_plan(self@.ppas),
            plan@.commands.len() == normalized_ppas(self@.ppas).len() + 1,
            plan@.commands.last() == refresh_index(),
    {
        let canonical = self.canonical_ppas();
        let ghost ids = canonical.deep_view();
        let ghost registered = |id: Seq<char>| register(id);
        let mut commands: Vec<Invocation> = Vec::new();
        let mut i: usize = 0;
        assert(commands.deep_view() =~= ids.take(0).map_values(registered));
        while i < canonical.len()
            invariant
                i <= canonical.len(),
                ids == canonical.deep_view(),
                registered == (|id: Seq<char>| register(id)),
                commands.deep_view() == ids.take(i as int).map_values(registered),
            decreases canonical.len() - i,
        {
            let ghost before = commands.deep_view();
            let command = register_command(&canonical[i]);
            commands.push(command);
            proof {
                assert(commands.deep_view() =~= before.push(command@));
                assert(ids.take(i + 1).map_values(registered) =~= ids.take(
                    i as int,
                ).map_values(registered).push(registered(ids[i as int])));
            }
            i += 1;
        }
        assert(ids.take(canonical.len() as int) =~= ids);
        let ghost before = commands.deep_view();
        let refresh = Invocation::sudo(three_args("apt", "update", "-qq"));
        commands.push(refresh);
        assert(commands.deep_view() =~= before.push(refresh@));
        let skipped: Vec<String> = Vec::new();
        assert(skipped.deep_view() =~= Seq::<Seq<char>>::empty());
        Plan { skipped, commands }
    }

    /// Plans the installation of the declared apt packages, given what the
    /// lookup tool answered for them: the present ones are left alone, the
    /// absent ones go into one elevated install, and nothing is run when
    /// none is absent.
    pub fn install_apt_packages(&self, lookups: &Vec<Lookup>) -> (plan: Plan)
        ensures
            plan@ == apt_plan(self@.apt, lookups.deep_view()),
            missing(self@.apt, lookups.deep_view()).len() == 0 ==> plan@.commands.len() == 0,
            missing(self@.apt, lookups.deep_view()).len() > 0 ==> plan@.commands.len() == 1,
    {
        let skipped = find_installed(&self.apt, lookups);
        let not_installed = find_not_installed(&self.apt, lookups);
        let commands = batch(three_args("apt", "-qqy", "install"), &not_installed, true);
        Plan { skipped, commands }
    }

    /// Plans the installation of the declared cargo packages, given what the
    /// lookup tool answered for them: the present ones are left alone, the
    /// absent ones go into one unprivileged install, and nothing is run when
    /// none is absent.
    pub fn install_cargo_packages(&self, lookups: &Vec<Lookup>) -> (plan: Plan)
        ensures
            plan@ == cargo_plan(self@.cargo, lookups.deep_view()),
            missing(self@.cargo, lookups.deep_view()).len() == 0 ==> plan@.commands.len() == 0,
            missing(self@.cargo, lookups.deep_view()).len() > 0 ==> plan@.commands.len() == 1,
    {
        let skipped = find_installed(&self.cargo, lookups);
        let not_installed = find_not_installed(&self.cargo, lookups);
        let commands = batch(three_args("cargo", "-q", "install"), &not_installed, false);
        Plan { skipped, commands }
    }

    /// The file that the package `name` is downloaded to.
    fn deb_file_name(&self, name: &String) -> (file: String)
        ensures
            file@ == deb_file(self@.temp_dir, name@),
    {
        self.temp_dir.clone().concat("/").concat(name.as_str()).concat(".deb")
    }

    /// Plans the installation of the declared downloaded packages, given
    /// what the lookup tool answered for their names. A package that is
    /// present is left alone unless `force_update` is set; every other one is
    /// fetched into the scratch directory and then installed from there.
    pub fn install_downloaded_debs(&self, force_update: bool, lookups: &Vec<Lookup>) -> (plan:
        Plan)
        ensures
            plan@ == deb_plan(self@.temp_dir, self@.debs, lookups.deep_view(), force_update),
    {
        let ghost debs = self.debs.deep_view();
        let ghost facts = lookups.deep_view();
        let ghost temp_dir = self.temp_dir@;
        let mut skipped: Vec<String> = Vec::new();
        let mut commands: Vec<Invocation> = Vec::new();
        let mut i: usize = 0;
        proof {
            reveal(Seq::filter);
            let none = debs.take(0);
            assert(none =~= Seq::<DownloadView>::empty());
            assert(skipped.deep_view() =~= deb_plan(temp_dir, none, facts, force_update).skipped);
            assert(commands.deep_view() =~= deb_plan(
                temp_dir,
                none,
                facts,
                force_update,
            ).commands);
        }
        while i < self.debs.len()
            invariant
                i <= self.debs.len(),
                debs == self.debs.deep_view(),
                facts == lookups.deep_view(),
                temp_dir == self@.temp_dir,
                skipped.deep_view() == deb_plan(
                    temp_dir,
                    debs.take(i as int),
                    facts,
                    force_update,
                ).skipped,
                commands.deep_view() == deb_plan(
                    temp_dir,
                    debs.take(i as int),
                    facts,
                    force_update,
                ).commands,
            decreases self.debs.len() - i,
        {
            let ghost skipped_before = skipped.deep_view();
            let ghost commands_before = commands.deep_view();
            let deb = &self.debs[i];
            proof {
                lemma_deb_plan_extends(temp_dir, debs.take(i as int), deb@, facts, force_update);
                assert(debs.take(i as int).push(deb@) =~= debs.take(i + 1));
            }
            if is_installed(deb.name.as_str(), lookups) && !force_update {
                skipped.push(deb.name.clone());
                assert(skipped.deep_view() =~= skipped_before.push(deb@.name));
                assert(commands.deep_view() =~= commands_before + Seq::<
                    InvocationView,
                >::empty());
            } else {
                let file = self.deb_file_name(&deb.name);
                let curl = fetch_command(deb.url.as_str(), file.as_str());
                let apt_install = install_file_command(file.as_str());
                commands.push(curl);
                commands.push(apt_install);
                assert(commands.deep_view() =~= commands_before + seq![curl@, apt_install@]);
            }
            i += 1;
        }
        assert(debs.take(self.debs.len() as int) =~= debs);
        Plan { skipped, commands }
    }

    /// Plans the direct downloads: every declared download is fetched into
    /// its destination below `user_home_dir`, in order, whether or not it is
    /// there already. The plan fails, naming the first download concerned,
    /// exactly when some download has no destination below `user_home_dir`.
    pub fn install_direct_curls(&self, user_home_dir: &str) -> (planned: Result<Plan, AppError>)
        ensures
            match planned {
                Ok(plan) => all_resolved(user_home_dir@, self@.curl) && plan@ == curl_plan(
                    user_home_dir@,
                    self@.curl,
                ),
                Err(error) => exists|index: int| #[trigger]
                    first_unresolved(user_home_dir@, self@.curl, index) && error@
                        == AppErrorView::NoDestination(self@.curl[index].name),
            },
    {
        let ghost curl = self.curl.deep_view();
        let ghost home = user_home_dir@;
        let ghost direct = |item: DownloadView| direct_fetch(home, item);
        let mut commands: Vec<Invocation> = Vec::new();
        let mut i: usize = 0;
        assert(commands.deep_view() =~= curl.take(0).map_values(direct));
        while i < self.curl.len()
            invariant
                i <= self.curl.len(),
                curl == self.curl.deep_view(),
                curl == self@.curl,
                home == user_home_dir@,
                direct == (|item: DownloadView| direct_fetch(home, item)),
                forall|j: int| 0 <= j < i ==> resolved_destination(home, #[trigger] curl[j].dst) is Some,
                commands.deep_view() == curl.take(i as int).map_values(direct),
            decreases self.curl.len() - i,
        {
            let ghost before = commands.deep_view();
            let item = &self.curl[i];
            let path = item.resolve(user_home_dir);
            match item.fetch_to(path) {
                Ok(command) => {
                    commands.push(command);
                    proof {
                        assert(commands.deep_view() =~= before.push(command@));
                        assert(curl.take(i + 1).map_values(direct) =~= curl.take(
                            i as int,
                        ).map_values(direct).push(direct(curl[i as int])));
                    }
                },
                Err(error) => {
                    assert(first_unresolved(home, curl, i as int));
                    return Err(error);
                },
            }
            i += 1;
        }
        assert(curl.take(self.curl.len() as int) =~= curl);
        let skipped: Vec<String> = Vec::new();
        assert(skipped.deep_view() =~= Seq::<Seq<char>>::empty());
        Ok(Plan { skipped, commands })
    }
}

} // verus!
