//! The breadth-first dependency closure: version selection, the server
//! compatibility guard, and the resolver state machine that the caller
//! drives with registry answers.

use vstd::prelude::*;

use crate::lockfile::{LockfileIndexV1, LockfileV1};
use crate::manifest::{Loader, Manifest, Project};
use crate::model::{Dependency, DependencyType, PlatformRequirement, Version};
use crate::model::Project as RegistryProject;
use crate::text::str_eq;

verus! {

/// The set of banned project identifiers and slugs, supplied as
/// configuration.
#[derive(Debug)]
pub struct Denylist(pub Vec<String>);

impl Denylist {
    /// Whether `v` is banned.
    pub open spec fn spec_contains(self, v: Seq<char>) -> bool {
        exists|i: int| 0 <= i < self.0@.len() && (#[trigger] self.0@[i])@ == v
    }

    /// Whether `v` is banned.
    pub fn contains(&self, v: &str) -> (r: bool)
        ensures
            r == self.spec_contains(v@),
    {
        let mut i: usize = 0;
        while i < self.0.len()
            invariant
                i <= self.0@.len(),
                forall|k: int| 0 <= k < i ==> (#[trigger] self.0@[k])@ != v@,
            decreases self.0@.len() - i,
        {
            if str_eq(self.0[i].as_str(), v) {
                return true;
            }
            i += 1;
        }
        false
    }
}

impl Clone for Denylist {
    fn clone(&self) -> (res: Self)
        ensures
            res.0@ == self.0@,
    {
        let mut entries: Vec<String> = Vec::new();
        let mut i: usize = 0;
        while i < self.0.len()
            invariant
                i <= self.0@.len(),
                entries@.len() == i,
                forall|k: int| 0 <= k < i ==> entries@[k] == self.0@[k],
            decreases self.0@.len() - i,
        {
            entries.push(self.0[i].clone());
            i += 1;
        }
        proof {
            assert(entries@ =~= self.0@);
        }
        Denylist(entries)
    }
}

impl Default for Denylist {
    /// The default denylist bans the quilted fabric API, which conflicts
    /// with the fabric API, under both its slug and its project id.
    fn default() -> (res: Self)
        ensures
            res.0@.len() == 2,
            res.0@[0]@ == "qsl"@,
            res.0@[1]@ == "qvIfYCYJ"@,
    {
        let mut entries: Vec<String> = Vec::new();
        entries.push("qsl".to_owned());
        entries.push("qvIfYCYJ".to_owned());
        Denylist(entries)
    }
}

/// Everything that influences which artefacts a run resolves.
#[derive(Debug)]
pub struct Spec {
    pub minecraft_version: String,
    pub server_only: bool,
    pub manifest: Manifest,
    pub lockfile: LockfileV1,
    pub denylist: Denylist,
}

impl Default for Spec {
    /// The default run: the current default runtime version, server-only
    /// mode on, nothing declared, nothing locked, the default denylist.
    fn default() -> (res: Self)
        ensures
            res.minecraft_version@ == "1.21.1"@,
            res.server_only == true,
            res.manifest.datapack@.len() == 0,
            res.manifest.fabric@.len() == 0,
            res.lockfile.datapack@.len() == 0,
            res.lockfile.fabric@.len() == 0,
            res.denylist.0@.len() == 2,
            res.denylist.0@[0]@ == "qsl"@,
            res.denylist.0@[1]@ == "qvIfYCYJ"@,
    {
        Spec {
            minecraft_version: "1.21.1".to_owned(),
            server_only: true,
            manifest: Default::default(),
            lockfile: Default::default(),
            denylist: Default::default(),
        }
    }
}

/// Why a resolution run failed.
#[derive(Debug, PartialEq, Eq)]
pub enum ResolveError {
    /// Server-only mode rejects a project that does not support
    /// server-side installs; the whole run is aborted, since a partial
    /// artefact set is not safe to lock.
    ServerUnsupported { project_id: String, project_slug: String },
    /// Strict mode promotes "no compatible version found" for a root
    /// project from a warning to a fatal error.
    NoCompatibleVersion { project_name: String },
}

/// Whether the guard rejects `p` outright in server-only mode.
pub open spec fn spec_server_fatal(p: RegistryProject) -> bool {
    p.server_side == PlatformRequirement::Unsupported
}

/// Whether the guard would warn about `p`: a required client-side
/// install, or support left unknown on either platform.
pub open spec fn spec_server_warns(p: RegistryProject) -> bool {
    &&& !spec_server_fatal(p)
    &&& {
        ||| p.client_side == PlatformRequirement::Required
        ||| p.server_side == PlatformRequirement::Unknown
        ||| p.client_side == PlatformRequirement::Unknown
    }
}

/// The server compatibility guard: fails exactly when the project does
/// not support server-side installs. Ambiguous or client-requiring
/// support passes; it only merits a warning.
pub fn validate_server_compatibility(project: &RegistryProject) -> (r: Result<(), ResolveError>)
    ensures
        r is Err <==> spec_server_fatal(*project),
        r matches Err(e) ==> (e matches ResolveError::ServerUnsupported {
            project_id,
            project_slug,
        } && project_id@ == project.id@ && project_slug@ == project.slug@),
{
    match project.server_side {
        PlatformRequirement::Unsupported => Err(
            ResolveError::ServerUnsupported {
                project_id: project.id.clone(),
                project_slug: project.slug.clone(),
            },
        ),
        _ => Ok(()),
    }
}

/// Whether the guard would emit a warning for `project`; the caller may
/// log it. Warnings never fail a run.
pub fn server_compatibility_warning(project: &RegistryProject) -> (r: bool)
    ensures
        r == spec_server_warns(*project),
{
    if project.server_side == PlatformRequirement::Unsupported {
        return false;
    }
    project.client_side == PlatformRequirement::Required || project.server_side
        == PlatformRequirement::Unknown || project.client_side == PlatformRequirement::Unknown
}

/// Whether `v` lists the loader's name among its loaders. The registry's
/// server-side loader filter is unreliable, so this is re-checked here.
pub open spec fn spec_loader_ok(v: Version, loader: Loader) -> bool {
    exists|i: int| 0 <= i < v.loaders@.len() && (#[trigger] v.loaders@[i])@ == loader.spec_name()
}

/// Whether the selector may keep `v`: the loader matches, the pin
/// accepts the version, and the lockfile allowlist lets it pass.
pub open spec fn spec_admissible(
    pin: Project,
    index: LockfileIndexV1,
    loader: Loader,
    v: Version,
) -> bool {
    &&& spec_loader_ok(v, loader)
    &&& pin.spec_accepts(v.version_number@, v.id@)
    &&& index.spec_allows(v.project_id@, v.id@)
}

/// Whether any version of `versions` is admissible.
pub open spec fn spec_has_admissible(
    versions: Seq<Version>,
    pin: Project,
    index: LockfileIndexV1,
    loader: Loader,
) -> bool {
    exists|i: int| 0 <= i < versions.len() && spec_admissible(pin, index, loader, #[trigger] versions[i])
}

/// Whether `v` is a valid pick from `versions`: an admissible member
/// whose publication instant no admissible member exceeds.
pub open spec fn spec_selected(
    versions: Seq<Version>,
    pin: Project,
    index: LockfileIndexV1,
    loader: Loader,
    v: Version,
) -> bool {
    &&& exists|i: int| 0 <= i < versions.len() && versions[i] == v
    &&& spec_admissible(pin, index, loader, v)
    &&& forall|i: int|
        0 <= i < versions.len() && spec_admissible(pin, index, loader, #[trigger] versions[i])
            ==> versions[i].date_published <= v.date_published
}

/// Whether `v` lists the loader's name among its loaders.
pub fn version_matches_loader(v: &Version, loader: Loader) -> (r: bool)
    ensures
        r == spec_loader_ok(*v, loader),
{
    let mut i: usize = 0;
    while i < v.loaders.len()
        invariant
            i <= v.loaders@.len(),
            forall|k: int| 0 <= k < i ==> (#[trigger] v.loaders@[k])@ != loader.spec_name(),
        decreases v.loaders@.len() - i,
    {
        if loader.matches(v.loaders[i].as_str()) {
            return true;
        }
        i += 1;
    }
    false
}

fn version_admissible(pin: &Project, index: &LockfileIndexV1, loader: Loader, v: &Version) -> (r:
    bool)
    ensures
        r == spec_admissible(*pin, *index, loader, *v),
{
    version_matches_loader(v, loader) && pin.accepts(v.version_number.as_str(), v.id.as_str())
        && index.contains((v.project_id.as_str(), v.id.as_str()))
}

/// The version selector: among the versions the registry offered, keeps
/// those the pin and the lockfile allowlist admit, and picks one with
/// the greatest publication instant. `None` — no candidate remained —
/// is not an error.
pub fn select_version(
    mut versions: Vec<Version>,
    pin: &Project,
    index: &LockfileIndexV1,
    loader: Loader,
) -> (r: Option<Version>)
    ensures
        r matches Some(v) ==> spec_selected(versions@, *pin, *index, loader, v),
        r is Some <==> spec_has_admissible(versions@, *pin, *index, loader),
{
    let ghost all = versions@;
    let mut best: Option<usize> = None;
    let mut i: usize = 0;
    while i < versions.len()
        invariant
            versions@ == all,
            i <= all.len(),
            best matches Some(b) ==> 0 <= b < i && spec_admissible(*pin, *index, loader, all[b as int]),
            best matches Some(b) ==> forall|k: int|
                0 <= k < i && spec_admissible(*pin, *index, loader, #[trigger] all[k])
                    ==> all[k].date_published <= all[b as int].date_published,
            best is None ==> forall|k: int|
                0 <= k < i ==> !spec_admissible(*pin, *index, loader, #[trigger] all[k]),
        decreases all.len() - i,
    {
        if version_admissible(pin, index, loader, &versions[i]) {
            let better = match best {
                None => true,
                Some(b) => versions[i].date_published >= versions[b].date_published,
            };
            if better {
                best = Some(i);
            }
        }
        i += 1;
    }
    match best {
        None => None,
        Some(b) => {
            let v = versions.remove(b);
            proof {
                assert(all[b as int] == v);
                assert(exists|i: int| 0 <= i < all.len() && all[i] == v);
            }
            Some(v)
        },
    }
}

/// With the wildcard pin the selector rejects nothing for pin reasons:
/// admissibility is exactly the loader filter and the allowlist filter.
pub proof fn lemma_wildcard_accepts_all(
    pin: Project,
    index: LockfileIndexV1,
    loader: Loader,
    v: Version,
)
    requires
        pin.version is None,
    ensures
        spec_admissible(pin, index, loader, v) <==> (spec_loader_ok(v, loader)
            && index.spec_allows(v.project_id@, v.id@)),
{
}

/// Whether a dependency can be followed into the closure: it must be
/// required and name a target project. A required dependency without a
/// project id is skipped with a warning.
pub open spec fn spec_followable(d: Dependency) -> bool {
    &&& d.dependency_type == DependencyType::Required
    &&& d.project_id is Some
}

/// The index of the first followable dependency at or after `from`, if
/// any.
pub open spec fn spec_first_followable(deps: Seq<Dependency>, from: int) -> Option<int>
    decreases deps.len() - from,
{
    if from < 0 || from >= deps.len() {
        Option::None
    } else if spec_followable(deps[from]) {
        Option::Some(from)
    } else {
        spec_first_followable(deps, from + 1)
    }
}

/// Whether two resolved pairs share the dedup key: project identity and
/// version identity.
pub open spec fn key_match(a: (RegistryProject, Version), b: (RegistryProject, Version)) -> bool {
    a.0.id@ == b.0.id@ && a.1.id@ == b.1.id@
}

/// Whether no two entries of `s` share the dedup key.
pub open spec fn results_unique(s: Seq<(RegistryProject, Version)>) -> bool {
    forall|i: int, j: int| 0 <= i < j < s.len() ==> !key_match(s[i], s[j])
}

/// Whether `s` holds an entry with `p`'s dedup key.
pub open spec fn spec_holds_key(
    s: Seq<(RegistryProject, Version)>,
    p: (RegistryProject, Version),
) -> bool {
    exists|i: int| 0 <= i < s.len() && key_match(#[trigger] s[i], p)
}

proof fn lemma_holds_key_step(
    base: Seq<(RegistryProject, Version)>,
    pre: Seq<(RegistryProject, Version)>,
    post: Seq<(RegistryProject, Version)>,
)
    requires
        forall|k: int| 0 <= k < base.len() ==> spec_holds_key(pre, #[trigger] base[k]),
        forall|k: int| 0 <= k < pre.len() ==> spec_holds_key(post, #[trigger] pre[k]),
    ensures
        forall|k: int| 0 <= k < base.len() ==> spec_holds_key(post, #[trigger] base[k]),
{
    assert forall|k: int| 0 <= k < base.len() implies spec_holds_key(post, #[trigger] base[k]) by {
        let w1 = choose|i: int| 0 <= i < pre.len() && key_match(#[trigger] pre[i], base[k]);
        let w2 = choose|i: int| 0 <= i < post.len() && key_match(#[trigger] post[i], pre[w1]);
        assert(key_match(post[w2], base[k]));
    };
}

proof fn lemma_holds_key_prefix(
    pre: Seq<(RegistryProject, Version)>,
    post: Seq<(RegistryProject, Version)>,
    p: (RegistryProject, Version),
)
    requires
        spec_holds_key(pre, p),
        post.len() >= pre.len(),
        forall|k: int| 0 <= k < pre.len() ==> post[k] == pre[k],
    ensures
        spec_holds_key(post, p),
{
    let w = choose|i: int| 0 <= i < pre.len() && key_match(#[trigger] pre[i], p);
    assert(key_match(post[w], p));
}

/// Every version selected under an exact pin carries the pinned text as
/// its version number or as its version id.
pub proof fn lemma_pinned_selection_matches(
    versions: Seq<Version>,
    pin: Project,
    index: LockfileIndexV1,
    loader: Loader,
    v: Version,
)
    requires
        pin.version is Some,
        spec_selected(versions, pin, index, loader, v),
    ensures
        v.version_number@ == pin.version->0@ || v.id@ == pin.version->0@,
{
}

/// What the resolver asks its driver to do next.
#[derive(Debug)]
pub enum ResolverStep {
    /// Ask the registry for project metadata; `name` is a project name,
    /// id or slug.
    FetchProject { name: String },
    /// Ask the registry for the versions of `project_id`, filtered to
    /// the run's loader and runtime version.
    FetchVersions { project_id: String },
    /// The closure is complete; the results can be taken.
    Done,
}

/// The single-project resolution the machine is waiting on.
#[derive(Debug)]
pub enum Pending {
    /// Project metadata for `name` was requested. `pin` and `root`
    /// record the version pin the project was reached under, and
    /// whether it is a directly-requested root.
    Project { name: String, pin: Project, root: bool },
    /// The version list of `project` was requested.
    Versions { name: String, project: RegistryProject, pin: Project, root: bool },
}

/// One loader's breadth-first dependency closure, run as a state
/// machine: the driver asks `next` what to do, performs the registry
/// call, and hands the answer to `on_project` or `on_versions`. A
/// registry failure simply abandons the machine: the run is fatal.
#[derive(Debug)]
pub struct Resolver {
    pub loader: Loader,
    pub server_only: bool,
    pub strict: bool,
    pub denylist: Denylist,
    pub index: LockfileIndexV1,
    pub seeds: Vec<(String, Project)>,
    pub seed_idx: usize,
    pub pending: Option<Pending>,
    pub queue: Vec<(RegistryProject, Version)>,
    pub expanding: Option<(RegistryProject, Version)>,
    pub dep_idx: usize,
    pub results: Vec<(RegistryProject, Version)>,
}

fn insert_result(results: &mut Vec<(RegistryProject, Version)>, pair: (RegistryProject, Version))
    requires
        results_unique(old(results)@),
    ensures
        results_unique(final(results)@),
        spec_holds_key(final(results)@, pair),
        forall|k: int| 0 <= k < old(results)@.len() ==> final(results)@[k] == old(results)@[k],
        final(results)@ == old(results)@ || final(results)@ == old(results)@.push(pair),
        !spec_holds_key(old(results)@, pair) ==> final(results)@ == old(results)@.push(pair),
{
    let mut j: usize = 0;
    while j < results.len()
        invariant
            j <= results@.len(),
            results@ == old(results)@,
            results_unique(results@),
            forall|k: int| 0 <= k < j ==> !key_match(#[trigger] results@[k], pair),
        decreases results@.len() - j,
    {
        if str_eq(results[j].0.id.as_str(), pair.0.id.as_str()) && str_eq(
            results[j].1.id.as_str(),
            pair.1.id.as_str(),
        ) {
            return ;
        }
        j += 1;
    }
    results.push(pair);
    proof {
        assert(key_match(results@[results@.len() - 1], pair));
    }
}

fn find_next_followable(deps: &Vec<Dependency>, from: usize) -> (r: Option<usize>)
    requires
        from <= deps@.len(),
    ensures
        r matches Some(i) ==> from <= i < deps@.len() && spec_followable(deps@[i as int])
            && spec_first_followable(deps@, from as int) == Some(i as int),
        r is None ==> spec_first_followable(deps@, from as int) is None,
{
    let mut i: usize = from;
    while i < deps.len()
        invariant
            from <= i <= deps@.len(),
            spec_first_followable(deps@, from as int) == spec_first_followable(deps@, i as int),
        decreases deps@.len() - i,
    {
        let d = &deps[i];
        if d.dependency_type == DependencyType::Required && d.project_id.is_some() {
            proof {
                assert(spec_first_followable(deps@, i as int) == Some(i as int));
            }
            return Some(i);
        }
        proof {
            assert(spec_first_followable(deps@, i as int) == spec_first_followable(deps@, i + 1));
        }
        i += 1;
    }
    None
}

impl Resolver {
    /// Whether a resolved pair clears the denylist, under both its
    /// project id and its project slug.
    pub open spec fn pair_ok(self, pr: (RegistryProject, Version)) -> bool {
        &&& !self.denylist.spec_contains(pr.0.id@)
        &&& !self.denylist.spec_contains(pr.0.slug@)
    }

    /// The machine's invariant: indices in range, every held pair clear
    /// of the denylist, and the results free of duplicate keys.
    pub open spec fn wf(self) -> bool {
        &&& self.seed_idx <= self.seeds@.len()
        &&& forall|i: int| 0 <= i < self.queue@.len() ==> self.pair_ok(#[trigger] self.queue@[i])
        &&& (self.expanding matches Some(pr) ==> self.pair_ok(pr) && self.dep_idx
            <= pr.1.dependencies@.len())
        &&& forall|i: int| 0 <= i < self.results@.len() ==> self.pair_ok(#[trigger] self.results@[i])
        &&& results_unique(self.results@)
        &&& (self.pending matches Some(Pending::Versions { project, .. })
            ==> !self.denylist.spec_contains(project.id@) && !self.denylist.spec_contains(
            project.slug@,
        ))
    }

    /// Every resolved pair the machine still holds: recorded results,
    /// queued pairs, and the pair under expansion.
    pub open spec fn spec_holdings(self) -> Seq<(RegistryProject, Version)> {
        self.results@ + self.queue@ + (match self.expanding {
            Option::Some(p) => seq![p],
            Option::None => Seq::empty(),
        })
    }

    /// Sets up one loader's resolution run from the run's spec.
    pub fn new(run: &Spec, loader: Loader, strict: bool) -> (r: Resolver)
        ensures
            r.wf(),
            r.loader == loader,
            r.server_only == run.server_only,
            r.strict == strict,
            r.denylist.0@ == run.denylist.0@,
            r.index.0@.len() == run.lockfile.spec_get(loader).len(),
            forall|i: int|
                0 <= i < r.index.0@.len() ==> (#[trigger] r.index.0@[i]).0@ == run.lockfile.spec_get(
                    loader,
                )[i].project_id@ && r.index.0@[i].1@ == run.lockfile.spec_get(loader)[i].version_id@,
            r.seeds@ == run.manifest.spec_get(loader),
            r.seed_idx == 0,
            r.pending is None,
            r.queue@.len() == 0,
            r.expanding is None,
            r.results@.len() == 0,
    {
        let index = run.lockfile.index(loader);
        let denylist = run.denylist.clone();
        let entries = run.manifest.get(loader);
        let mut seeds: Vec<(String, Project)> = Vec::new();
        let mut i: usize = 0;
        while i < entries.len()
            invariant
                i <= entries@.len(),
                entries@ == run.manifest.spec_get(loader),
                seeds@.len() == i,
                forall|k: int| 0 <= k < i ==> seeds@[k] == entries@[k],
            decreases entries@.len() - i,
        {
            let name = entries[i].0.clone();
            let pin = entries[i].1.clone();
            seeds.push((name, pin));
            i += 1;
        }
        proof {
            assert(seeds@ =~= run.manifest.spec_get(loader));
        }
        Resolver {
            loader,
            server_only: run.server_only,
            strict,
            denylist,
            index,
            seeds,
            seed_idx: 0,
            pending: None,
            queue: Vec::new(),
            expanding: None,
            dep_idx: 0,
            results: Vec::new(),
        }
    }

    /// Advances the machine to its next outward request. Seeds are
    /// issued first, in manifest order; then each queued pair is
    /// expanded, its followable dependencies issued one at a time, and
    /// the pair itself recorded — under the dedup key, so an already
    /// recorded (project, version) adds nothing. `Done` comes when no
    /// work remains; the results then hold every pair that was ever
    /// queued, up to key collapse.
    pub fn next(&mut self) -> (r: ResolverStep)
        requires
            old(self).wf(),
        ensures
            final(self).wf(),
            final(self).loader == old(self).loader,
            final(self).server_only == old(self).server_only,
            final(self).strict == old(self).strict,
            final(self).denylist == old(self).denylist,
            final(self).index == old(self).index,
            final(self).seeds == old(self).seeds,
            forall|k: int|
                0 <= k < old(self).results@.len() ==> final(self).results@[k] == old(self).results@[k],
            final(self).results@.len() >= old(self).results@.len(),
            forall|k: int|
                0 <= k < old(self).spec_holdings().len() ==> spec_holds_key(
                    final(self).spec_holdings(),
                    #[trigger] old(self).spec_holdings()[k],
                ),
            r is Done ==> final(self).pending is None && final(self).seed_idx == final(self).seeds@.len()
                && final(self).queue@.len() == 0 && final(self).expanding is None,
            r is Done ==> final(self).spec_holdings() == final(self).results@,
            old(self).pending matches Some(Pending::Project { name, .. }) ==> {
                &&& *final(self) == *old(self)
                &&& r matches ResolverStep::FetchProject { name: n } && n == name
            },
            old(self).pending matches Some(Pending::Versions { project, .. }) ==> {
                &&& *final(self) == *old(self)
                &&& r matches ResolverStep::FetchVersions { project_id } && project_id == project.id
            },
            (old(self).pending is None && old(self).seed_idx < old(self).seeds@.len()) ==> {
                &&& r matches ResolverStep::FetchProject { name } && name == old(self).seeds@[old(
                    self,
                ).seed_idx as int].0
                &&& final(self).pending == Some(
                    Pending::Project {
                        name: old(self).seeds@[old(self).seed_idx as int].0,
                        pin: old(self).seeds@[old(self).seed_idx as int].1,
                        root: true,
                    },
                )
                &&& final(self).seed_idx == old(self).seed_idx + 1
                &&& final(self).queue == old(self).queue
                &&& final(self).expanding == old(self).expanding
                &&& final(self).dep_idx == old(self).dep_idx
                &&& final(self).results == old(self).results
            },
            (old(self).pending is None && old(self).seed_idx == old(self).seeds@.len()) ==> {
                &&& final(self).seed_idx == old(self).seed_idx
                &&& match r {
                    ResolverStep::FetchProject { name } => {
                        &&& final(self).expanding matches Some(pair) && {
                            &&& 1 <= final(self).dep_idx <= pair.1.dependencies@.len()
                            &&& spec_followable(pair.1.dependencies@[final(self).dep_idx - 1])
                            &&& pair.1.dependencies@[final(self).dep_idx - 1].project_id matches Some(pid)
                                && name == pid
                        }
                        &&& final(self).pending matches Some(Pending::Project { name: n2, pin, root })
                            && final(self).expanding matches Some(pair2) && n2 == name && root
                            == false && pin.version == pair2.1.dependencies@[final(self).dep_idx
                            - 1].version_id
                    },
                    ResolverStep::FetchVersions { .. } => false,
                    ResolverStep::Done => true,
                }
            },
            old(self).expanding matches Some(pair) ==> ((old(self).pending is None && old(
                self,
            ).seed_idx == old(self).seeds@.len()) ==> (match spec_first_followable(
                pair.1.dependencies@,
                old(self).dep_idx as int,
            ) {
                Option::Some(k) => {
                    &&& final(self).expanding == old(self).expanding
                    &&& final(self).dep_idx == k + 1
                    &&& final(self).queue == old(self).queue
                    &&& final(self).results == old(self).results
                    &&& (r matches ResolverStep::FetchProject { name }
                        && pair.1.dependencies@[k].project_id matches Some(pid)
                        && final(self).pending matches Some(Pending::Project { name: n2, pin, root })
                        && name == pid && n2 == name && root == false && pin.version
                        == pair.1.dependencies@[k].version_id)
                },
                Option::None => spec_holds_key(final(self).results@, pair),
            })),
            (old(self).pending is None && old(self).seed_idx == old(self).seeds@.len() && old(
                self,
            ).expanding is None && old(self).queue@.len() > 0) ==> (match spec_first_followable(
                old(self).queue@[0].1.dependencies@,
                0,
            ) {
                Option::Some(k) => {
                    &&& final(self).expanding == Some(old(self).queue@[0])
                    &&& final(self).dep_idx == k + 1
                    &&& final(self).queue@ == old(self).queue@.drop_first()
                    &&& final(self).results == old(self).results
                    &&& (r matches ResolverStep::FetchProject { name }
                        && old(self).queue@[0].1.dependencies@[k].project_id matches Some(pid)
                        && final(self).pending matches Some(Pending::Project { name: n2, pin, root })
                        && name == pid && n2 == name && root == false && pin.version == old(
                        self,
                    ).queue@[0].1.dependencies@[k].version_id)
                },
                Option::None => spec_holds_key(final(self).results@, old(self).queue@[0]),
            }),
    {
        match &self.pending {
            Some(Pending::Project { name, .. }) => {
                return ResolverStep::FetchProject { name: name.clone() };
            },
            Some(Pending::Versions { project, .. }) => {
                return ResolverStep::FetchVersions { project_id: project.id.clone() };
            },
            None => {},
        }
        if self.seed_idx < self.seeds.len() {
            let name = self.seeds[self.seed_idx].0.clone();
            let pin = self.seeds[self.seed_idx].1.clone();
            self.seed_idx = self.seed_idx + 1;
            self.pending = Some(Pending::Project { name: name.clone(), pin, root: true });
            return ResolverStep::FetchProject { name };
        }
        loop
            invariant
                old(self).pending is None,
                self.wf(),
                self.pending is None,
                self.loader == old(self).loader,
                self.server_only == old(self).server_only,
                self.strict == old(self).strict,
                self.denylist == old(self).denylist,
                self.index == old(self).index,
                self.seeds == old(self).seeds,
                self.seed_idx == old(self).seed_idx,
                self.seed_idx == self.seeds@.len(),
                forall|k: int|
                    0 <= k < old(self).results@.len() ==> self.results@[k] == old(self).results@[k],
                self.results@.len() >= old(self).results@.len(),
                forall|k: int|
                    0 <= k < old(self).spec_holdings().len() ==> spec_holds_key(
                        self.spec_holdings(),
                        #[trigger] old(self).spec_holdings()[k],
                    ),
                old(self).expanding matches Some(pair) ==> ({
                    ||| {
                        &&& self.expanding == old(self).expanding
                        &&& self.dep_idx == old(self).dep_idx
                        &&& self.queue == old(self).queue
                        &&& self.results == old(self).results
                    }
                    ||| {
                        &&& spec_first_followable(
                            pair.1.dependencies@,
                            old(self).dep_idx as int,
                        ) is None
                        &&& spec_holds_key(self.results@, pair)
                    }
                }),
                (old(self).expanding is None && old(self).queue@.len() > 0) ==> ({
                    ||| {
                        &&& self.expanding is None
                        &&& self.queue == old(self).queue
                        &&& self.results == old(self).results
                    }
                    ||| {
                        &&& self.expanding == Some(old(self).queue@[0])
                        &&& self.dep_idx == 0
                        &&& self.queue@ == old(self).queue@.drop_first()
                        &&& self.results == old(self).results
                    }
                    ||| {
                        &&& spec_first_followable(old(self).queue@[0].1.dependencies@, 0) is None
                        &&& spec_holds_key(self.results@, old(self).queue@[0])
                    }
                }),
            decreases 2 * self.queue@.len() + (if self.expanding is Some {
                1int
            } else {
                0int
            }),
        {
            if self.expanding.is_some() {
                let (found, deps_len) = match &self.expanding {
                    Some(pair) => (
                        find_next_followable(&pair.1.dependencies, self.dep_idx),
                        pair.1.dependencies.len(),
                    ),
                    None => vstd::pervasive::unreached(),
                };
                match found {
                    Some(i) => {
                        assert(i < deps_len);
                        let (name, pin) = match &self.expanding {
                            Some(pair) => {
                                let dep = &pair.1.dependencies[i];
                                let name = match &dep.project_id {
                                    Some(pid) => pid.clone(),
                                    None => vstd::pervasive::unreached(),
                                };
                                let pin = match &dep.version_id {
                                    Some(vi) => Project { version: Some(vi.clone()) },
                                    None => Project { version: None },
                                };
                                (name, pin)
                            },
                            None => vstd::pervasive::unreached(),
                        };
                        self.dep_idx = i + 1;
                        self.pending = Some(
                            Pending::Project { name: name.clone(), pin, root: false },
                        );
                        return ResolverStep::FetchProject { name };
                    },
                    None => {
                        let ghost pre_h = self.spec_holdings();
                        let pair = match self.expanding.take() {
                            Some(p) => p,
                            None => vstd::pervasive::unreached(),
                        };
                        let ghost mid_results = self.results@;
                        insert_result(&mut self.results, pair);
                        proof {
                            let post_h = self.spec_holdings();
                            let rlen = mid_results.len() as int;
                            assert forall|k: int| 0 <= k < pre_h.len() implies spec_holds_key(
                                post_h,
                                #[trigger] pre_h[k],
                            ) by {
                                if k < rlen {
                                    assert(pre_h[k] == mid_results[k]);
                                    assert(post_h[k] == self.results@[k]);
                                    assert(key_match(post_h[k], pre_h[k]));
                                } else if k < rlen + self.queue@.len() {
                                    let w = self.results@.len() + (k - rlen);
                                    assert(pre_h[k] == self.queue@[k - rlen]);
                                    assert(post_h[w] == self.queue@[k - rlen]);
                                    assert(key_match(post_h[w], pre_h[k]));
                                } else {
                                    assert(pre_h[k] == pair);
                                    let w = choose|i: int|
                                        0 <= i < self.results@.len() && key_match(
                                            #[trigger] self.results@[i],
                                            pair,
                                        );
                                    assert(post_h[w] == self.results@[w]);
                                    assert(key_match(post_h[w], pre_h[k]));
                                }
                            };
                            lemma_holds_key_step(old(self).spec_holdings(), pre_h, post_h);
                            match old(self).expanding {
                                Option::Some(op) => {
                                    if spec_holds_key(mid_results, op) {
                                        lemma_holds_key_prefix(mid_results, self.results@, op);
                                    }
                                },
                                Option::None => {
                                    if old(self).queue@.len() > 0 && spec_holds_key(
                                        mid_results,
                                        old(self).queue@[0],
                                    ) {
                                        lemma_holds_key_prefix(
                                            mid_results,
                                            self.results@,
                                            old(self).queue@[0],
                                        );
                                    }
                                },
                            }
                        }
                    },
                }
            } else if self.queue.len() > 0 {
                let ghost pre_h = self.spec_holdings();
                let ghost pre_queue = self.queue@;
                let pair = self.queue.remove(0);
                self.expanding = Some(pair);
                self.dep_idx = 0;
                proof {
                    let post_h = self.spec_holdings();
                    let rlen = self.results@.len() as int;
                    assert forall|k: int| 0 <= k < pre_h.len() implies spec_holds_key(
                        post_h,
                        #[trigger] pre_h[k],
                    ) by {
                        if k < rlen {
                            assert(post_h[k] == self.results@[k]);
                            assert(pre_h[k] == self.results@[k]);
                            assert(key_match(post_h[k], pre_h[k]));
                        } else if k == rlen {
                            let w = post_h.len() - 1;
                            assert(pre_h[k] == pre_queue[0]);
                            assert(post_h[w] == pair);
                            assert(key_match(post_h[w], pre_h[k]));
                        } else {
                            let w = k - 1;
                            assert(pre_h[k] == pre_queue[k - rlen]);
                            assert(post_h[w] == self.queue@[k - rlen - 1]);
                            assert(self.queue@[k - rlen - 1] == pre_queue[k - rlen]);
                            assert(key_match(post_h[w], pre_h[k]));
                        }
                    };
                    lemma_holds_key_step(old(self).spec_holdings(), pre_h, post_h);
                    assert(pre_queue.remove(0) =~= pre_queue.drop_first());
                }
            } else {
                proof {
                    assert(self.spec_holdings() =~= self.results@);
                }
                return ResolverStep::Done;
            }
        }
    }

    /// Feeds the registry's answer to a project metadata request. A
    /// denylisted project — by id or slug — is silently dropped. In
    /// server-only mode a root project without server support aborts
    /// the run. Otherwise the machine proceeds to the project's version
    /// list.
    pub fn on_project(&mut self, project: RegistryProject) -> (r: Result<(), ResolveError>)
        requires
            old(self).wf(),
            old(self).pending matches Some(Pending::Project { .. }),
        ensures
            final(self).wf(),
            final(self).loader == old(self).loader,
            final(self).server_only == old(self).server_only,
            final(self).strict == old(self).strict,
            final(self).denylist == old(self).denylist,
            final(self).index == old(self).index,
            final(self).seeds == old(self).seeds,
            final(self).seed_idx == old(self).seed_idx,
            final(self).queue == old(self).queue,
            final(self).expanding == old(self).expanding,
            final(self).dep_idx == old(self).dep_idx,
            final(self).results == old(self).results,
            final(self).spec_holdings() == old(self).spec_holdings(),
            old(self).pending matches Some(Pending::Project { name, pin, root }) ==> {
                let denied = old(self).denylist.spec_contains(project.id@) || old(
                    self,
                ).denylist.spec_contains(project.slug@);
                let fatal = !denied && root && old(self).server_only && spec_server_fatal(project);
                &&& denied ==> r is Ok && final(self).pending is None
                &&& fatal ==> final(self).pending is None && (r matches Err(e)
                    && e matches ResolveError::ServerUnsupported { project_id, project_slug }
                    && project_id@ == project.id@ && project_slug@ == project.slug@)
                &&& (!denied && !fatal) ==> r is Ok && final(self).pending == Some(
                    Pending::Versions { name, project, pin, root },
                )
            },
    {
        let p = self.pending.take();
        match p {
            Some(Pending::Project { name, pin, root }) => {
                if self.denylist.contains(project.id.as_str()) || self.denylist.contains(
                    project.slug.as_str(),
                ) {
                    return Ok(());
                }
                if root && self.server_only {
                    match validate_server_compatibility(&project) {
                        Ok(()) => {},
                        Err(e) => {
                            return Err(e);
                        },
                    }
                }
                self.pending = Some(Pending::Versions { name, project, pin, root });
                Ok(())
            },
            _ => vstd::pervasive::unreached(),
        }
    }

    /// Feeds the registry's answer to a version list request. The
    /// selector picks among the admissible versions; a pick is queued
    /// for expansion, and `Ok(true)` reports it. With no admissible
    /// version the project is omitted and `Ok(false)` invites a
    /// warning — except for a root project in strict mode, where the
    /// omission is fatal.
    pub fn on_versions(&mut self, versions: Vec<Version>) -> (r: Result<bool, ResolveError>)
        requires
            old(self).wf(),
            old(self).pending matches Some(Pending::Versions { .. }),
        ensures
            final(self).wf(),
            final(self).loader == old(self).loader,
            final(self).server_only == old(self).server_only,
            final(self).strict == old(self).strict,
            final(self).denylist == old(self).denylist,
            final(self).index == old(self).index,
            final(self).seeds == old(self).seeds,
            final(self).seed_idx == old(self).seed_idx,
            final(self).expanding == old(self).expanding,
            final(self).dep_idx == old(self).dep_idx,
            final(self).results == old(self).results,
            final(self).pending is None,
            forall|k: int|
                0 <= k < old(self).spec_holdings().len() ==> spec_holds_key(
                    final(self).spec_holdings(),
                    #[trigger] old(self).spec_holdings()[k],
                ),
            old(self).pending matches Some(Pending::Versions { name, project, pin, root }) ==> {
                let found = spec_has_admissible(versions@, pin, old(self).index, old(self).loader);
                &&& found ==> {
                    &&& r == Result::<bool, ResolveError>::Ok(true)
                    &&& final(self).queue@.len() == old(self).queue@.len() + 1
                    &&& forall|k: int|
                        0 <= k < old(self).queue@.len() ==> final(self).queue@[k] == old(self).queue@[k]
                    &&& final(self).queue@.last().0 == project
                    &&& spec_selected(
                        versions@,
                        pin,
                        old(self).index,
                        old(self).loader,
                        final(self).queue@.last().1,
                    )
                }
                &&& (!found && !(root && old(self).strict)) ==> r == Result::<
                    bool,
                    ResolveError,
                >::Ok(false) && final(self).queue == old(self).queue
                &&& (!found && root && old(self).strict) ==> final(self).queue == old(self).queue && r
                    == Result::<bool, ResolveError>::Err(
                    ResolveError::NoCompatibleVersion { project_name: name },
                )
            },
    {
        let ghost pre_h = self.spec_holdings();
        let p = self.pending.take();
        match p {
            Some(Pending::Versions { name, project, pin, root }) => {
                match select_version(versions, &pin, &self.index, self.loader) {
                    Some(v) => {
                        let ghost pre_queue = self.queue@;
                        self.queue.push((project, v));
                        proof {
                            let post_h = self.spec_holdings();
                            let rlen = self.results@.len() as int;
                            assert forall|k: int| 0 <= k < pre_h.len() implies spec_holds_key(
                                post_h,
                                #[trigger] pre_h[k],
                            ) by {
                                if k < rlen {
                                    assert(pre_h[k] == self.results@[k]);
                                    assert(post_h[k] == self.results@[k]);
                                } else if k < rlen + pre_queue.len() {
                                    assert(pre_h[k] == pre_queue[k - rlen]);
                                    assert(post_h[k] == self.queue@[k - rlen]);
                                    assert(self.queue@[k - rlen] == pre_queue[k - rlen]);
                                } else {
                                    let w = rlen + self.queue@.len() + (k - rlen - pre_queue.len());
                                    assert(post_h[w] == pre_h[k]);
                                }
                                assert(key_match(pre_h[k], pre_h[k]));
                            };
                        }
                        Ok(true)
                    },
                    None => {
                        if root && self.strict {
                            Err(ResolveError::NoCompatibleVersion { project_name: name })
                        } else {
                            Ok(false)
                        }
                    },
                }
            },
            _ => vstd::pervasive::unreached(),
        }
    }

    /// Hands out the run's result set. No denylisted project stands in
    /// it, under any dependency path, and no two entries share a dedup
    /// key: a dependency two roots share yields one entry, not two.
    pub fn into_results(self) -> (r: Vec<(RegistryProject, Version)>)
        requires
            self.wf(),
        ensures
            r == self.results,
            results_unique(r@),
            forall|i: int|
                0 <= i < r@.len() ==> !self.denylist.spec_contains((#[trigger] r@[i]).0.id@)
                    && !self.denylist.spec_contains(r@[i].0.slug@),
    {
        self.results
    }
}

/// Nothing the machine holds is lost at the end of a run: once no pair
/// waits in the queue or under expansion — as `next` reports with
/// `Done` — every held key stands in the results. Together with the
/// key conservation that every step ensures, a root project that was
/// once queued reaches the output even when all of its dependencies
/// fail to resolve and are silently omitted.
pub proof fn lemma_done_holdings_are_results(r: Resolver, p: (RegistryProject, Version))
    requires
        r.queue@.len() == 0,
        r.expanding is None,
        spec_holds_key(r.spec_holdings(), p),
    ensures
        spec_holds_key(r.results@, p),
{
    assert(r.spec_holdings() =~= r.results@);
}

/// No denylisted project — banned by id or by slug — ever stands in a
/// well-formed resolver's results, wherever in the dependency graph it
/// was reached.
pub proof fn lemma_denylisted_never_in_results(r: Resolver, i: int)
    requires
        r.wf(),
        0 <= i < r.results@.len(),
    ensures
        !r.denylist.spec_contains(r.results@[i].0.id@),
        !r.denylist.spec_contains(r.results@[i].0.slug@),
{
}

/// No two entries of a well-formed resolver's results share both
/// project identity and version identity: a dependency reached from two
/// distinct roots collapses to a single entry.
pub proof fn lemma_results_deduplicated(r: Resolver, i: int, j: int)
    requires
        r.wf(),
        0 <= i < j < r.results@.len(),
    ensures
        !key_match(r.results@[i], r.results@[j]),
{
}

} // verus!
