//! The persisted record of a successful resolution, and the staleness
//! check that decides whether a previous record may be reused.

use vstd::prelude::*;

use crate::fetcher::FetchError;
use crate::manifest::{Loader, Manifest};
use crate::model::File;

verus! {

/// A lower-case hex SHA-512 digest.
#[derive(Debug, PartialEq, Eq, Hash)]
pub struct Sha512Checksum(pub String);

impl Clone for Sha512Checksum {
    fn clone(&self) -> (res: Self)
        ensures
            res == *self,
    {
        Sha512Checksum(self.0.clone())
    }
}

/// One verified, locally stored file: its identifying metadata and its
/// checksum.
#[derive(Debug, PartialEq, Eq, Hash)]
pub struct Artefact {
    pub project_id: String,
    pub project_slug: String,
    pub version_id: String,
    pub version_number: String,
    pub filename: String,
    pub checksum: Sha512Checksum,
}

impl Artefact {
    /// Builds the lock entry for one registry file. Fails exactly when
    /// the registry declares no SHA-512 hash for the file: without a
    /// declared hash nothing can be verified.
    pub fn new(
        project_id: &str,
        project_slug: &str,
        version_id: &str,
        version_number: &str,
        file: &File,
    ) -> (r: Result<Self, FetchError>)
        ensures
            file.hashes.sha512 is None <==> r is Err,
            r matches Err(e) ==> e == FetchError::MissingHash,
            r matches Ok(a) ==> {
                &&& a.project_id@ == project_id@
                &&& a.project_slug@ == project_slug@
                &&& a.version_id@ == version_id@
                &&& a.version_number@ == version_number@
                &&& a.filename@ == file.filename@
                &&& file.hashes.sha512 matches Some(h) && a.checksum.0@ == h@
            },
    {
        let sha512_hash = match &file.hashes.sha512 {
            Some(h) => h.clone(),
            None => {
                return Err(FetchError::MissingHash);
            },
        };
        Ok(
            Artefact {
                project_id: project_id.to_owned(),
                project_slug: project_slug.to_owned(),
                version_id: version_id.to_owned(),
                version_number: version_number.to_owned(),
                filename: file.filename.clone(),
                checksum: Sha512Checksum(sha512_hash),
            },
        )
    }
}

impl Clone for Artefact {
    fn clone(&self) -> (res: Self)
        ensures
            res == *self,
    {
        Artefact {
            project_id: self.project_id.clone(),
            project_slug: self.project_slug.clone(),
            version_id: self.version_id.clone(),
            version_number: self.version_number.clone(),
            filename: self.filename.clone(),
            checksum: self.checksum.clone(),
        }
    }
}

/// The persisted output of the last successful resolution, one artefact
/// list per loader kind.
#[derive(Debug, PartialEq, Eq)]
pub struct LockfileV1 {
    pub datapack: Vec<Artefact>,
    pub fabric: Vec<Artefact>,
}

impl LockfileV1 {
    /// The lock entries for one loader.
    pub open spec fn spec_get(self, loader: Loader) -> Seq<Artefact> {
        match loader {
            Loader::Datapack => self.datapack@,
            Loader::Fabric => self.fabric@,
        }
    }

    /// The lock entries for one loader.
    pub fn get(&self, loader: Loader) -> (r: &Vec<Artefact>)
        ensures
            r@ == self.spec_get(loader),
    {
        match loader {
            Loader::Datapack => &self.datapack,
            Loader::Fabric => &self.fabric,
        }
    }

    /// The (project id, version id) allowlist built from one loader's
    /// lock entries.
    pub fn index(&self, loader: Loader) -> (r: LockfileIndexV1)
        ensures
            r.0@.len() == self.spec_get(loader).len(),
            forall|i: int|
                0 <= i < r.0@.len() ==> (#[trigger] r.0@[i]).0@ == self.spec_get(loader)[i]
                    .project_id@ && r.0@[i].1@ == self.spec_get(loader)[i].version_id@,
    {
        let entries = self.get(loader);
        let mut pairs: Vec<(String, String)> = Vec::new();
        let mut i: usize = 0;
        while i < entries.len()
            invariant
                i <= entries.len(),
                entries@ == self.spec_get(loader),
                pairs@.len() == i,
                forall|k: int|
                    0 <= k < i ==> (#[trigger] pairs@[k]).0@ == entries@[k].project_id@
                        && pairs@[k].1@ == entries@[k].version_id@,
            decreases entries.len() - i,
        {
            pairs.push((entries[i].project_id.clone(), entries[i].version_id.clone()));
            i += 1;
        }
        LockfileIndexV1(pairs)
    }
}

impl Default for LockfileV1 {
    /// The default lockfile records nothing.
    fn default() -> (res: Self)
        ensures
            res.datapack@.len() == 0,
            res.fabric@.len() == 0,
    {
        LockfileV1 { datapack: Vec::new(), fabric: Vec::new() }
    }
}

/// An exact-match (project id, version id) allowlist drawn from a prior
/// lockfile. An empty allowlist accepts everything: with no prior record
/// there is nothing to pin to.
#[derive(Debug)]
pub struct LockfileIndexV1(pub Vec<(String, String)>);

impl LockfileIndexV1 {
    /// Whether the allowlist lets a (project id, version id) pair pass.
    pub open spec fn spec_allows(self, pid: Seq<char>, vid: Seq<char>) -> bool {
        ||| self.0@.len() == 0
        ||| exists|i: int|
            0 <= i < self.0@.len() && (#[trigger] self.0@[i]).0@ == pid && self.0@[i].1@ == vid
    }

    /// Returns `true` if the allowlist is empty or holds `v`.
    pub fn contains(&self, v: (&str, &str)) -> (r: bool)
        ensures
            r == self.spec_allows(v.0@, v.1@),
    {
        if self.0.is_empty() {
            return true;
        }
        let mut i: usize = 0;
        while i < self.0.len()
            invariant
                i <= self.0@.len(),
                forall|k: int|
                    0 <= k < i ==> !((#[trigger] self.0@[k]).0@ == v.0@ && self.0@[k].1@ == v.1@),
            decreases self.0@.len() - i,
        {
            let (pid, vid) = &self.0[i];
            if crate::text::str_eq(pid.as_str(), v.0) && crate::text::str_eq(vid.as_str(), v.1) {
                return true;
            }
            i += 1;
        }
        false
    }
}

/// Whether one loader's lock entries mention `name` as a project id or
/// slug.
pub open spec fn spec_project_known(entries: Seq<Artefact>, name: Seq<char>) -> bool {
    exists|i: int|
        0 <= i < entries.len() && ((#[trigger] entries[i]).project_id@ == name || entries[i]
            .project_slug@ == name)
}

/// Whether one loader's lock entries mention `pin` as a version id or
/// version number.
pub open spec fn spec_version_known(entries: Seq<Artefact>, pin: Seq<char>) -> bool {
    exists|i: int|
        0 <= i < entries.len() && ((#[trigger] entries[i]).version_id@ == pin || entries[i]
            .version_number@ == pin)
}

/// Whether one loader's lockfile section still covers the manifest: every
/// declared project is present, and every pinned version is present.
pub open spec fn spec_up_to_date(manifest: Manifest, lockfile: LockfileV1, loader: Loader) -> bool {
    forall|k: int|
        0 <= k < manifest.spec_get(loader).len() ==> {
            let entry = #[trigger] manifest.spec_get(loader)[k];
            &&& spec_project_known(lockfile.spec_get(loader), entry.0@)
            &&& (entry.1.version matches Some(p) ==> spec_version_known(
                lockfile.spec_get(loader),
                p@,
            ))
        }
}

fn project_known(entries: &Vec<Artefact>, name: &String) -> (r: bool)
    ensures
        r == spec_project_known(entries@, name@),
{
    let mut i: usize = 0;
    while i < entries.len()
        invariant
            i <= entries@.len(),
            forall|k: int|
                0 <= k < i ==> !((#[trigger] entries@[k]).project_id@ == name@ || entries@[k]
                    .project_slug@ == name@),
        decreases entries@.len() - i,
    {
        if entries[i].project_id == *name || entries[i].project_slug == *name {
            return true;
        }
        i += 1;
    }
    false
}

fn version_known(entries: &Vec<Artefact>, pin: &String) -> (r: bool)
    ensures
        r == spec_version_known(entries@, pin@),
{
    let mut i: usize = 0;
    while i < entries.len()
        invariant
            i <= entries@.len(),
            forall|k: int|
                0 <= k < i ==> !((#[trigger] entries@[k]).version_id@ == pin@ || entries@[k]
                    .version_number@ == pin@),
        decreases entries@.len() - i,
    {
        if entries[i].version_id == *pin || entries[i].version_number == *pin {
            return true;
        }
        i += 1;
    }
    false
}

/// Whether `lockfile`'s section for `loader` still covers the manifest:
/// every declared project name is among the section's project ids and
/// slugs, and every pinned version is among its version ids and numbers.
/// A wildcard pin asks nothing of the versions.
pub fn lockfile_is_up_to_date(manifest: &Manifest, lockfile: &LockfileV1, loader: Loader) -> (r:
    bool)
    ensures
        r == spec_up_to_date(*manifest, *lockfile, loader),
{
    let entries = manifest.get(loader);
    let locked = lockfile.get(loader);
    let mut k: usize = 0;
    while k < entries.len()
        invariant
            k <= entries@.len(),
            entries@ == manifest.spec_get(loader),
            locked@ == lockfile.spec_get(loader),
            forall|j: int|
                0 <= j < k ==> {
                    let entry = #[trigger] entries@[j];
                    &&& spec_project_known(locked@, entry.0@)
                    &&& (entry.1.version matches Some(p) ==> spec_version_known(locked@, p@))
                },
        decreases entries@.len() - k,
    {
        let (name, project) = &entries[k];
        if !project_known(locked, name) {
            return false;
        }
        match &project.version {
            Some(pin) => {
                if !version_known(locked, pin) {
                    return false;
                }
            },
            None => {},
        }
        k += 1;
    }
    true
}

/// Hands a loaded lockfile to the resolver only when both loader sections
/// still cover the manifest; otherwise the whole record is replaced by an
/// empty one. A stale section may name versions of projects no longer in
/// the manifest, which must not leak into the version allowlist, and a
/// partially reused lockfile is deliberately not allowed.
pub fn validate_lockfile(manifest: &Manifest, lockfile: LockfileV1) -> (r: LockfileV1)
    ensures
        spec_up_to_date(*manifest, lockfile, Loader::Datapack) && spec_up_to_date(
            *manifest,
            lockfile,
            Loader::Fabric,
        ) ==> r == lockfile,
        !(spec_up_to_date(*manifest, lockfile, Loader::Datapack) && spec_up_to_date(
            *manifest,
            lockfile,
            Loader::Fabric,
        )) ==> r.datapack@.len() == 0 && r.fabric@.len() == 0,
{
    if lockfile_is_up_to_date(manifest, &lockfile, Loader::Datapack) && lockfile_is_up_to_date(
        manifest,
        &lockfile,
        Loader::Fabric,
    ) {
        lockfile
    } else {
        LockfileV1::default()
    }
}

} // verus!
