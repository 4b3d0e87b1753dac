//! Data returned by the content registry: project metadata, version
//! metadata, and the files attached to a version.

use vstd::prelude::*;

verus! {

/// The hashes the registry declares for one downloadable file.
#[derive(Debug)]
pub struct FileHashes {
    pub sha512: Option<String>,
}

impl Clone for FileHashes {
    fn clone(&self) -> (res: Self)
        ensures
            res == *self,
    {
        FileHashes { sha512: self.sha512.clone() }
    }
}

/// One downloadable file attached to a version.
#[derive(Debug)]
pub struct File {
    pub hashes: FileHashes,
    pub url: String,
    pub filename: String,
    pub primary: bool,
}

impl Clone for File {
    fn clone(&self) -> (res: Self)
        ensures
            res == *self,
    {
        File {
            hashes: self.hashes.clone(),
            url: self.url.clone(),
            filename: self.filename.clone(),
            primary: self.primary,
        }
    }
}

/// How a dependency relates to the version that declares it. Only
/// `Required` dependencies participate in the closure.
#[derive(Debug, Clone, Copy, PartialEq, Eq, Structural)]
pub enum DependencyType {
    Required,
    Optional,
    Incompatible,
    Embedded,
}

/// A dependency edge declared by a version.
#[derive(Debug)]
pub struct Dependency {
    pub version_id: Option<String>,
    pub project_id: Option<String>,
    pub dependency_type: DependencyType,
}

impl Clone for Dependency {
    fn clone(&self) -> (res: Self)
        ensures
            res == *self,
    {
        Dependency {
            version_id: self.version_id.clone(),
            project_id: self.project_id.clone(),
            dependency_type: self.dependency_type,
        }
    }
}

/// The release channel of a version.
#[derive(Debug, Clone, Copy, PartialEq, Eq, Structural)]
pub enum VersionType {
    Release,
    Beta,
    Alpha,
}

/// The listing state of a version.
#[derive(Debug, Clone, Copy, PartialEq, Eq, Structural)]
pub enum VersionStatus {
    Listed,
    Archived,
    Draft,
    Unlisted,
    Scheduled,
}

/// One published version of a registry project. `date_published` is the
/// publication instant as milliseconds since the Unix epoch; later
/// instants compare greater.
#[derive(Debug)]
pub struct Version {
    pub loaders: Vec<String>,
    pub id: String,
    pub project_id: String,
    pub version_number: String,
    pub date_published: i64,
    pub files: Vec<File>,
    pub dependencies: Vec<Dependency>,
}

/// Whether a platform (client or server) requires, tolerates, or rejects
/// a project.
#[derive(Debug, Clone, Copy, PartialEq, Eq, Structural)]
pub enum PlatformRequirement {
    Required,
    Optional,
    Unsupported,
    Unknown,
}

/// Registry metadata for one project.
#[derive(Debug)]
pub struct Project {
    pub slug: String,
    pub id: String,
    pub client_side: PlatformRequirement,
    pub server_side: PlatformRequirement,
}

/// The files of `version` that the registry marks as primary, in order.
pub fn primary_files(version: &Version) -> (r: Vec<File>)
    ensures
        r@ == version.files@.filter(|f: File| f.primary),
{
    let mut r: Vec<File> = Vec::new();
    let mut i: usize = 0;
    while i < version.files.len()
        invariant
            i <= version.files.len(),
            r@ == version.files@.take(i as int).filter(|f: File| f.primary),
        decreases version.files.len() - i,
    {
        proof {
            reveal(Seq::filter);
            assert(version.files@.take(i + 1).drop_last() == version.files@.take(i as int));
        }
        if version.files[i].primary {
            r.push(version.files[i].clone());
            proof {
                assert(version.files@.take(i + 1).last() == version.files@[i as int]);
            }
        }
        i += 1;
    }
    proof {
        assert(version.files@.take(version.files@.len() as int) == version.files@);
    }
    r
}

/// The dependencies of `version` with kind `Required`, in order.
pub fn required_dependencies(version: &Version) -> (r: Vec<Dependency>)
    ensures
        r@ == version.dependencies@.filter(
            |d: Dependency| d.dependency_type == DependencyType::Required,
        ),
{
    let mut r: Vec<Dependency> = Vec::new();
    let mut i: usize = 0;
    while i < version.dependencies.len()
        invariant
            i <= version.dependencies.len(),
            r@ == version.dependencies@.take(i as int).filter(
                |d: Dependency| d.dependency_type == DependencyType::Required,
            ),
        decreases version.dependencies.len() - i,
    {
        proof {
            reveal(Seq::filter);
            assert(version.dependencies@.take(i + 1).drop_last() == version.dependencies@.take(
                i as int,
            ));
        }
        if version.dependencies[i].dependency_type == DependencyType::Required {
            r.push(version.dependencies[i].clone());
            proof {
                assert(version.dependencies@.take(i + 1).last() == version.dependencies@[i as int]);
            }
        }
        i += 1;
    }
    proof {
        assert(version.dependencies@.take(version.dependencies@.len() as int)
            == version.dependencies@);
    }
    r
}

} // verus!
