//! The declared inputs of a run: which projects are wanted, for which
//! loader, and under which version pin.

use vstd::prelude::*;

use crate::text::str_eq;

verus! {

/// A version pin for one declared project: `None` is the wildcard (any
/// version), `Some(p)` keeps only versions whose number or identifier
/// equals `p`.
#[derive(Debug)]
pub struct Project {
    pub version: Option<String>,
}

impl Project {
    /// Whether this pin accepts a version with the given number and id.
    pub open spec fn spec_accepts(self, version_number: Seq<char>, version_id: Seq<char>) -> bool {
        match self.version {
            Option::None => true,
            Option::Some(p) => version_number == p@ || version_id == p@,
        }
    }

    /// Whether this pin accepts a version with the given number and id.
    pub fn accepts(&self, version_number: &str, version_id: &str) -> (r: bool)
        ensures
            r == self.spec_accepts(version_number@, version_id@),
    {
        match &self.version {
            None => true,
            Some(p) => str_eq(p.as_str(), version_number) || str_eq(p.as_str(), version_id),
        }
    }

    /// Normalizes the textual pin forms: the wildcard marker becomes the
    /// wildcard pin, any other text becomes an exact pin on that text.
    pub fn from_version_text(s: &str) -> (r: Project)
        ensures
            s@ == "*"@ ==> r.version is None,
            s@ != "*"@ ==> (r.version matches Some(p) && p@ == s@),
    {
        if str_eq(s, "*") {
            Project { version: None }
        } else {
            Project { version: Some(s.to_owned()) }
        }
    }
}

impl Clone for Project {
    fn clone(&self) -> (res: Self)
        ensures
            res == *self,
    {
        Project { version: self.version.clone() }
    }
}

impl Default for Project {
    /// The default pin is the wildcard.
    fn default() -> (res: Self)
        ensures
            res.version is None,
    {
        Project { version: None }
    }
}

/// The two loader kinds a manifest can declare content for.
#[derive(Debug, Clone, Copy, PartialEq, Eq, Structural)]
pub enum Loader {
    Datapack,
    Fabric,
}

impl Loader {
    /// The loader's name as it appears in registry version metadata.
    pub open spec fn spec_name(self) -> Seq<char> {
        match self {
            Loader::Datapack => "datapack"@,
            Loader::Fabric => "fabric"@,
        }
    }

    /// The loader's name, used for registry queries and output paths.
    pub fn name(&self) -> (r: String)
        ensures
            r@ == self.spec_name(),
    {
        match self {
            Loader::Datapack => "datapack".to_owned(),
            Loader::Fabric => "fabric".to_owned(),
        }
    }

    /// Whether `s` names this loader.
    pub fn matches(&self, s: &str) -> (r: bool)
        ensures
            r == (s@ == self.spec_name()),
    {
        match self {
            Loader::Datapack => str_eq(s, "datapack"),
            Loader::Fabric => str_eq(s, "fabric"),
        }
    }
}

/// Whether `entries` holds an entry for `name`.
pub open spec fn spec_contains_name(entries: Seq<(String, Project)>, name: Seq<char>) -> bool {
    exists|i: int| 0 <= i < entries.len() && entries[i].0@ == name
}

/// Whether `names` holds `n`.
pub open spec fn spec_name_in(names: Seq<String>, n: Seq<char>) -> bool {
    exists|j: int| 0 <= j < names.len() && names[j]@ == n
}

proof fn lemma_contains_name_push(entries: Seq<(String, Project)>, e: (String, Project), n: Seq<char>)
    requires
        spec_contains_name(entries, n),
    ensures
        spec_contains_name(entries.push(e), n),
{
    let w = choose|i: int| 0 <= i < entries.len() && entries[i].0@ == n;
    assert(entries.push(e)[w].0@ == n);
}

/// Whether no two entries share a project name.
pub open spec fn names_unique(entries: Seq<(String, Project)>) -> bool {
    forall|i: int, j: int|
        0 <= i < j < entries.len() ==> entries[i].0@ != entries[j].0@
}

/// The declared desired set of projects, one ordered name-to-pin list per
/// loader kind.
#[derive(Debug)]
pub struct Manifest {
    pub datapack: Vec<(String, Project)>,
    pub fabric: Vec<(String, Project)>,
}

impl Manifest {
    /// The entry list for one loader.
    pub open spec fn spec_get(self, loader: Loader) -> Seq<(String, Project)> {
        match loader {
            Loader::Datapack => self.datapack@,
            Loader::Fabric => self.fabric@,
        }
    }

    /// Names are unique within each loader's list.
    pub open spec fn wf(self) -> bool {
        &&& names_unique(self.datapack@)
        &&& names_unique(self.fabric@)
    }

    /// Builds a manifest whose every entry carries the wildcard pin. A
    /// name that repeats in its list is kept once.
    pub fn new(datapack: Vec<String>, fabric: Vec<String>) -> (r: Manifest)
        ensures
            r.wf(),
            forall|i: int|
                0 <= i < r.datapack@.len() ==> (#[trigger] r.datapack@[i]).1.version is None,
            forall|i: int|
                0 <= i < r.fabric@.len() ==> (#[trigger] r.fabric@[i]).1.version is None,
            forall|i: int|
                0 <= i < datapack@.len() ==> spec_contains_name(
                    r.datapack@,
                    (#[trigger] datapack@[i])@,
                ),
            forall|i: int|
                0 <= i < fabric@.len() ==> spec_contains_name(r.fabric@, (#[trigger] fabric@[i])@),
            forall|i: int|
                0 <= i < r.datapack@.len() ==> spec_name_in(
                    datapack@,
                    (#[trigger] r.datapack@[i]).0@,
                ),
            forall|i: int|
                0 <= i < r.fabric@.len() ==> spec_name_in(fabric@, (#[trigger] r.fabric@[i]).0@),
    {
        let dp = wildcard_entries(datapack);
        let fb = wildcard_entries(fabric);
        Manifest { datapack: dp, fabric: fb }
    }

    /// The declared (name, pin) entries for `loader`.
    pub fn get(&self, loader: Loader) -> (r: &Vec<(String, Project)>)
        ensures
            r@ == self.spec_get(loader),
    {
        match loader {
            Loader::Datapack => &self.datapack,
            Loader::Fabric => &self.fabric,
        }
    }

    /// Whether neither loader declares any project.
    pub fn is_empty(&self) -> (r: bool)
        ensures
            r == (self.datapack@.len() == 0 && self.fabric@.len() == 0),
    {
        self.datapack.is_empty() && self.fabric.is_empty()
    }
}

impl Default for Manifest {
    /// The default manifest declares nothing.
    fn default() -> (res: Self)
        ensures
            res.datapack@.len() == 0,
            res.fabric@.len() == 0,
    {
        Manifest { datapack: Vec::new(), fabric: Vec::new() }
    }
}

/// Whether `entries` holds an entry for `name`.
fn contains_name(entries: &Vec<(String, Project)>, name: &String) -> (r: bool)
    ensures
        r == spec_contains_name(entries@, name@),
{
    let mut i: usize = 0;
    while i < entries.len()
        invariant
            i <= entries.len(),
            forall|k: int| 0 <= k < i ==> entries@[k].0@ != name@,
        decreases entries.len() - i,
    {
        if entries[i].0 == *name {
            return true;
        }
        i += 1;
    }
    false
}

/// Pairs each name with the wildcard pin, keeping the first occurrence of
/// a repeated name.
fn wildcard_entries(names: Vec<String>) -> (r: Vec<(String, Project)>)
    ensures
        names_unique(r@),
        forall|i: int| 0 <= i < r@.len() ==> (#[trigger] r@[i]).1.version is None,
        forall|i: int| 0 <= i < names@.len() ==> spec_contains_name(r@, (#[trigger] names@[i])@),
        forall|i: int| 0 <= i < r@.len() ==> spec_name_in(names@, (#[trigger] r@[i]).0@),
{
    let mut r: Vec<(String, Project)> = Vec::new();
    let mut i: usize = 0;
    while i < names.len()
        invariant
            i <= names.len(),
            names_unique(r@),
            forall|k: int| 0 <= k < r@.len() ==> (#[trigger] r@[k]).1.version is None,
            forall|k: int| 0 <= k < i ==> spec_contains_name(r@, (#[trigger] names@[k])@),
            forall|k: int| 0 <= k < r@.len() ==> spec_name_in(names@, (#[trigger] r@[k]).0@),
        decreases names.len() - i,
    {
        let name = &names[i];
        if !contains_name(&r, name) {
            let ghost pre = r@;
            r.push((name.clone(), Project { version: None }));
            proof {
                assert(r@ == pre.push((names@[i as int], Project { version: None })));
                assert(r@[pre.len() as int].0@ == names@[i as int]@);
                assert forall|k: int| 0 <= k < i + 1 implies spec_contains_name(
                    r@,
                    (#[trigger] names@[k])@,
                ) by {
                    if k < i {
                        lemma_contains_name_push(
                            pre,
                            (names@[i as int], Project { version: None }),
                            names@[k]@,
                        );
                    }
                }
                assert forall|k: int| 0 <= k < r@.len() implies spec_name_in(
                    names@,
                    (#[trigger] r@[k]).0@,
                ) by {
                    if k < pre.len() {
                        assert(r@[k] == pre[k]);
                    } else {
                        assert(names@[i as int]@ == r@[k].0@);
                    }
                }
            }
        }
        i += 1;
    }
    r
}

} // verus!
