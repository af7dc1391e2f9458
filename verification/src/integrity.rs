//! Checking rows that come from elsewhere against the constraints of the
//! tables, before the store is worked on.
use crate::db::{Build, Madoguchi, Pkg, Repo};
use vstd::prelude::*;

verus! {

impl Madoguchi {
    /// Whether no two repositories share a name.
    pub fn repos_unique(&self) -> (ok: bool)
        ensures
            ok == self@.repos_unique(),
    {
        let n = self.repos.len();
        let mut i: usize = 0;
        while i < n
            invariant
                i <= n,
                n == self.repos.len(),
                forall|a: int, b: int|
                    0 <= a < b < n && a < i ==> #[trigger] self@.repos[a].name
                        != #[trigger] self@.repos[b].name,
            decreases n - i,
        {
            let mut j: usize = i + 1;
            while j < n
                invariant
                    i < j <= n,
                    n == self.repos.len(),
                    forall|b: int|
                        i < b < j ==> self@.repos[i as int].name != (#[trigger] self@.repos[b]).name,
                decreases n - j,
            {
                if self.repos[i].name == self.repos[j].name {
                    assert(self@.repos[i as int].name == self@.repos[j as int].name);
                    return false;
                }
                j += 1;
            }
            i += 1;
        }
        true
    }

    /// Whether no two packages share repository, name and architecture.
    pub fn pkgs_unique(&self) -> (ok: bool)
        ensures
            ok == self@.pkgs_unique(),
    {
        let n = self.pkgs.len();
        let mut i: usize = 0;
        while i < n
            invariant
                i <= n,
                n == self.pkgs.len(),
                forall|a: int, b: int|
                    0 <= a < b < n && a < i ==> #[trigger] self@.pkgs[a].key()
                        != #[trigger] self@.pkgs[b].key(),
            decreases n - i,
        {
            let mut j: usize = i + 1;
            while j < n
                invariant
                    i < j <= n,
                    n == self.pkgs.len(),
                    forall|b: int|
                        i < b < j ==> self@.pkgs[i as int].key() != (#[trigger] self@.pkgs[b]).key(),
                decreases n - j,
            {
                let x = &self.pkgs[i];
                let y = &self.pkgs[j];
                if x.repo == y.repo && x.name == y.name && x.arch == y.arch {
                    assert(self@.pkgs[i as int].key() == self@.pkgs[j as int].key());
                    return false;
                }
                j += 1;
            }
            i += 1;
        }
        true
    }

    /// Whether no two builds share identifier and package name.
    pub fn builds_unique(&self) -> (ok: bool)
        ensures
            ok == self@.builds_unique(),
    {
        let n = self.builds.len();
        let mut i: usize = 0;
        while i < n
            invariant
                i <= n,
                n == self.builds.len(),
                forall|a: int, b: int|
                    0 <= a < b < n && a < i ==> #[trigger] self@.builds[a].key()
                        != #[trigger] self@.builds[b].key(),
            decreases n - i,
        {
            let mut j: usize = i + 1;
            while j < n
                invariant
                    i < j <= n,
                    n == self.builds.len(),
                    forall|b: int|
                        i < b < j ==> self@.builds[i as int].key() != (
                        #[trigger] self@.builds[b]).key(),
                decreases n - j,
            {
                let x = &self.builds[i];
                let y = &self.builds[j];
                if x.id == y.id && x.pname == y.pname {
                    assert(self@.builds[i as int].key() == self@.builds[j as int].key());
                    return false;
                }
                j += 1;
            }
            i += 1;
        }
        true
    }

    /// Whether every package and every build belongs to a registered
    /// repository.
    pub fn references_hold(&self) -> (ok: bool)
        ensures
            ok == self@.references_hold(),
    {
        let mut i: usize = 0;
        while i < self.pkgs.len()
            invariant
                i <= self.pkgs.len(),
                forall|a: int| 0 <= a < i ==> self@.has_repo(#[trigger] self@.pkgs[a].repo),
            decreases self.pkgs.len() - i,
        {
            if self.find_repo(self.pkgs[i].repo.as_str()).is_none() {
                assert(!self@.has_repo(self@.pkgs[i as int].repo));
                return false;
            }
            i += 1;
        }
        let mut k: usize = 0;
        while k < self.builds.len()
            invariant
                k <= self.builds.len(),
                forall|a: int|
                    0 <= a < self@.pkgs.len() ==> self@.has_repo(#[trigger] self@.pkgs[a].repo),
                forall|a: int| 0 <= a < k ==> self@.has_repo(#[trigger] self@.builds[a].repo),
            decreases self.builds.len() - k,
        {
            if self.find_repo(self.builds[k].repo.as_str()).is_none() {
                assert(!self@.has_repo(self@.builds[k as int].repo));
                return false;
            }
            k += 1;
        }
        true
    }

    /// Whether the constraints of the three tables hold.
    pub fn check(&self) -> (ok: bool)
        ensures
            ok == self.wf(),
    {
        self.repos_unique() && self.pkgs_unique() && self.builds_unique() && self.references_hold()
    }

    /// A store that can be reached and holds these rows, where they meet the
    /// constraints of the tables; `None` where they do not.
    pub fn load(repos: Vec<Repo>, pkgs: Vec<Pkg>, builds: Vec<Build>) -> (r: Option<Madoguchi>)
        ensures
            match r {
                Some(db) => db.wf() && db.up && db.repos == repos && db.pkgs == pkgs && db.builds
                    == builds,
                None => !(Madoguchi { repos, pkgs, builds, up: true }).wf(),
            },
    {
        let db = Madoguchi { repos, pkgs, builds, up: true };
        if db.check() {
            Some(db)
        } else {
            None
        }
    }
}

} // verus!
