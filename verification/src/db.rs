//! The three tables of the service: repositories, packages and builds.
//!
//! [`Madoguchi`] holds the rows in memory. [`Tables`] is what it holds, as
//! sequences of row views in the order in which the rows were stored; the
//! contracts of the whole crate speak of that model.
use crate::error::Error;
use vstd::prelude::*;

verus! {

/// A tracked package source.
#[derive(Debug, PartialEq, Eq)]
pub struct Repo {
    /// Unique name of the repository.
    pub name: String,
    /// Where the repository is published.
    pub link: String,
    /// Where its sources are kept.
    pub gh: String,
}

/// What a [`Repo`] holds.
pub ghost struct RepoView {
    pub name: Seq<char>,
    pub link: Seq<char>,
    pub gh: Seq<char>,
}

impl View for Repo {
    type V = RepoView;

    open spec fn view(&self) -> RepoView {
        RepoView { name: self.name@, link: self.link@, gh: self.gh@ }
    }
}

impl Clone for Repo {
    fn clone(&self) -> (r: Self)
        ensures
            r@ == self@,
    {
        Repo { name: self.name.clone(), link: self.link.clone(), gh: self.gh.clone() }
    }
}

/// The latest known state of a package in a repository.
#[derive(Debug, PartialEq, Eq)]
pub struct Pkg {
    pub name: String,
    pub repo: String,
    pub ver: String,
    pub rel: String,
    pub arch: String,
    /// Directory of the package's sources within the repository's sources.
    pub dirs: String,
}

/// What a [`Pkg`] holds.
pub ghost struct PkgView {
    pub name: Seq<char>,
    pub repo: Seq<char>,
    pub ver: Seq<char>,
    pub rel: Seq<char>,
    pub arch: Seq<char>,
    pub dirs: Seq<char>,
}

/// What identifies a package row: repository, name and architecture.
pub ghost struct PkgKey {
    pub repo: Seq<char>,
    pub name: Seq<char>,
    pub arch: Seq<char>,
}

impl PkgView {
    /// The unique key of the row.
    pub open spec fn key(self) -> PkgKey {
        PkgKey { repo: self.repo, name: self.name, arch: self.arch }
    }
}

impl View for Pkg {
    type V = PkgView;

    open spec fn view(&self) -> PkgView {
        PkgView {
            name: self.name@,
            repo: self.repo@,
            ver: self.ver@,
            rel: self.rel@,
            arch: self.arch@,
            dirs: self.dirs@,
        }
    }
}

impl Clone for Pkg {
    fn clone(&self) -> (r: Self)
        ensures
            r@ == self@,
    {
        Pkg {
            name: self.name.clone(),
            repo: self.repo.clone(),
            ver: self.ver.clone(),
            rel: self.rel.clone(),
            arch: self.arch.clone(),
            dirs: self.dirs.clone(),
        }
    }
}

/// One build attempt of a package.
#[derive(Debug, PartialEq, Eq)]
pub struct Build {
    /// Identifier that the build system gave to the run.
    pub id: String,
    /// When the report arrived, in microseconds since 1970-01-01 00:00:00 UTC.
    pub epoch: i64,
    pub pname: String,
    pub pver: String,
    pub prel: String,
    pub parch: String,
    pub repo: String,
    /// Whether the build succeeded.
    pub succ: bool,
    /// The source revision that was built, where it is known.
    pub commit: Option<String>,
}

/// What a [`Build`] holds.
pub ghost struct BuildView {
    pub id: Seq<char>,
    pub epoch: int,
    pub pname: Seq<char>,
    pub pver: Seq<char>,
    pub prel: Seq<char>,
    pub parch: Seq<char>,
    pub repo: Seq<char>,
    pub succ: bool,
    pub commit: Option<Seq<char>>,
}

impl View for Build {
    type V = BuildView;

    open spec fn view(&self) -> BuildView {
        BuildView {
            id: self.id@,
            epoch: self.epoch as int,
            pname: self.pname@,
            pver: self.pver@,
            prel: self.prel@,
            parch: self.parch@,
            repo: self.repo@,
            succ: self.succ,
            commit: match self.commit {
                Some(c) => Some(c@),
                None => None,
            },
        }
    }
}

impl Clone for Build {
    fn clone(&self) -> (r: Self)
        ensures
            r@ == self@,
    {
        Build {
            id: self.id.clone(),
            epoch: self.epoch,
            pname: self.pname.clone(),
            pver: self.pver.clone(),
            prel: self.prel.clone(),
            parch: self.parch.clone(),
            repo: self.repo.clone(),
            succ: self.succ,
            commit: match &self.commit {
                Some(c) => Some(c.clone()),
                None => None,
            },
        }
    }
}

impl BuildView {
    /// What may occur only once in the ledger: a run's identifier together
    /// with the package it is recorded under.
    pub open spec fn key(self) -> (Seq<char>, Seq<char>) {
        (self.id, self.pname)
    }
}

/// The views of the rows in `v`, in order.
pub open spec fn repo_views(v: Seq<Repo>) -> Seq<RepoView> {
    v.map_values(|r: Repo| r@)
}

/// The views of the rows in `v`, in order.
pub open spec fn pkg_views(v: Seq<Pkg>) -> Seq<PkgView> {
    v.map_values(|p: Pkg| p@)
}

/// The views of the rows in `v`, in order.
pub open spec fn build_views(v: Seq<Build>) -> Seq<BuildView> {
    v.map_values(|b: Build| b@)
}

/// Whether a row was added or an existing one was overwritten.
#[derive(Clone, Copy, Debug, PartialEq, Eq, Structural)]
pub enum UpsertOutcome {
    Inserted,
    Updated,
}

/// The content of the store.
pub ghost struct Tables {
    pub repos: Seq<RepoView>,
    pub pkgs: Seq<PkgView>,
    pub builds: Seq<BuildView>,
    /// Whether the store can be reached.
    pub up: bool,
}

impl Tables {
    /// Whether a repository of that name is registered.
    pub open spec fn has_repo(self, name: Seq<char>) -> bool {
        exists|i: int| 0 <= i < self.repos.len() && #[trigger] self.repos[i].name == name
    }

    /// Whether a package row with that key is stored.
    pub open spec fn has_pkg(self, key: PkgKey) -> bool {
        exists|i: int| 0 <= i < self.pkgs.len() && #[trigger] self.pkgs[i].key() == key
    }

    /// Whether a build row carries that identifier.
    pub open spec fn has_build(self, id: Seq<char>) -> bool {
        exists|i: int| 0 <= i < self.builds.len() && #[trigger] self.builds[i].id == id
    }

    /// No two repositories share a name.
    pub open spec fn repos_unique(self) -> bool {
        forall|i: int, j: int|
            0 <= i < j < self.repos.len() ==> #[trigger] self.repos[i].name
                != #[trigger] self.repos[j].name
    }

    /// No two packages share repository, name and architecture.
    pub open spec fn pkgs_unique(self) -> bool {
        forall|i: int, j: int|
            0 <= i < j < self.pkgs.len() ==> #[trigger] self.pkgs[i].key()
                != #[trigger] self.pkgs[j].key()
    }

    /// No two builds share identifier and package name.
    pub open spec fn builds_unique(self) -> bool {
        forall|i: int, j: int|
            0 <= i < j < self.builds.len() ==> #[trigger] self.builds[i].key()
                != #[trigger] self.builds[j].key()
    }

    /// Every package and every build belongs to a registered repository.
    pub open spec fn references_hold(self) -> bool {
        &&& forall|i: int|
            0 <= i < self.pkgs.len() ==> self.has_repo(#[trigger] self.pkgs[i].repo)
        &&& forall|i: int|
            0 <= i < self.builds.len() ==> self.has_repo(#[trigger] self.builds[i].repo)
    }

    /// The constraints of the three tables.
    pub open spec fn wf(self) -> bool {
        &&& self.repos_unique()
        &&& self.pkgs_unique()
        &&& self.builds_unique()
        &&& self.references_hold()
    }

    /// Whether `i` is the position of the first repository named `name`.
    pub open spec fn is_repo_at(self, i: int, name: Seq<char>) -> bool {
        &&& 0 <= i < self.repos.len()
        &&& self.repos[i].name == name
        &&& forall|j: int| 0 <= j < i ==> (#[trigger] self.repos[j]).name != name
    }

    /// Position of the repository `name`, where it is registered.
    pub open spec fn repo_index(self, name: Seq<char>) -> int {
        choose|i: int| 0 <= i < self.repos.len() && #[trigger] self.repos[i].name == name
    }

    /// Position of the package row with that key, where it is stored.
    pub open spec fn pkg_index(self, key: PkgKey) -> int {
        choose|i: int| 0 <= i < self.pkgs.len() && #[trigger] self.pkgs[i].key() == key
    }

    /// The tables after `r` was registered: in place of the repository of
    /// its name, or as the last row.
    pub open spec fn with_repo(self, r: RepoView) -> Tables {
        if self.has_repo(r.name) {
            Tables { repos: self.repos.update(self.repo_index(r.name), r), ..self }
        } else {
            Tables { repos: self.repos.push(r), ..self }
        }
    }

    /// The tables after `p` was stored: in place of the row of its key, or as
    /// the last row.
    pub open spec fn with_pkg(self, p: PkgView) -> Tables {
        if self.has_pkg(p.key()) {
            Tables { pkgs: self.pkgs.update(self.pkg_index(p.key()), p), ..self }
        } else {
            Tables { pkgs: self.pkgs.push(p), ..self }
        }
    }

    /// The tables without the repository `name` and without the packages and
    /// builds that belong to it.
    pub open spec fn without_repo(self, name: Seq<char>) -> Tables {
        Tables {
            repos: self.repos.filter(repo_is_not(name)),
            pkgs: self.pkgs.filter(pkg_outside(name)),
            builds: self.builds.filter(build_outside(name)),
            up: self.up,
        }
    }
}

/// Holds of the repositories with another name than `name`.
pub open spec fn repo_is_not(name: Seq<char>) -> spec_fn(RepoView) -> bool {
    |r: RepoView| r.name != name
}

/// Holds of the packages that belong to another repository than `name`.
pub open spec fn pkg_outside(name: Seq<char>) -> spec_fn(PkgView) -> bool {
    |p: PkgView| p.repo != name
}

/// Holds of the builds that belong to another repository than `name`.
pub open spec fn build_outside(name: Seq<char>) -> spec_fn(BuildView) -> bool {
    |b: BuildView| b.repo != name
}

/// Tables with the same repositories have the same repositories registered.
pub proof fn lemma_same_repos(t: Tables, n: Tables)
    requires
        n.repos == t.repos,
    ensures
        forall|name: Seq<char>| t.has_repo(name) == n.has_repo(name),
{
    assert forall|name: Seq<char>| t.has_repo(name) == n.has_repo(name) by {
        if t.has_repo(name) {
            let i = t.repo_index(name);
            assert(n.repos[i].name == name);
        }
        if n.has_repo(name) {
            let i = n.repo_index(name);
            assert(t.repos[i].name == name);
        }
    }
}

/// Filtering a sequence with one more element filters the element.
pub proof fn lemma_filter_push<A>(s: Seq<A>, x: A, keep: spec_fn(A) -> bool)
    ensures
        s.push(x).filter(keep) == if keep(x) {
            s.filter(keep).push(x)
        } else {
            s.filter(keep)
        },
{
    reveal(Seq::filter);
    assert(s.push(x).drop_last() =~= s);
}

/// What a filter keeps is, in order, part of what it was given: each kept
/// element has a position in the sequence given, and positions grow.
pub proof fn lemma_filter_positions<A>(s: Seq<A>, keep: spec_fn(A) -> bool) -> (at: Seq<int>)
    ensures
        at.len() == s.filter(keep).len(),
        forall|k: int|
            0 <= k < at.len() ==> 0 <= #[trigger] at[k] < s.len() && s.filter(keep)[k] == s[at[k]]
                && keep(s[at[k]]),
        forall|k: int, l: int| 0 <= k < l < at.len() ==> at[k] < at[l],
        forall|i: int|
            0 <= i < s.len() && keep(s[i]) ==> exists|k: int|
                0 <= k < at.len() && #[trigger] at[k] == i,
    decreases s.len(),
{
    reveal(Seq::filter);
    if s.len() == 0 {
        Seq::empty()
    } else {
        let rest = s.drop_last();
        let at = lemma_filter_positions(rest, keep);
        if keep(s.last()) {
            let all = at.push(s.len() - 1);
            assert forall|i: int| 0 <= i < s.len() && keep(s[i]) implies exists|k: int|
                0 <= k < all.len() && #[trigger] all[k] == i by {
                if i < s.len() - 1 {
                    assert(keep(rest[i]));
                    let k = choose|k: int| 0 <= k < at.len() && #[trigger] at[k] == i;
                    assert(all[k] == i);
                } else {
                    assert(all[at.len() as int] == i);
                }
            }
            all
        } else {
            assert forall|i: int| 0 <= i < s.len() && keep(s[i]) implies exists|k: int|
                0 <= k < at.len() && #[trigger] at[k] == i by {
                assert(keep(rest[i]));
            }
            at
        }
    }
}

/// The store: three tables, and whether they can be reached.
///
/// A store that is not [`wf`](Madoguchi::wf) breaks a constraint of the
/// tables; every operation asks for a store that is, and leaves one.
#[derive(Debug)]
pub struct Madoguchi {
    pub repos: Vec<Repo>,
    pub pkgs: Vec<Pkg>,
    pub builds: Vec<Build>,
    /// Whether the store can be reached. Operations on a store that cannot
    /// fail with [`Error::StoreUnavailable`] and change nothing.
    pub up: bool,
}

impl View for Madoguchi {
    type V = Tables;

    open spec fn view(&self) -> Tables {
        Tables {
            repos: repo_views(self.repos@),
            pkgs: pkg_views(self.pkgs@),
            builds: build_views(self.builds@),
            up: self.up,
        }
    }
}

impl Madoguchi {
    /// The constraints of the three tables hold.
    pub open spec fn wf(&self) -> bool {
        self@.wf()
    }

    /// An empty store that can be reached.
    pub fn new() -> (db: Madoguchi)
        ensures
            db.wf(),
            db@.up,
            db@.repos.len() == 0,
            db@.pkgs.len() == 0,
            db@.builds.len() == 0,
    {
        Madoguchi { repos: Vec::new(), pkgs: Vec::new(), builds: Vec::new(), up: true }
    }
}

} // verus!
