//! The table of repositories: registering, listing and deleting.
//!
//! Deleting a repository deletes the packages and the builds that belong to
//! it.
use crate::db::{
    build_outside, build_views, lemma_filter_positions, lemma_filter_push, pkg_outside, pkg_views,
    repo_is_not, repo_views, Build, Madoguchi, Pkg, Repo, RepoView, Tables, UpsertOutcome,
};
use crate::error::Error;
use crate::text::strip_trailing_slash;
use vstd::prelude::*;
use vstd::string::StringExecFns;

verus! {

/// Deleting a repository keeps the constraints of the tables.
pub proof fn lemma_without_repo_wf(t: Tables, name: Seq<char>)
    requires
        t.wf(),
    ensures
        t.without_repo(name).wf(),
        !t.without_repo(name).has_repo(name),
{
    let n = t.without_repo(name);
    let ra = lemma_filter_positions(t.repos, repo_is_not(name));
    let pa = lemma_filter_positions(t.pkgs, pkg_outside(name));
    let ba = lemma_filter_positions(t.builds, build_outside(name));
    assert(n.repos_unique()) by {
        assert forall|i: int, j: int| 0 <= i < j < n.repos.len() implies #[trigger] n.repos[i].name
            != #[trigger] n.repos[j].name by {
            assert(ra[i] < ra[j]);
            assert(t.repos[ra[i]].name != t.repos[ra[j]].name);
        }
    }
    assert(n.pkgs_unique()) by {
        assert forall|i: int, j: int| 0 <= i < j < n.pkgs.len() implies #[trigger] n.pkgs[i].key()
            != #[trigger] n.pkgs[j].key() by {
            assert(pa[i] < pa[j]);
            assert(t.pkgs[pa[i]].key() != t.pkgs[pa[j]].key());
        }
    }
    assert(n.builds_unique()) by {
        assert forall|i: int, j: int|
            0 <= i < j < n.builds.len() implies #[trigger] n.builds[i].key()
            != #[trigger] n.builds[j].key() by {
            assert(ba[i] < ba[j]);
            assert(t.builds[ba[i]].key() != t.builds[ba[j]].key());
        }
    }
    assert forall|of: Seq<char>| of != name && t.has_repo(of) implies n.has_repo(of) by {
        let i = t.repo_index(of);
        assert(repo_is_not(name)(t.repos[i]));
        let k = choose|k: int| 0 <= k < ra.len() && #[trigger] ra[k] == i;
        assert(n.repos[k].name == of);
    }
    assert(n.references_hold()) by {
        assert forall|i: int| 0 <= i < n.pkgs.len() implies n.has_repo(
            #[trigger] n.pkgs[i].repo,
        ) by {
            assert(t.has_repo(t.pkgs[pa[i]].repo));
        }
        assert forall|i: int| 0 <= i < n.builds.len() implies n.has_repo(
            #[trigger] n.builds[i].repo,
        ) by {
            assert(t.has_repo(t.builds[ba[i]].repo));
        }
    }
    if n.has_repo(name) {
        let k = choose|k: int| 0 <= k < n.repos.len() && #[trigger] n.repos[k].name == name;
        assert(repo_is_not(name)(t.repos[ra[k]]));
    }
}

impl Madoguchi {
    /// Position of the repository `name`, if it is registered.
    pub fn find_repo(&self, name: &str) -> (r: Option<usize>)
        ensures
            match r {
                Some(i) => self@.is_repo_at(i as int, name@),
                None => !self@.has_repo(name@),
            },
    {
        let wanted = String::from_str(name);
        let mut i: usize = 0;
        while i < self.repos.len()
            invariant
                i <= self.repos.len(),
                wanted@ == name@,
                forall|j: int| 0 <= j < i ==> (#[trigger] self@.repos[j]).name != name@,
            decreases self.repos.len() - i,
        {
            if self.repos[i].name == wanted {
                return Some(i);
            }
            i += 1;
        }
        None
    }

    /// Registers the repository `name`, or overwrites its links where it is
    /// registered already. The links are stored without one trailing `/`.
    pub fn put_repo(&mut self, name: &str, link: &str, gh: &str) -> (r: Result<
        UpsertOutcome,
        Error,
    >)
        requires
            old(self).wf(),
        ensures
            final(self).wf(),
            !old(self)@.up ==> r == Err::<UpsertOutcome, Error>(Error::StoreUnavailable)
                && final(self)@ == old(self)@,
            old(self)@.up ==> final(self)@ == old(self)@.with_repo(stored_repo(name@, link@, gh@))
                && r == Ok::<UpsertOutcome, Error>(
                if old(self)@.has_repo(name@) {
                    UpsertOutcome::Updated
                } else {
                    UpsertOutcome::Inserted
                },
            ),
    {
        if !self.up {
            return Err(Error::StoreUnavailable);
        }
        let row = Repo {
            name: String::from_str(name),
            link: strip_trailing_slash(link),
            gh: strip_trailing_slash(gh),
        };
        let ghost before = self@;
        let ghost rv = row@;
        match self.find_repo(name) {
            Some(i) => {
                proof {
                    assert(before.repos[i as int].name == name@);
                    assert(before.has_repo(name@));
                    assert(before.repo_index(name@) == i) by {
                        let c = before.repo_index(name@);
                        if c < i {
                            assert(before.repos[c].name != before.repos[i as int].name);
                        } else if c > i {
                            assert(before.repos[i as int].name != before.repos[c].name);
                        }
                    }
                }
                self.repos[i] = row;
                proof {
                    let after = self@;
                    assert(after.repos =~= before.repos.update(i as int, rv));
                    assert(after.pkgs =~= before.pkgs);
                    assert(after.builds =~= before.builds);
                    lemma_with_repo_wf(before, rv);
                }
                Ok(UpsertOutcome::Updated)
            },
            None => {
                self.repos.push(row);
                proof {
                    let after = self@;
                    assert(after.repos =~= before.repos.push(rv));
                    assert(after.pkgs =~= before.pkgs);
                    assert(after.builds =~= before.builds);
                    lemma_with_repo_wf(before, rv);
                }
                Ok(UpsertOutcome::Inserted)
            },
        }
    }

    /// Deletes the repository `name` with its packages and builds.
    pub fn drop_repo(&mut self, name: &str) -> (r: Result<(), Error>)
        requires
            old(self).wf(),
        ensures
            final(self).wf(),
            !old(self)@.up ==> r == Err::<(), Error>(Error::StoreUnavailable) && final(self)@
                == old(self)@,
            old(self)@.up && !old(self)@.has_repo(name@) ==> r == Err::<(), Error>(Error::NotFound)
                && final(self)@ == old(self)@,
            old(self)@.up && old(self)@.has_repo(name@) ==> r.is_ok() && final(self)@
                == old(self)@.without_repo(name@),
    {
        if !self.up {
            return Err(Error::StoreUnavailable);
        }
        if self.find_repo(name).is_none() {
            return Err(Error::NotFound);
        }
        let wanted = String::from_str(name);
        let ghost before = self@;
        let mut repos: Vec<Repo> = Vec::new();
        let mut i: usize = 0;
        while i < self.repos.len()
            invariant
                i <= self.repos.len(),
                self@ == before,
                wanted@ == name@,
                repo_views(repos@) == before.repos.take(i as int).filter(repo_is_not(name@)),
            decreases self.repos.len() - i,
        {
            proof {
                lemma_filter_push(
                    before.repos.take(i as int),
                    before.repos[i as int],
                    repo_is_not(name@),
                );
                assert(before.repos.take(i + 1) =~= before.repos.take(i as int).push(
                    before.repos[i as int],
                ));
            }
            if self.repos[i].name != wanted {
                let row = self.repos[i].clone();
                let ghost kept = repos@;
                repos.push(row);
                assert(repo_views(repos@) =~= repo_views(kept).push(row@));
            }
            i += 1;
        }
        let mut pkgs: Vec<Pkg> = Vec::new();
        let mut i: usize = 0;
        while i < self.pkgs.len()
            invariant
                i <= self.pkgs.len(),
                self@ == before,
                wanted@ == name@,
                pkg_views(pkgs@) == before.pkgs.take(i as int).filter(pkg_outside(name@)),
            decreases self.pkgs.len() - i,
        {
            proof {
                lemma_filter_push(
                    before.pkgs.take(i as int),
                    before.pkgs[i as int],
                    pkg_outside(name@),
                );
                assert(before.pkgs.take(i + 1) =~= before.pkgs.take(i as int).push(
                    before.pkgs[i as int],
                ));
            }
            if self.pkgs[i].repo != wanted {
                let row = self.pkgs[i].clone();
                let ghost kept = pkgs@;
                pkgs.push(row);
                assert(pkg_views(pkgs@) =~= pkg_views(kept).push(row@));
            }
            i += 1;
        }
        let mut builds: Vec<Build> = Vec::new();
        let mut i: usize = 0;
        while i < self.builds.len()
            invariant
                i <= self.builds.len(),
                self@ == before,
                wanted@ == name@,
                build_views(builds@) == before.builds.take(i as int).filter(build_outside(name@)),
            decreases self.builds.len() - i,
        {
            proof {
                lemma_filter_push(
                    before.builds.take(i as int),
                    before.builds[i as int],
                    build_outside(name@),
                );
                assert(before.builds.take(i + 1) =~= before.builds.take(i as int).push(
                    before.builds[i as int],
                ));
            }
            if self.builds[i].repo != wanted {
                let row = self.builds[i].clone();
                let ghost kept = builds@;
                builds.push(row);
                assert(build_views(builds@) =~= build_views(kept).push(row@));
            }
            i += 1;
        }
        proof {
            assert(before.repos.take(before.repos.len() as int) =~= before.repos);
            assert(before.pkgs.take(before.pkgs.len() as int) =~= before.pkgs);
            assert(before.builds.take(before.builds.len() as int) =~= before.builds);
            lemma_without_repo_wf(before, name@);
        }
        self.repos = repos;
        self.pkgs = pkgs;
        self.builds = builds;
        Ok(())
    }

    /// The registered repositories, in the order in which they were
    /// registered.
    pub fn list_repos(&self) -> (r: Result<Vec<Repo>, Error>)
        ensures
            match r {
                Ok(v) => self@.up && repo_views(v@) == self@.repos,
                Err(e) => !self@.up && e == Error::StoreUnavailable,
            },
    {
        if !self.up {
            return Err(Error::StoreUnavailable);
        }
        let mut out: Vec<Repo> = Vec::new();
        let mut i: usize = 0;
        while i < self.repos.len()
            invariant
                i <= self.repos.len(),
                repo_views(out@) == self@.repos.take(i as int),
            decreases self.repos.len() - i,
        {
            let row = self.repos[i].clone();
            let ghost kept = out@;
            out.push(row);
            assert(repo_views(out@) =~= repo_views(kept).push(row@));
            assert(self@.repos.take(i + 1) =~= self@.repos.take(i as int).push(
                self@.repos[i as int],
            ));
            i += 1;
        }
        assert(self@.repos.take(self@.repos.len() as int) =~= self@.repos);
        Ok(out)
    }
}

/// The row that registering stores: the links without one trailing `/`.
pub open spec fn stored_repo(name: Seq<char>, link: Seq<char>, gh: Seq<char>) -> RepoView {
    RepoView {
        name,
        link: crate::text::without_trailing_slash(link),
        gh: crate::text::without_trailing_slash(gh),
    }
}

/// Registering a repository keeps the constraints of the tables.
pub proof fn lemma_with_repo_wf(t: Tables, r: RepoView)
    requires
        t.wf(),
    ensures
        t.with_repo(r).wf(),
        t.with_repo(r).has_repo(r.name),
        forall|name: Seq<char>| t.has_repo(name) ==> t.with_repo(r).has_repo(name),
{
    let n = t.with_repo(r);
    if t.has_repo(r.name) {
        let at = t.repo_index(r.name);
        assert(n.repos[at].name == r.name);
        assert forall|i: int, j: int| 0 <= i < j < n.repos.len() implies #[trigger] n.repos[i].name
            != #[trigger] n.repos[j].name by {
            assert(t.repos[i].name != t.repos[j].name);
        }
        assert forall|name: Seq<char>| t.has_repo(name) implies n.has_repo(name) by {
            let i = t.repo_index(name);
            assert(n.repos[i].name == name);
        }
    } else {
        assert(n.repos[t.repos.len() as int].name == r.name);
        assert forall|i: int, j: int| 0 <= i < j < n.repos.len() implies #[trigger] n.repos[i].name
            != #[trigger] n.repos[j].name by {
            if j < t.repos.len() {
                assert(t.repos[i].name != t.repos[j].name);
            } else {
                assert(t.repos[i].name != r.name);
            }
        }
        assert forall|name: Seq<char>| t.has_repo(name) implies n.has_repo(name) by {
            let i = t.repo_index(name);
            assert(n.repos[i].name == name);
        }
    }
    assert(n.references_hold()) by {
        assert forall|i: int| 0 <= i < n.pkgs.len() implies n.has_repo(
            #[trigger] n.pkgs[i].repo,
        ) by {
            assert(t.has_repo(t.pkgs[i].repo));
        }
        assert forall|i: int| 0 <= i < n.builds.len() implies n.has_repo(
            #[trigger] n.builds[i].repo,
        ) by {
            assert(t.has_repo(t.builds[i].repo));
        }
    }
}

} // verus!
