//! The ledger: the table of build attempts, in the order in which they were
//! recorded.
use crate::db::{
    build_views, lemma_filter_push, lemma_same_repos, Build, BuildView, Madoguchi, Tables,
};
use crate::error::Error;
use vstd::prelude::*;
use vstd::string::StringExecFns;

verus! {

/// Holds of the successful builds of the package `name` of `repo`; with a
/// `version`, of those of that version, release and architecture only.
pub open spec fn success_of(
    repo: Seq<char>,
    name: Seq<char>,
    version: Option<(Seq<char>, Seq<char>, Seq<char>)>,
) -> spec_fn(BuildView) -> bool {
    |b: BuildView|
        b.succ && b.repo == repo && b.pname == name && match version {
            Some(v) => b.pver == v.0 && b.prel == v.1 && b.parch == v.2,
            None => true,
        }
}

/// Holds of the builds recorded for the package `name` of `repo`.
pub open spec fn build_of(repo: Seq<char>, name: Seq<char>) -> spec_fn(BuildView) -> bool {
    |b: BuildView| b.repo == repo && b.pname == name
}

/// Whether row `i` is the most recent of the first `n` rows that `want`
/// holds of: none of them has a later time, and of those with the same time
/// it was recorded last.
pub open spec fn is_latest(
    builds: Seq<BuildView>,
    want: spec_fn(BuildView) -> bool,
    n: int,
    i: int,
) -> bool {
    &&& 0 <= i < n <= builds.len()
    &&& want(builds[i])
    &&& forall|j: int|
        0 <= j < n && want(#[trigger] builds[j]) ==> builds[j].epoch < builds[i].epoch || (
        builds[j].epoch == builds[i].epoch && j <= i)
}

/// The most recent row that `want` holds of, if there is one.
pub open spec fn latest(builds: Seq<BuildView>, want: spec_fn(BuildView) -> bool) -> Option<
    BuildView,
> {
    if exists|i: int| is_latest(builds, want, builds.len() as int, i) {
        Some(builds[choose|i: int| is_latest(builds, want, builds.len() as int, i)])
    } else {
        None
    }
}

/// There is one most recent row at most, and none only where `want` holds of
/// no row.
pub proof fn lemma_latest(builds: Seq<BuildView>, want: spec_fn(BuildView) -> bool, i: int)
    ensures
        is_latest(builds, want, builds.len() as int, i) ==> latest(builds, want) == Some(builds[i]),
        latest(builds, want).is_none() ==> forall|j: int|
            0 <= j < builds.len() ==> !want(#[trigger] builds[j]),
    decreases builds.len(),
{
    let n = builds.len() as int;
    if is_latest(builds, want, n, i) {
        let c = choose|c: int| is_latest(builds, want, n, c);
        assert(want(builds[c]) && want(builds[i]));
        assert(c == i);
    }
    if latest(builds, want).is_none() {
        lemma_some_latest(builds, want, n);
    }
}

/// Where `want` holds of one of the first `n` rows, one of them is the most
/// recent.
pub proof fn lemma_some_latest(builds: Seq<BuildView>, want: spec_fn(BuildView) -> bool, n: int)
    requires
        0 <= n <= builds.len(),
    ensures
        (exists|j: int| 0 <= j < n && want(#[trigger] builds[j])) ==> exists|i: int|
            is_latest(builds, want, n, i),
        (forall|i: int| !is_latest(builds, want, n, i)) ==> forall|j: int|
            0 <= j < n ==> !want(#[trigger] builds[j]),
    decreases n,
{
    if n > 0 {
        let m = n - 1;
        lemma_some_latest(builds, want, m);
        if exists|j: int| 0 <= j < n && want(#[trigger] builds[j]) {
            if exists|j: int| 0 <= j < m && want(#[trigger] builds[j]) {
                let b = choose|i: int| is_latest(builds, want, m, i);
                if want(builds[m]) && builds[m].epoch >= builds[b].epoch {
                    assert(is_latest(builds, want, n, m));
                } else {
                    assert(is_latest(builds, want, n, b));
                }
            } else {
                assert(want(builds[m]));
                assert(is_latest(builds, want, n, m));
            }
        }
    }
}

impl Tables {
    /// Whether a build is recorded under that identifier and package name.
    pub open spec fn has_build_row(self, id: Seq<char>, pname: Seq<char>) -> bool {
        exists|i: int| 0 <= i < self.builds.len() && #[trigger] self.builds[i].key() == (id, pname)
    }

    /// The tables with `b` as the last row of the ledger.
    pub open spec fn with_build(self, b: BuildView) -> Tables {
        Tables { builds: self.builds.push(b), ..self }
    }
}

/// Recording a build of a registered repository under a key that is not in
/// the ledger keeps the constraints of the tables.
pub proof fn lemma_with_build_wf(t: Tables, b: BuildView)
    requires
        t.wf(),
        t.has_repo(b.repo),
        !t.has_build_row(b.id, b.pname),
    ensures
        t.with_build(b).wf(),
{
    let n = t.with_build(b);
    lemma_same_repos(t, n);
    assert forall|i: int, j: int| 0 <= i < j < n.builds.len() implies #[trigger] n.builds[i].key()
        != #[trigger] n.builds[j].key() by {
        if j < t.builds.len() {
            assert(t.builds[i].key() != t.builds[j].key());
        } else {
            assert(t.builds[i].key() != (b.id, b.pname));
        }
    }
    assert forall|i: int| 0 <= i < n.pkgs.len() implies n.has_repo(#[trigger] n.pkgs[i].repo) by {
        assert(t.has_repo(t.pkgs[i].repo));
    }
    assert forall|i: int| 0 <= i < n.builds.len() implies n.has_repo(
        #[trigger] n.builds[i].repo,
    ) by {
        if i < t.builds.len() {
            assert(t.has_repo(t.builds[i].repo));
        }
    }
}

impl Madoguchi {
    /// Whether a build row carries the identifier `id`.
    pub fn has_build(&self, id: &str) -> (r: bool)
        ensures
            r == self@.has_build(id@),
    {
        let wanted = String::from_str(id);
        let mut i: usize = 0;
        while i < self.builds.len()
            invariant
                i <= self.builds.len(),
                wanted@ == id@,
                forall|j: int| 0 <= j < i ==> (#[trigger] self@.builds[j]).id != id@,
            decreases self.builds.len() - i,
        {
            if self.builds[i].id == wanted {
                assert(self@.builds[i as int].id == id@);
                return true;
            }
            i += 1;
        }
        false
    }

    /// Whether a build is recorded under that identifier and package name.
    pub fn has_build_row(&self, id: &str, pname: &str) -> (r: bool)
        ensures
            r == self@.has_build_row(id@, pname@),
    {
        let want_id = String::from_str(id);
        let want_name = String::from_str(pname);
        let mut i: usize = 0;
        while i < self.builds.len()
            invariant
                i <= self.builds.len(),
                want_id@ == id@,
                want_name@ == pname@,
                forall|j: int| 0 <= j < i ==> (#[trigger] self@.builds[j]).key() != (id@, pname@),
            decreases self.builds.len() - i,
        {
            if self.builds[i].id == want_id && self.builds[i].pname == want_name {
                assert(self@.builds[i as int].key() == (id@, pname@));
                return true;
            }
            i += 1;
        }
        false
    }

    /// Records `b` as the last row of the ledger.
    pub fn append(&mut self, b: Build) -> (r: Result<(), Error>)
        requires
            old(self).wf(),
        ensures
            final(self).wf(),
            r == old(self)@.append_result(b@),
            r.is_ok() ==> final(self)@ == old(self)@.with_build(b@),
            r.is_err() ==> final(self)@ == old(self)@,
    {
        if !self.up {
            return Err(Error::StoreUnavailable);
        }
        if self.find_repo(b.repo.as_str()).is_none() {
            return Err(Error::NotFound);
        }
        if self.has_build_row(b.id.as_str(), b.pname.as_str()) {
            return Err(Error::Conflict);
        }
        let ghost before = self@;
        let ghost bv = b@;
        self.builds.push(b);
        proof {
            let after = self@;
            assert(after.builds =~= before.builds.push(bv));
            assert(after.repos =~= before.repos);
            assert(after.pkgs =~= before.pkgs);
            lemma_with_build_wf(before, bv);
        }
        Ok(())
    }

    /// The builds recorded for the package `pname` of `repo`, in the order in
    /// which they were recorded.
    pub fn builds_of(&self, repo: &str, pname: &str) -> (r: Result<Vec<Build>, Error>)
        ensures
            match r {
                Ok(v) => self@.up && build_views(v@) == self@.builds.filter(
                    build_of(repo@, pname@),
                ),
                Err(e) => !self@.up && e == Error::StoreUnavailable,
            },
    {
        if !self.up {
            return Err(Error::StoreUnavailable);
        }
        let want_repo = String::from_str(repo);
        let want_name = String::from_str(pname);
        let ghost keep = build_of(repo@, pname@);
        let mut out: Vec<Build> = Vec::new();
        let mut i: usize = 0;
        while i < self.builds.len()
            invariant
                i <= self.builds.len(),
                want_repo@ == repo@,
                want_name@ == pname@,
                keep == build_of(repo@, pname@),
                build_views(out@) == self@.builds.take(i as int).filter(keep),
            decreases self.builds.len() - i,
        {
            proof {
                lemma_filter_push(self@.builds.take(i as int), self@.builds[i as int], keep);
                assert(self@.builds.take(i + 1) =~= self@.builds.take(i as int).push(
                    self@.builds[i as int],
                ));
            }
            let row = &self.builds[i];
            if row.repo == want_repo && row.pname == want_name {
                let copy = row.clone();
                let ghost kept = out@;
                out.push(copy);
                assert(build_views(out@) =~= build_views(kept).push(copy@));
            }
            i += 1;
        }
        assert(self@.builds.take(self@.builds.len() as int) =~= self@.builds);
        Ok(out)
    }

    /// Position of the most recent successful build of the package `name` of
    /// `repo`; with a `version`, of that version, release and architecture.
    pub fn latest_success(&self, repo: &str, name: &str, version: Option<(&str, &str, &str)>) -> (r:
        Option<usize>)
        ensures
            match r {
                Some(i) => is_latest(
                    self@.builds,
                    success_of(repo@, name@, version_view(version)),
                    self@.builds.len() as int,
                    i as int,
                ),
                None => forall|j: int|
                    0 <= j < self@.builds.len() ==> !success_of(
                        repo@,
                        name@,
                        version_view(version),
                    )(#[trigger] self@.builds[j]),
            },
    {
        let want_repo = String::from_str(repo);
        let want_name = String::from_str(name);
        let want_version = match version {
            Some((v, r, a)) => Some((String::from_str(v), String::from_str(r), String::from_str(a))),
            None => None,
        };
        let ghost want = success_of(repo@, name@, version_view(version));
        let mut best: Option<usize> = None;
        let mut i: usize = 0;
        while i < self.builds.len()
            invariant
                i <= self.builds.len(),
                want_repo@ == repo@,
                want_name@ == name@,
                match want_version {
                    Some(w) => version_view(version) == Some((w.0@, w.1@, w.2@)),
                    None => version_view(version).is_none(),
                },
                want == success_of(repo@, name@, version_view(version)),
                match best {
                    Some(b) => is_latest(self@.builds, want, i as int, b as int),
                    None => forall|j: int| 0 <= j < i ==> !want(#[trigger] self@.builds[j]),
                },
            decreases self.builds.len() - i,
        {
            let row = &self.builds[i];
            let same = match &want_version {
                Some(w) => row.pver == w.0 && row.prel == w.1 && row.parch == w.2,
                None => true,
            };
            let fits = row.succ && row.repo == want_repo && row.pname == want_name && same;
            assert(fits == want(self@.builds[i as int]));
            if fits {
                match best {
                    Some(b) => {
                        if self.builds[b].epoch <= row.epoch {
                            best = Some(i);
                        }
                    },
                    None => {
                        best = Some(i);
                    },
                }
            }
            i += 1;
        }
        best
    }
}

/// What a version given to a query stands for.
pub open spec fn version_view(version: Option<(&str, &str, &str)>) -> Option<
    (Seq<char>, Seq<char>, Seq<char>),
> {
    match version {
        Some(v) => Some((v.0@, v.1@, v.2@)),
        None => None,
    }
}

impl Tables {
    /// What recording `b` answers: the first of the conditions that holds.
    pub open spec fn append_result(self, b: BuildView) -> Result<(), Error> {
        if !self.up {
            Err(Error::StoreUnavailable)
        } else if !self.has_repo(b.repo) {
            Err(Error::NotFound)
        } else if self.has_build_row(b.id, b.pname) {
            Err(Error::Conflict)
        } else {
            Ok(())
        }
    }
}

} // verus!
