//! The catalogue: the table of packages, one row for each repository, name
//! and architecture.
use crate::db::{
    lemma_filter_positions, lemma_filter_push, lemma_same_repos, pkg_views, Madoguchi, Pkg,
    PkgKey, PkgView, Tables, UpsertOutcome,
};
use crate::error::Error;
use crate::order::{sort, sort_key_of, sorted, Column, SortKey};
use vstd::prelude::*;
use vstd::string::StringExecFns;

verus! {

/// The most rows that one listing may ask for, and the number it gets where
/// it asks for none.
pub const MAX_LIM: i64 = 100;

/// Holds of the packages of the repository `repo`.
pub open spec fn in_repo(repo: Seq<char>) -> spec_fn(PkgView) -> bool {
    |p: PkgView| p.repo == repo
}

/// The rows of `s` from position `offset` on, `limit` of them at most.
pub open spec fn page(s: Seq<PkgView>, offset: int, limit: int) -> Seq<PkgView> {
    let from = if offset < s.len() {
        offset
    } else {
        s.len() as int
    };
    let to = if offset + limit < s.len() {
        offset + limit
    } else {
        s.len() as int
    };
    s.subrange(from, to)
}

/// What a listing is asked for: a repository, how many rows, in which order,
/// and from which row on.
pub ghost struct Query {
    pub repo: Seq<char>,
    pub limit: Option<i64>,
    pub order: Option<Seq<char>>,
    pub offset: Option<i64>,
}

impl Query {
    /// How many rows are asked for.
    pub open spec fn rows(self) -> int {
        match self.limit {
            Some(n) => n as int,
            None => MAX_LIM as int,
        }
    }

    /// The row that the listing starts from.
    pub open spec fn start(self) -> int {
        match self.offset {
            Some(f) => f as int,
            None => 0,
        }
    }

    /// The order asked for, where it is on offer; by name, descending, where
    /// none is asked for.
    pub open spec fn key(self) -> Option<SortKey> {
        match self.order {
            Some(o) => sort_key_of(o),
            None => Some(SortKey { column: Column::Name, descending: true }),
        }
    }

    /// Why the listing is refused, if it is. A query is judged before the
    /// store is looked at: more rows than allowed are `LimitExceeded`; a
    /// negative number of rows, a negative start and an order that is not on
    /// offer are `Validation`. Then the store must be reachable and the
    /// repository registered.
    pub open spec fn refusal(self, t: Tables) -> Option<Error> {
        if self.rows() > MAX_LIM {
            Some(Error::LimitExceeded)
        } else if self.rows() < 0 || self.start() < 0 || self.key().is_none() {
            Some(Error::Validation)
        } else if !t.up {
            Some(Error::StoreUnavailable)
        } else if !t.has_repo(self.repo) {
            Some(Error::NotFound)
        } else {
            None
        }
    }

    /// The listing: the packages of the repository in the order asked for,
    /// from the start asked for, as many as asked for.
    pub open spec fn answer(self, t: Tables) -> Seq<PkgView> {
        page(sorted(t.pkgs.filter(in_repo(self.repo)), self.key().unwrap()), self.start(), self.rows())
    }
}

/// Holds of every package row but the one with these five fields.
pub open spec fn pkg_is_not(
    repo: Seq<char>,
    name: Seq<char>,
    ver: Seq<char>,
    arch: Seq<char>,
    rel: Seq<char>,
) -> spec_fn(PkgView) -> bool {
    |p: PkgView| !(p.repo == repo && p.name == name && p.ver == ver && p.arch == arch && p.rel == rel)
}

/// Whether the row belongs to `repo` and carries the name `name`.
pub open spec fn is_named(p: PkgView, repo: Seq<char>, name: Seq<char>) -> bool {
    p.repo == repo && p.name == name
}

impl Tables {
    /// The tables with the package rows that `keep` holds of, and no others.
    pub open spec fn with_pkgs_kept(self, keep: spec_fn(PkgView) -> bool) -> Tables {
        Tables { pkgs: self.pkgs.filter(keep), ..self }
    }

    /// Whether `i` is the position of the first package row of `repo` named
    /// `name`.
    pub open spec fn is_first_named(self, i: int, repo: Seq<char>, name: Seq<char>) -> bool {
        &&& 0 <= i < self.pkgs.len()
        &&& is_named(self.pkgs[i], repo, name)
        &&& forall|j: int| 0 <= j < i ==> !is_named(#[trigger] self.pkgs[j], repo, name)
    }
}

/// Storing a package of a registered repository keeps the constraints of the
/// tables.
pub proof fn lemma_with_pkg_wf(t: Tables, p: PkgView)
    requires
        t.wf(),
        t.has_repo(p.repo),
    ensures
        t.with_pkg(p).wf(),
        t.with_pkg(p).has_pkg(p.key()),
{
    let n = t.with_pkg(p);
    lemma_same_repos(t, n);
    if t.has_pkg(p.key()) {
        let at = t.pkg_index(p.key());
        assert(n.pkgs[at].key() == p.key());
        assert forall|i: int, j: int| 0 <= i < j < n.pkgs.len() implies #[trigger] n.pkgs[i].key()
            != #[trigger] n.pkgs[j].key() by {
            assert(t.pkgs[i].key() != t.pkgs[j].key());
        }
        assert forall|i: int| 0 <= i < n.pkgs.len() implies n.has_repo(
            #[trigger] n.pkgs[i].repo,
        ) by {
            if i != at {
                assert(t.has_repo(t.pkgs[i].repo));
            }
        }
    } else {
        assert(n.pkgs[t.pkgs.len() as int].key() == p.key());
        assert forall|i: int, j: int| 0 <= i < j < n.pkgs.len() implies #[trigger] n.pkgs[i].key()
            != #[trigger] n.pkgs[j].key() by {
            if j < t.pkgs.len() {
                assert(t.pkgs[i].key() != t.pkgs[j].key());
            } else {
                assert(t.pkgs[i].key() != p.key());
            }
        }
        assert forall|i: int| 0 <= i < n.pkgs.len() implies n.has_repo(
            #[trigger] n.pkgs[i].repo,
        ) by {
            if i < t.pkgs.len() {
                assert(t.has_repo(t.pkgs[i].repo));
            }
        }
    }
    assert forall|i: int| 0 <= i < n.builds.len() implies n.has_repo(
        #[trigger] n.builds[i].repo,
    ) by {
        assert(t.has_repo(t.builds[i].repo));
    }
}

/// Deleting package rows keeps the constraints of the tables.
pub proof fn lemma_pkgs_kept_wf(t: Tables, keep: spec_fn(PkgView) -> bool)
    requires
        t.wf(),
    ensures
        t.with_pkgs_kept(keep).wf(),
{
    let n = t.with_pkgs_kept(keep);
    lemma_same_repos(t, n);
    let at = lemma_filter_positions(t.pkgs, keep);
    assert forall|i: int, j: int| 0 <= i < j < n.pkgs.len() implies #[trigger] n.pkgs[i].key()
        != #[trigger] n.pkgs[j].key() by {
        assert(at[i] < at[j]);
        assert(t.pkgs[at[i]].key() != t.pkgs[at[j]].key());
    }
    assert forall|i: int| 0 <= i < n.pkgs.len() implies n.has_repo(#[trigger] n.pkgs[i].repo) by {
        assert(t.has_repo(t.pkgs[at[i]].repo));
    }
    assert forall|i: int| 0 <= i < n.builds.len() implies n.has_repo(
        #[trigger] n.builds[i].repo,
    ) by {
        assert(t.has_repo(t.builds[i].repo));
    }
}

impl Madoguchi {
    /// Position of the package row with that key, if it is stored.
    pub fn find_pkg(&self, repo: &str, name: &str, arch: &str) -> (r: Option<usize>)
        ensures
            match r {
                Some(i) => i < self@.pkgs.len() && self@.pkgs[i as int].key() == (PkgKey {
                    repo: repo@,
                    name: name@,
                    arch: arch@,
                }),
                None => !self@.has_pkg(PkgKey { repo: repo@, name: name@, arch: arch@ }),
            },
    {
        let want_repo = String::from_str(repo);
        let want_name = String::from_str(name);
        let want_arch = String::from_str(arch);
        let ghost key = PkgKey { repo: repo@, name: name@, arch: arch@ };
        let mut i: usize = 0;
        while i < self.pkgs.len()
            invariant
                i <= self.pkgs.len(),
                want_repo@ == repo@,
                want_name@ == name@,
                want_arch@ == arch@,
                key == (PkgKey { repo: repo@, name: name@, arch: arch@ }),
                forall|j: int| 0 <= j < i ==> (#[trigger] self@.pkgs[j]).key() != key,
            decreases self.pkgs.len() - i,
        {
            let row = &self.pkgs[i];
            if row.repo == want_repo && row.name == want_name && row.arch == want_arch {
                return Some(i);
            }
            i += 1;
        }
        None
    }

    /// Stores the package as the row of its repository, name and
    /// architecture: a new row where there is none, else version, release and
    /// directory of the one there are overwritten.
    pub fn upsert(
        &mut self,
        repo: &str,
        name: &str,
        arch: &str,
        ver: &str,
        rel: &str,
        dirs: &str,
    ) -> (r: Result<UpsertOutcome, Error>)
        requires
            old(self).wf(),
        ensures
            final(self).wf(),
            !old(self)@.up ==> r == Err::<UpsertOutcome, Error>(Error::StoreUnavailable) && final(self)@
                == old(self)@,
            old(self)@.up && !old(self)@.has_repo(repo@) ==> r == Err::<UpsertOutcome, Error>(
                Error::NotFound,
            ) && final(self)@ == old(self)@,
            old(self)@.up && old(self)@.has_repo(repo@) ==> final(self)@ == old(self)@.with_pkg(
                PkgView { name: name@, repo: repo@, ver: ver@, rel: rel@, arch: arch@, dirs: dirs@ },
            ) && r == Ok::<UpsertOutcome, Error>(
                if old(self)@.has_pkg(PkgKey { repo: repo@, name: name@, arch: arch@ }) {
                    UpsertOutcome::Updated
                } else {
                    UpsertOutcome::Inserted
                },
            ),
    {
        if !self.up {
            return Err(Error::StoreUnavailable);
        }
        if self.find_repo(repo).is_none() {
            return Err(Error::NotFound);
        }
        let row = Pkg {
            name: String::from_str(name),
            repo: String::from_str(repo),
            ver: String::from_str(ver),
            rel: String::from_str(rel),
            arch: String::from_str(arch),
            dirs: String::from_str(dirs),
        };
        let ghost before = self@;
        let ghost pv = row@;
        proof {
            lemma_with_pkg_wf(before, pv);
        }
        match self.find_pkg(repo, name, arch) {
            Some(i) => {
                proof {
                    assert(before.pkgs[i as int].key() == pv.key());
                    assert(before.has_pkg(pv.key()));
                    let c = before.pkg_index(pv.key());
                    if c < i {
                        assert(before.pkgs[c].key() != before.pkgs[i as int].key());
                    } else if c > i {
                        assert(before.pkgs[i as int].key() != before.pkgs[c].key());
                    }
                }
                self.pkgs[i] = row;
                proof {
                    let after = self@;
                    assert(after.pkgs =~= before.pkgs.update(i as int, pv));
                    assert(after.repos =~= before.repos);
                    assert(after.builds =~= before.builds);
                }
                Ok(UpsertOutcome::Updated)
            },
            None => {
                self.pkgs.push(row);
                proof {
                    let after = self@;
                    assert(after.pkgs =~= before.pkgs.push(pv));
                    assert(after.repos =~= before.repos);
                    assert(after.builds =~= before.builds);
                }
                Ok(UpsertOutcome::Inserted)
            },
        }
    }

    /// The first package row of `repo` with the name `name`, in the order in
    /// which the rows were stored. `None` where there is none, or where the
    /// store cannot be reached.
    pub fn get(&self, repo: &str, name: &str) -> (r: Option<Pkg>)
        ensures
            match r {
                Some(p) => self@.up && exists|i: int|
                    self@.is_first_named(i, repo@, name@) && self@.pkgs[i] == p@,
                None => !self@.up || forall|j: int|
                    0 <= j < self@.pkgs.len() ==> !is_named(#[trigger] self@.pkgs[j], repo@, name@),
            },
    {
        if !self.up {
            return None;
        }
        let want_repo = String::from_str(repo);
        let want_name = String::from_str(name);
        let mut i: usize = 0;
        while i < self.pkgs.len()
            invariant
                i <= self.pkgs.len(),
                self@.up,
                want_repo@ == repo@,
                want_name@ == name@,
                forall|j: int| 0 <= j < i ==> !is_named(#[trigger] self@.pkgs[j], repo@, name@),
            decreases self.pkgs.len() - i,
        {
            let row = &self.pkgs[i];
            if row.repo == want_repo && row.name == want_name {
                let found = row.clone();
                assert(self@.is_first_named(i as int, repo@, name@));
                return Some(found);
            }
            i += 1;
        }
        None
    }

    /// Deletes the package row with these five fields, if it is stored, and
    /// says how many rows were deleted.
    pub fn remove_pkg(&mut self, repo: &str, name: &str, ver: &str, arch: &str, rel: &str) -> (r:
        Result<usize, Error>)
        requires
            old(self).wf(),
        ensures
            final(self).wf(),
            !old(self)@.up ==> r == Err::<usize, Error>(Error::StoreUnavailable) && final(self)@
                == old(self)@,
            old(self)@.up ==> final(self)@ == old(self)@.with_pkgs_kept(
                pkg_is_not(repo@, name@, ver@, arch@, rel@),
            ) && r == Ok::<usize, Error>(
                (old(self)@.pkgs.len() - final(self)@.pkgs.len()) as usize,
            ),
    {
        if !self.up {
            return Err(Error::StoreUnavailable);
        }
        let want_repo = String::from_str(repo);
        let want_name = String::from_str(name);
        let want_ver = String::from_str(ver);
        let want_arch = String::from_str(arch);
        let want_rel = String::from_str(rel);
        let ghost before = self@;
        let ghost keep = pkg_is_not(repo@, name@, ver@, arch@, rel@);
        let mut pkgs: Vec<Pkg> = Vec::new();
        let mut i: usize = 0;
        while i < self.pkgs.len()
            invariant
                i <= self.pkgs.len(),
                self@ == before,
                want_repo@ == repo@,
                want_name@ == name@,
                want_ver@ == ver@,
                want_arch@ == arch@,
                want_rel@ == rel@,
                keep == pkg_is_not(repo@, name@, ver@, arch@, rel@),
                pkgs.len() <= i,
                pkg_views(pkgs@) == before.pkgs.take(i as int).filter(keep),
            decreases self.pkgs.len() - i,
        {
            proof {
                lemma_filter_push(before.pkgs.take(i as int), before.pkgs[i as int], keep);
                assert(before.pkgs.take(i + 1) =~= before.pkgs.take(i as int).push(
                    before.pkgs[i as int],
                ));
            }
            let row = &self.pkgs[i];
            if !(row.repo == want_repo && row.name == want_name && row.ver == want_ver && row.arch
                == want_arch && row.rel == want_rel) {
                let copy = row.clone();
                let ghost kept = pkgs@;
                pkgs.push(copy);
                assert(pkg_views(pkgs@) =~= pkg_views(kept).push(copy@));
            }
            i += 1;
        }
        proof {
            assert(before.pkgs.take(before.pkgs.len() as int) =~= before.pkgs);
            lemma_pkgs_kept_wf(before, keep);
        }
        let removed = self.pkgs.len() - pkgs.len();
        self.pkgs = pkgs;
        Ok(removed)
    }

    /// The packages of `repo`, in the order in which they were stored.
    pub fn pkgs_of(&self, repo: &str) -> (out: Vec<Pkg>)
        ensures
            pkg_views(out@) == self@.pkgs.filter(in_repo(repo@)),
    {
        let wanted = String::from_str(repo);
        let ghost keep = in_repo(repo@);
        let mut out: Vec<Pkg> = Vec::new();
        let mut i: usize = 0;
        while i < self.pkgs.len()
            invariant
                i <= self.pkgs.len(),
                wanted@ == repo@,
                keep == in_repo(repo@),
                pkg_views(out@) == self@.pkgs.take(i as int).filter(keep),
            decreases self.pkgs.len() - i,
        {
            proof {
                lemma_filter_push(self@.pkgs.take(i as int), self@.pkgs[i as int], keep);
                assert(self@.pkgs.take(i + 1) =~= self@.pkgs.take(i as int).push(
                    self@.pkgs[i as int],
                ));
            }
            if self.pkgs[i].repo == wanted {
                let copy = self.pkgs[i].clone();
                let ghost kept = out@;
                out.push(copy);
                assert(pkg_views(out@) =~= pkg_views(kept).push(copy@));
            }
            i += 1;
        }
        assert(self@.pkgs.take(self@.pkgs.len() as int) =~= self@.pkgs);
        out
    }

    /// Lists packages of the repository `repo`: `limit` rows at most (100
    /// where none is given, and never more), in the order `order` (by name,
    /// descending, where none is given), from row `offset` on (from the first
    /// where none is given).
    pub fn list(
        &self,
        repo: &str,
        limit: Option<i64>,
        order: Option<&str>,
        offset: Option<i64>,
    ) -> (r: Result<Vec<Pkg>, Error>)
        ensures
            match r {
                Ok(v) => query(repo, limit, order, offset).refusal(self@).is_none() && pkg_views(v@)
                    == query(repo, limit, order, offset).answer(self@),
                Err(e) => query(repo, limit, order, offset).refusal(self@) == Some(e),
            },
    {
        let ghost q = query(repo, limit, order, offset);
        let n: i64 = match limit {
            Some(n) => n,
            None => MAX_LIM,
        };
        if n > MAX_LIM {
            return Err(Error::LimitExceeded);
        }
        let f: i64 = match offset {
            Some(f) => f,
            None => 0,
        };
        let key = match order {
            Some(o) => SortKey::parse(o),
            None => Some(SortKey::fallback()),
        };
        if n < 0 || f < 0 {
            return Err(Error::Validation);
        }
        let key = match key {
            Some(key) => key,
            None => {
                return Err(Error::Validation);
            },
        };
        if !self.up {
            return Err(Error::StoreUnavailable);
        }
        if self.find_repo(repo).is_none() {
            return Err(Error::NotFound);
        }
        let rows = sort(&self.pkgs_of(repo), key);
        let len: u64 = rows.len() as u64;
        let from: usize = if (f as u64) < len {
            f as usize
        } else {
            rows.len()
        };
        let to: usize = if (f as u64) + (n as u64) < len {
            (f as u64 + n as u64) as usize
        } else {
            rows.len()
        };
        let ghost all = pkg_views(rows@);
        let mut out: Vec<Pkg> = Vec::new();
        let mut i: usize = from;
        assert(pkg_views(out@) =~= all.subrange(from as int, from as int));
        while i < to
            invariant
                from <= i <= to <= rows.len(),
                all == pkg_views(rows@),
                pkg_views(out@) == all.subrange(from as int, i as int),
            decreases to - i,
        {
            let copy = rows[i].clone();
            let ghost kept = out@;
            out.push(copy);
            assert(pkg_views(out@) =~= pkg_views(kept).push(copy@));
            assert(all.subrange(from as int, i + 1) =~= all.subrange(from as int, i as int).push(
                all[i as int],
            ));
            i += 1;
        }
        Ok(out)
    }
}

/// The query that the arguments of a listing make.
pub open spec fn query(
    repo: &str,
    limit: Option<i64>,
    order: Option<&str>,
    offset: Option<i64>,
) -> Query {
    Query {
        repo: repo@,
        limit,
        order: match order {
            Some(o) => Some(o@),
            None => None,
        },
        offset,
    }
}

} // verus!
