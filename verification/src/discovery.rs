//! The discovery view: the catalogue of a repository joined with the package
//! index of its host, for services that track packages.
use crate::api::repopkgs::{Nevra, PkgInfView, RemoteIndex};
use crate::db::{BuildView, Madoguchi, Pkg, PkgView, Repo, RepoView, Tables};
use crate::error::Error;
use crate::ledger::{is_latest, latest, lemma_latest, success_of};
use vstd::prelude::*;
use vstd::string::StringExecFns;

verus! {

/// One package of the discovery view.
#[derive(Debug, PartialEq, Eq)]
pub struct DiscoveryEntry {
    pub name: String,
    pub version: String,
    pub release: String,
    pub arch: String,
    /// Where the sources of the package can be browsed.
    pub url: String,
    /// Where the build recipe of the package is.
    pub recipe: String,
    /// Where the latest successful build of this version can be looked at,
    /// if one is recorded.
    pub build: Option<String>,
    pub license: String,
    pub summary: String,
}

/// What a [`DiscoveryEntry`] holds.
pub ghost struct EntryView {
    pub name: Seq<char>,
    pub version: Seq<char>,
    pub release: Seq<char>,
    pub arch: Seq<char>,
    pub url: Seq<char>,
    pub recipe: Seq<char>,
    pub build: Option<Seq<char>>,
    pub license: Seq<char>,
    pub summary: Seq<char>,
}

impl View for DiscoveryEntry {
    type V = EntryView;

    open spec fn view(&self) -> EntryView {
        EntryView {
            name: self.name@,
            version: self.version@,
            release: self.release@,
            arch: self.arch@,
            url: self.url@,
            recipe: self.recipe@,
            build: match self.build {
                Some(b) => Some(b@),
                None => None,
            },
            license: self.license@,
            summary: self.summary@,
        }
    }
}

/// The views of the entries in `v`, in order.
pub open spec fn entry_views(v: Seq<DiscoveryEntry>) -> Seq<EntryView> {
    v.map_values(|e: DiscoveryEntry| e@)
}

/// The identity under which the index lists the package.
pub open spec fn nevra(p: PkgView) -> Nevra {
    Nevra { name: p.name, ver: p.ver, rel: p.rel, arch: p.arch }
}

/// Where the sources of a package in `dirs` can be browsed.
pub open spec fn source_url(gh: Seq<char>, dirs: Seq<char>) -> Seq<char> {
    gh + "/"@ + dirs
}

/// Where the build recipe of a package in `dirs` is.
pub open spec fn recipe_url(gh: Seq<char>, dirs: Seq<char>) -> Seq<char> {
    gh + "/"@ + dirs + "/anda.hcl"@
}

/// Where the run `id` of the build system can be looked at.
pub open spec fn run_url(id: Seq<char>) -> Seq<char> {
    "https://github.com/terrapkg/packages/actions/runs/"@ + id
}

/// The run that last built the package successfully in its stored version,
/// release and architecture.
pub open spec fn built_by(builds: Seq<BuildView>, p: PkgView) -> Option<Seq<char>> {
    match latest(builds, success_of(p.repo, p.name, Some((p.ver, p.rel, p.arch)))) {
        Some(b) => Some(b.id),
        None => None,
    }
}

/// The entry of the package `p` of `repo`, of which the index says `inf`.
pub open spec fn entry_of(
    repo: RepoView,
    p: PkgView,
    inf: PkgInfView,
    built: Option<Seq<char>>,
) -> EntryView {
    EntryView {
        name: p.name,
        version: p.ver,
        release: p.rel,
        arch: p.arch,
        url: source_url(repo.gh, p.dirs),
        recipe: recipe_url(repo.gh, p.dirs),
        build: match built {
            Some(id) => Some(run_url(id)),
            None => None,
        },
        license: inf.license,
        summary: inf.summary,
    }
}

/// Gives the entry of a package of `repo` that the index lists, and nothing
/// for any other package.
pub open spec fn discover(t: Tables, repo: RepoView, remote: Map<Nevra, PkgInfView>) -> spec_fn(
    PkgView,
) -> Option<EntryView> {
    |p: PkgView|
        if p.repo == repo.name && remote.contains_key(nevra(p)) {
            Some(entry_of(repo, p, remote[nevra(p)], built_by(t.builds, p)))
        } else {
            None
        }
}

/// The discovery view of `repo`: the entries of its packages that the index
/// lists, in the order of the catalogue.
pub open spec fn discovered(t: Tables, repo: RepoView, remote: Map<Nevra, PkgInfView>) -> Seq<
    EntryView,
> {
    t.pkgs.filter_map(discover(t, repo, remote))
}

/// The address of a package's sources.
fn join_url(gh: &str, dirs: &str, tail: &str) -> (r: String)
    ensures
        r@ == gh@ + "/"@ + dirs@ + tail@,
{
    let mut r = String::from_str(gh);
    r.append("/");
    r.append(dirs);
    r.append(tail);
    r
}

impl Madoguchi {
    /// The run that last built `p` successfully in its stored version,
    /// release and architecture.
    pub fn built_by(&self, p: &Pkg) -> (r: Option<String>)
        ensures
            r.is_some() == built_by(self@.builds, p@).is_some(),
            r.is_some() ==> r.unwrap()@ == built_by(self@.builds, p@).unwrap(),
    {
        let found = self.latest_success(
            p.repo.as_str(),
            p.name.as_str(),
            Some((p.ver.as_str(), p.rel.as_str(), p.arch.as_str())),
        );
        let ghost want = success_of(p@.repo, p@.name, Some((p@.ver, p@.rel, p@.arch)));
        match found {
            Some(i) => {
                proof {
                    lemma_latest(self@.builds, want, i as int);
                }
                Some(self.builds[i].id.clone())
            },
            None => {
                proof {
                    if latest(self@.builds, want).is_some() {
                        let c = choose|c: int|
                            is_latest(self@.builds, want, self@.builds.len() as int, c);
                        assert(want(self@.builds[c]));
                    }
                }
                None
            },
        }
    }

    /// The discovery view of the repository `repo`, given the package index
    /// of its host: one entry for each of its packages that the index lists
    /// under the stored name, version, release and architecture. A package
    /// that the index does not list has no entry.
    pub fn join(&self, repo: &str, remote: &RemoteIndex) -> (r: Result<Vec<DiscoveryEntry>, Error>)
        ensures
            !self@.up ==> r == Err::<Vec<DiscoveryEntry>, Error>(Error::StoreUnavailable),
            self@.up && !self@.has_repo(repo@) ==> r == Err::<Vec<DiscoveryEntry>, Error>(
                Error::NotFound,
            ),
            self@.up && self@.has_repo(repo@) ==> r.is_ok() && exists|i: int|
                #[trigger] self@.is_repo_at(i, repo@) && entry_views(r.unwrap()@) == discovered(
                    self@,
                    self@.repos[i],
                    remote@,
                ),
    {
        if !self.up {
            return Err(Error::StoreUnavailable);
        }
        let at = match self.find_repo(repo) {
            Some(at) => at,
            None => {
                return Err(Error::NotFound);
            },
        };
        let home: &Repo = &self.repos[at];
        let ghost t = self@;
        let ghost rv = t.repos[at as int];
        let ghost f = discover(t, rv, remote@);
        let mut out: Vec<DiscoveryEntry> = Vec::new();
        let mut i: usize = 0;
        assert(entry_views(out@) =~= t.pkgs.take(0).filter_map(f));
        while i < self.pkgs.len()
            invariant
                i <= self.pkgs.len(),
                t == self@,
                at < self.repos.len(),
                home == &self.repos[at as int],
                rv == t.repos[at as int],
                rv.name == repo@,
                f == discover(t, rv, remote@),
                entry_views(out@) == t.pkgs.take(i as int).filter_map(f),
            decreases self.pkgs.len() - i,
        {
            proof {
                t.pkgs.lemma_filter_map_take_succ(f, i as int);
            }
            let p = &self.pkgs[i];
            if p.repo == home.name {
                match remote.get(p.name.as_str(), p.ver.as_str(), p.rel.as_str(), p.arch.as_str()) {
                    Some(inf) => {
                        let build = match self.built_by(p) {
                            Some(id) => {
                                let mut at = String::from_str(
                                    "https://github.com/terrapkg/packages/actions/runs/",
                                );
                                at.append(id.as_str());
                                Some(at)
                            },
                            None => None,
                        };
                        let entry = DiscoveryEntry {
                            name: p.name.clone(),
                            version: p.ver.clone(),
                            release: p.rel.clone(),
                            arch: p.arch.clone(),
                            url: join_url(home.gh.as_str(), p.dirs.as_str(), ""),
                            recipe: join_url(home.gh.as_str(), p.dirs.as_str(), "/anda.hcl"),
                            build,
                            license: inf.license,
                            summary: inf.summary,
                        };
                        proof {
                            reveal_strlit("");
                            assert(home.gh@ + "/"@ + p.dirs@ + ""@ =~= home.gh@ + "/"@ + p.dirs@);
                            assert(f(t.pkgs[i as int]) == Some(entry@));
                        }
                        let ghost had = out@;
                        out.push(entry);
                        assert(entry_views(out@) =~= entry_views(had).push(entry@));
                        assert(entry_views(had).push(entry@) =~= entry_views(had) + seq![entry@]);
                    },
                    None => {
                        assert(f(t.pkgs[i as int]).is_none());
                        assert(entry_views(out@) + Seq::<EntryView>::empty() =~= entry_views(out@));
                    },
                }
            } else {
                assert(f(t.pkgs[i as int]).is_none());
                assert(entry_views(out@) + Seq::<EntryView>::empty() =~= entry_views(out@));
            }
            i += 1;
        }
        assert(t.pkgs.take(t.pkgs.len() as int) =~= t.pkgs);
        Ok(out)
    }

    /// The discovery view of the repository `repo`, given how reading the
    /// package index of its host ended. Where the index could not be had, the
    /// view fails with the error of the index, and holds no entry.
    pub fn reconcile(&self, repo: &str, feed: &Result<RemoteIndex, Error>) -> (r: Result<
        Vec<DiscoveryEntry>,
        Error,
    >)
        ensures
            match *feed {
                Err(e) => r == Err::<Vec<DiscoveryEntry>, Error>(e),
                Ok(remote) => {
                    &&& !self@.up ==> r == Err::<Vec<DiscoveryEntry>, Error>(
                        Error::StoreUnavailable,
                    )
                    &&& self@.up && !self@.has_repo(repo@) ==> r == Err::<
                        Vec<DiscoveryEntry>,
                        Error,
                    >(Error::NotFound)
                    &&& self@.up && self@.has_repo(repo@) ==> r.is_ok() && exists|i: int|
                        #[trigger] self@.is_repo_at(i, repo@) && entry_views(r.unwrap()@) == discovered(
                            self@,
                            self@.repos[i],
                            remote@,
                        )
                },
            },
    {
        match feed {
            Err(e) => Err(*e),
            Ok(remote) => self.join(repo, remote),
        }
    }
}

/// Every entry of the discovery view stands for a package of the repository
/// that the index lists, and carries what the index says of it; so a package
/// that the index does not list has no entry. There are as many entries as
/// the repository has packages that the index lists.
pub proof fn law_unlisted_packages_are_left_out(
    t: Tables,
    repo: RepoView,
    remote: Map<Nevra, PkgInfView>,
)
    ensures
        forall|k: int|
            0 <= k < discovered(t, repo, remote).len() ==> exists|i: int|
                0 <= i < t.pkgs.len() && t.pkgs[i].repo == repo.name && remote.contains_key(
                    nevra(t.pkgs[i]),
                ) && #[trigger] discovered(t, repo, remote)[k] == entry_of(
                    repo,
                    t.pkgs[i],
                    remote[nevra(t.pkgs[i])],
                    built_by(t.builds, t.pkgs[i]),
                ),
        discovered(t, repo, remote).len() == t.pkgs.filter(listed(repo.name, remote)).len(),
{
    let f = discover(t, repo, remote);
    let d = discovered(t, repo, remote);
    assert forall|k: int| 0 <= k < d.len() implies exists|i: int|
        0 <= i < t.pkgs.len() && t.pkgs[i].repo == repo.name && remote.contains_key(
            nevra(t.pkgs[i]),
        ) && #[trigger] d[k] == entry_of(
            repo,
            t.pkgs[i],
            remote[nevra(t.pkgs[i])],
            built_by(t.builds, t.pkgs[i]),
        ) by {
        assert(d.contains(d[k]));
        t.pkgs.lemma_filter_map_contains(f, d[k]);
        let p = choose|p: PkgView| #[trigger] t.pkgs.contains(p) && f(p) == Some(d[k]);
        let i = choose|i: int| 0 <= i < t.pkgs.len() && t.pkgs[i] == p;
        assert(t.pkgs[i].repo == repo.name);
    }
    lemma_discovered_len(t.pkgs, t, repo, remote);
}

/// Holds of the packages of the repository `name` that the index lists.
pub open spec fn listed(name: Seq<char>, remote: Map<Nevra, PkgInfView>) -> spec_fn(
    PkgView,
) -> bool {
    |p: PkgView| p.repo == name && remote.contains_key(nevra(p))
}

/// Of any rows, as many give an entry as the index lists for the repository.
proof fn lemma_discovered_len(
    pkgs: Seq<PkgView>,
    t: Tables,
    repo: RepoView,
    remote: Map<Nevra, PkgInfView>,
)
    ensures
        pkgs.filter_map(discover(t, repo, remote)).len() == pkgs.filter(
            listed(repo.name, remote),
        ).len(),
    decreases pkgs.len(),
{
    reveal(Seq::filter);
    if pkgs.len() > 0 {
        lemma_discovered_len(pkgs.drop_last(), t, repo, remote);
    }
}

} // verus!
