//! Where the sources of a package are: the addresses that the redirecting
//! endpoints send a visitor to.
use crate::api::{route, route_views, Method, Route, RouteView};
use crate::catalog::is_named;
use crate::db::{Madoguchi, Tables};
use crate::ledger::{is_latest, latest, lemma_latest, success_of};
use crate::order::{lemma_lex_irreflexive, lemma_lex_total, lemma_lex_transitive, lex_lt, precedes};
use crate::text::{count_leading, has_prefix, leading, part, slice, to_chars, CharClass};
use vstd::prelude::*;
use vstd::string::StringExecFns;

verus! {

/// The routes of this module.
pub fn routes() -> (r: Vec<Route>)
    ensures
        route_views(r@) == seq![
            RouteView {
                method: Method::Get,
                uri: "/<repo>/packages/<name>"@,
                name: "redirect_pkg"@,
            },
            RouteView {
                method: Method::Get,
                uri: "/<repo>/packages/<name>/hcl"@,
                name: "redirect_andahcl"@,
            },
            RouteView {
                method: Method::Get,
                uri: "/<repo>/packages/<name>/spec"@,
                name: "redirect_andaspec"@,
            },
            RouteView {
                method: Method::Get,
                uri: "/<repo>/packages/<name>/spec/raw"@,
                name: "redirect_andaspecraw"@,
            },
        ],
{
    let mut r: Vec<Route> = Vec::new();
    r.push(route(Method::Get, "/<repo>/packages/<name>", "redirect_pkg"));
    r.push(route(Method::Get, "/<repo>/packages/<name>/hcl", "redirect_andahcl"));
    r.push(route(Method::Get, "/<repo>/packages/<name>/spec", "redirect_andaspec"));
    r.push(route(Method::Get, "/<repo>/packages/<name>/spec/raw", "redirect_andaspecraw"));
    assert(route_views(r@) =~= seq![
        RouteView { method: Method::Get, uri: "/<repo>/packages/<name>"@, name: "redirect_pkg"@ },
        RouteView {
            method: Method::Get,
            uri: "/<repo>/packages/<name>/hcl"@,
            name: "redirect_andahcl"@,
        },
        RouteView {
            method: Method::Get,
            uri: "/<repo>/packages/<name>/spec"@,
            name: "redirect_andaspec"@,
        },
        RouteView {
            method: Method::Get,
            uri: "/<repo>/packages/<name>/spec/raw"@,
            name: "redirect_andaspecraw"@,
        },
    ]);
    r
}

/// Where the trees of the package sources are browsed, by revision.
pub open spec fn tree_base() -> Seq<char> {
    "https://github.com/terrapkg/packages/tree/"@
}

/// `s` without `p` at its start, as often as `p` stands there. An empty `p`
/// takes nothing away.
pub open spec fn without_leading(s: Seq<char>, p: Seq<char>) -> Seq<char>
    decreases s.len(),
{
    if p.len() > 0 && p.is_prefix_of(s) {
        without_leading(s.skip(p.len() as int), p)
    } else {
        s
    }
}

/// `s` with every `pat` in it replaced by `to`, from left to right, what was
/// replaced not searched again. An empty `pat` replaces nothing.
pub open spec fn replaced(s: Seq<char>, pat: Seq<char>, to: Seq<char>) -> Seq<char>
    decreases s.len(),
{
    if pat.len() == 0 || s.len() == 0 {
        s
    } else if pat.is_prefix_of(s) {
        to + replaced(s.skip(pat.len() as int), pat, to)
    } else {
        seq![s[0]] + replaced(s.skip(1), pat, to)
    }
}

/// Where the sources of a package are: the directory `dirs` below the source
/// link `gh` of its repository; with a `commit`, the same directory in the
/// tree of that revision, the branch that the link names left out.
pub open spec fn root_of(gh: Seq<char>, dirs: Seq<char>, commit: Option<Seq<char>>) -> Seq<char> {
    let plain = gh + "/"@ + dirs;
    match commit {
        Some(c) => {
            let below = without_leading(plain, tree_base());
            tree_base() + c + below.skip(leading(below, CharClass::NotSlash) as int)
        },
        None => plain,
    }
}

/// The address of the same file as raw text.
pub open spec fn raw_of(root: Seq<char>) -> Seq<char> {
    replaced(replaced(root, "github.com"@, "raw.githubusercontent.com"@), "/tree/"@, "/"@)
}

/// `s` with every `pat` in it replaced by `to`.
pub fn replace_all(s: &str, pat: &str, to: &str) -> (r: String)
    ensures
        r@ == replaced(s@, pat@, to@),
{
    let v = to_chars(s);
    let p = to_chars(pat);
    if p.len() == 0 {
        return String::from_str(s);
    }
    let n = v.len();
    let mut out = String::new();
    let mut i: usize = 0;
    assert(v@.skip(0) =~= v@);
    assert(out@ + replaced(v@.skip(0), p@, to@) =~= replaced(v@, p@, to@));
    while i < n
        invariant
            i <= n,
            n == v@.len(),
            v@ == s@,
            p@ == pat@,
            p@.len() > 0,
            out@ + replaced(v@.skip(i as int), p@, to@) == replaced(v@, p@, to@),
        decreases n - i,
    {
        let rest = part(&v, i, n);
        assert(rest@ == v@.skip(i as int));
        let ghost had = out@;
        if has_prefix(&rest, &p) {
            out.append(to);
            proof {
                assert(v@.skip(i as int).skip(p@.len() as int) =~= v@.skip(i + p@.len()));
                assert(had + (to@ + replaced(v@.skip(i + p@.len()), p@, to@)) =~= (had + to@)
                    + replaced(v@.skip(i + p@.len()), p@, to@));
            }
            i += p.len();
        } else {
            let one = slice(s, i, i + 1);
            out.append(one.as_str());
            proof {
                assert(one@ =~= seq![v@.skip(i as int)[0]]);
                assert(v@.skip(i as int).skip(1) =~= v@.skip(i + 1));
                assert(had + (seq![v@.skip(i as int)[0]] + replaced(v@.skip(i + 1), p@, to@))
                    =~= (had + one@) + replaced(v@.skip(i + 1), p@, to@));
            }
            i += 1;
        }
    }
    assert(out@ + Seq::<char>::empty() =~= out@);
    out
}

/// `s` without `p` at its start, as often as `p` stands there.
pub fn strip_leading(s: &str, p: &str) -> (r: String)
    ensures
        r@ == without_leading(s@, p@),
{
    let v = to_chars(s);
    let pre = to_chars(p);
    let n = v.len();
    if pre.len() == 0 {
        assert(s@.subrange(0, n as int) =~= s@);
        return slice(s, 0, n);
    }
    let mut i: usize = 0;
    assert(v@.skip(0) =~= v@);
    loop
        invariant
            i <= n,
            n == v@.len(),
            v@ == s@,
            pre@ == p@,
            pre@.len() > 0,
            without_leading(v@.skip(i as int), pre@) == without_leading(v@, pre@),
        decreases n - i,
    {
        let rest = part(&v, i, n);
        assert(rest@ == v@.skip(i as int));
        if !has_prefix(&rest, &pre) {
            assert(s@.subrange(i as int, n as int) =~= v@.skip(i as int));
            return slice(s, i, n);
        }
        proof {
            assert(v@.skip(i as int).skip(pre@.len() as int) =~= v@.skip(i + pre@.len()));
        }
        i += pre.len();
    }
}

/// Where the sources of a package are; see [`root_of`].
pub fn root(gh: &str, dirs: &str, commit: Option<&str>) -> (r: String)
    ensures
        r@ == root_of(
            gh@,
            dirs@,
            match commit {
                Some(c) => Some(c@),
                None => None,
            },
        ),
{
    let mut plain = String::from_str(gh);
    plain.append("/");
    plain.append(dirs);
    match commit {
        Some(c) => {
            let below = strip_leading(plain.as_str(), "https://github.com/terrapkg/packages/tree/");
            let chars = to_chars(below.as_str());
            let skip = count_leading(&chars, CharClass::NotSlash);
            let tail = slice(below.as_str(), skip, chars.len());
            assert(tail@ == below@.skip(skip as int));
            let mut r = String::from_str("https://github.com/terrapkg/packages/tree/");
            r.append(c);
            r.append(tail.as_str());
            r
        },
        None => plain,
    }
}

impl Tables {
    /// Whether row `i` is the row of the package `name` of `repo` with the
    /// greatest version in the order of the dictionary, and of those with
    /// that version the first.
    pub open spec fn is_newest(self, i: int, repo: Seq<char>, name: Seq<char>) -> bool {
        self.is_newest_of(self.pkgs.len() as int, i, repo, name)
    }

    /// The same of the first `n` rows.
    pub open spec fn is_newest_of(self, n: int, i: int, repo: Seq<char>, name: Seq<char>) -> bool {
        &&& 0 <= i < n <= self.pkgs.len()
        &&& is_named(self.pkgs[i], repo, name)
        &&& forall|j: int|
            0 <= j < n && is_named(#[trigger] self.pkgs[j], repo, name) ==> !lex_lt(
                self.pkgs[i].ver,
                self.pkgs[j].ver,
            ) && (self.pkgs[j].ver == self.pkgs[i].ver ==> i <= j)
    }

    /// The revision that the latest successful build of the package was made
    /// from, where one is recorded with its revision.
    pub open spec fn commit_of(self, repo: Seq<char>, name: Seq<char>) -> Option<Seq<char>> {
        match latest(self.builds, success_of(repo, name, None)) {
            Some(b) => b.commit,
            None => None,
        }
    }
}

impl Madoguchi {
    /// Position of the row of the package `name` of `repo` with the greatest
    /// version.
    pub fn newest(&self, repo: &str, name: &str) -> (r: Option<usize>)
        ensures
            match r {
                Some(i) => self@.is_newest(i as int, repo@, name@),
                None => forall|j: int|
                    0 <= j < self@.pkgs.len() ==> !is_named(#[trigger] self@.pkgs[j], repo@, name@),
            },
    {
        let want_repo = String::from_str(repo);
        let want_name = String::from_str(name);
        let ghost t = self@;
        let mut best: Option<usize> = None;
        let mut i: usize = 0;
        while i < self.pkgs.len()
            invariant
                i <= self.pkgs.len(),
                t == self@,
                want_repo@ == repo@,
                want_name@ == name@,
                match best {
                    Some(b) => t.is_newest_of(i as int, b as int, repo@, name@),
                    None => forall|j: int|
                        0 <= j < i ==> !is_named(#[trigger] t.pkgs[j], repo@, name@),
                },
            decreases self.pkgs.len() - i,
        {
            let row = &self.pkgs[i];
            if row.repo == want_repo && row.name == want_name {
                match best {
                    Some(b) => {
                        if precedes(self.pkgs[b].ver.as_str(), row.ver.as_str()) {
                            proof {
                                let top = t.pkgs[i as int].ver;
                                let was = t.pkgs[b as int].ver;
                                lemma_lex_irreflexive(top);
                                assert forall|j: int|
                                    0 <= j < i + 1 && is_named(
                                        #[trigger] t.pkgs[j],
                                        repo@,
                                        name@,
                                    ) implies !lex_lt(top, t.pkgs[j].ver) && (t.pkgs[j].ver == top
                                    ==> i <= j) by {
                                    if j < i {
                                        let v = t.pkgs[j].ver;
                                        lemma_lex_total(v, was);
                                        if lex_lt(top, v) {
                                            lemma_lex_transitive(was, top, v);
                                        }
                                        if v == top {
                                            assert(lex_lt(was, v));
                                        }
                                    }
                                }
                            }
                            best = Some(i);
                        }
                    },
                    None => {
                        proof {
                            lemma_lex_irreflexive(t.pkgs[i as int].ver);
                        }
                        best = Some(i);
                    },
                }
            }
            i += 1;
        }
        best
    }

    /// The revision that the latest successful build of the package was made
    /// from, where one is recorded with its revision.
    pub fn commit_of(&self, repo: &str, name: &str) -> (r: Option<String>)
        ensures
            r.is_some() == self@.commit_of(repo@, name@).is_some(),
            r.is_some() ==> r.unwrap()@ == self@.commit_of(repo@, name@).unwrap(),
    {
        let ghost want = success_of(repo@, name@, None);
        match self.latest_success(repo, name, None) {
            Some(i) => {
                proof {
                    lemma_latest(self@.builds, want, i as int);
                }
                match &self.builds[i].commit {
                    Some(c) => Some(c.clone()),
                    None => None,
                }
            },
            None => {
                proof {
                    if latest(self@.builds, want).is_some() {
                        let c = choose|c: int|
                            is_latest(self@.builds, want, self@.builds.len() as int, c);
                        assert(want(self@.builds[c]));
                    }
                }
                None
            },
        }
    }
}

/// Whether `r` is where the sources of the package `name` of `repo` are: the
/// directory of its row with the greatest version, below the source link of
/// the repository, in the tree of the revision that was last built
/// successfully where that is known; or nothing, where the store cannot be
/// reached or the package or the repository is not stored.
pub open spec fn located(t: Tables, repo: Seq<char>, name: Seq<char>, r: Option<Seq<char>>) -> bool {
    match r {
        Some(s) => t.up && t.has_repo(repo) && exists|i: int, k: int|
            #![trigger t.is_newest(i, repo, name), t.is_repo_at(k, repo)]
            t.is_newest(i, repo, name) && t.is_repo_at(k, repo) && s == root_of(
                t.repos[k].gh,
                t.pkgs[i].dirs,
                t.commit_of(repo, name),
            ),
        None => !t.up || !t.has_repo(repo) || forall|j: int|
            0 <= j < t.pkgs.len() ==> !is_named(#[trigger] t.pkgs[j], repo, name),
    }
}

/// What an address that may be missing holds.
pub open spec fn address(r: Option<String>) -> Option<Seq<char>> {
    match r {
        Some(s) => Some(s@),
        None => None,
    }
}

/// Where the sources of the package `name` of `repo` are; see [`located`].
pub fn rootdir(db: &Madoguchi, repo: &str, name: &str) -> (r: Option<String>)
    ensures
        located(db@, repo@, name@, address(r)),
{
    if !db.up {
        return None;
    }
    let i = match db.newest(repo, name) {
        Some(i) => i,
        None => {
            return None;
        },
    };
    let k = match db.find_repo(repo) {
        Some(k) => k,
        None => {
            return None;
        },
    };
    let commit = db.commit_of(repo, name);
    let s = match &commit {
        Some(c) => root(db.repos[k].gh.as_str(), db.pkgs[i].dirs.as_str(), Some(c.as_str())),
        None => root(db.repos[k].gh.as_str(), db.pkgs[i].dirs.as_str(), None),
    };
    proof {
        assert(db@.is_repo_at(k as int, repo@));
        assert(db@.repos[k as int].name == repo@);
        assert(db@.has_repo(repo@));
        assert(db@.is_newest(i as int, repo@, name@));
        assert(s@ == root_of(
            db@.repos[k as int].gh,
            db@.pkgs[i as int].dirs,
            db@.commit_of(repo@, name@),
        ));
    }
    Some(s)
}

/// Where a visitor who asks for the package is sent: to its sources.
pub fn redirect_pkg(db: &Madoguchi, repo: &str, name: &str) -> (r: Option<String>)
    ensures
        located(db@, repo@, name@, address(r)),
{
    rootdir(db, repo, name)
}

/// Where a visitor who asks for the build recipe of the package is sent: to
/// the file `anda.hcl` in its sources.
pub fn redirect_andahcl(db: &Madoguchi, repo: &str, name: &str) -> (r: Option<String>)
    ensures
        match r {
            Some(s) => exists|root: Seq<char>|
                #[trigger] located(db@, repo@, name@, Some(root)) && s@ == root + "/anda.hcl"@,
            None => located(db@, repo@, name@, None),
        },
{
    match rootdir(db, repo, name) {
        Some(root) => {
            let mut s = root;
            let ghost was = s@;
            s.append("/anda.hcl");
            assert(located(db@, repo@, name@, Some(was)));
            Some(s)
        },
        None => None,
    }
}

/// Where the build recipe of the package can be fetched as raw text.
pub fn anda_hcl_url(db: &Madoguchi, repo: &str, name: &str) -> (r: Option<String>)
    ensures
        match r {
            Some(s) => exists|root: Seq<char>|
                #[trigger] located(db@, repo@, name@, Some(root)) && s@ == raw_of(root)
                    + "/anda.hcl"@,
            None => located(db@, repo@, name@, None),
        },
{
    match rootdir(db, repo, name) {
        Some(root) => {
            let mut s = raw(root.as_str());
            s.append("/anda.hcl");
            assert(located(db@, repo@, name@, Some(root@)));
            Some(s)
        },
        None => None,
    }
}

/// The address of the same file as raw text.
pub fn raw(root: &str) -> (r: String)
    ensures
        r@ == raw_of(root@),
{
    let host = replace_all(root, "github.com", "raw.githubusercontent.com");
    replace_all(host.as_str(), "/tree/", "/")
}

/// The spec files that the projects of a build recipe name, in the order of
/// the recipe; `None` for a project that names none.
pub open spec fn spec_files(projects: Seq<Option<String>>) -> Seq<Option<Seq<char>>> {
    projects.map_values(|p: Option<String>| address(p))
}

/// The spec file of a build recipe: the one that its first project names.
pub open spec fn first_spec(projects: Seq<Option<Seq<char>>>) -> Option<Seq<char>> {
    if projects.len() > 0 {
        projects[0]
    } else {
        None
    }
}

/// The spec file of a build recipe: the one that its first project names.
pub fn spec_file(projects: &Vec<Option<String>>) -> (r: Option<&String>)
    ensures
        match r {
            Some(file) => first_spec(spec_files(projects@)) == Some(file@),
            None => first_spec(spec_files(projects@)).is_none(),
        },
{
    if projects.len() == 0 {
        return None;
    }
    match &projects[0] {
        Some(file) => Some(file),
        None => None,
    }
}

/// Where a visitor who asks for the spec file of the package is sent: to the
/// file that the first project of the build recipe names, in the sources of
/// the package. `projects` holds the spec file of each project of the recipe.
/// Nowhere, where the recipe has no project or its first names no spec file.
pub fn redirect_andaspec(
    db: &Madoguchi,
    repo: &str,
    name: &str,
    projects: &Vec<Option<String>>,
) -> (r: Option<String>)
    ensures
        match r {
            Some(s) => first_spec(spec_files(projects@)).is_some() && exists|root: Seq<char>|
                #[trigger] located(db@, repo@, name@, Some(root)) && s@ == root + "/"@
                    + first_spec(spec_files(projects@)).unwrap(),
            None => first_spec(spec_files(projects@)).is_none() || located(
                db@,
                repo@,
                name@,
                None,
            ),
        },
{
    match (rootdir(db, repo, name), spec_file(projects)) {
        (Some(root), Some(file)) => {
            let mut s = root;
            let ghost was = s@;
            s.append("/");
            s.append(file.as_str());
            assert(located(db@, repo@, name@, Some(was)));
            Some(s)
        },
        _ => None,
    }
}

/// Where a visitor who asks for the spec file as raw text is sent.
pub fn redirect_andaspecraw(
    db: &Madoguchi,
    repo: &str,
    name: &str,
    projects: &Vec<Option<String>>,
) -> (r: Option<String>)
    ensures
        match r {
            Some(s) => first_spec(spec_files(projects@)).is_some() && exists|root: Seq<char>|
                #[trigger] located(db@, repo@, name@, Some(root)) && s@ == raw_of(root) + "/"@
                    + first_spec(spec_files(projects@)).unwrap(),
            None => first_spec(spec_files(projects@)).is_none() || located(
                db@,
                repo@,
                name@,
                None,
            ),
        },
{
    match (rootdir(db, repo, name), spec_file(projects)) {
        (Some(root), Some(file)) => {
            let mut s = raw(root.as_str());
            s.append("/");
            s.append(file.as_str());
            assert(located(db@, repo@, name@, Some(root@)));
            Some(s)
        },
        _ => None,
    }
}

} // verus!
