//! The order of a listing: by one column of the catalogue, ascending or
//! descending, rows with equal values in the order of the catalogue.
use crate::db::{pkg_views, Pkg, PkgView};
use crate::text::to_chars;
use vstd::prelude::*;
use vstd::string::StringExecFns;

verus! {

/// A column of the catalogue that a listing can be ordered by.
#[derive(Clone, Copy, Debug, PartialEq, Eq, Structural)]
pub enum Column {
    Name,
    Repo,
    Ver,
    Rel,
    Arch,
    Dirs,
}

/// What a listing is ordered by.
#[derive(Clone, Copy, Debug, PartialEq, Eq, Structural)]
pub struct SortKey {
    pub column: Column,
    pub descending: bool,
}

impl Column {
    /// The name of the column.
    pub open spec fn label(self) -> Seq<char> {
        match self {
            Column::Name => "name"@,
            Column::Repo => "repo"@,
            Column::Ver => "ver"@,
            Column::Rel => "rel"@,
            Column::Arch => "arch"@,
            Column::Dirs => "dirs"@,
        }
    }

    /// The name of the column.
    pub fn name(self) -> (r: &'static str)
        ensures
            r@ == self.label(),
    {
        match self {
            Column::Name => "name",
            Column::Repo => "repo",
            Column::Ver => "ver",
            Column::Rel => "rel",
            Column::Arch => "arch",
            Column::Dirs => "dirs",
        }
    }

    /// What `p` holds in the column.
    pub open spec fn of(self, p: PkgView) -> Seq<char> {
        match self {
            Column::Name => p.name,
            Column::Repo => p.repo,
            Column::Ver => p.ver,
            Column::Rel => p.rel,
            Column::Arch => p.arch,
            Column::Dirs => p.dirs,
        }
    }

    /// What `p` holds in the column.
    pub fn read(self, p: &Pkg) -> (r: &String)
        ensures
            r@ == self.of(p@),
    {
        match self {
            Column::Name => &p.name,
            Column::Repo => &p.repo,
            Column::Ver => &p.ver,
            Column::Rel => &p.rel,
            Column::Arch => &p.arch,
            Column::Dirs => &p.dirs,
        }
    }

    /// What `s` asks for if it names this column: the column alone or with
    /// ` ASC` for ascending order, with ` DESC` for descending order.
    pub open spec fn reads(self, s: Seq<char>) -> Option<SortKey> {
        if s == self.label() || s == self.label() + " ASC"@ {
            Some(SortKey { column: self, descending: false })
        } else if s == self.label() + " DESC"@ {
            Some(SortKey { column: self, descending: true })
        } else {
            None
        }
    }

    /// What `s` asks for if it names this column.
    pub fn parse(self, s: &String) -> (r: Option<SortKey>)
        ensures
            r == self.reads(s@),
    {
        let plain = String::from_str(self.name());
        let mut up = String::from_str(self.name());
        up.append(" ASC");
        let mut down = String::from_str(self.name());
        down.append(" DESC");
        if *s == plain || *s == up {
            Some(SortKey { column: self, descending: false })
        } else if *s == down {
            Some(SortKey { column: self, descending: true })
        } else {
            None
        }
    }
}

/// The order that `s` asks for, where it is one of the orders on offer: a
/// column name, alone or followed by ` ASC` or ` DESC`.
pub open spec fn sort_key_of(s: Seq<char>) -> Option<SortKey> {
    if Column::Name.reads(s).is_some() {
        Column::Name.reads(s)
    } else if Column::Repo.reads(s).is_some() {
        Column::Repo.reads(s)
    } else if Column::Ver.reads(s).is_some() {
        Column::Ver.reads(s)
    } else if Column::Rel.reads(s).is_some() {
        Column::Rel.reads(s)
    } else if Column::Arch.reads(s).is_some() {
        Column::Arch.reads(s)
    } else {
        Column::Dirs.reads(s)
    }
}

impl SortKey {
    /// The order that `s` asks for, or `None` where `s` is not on offer.
    pub fn parse(s: &str) -> (r: Option<SortKey>)
        ensures
            r == sort_key_of(s@),
    {
        let s = String::from_str(s);
        let name = Column::Name.parse(&s);
        if name.is_some() {
            return name;
        }
        let repo = Column::Repo.parse(&s);
        if repo.is_some() {
            return repo;
        }
        let ver = Column::Ver.parse(&s);
        if ver.is_some() {
            return ver;
        }
        let rel = Column::Rel.parse(&s);
        if rel.is_some() {
            return rel;
        }
        let arch = Column::Arch.parse(&s);
        if arch.is_some() {
            return arch;
        }
        Column::Dirs.parse(&s)
    }

    /// The order of a listing that asks for none: by name, descending.
    pub fn fallback() -> (r: SortKey)
        ensures
            r == (SortKey { column: Column::Name, descending: true }),
    {
        SortKey { column: Column::Name, descending: true }
    }
}

/// Whether `a` stands before `b` in the order of the dictionary, character
/// by character, a character with a smaller code first.
pub open spec fn lex_lt(a: Seq<char>, b: Seq<char>) -> bool
    decreases a.len(),
{
    if b.len() == 0 {
        false
    } else if a.len() == 0 {
        true
    } else if a.first() != b.first() {
        (a.first() as int) < (b.first() as int)
    } else {
        lex_lt(a.drop_first(), b.drop_first())
    }
}

/// No text stands before itself.
pub proof fn lemma_lex_irreflexive(a: Seq<char>)
    ensures
        !lex_lt(a, a),
    decreases a.len(),
{
    if a.len() > 0 {
        lemma_lex_irreflexive(a.drop_first());
    }
}

/// What stands before a text that stands before a third stands before the
/// third.
pub proof fn lemma_lex_transitive(a: Seq<char>, b: Seq<char>, c: Seq<char>)
    requires
        lex_lt(a, b),
        lex_lt(b, c),
    ensures
        lex_lt(a, c),
    decreases a.len(),
{
    if a.len() > 0 && a.first() == b.first() && b.first() == c.first() {
        lemma_lex_transitive(a.drop_first(), b.drop_first(), c.drop_first());
    }
}

/// Of two different texts one stands before the other.
pub proof fn lemma_lex_total(a: Seq<char>, b: Seq<char>)
    ensures
        lex_lt(a, b) || lex_lt(b, a) || a == b,
    decreases a.len(),
{
    if a.len() == 0 || b.len() == 0 {
        if a.len() == 0 && b.len() == 0 {
            assert(a =~= b);
        }
    } else if a.first() == b.first() {
        lemma_lex_total(a.drop_first(), b.drop_first());
        if a.drop_first() == b.drop_first() {
            assert(a =~= seq![a.first()] + a.drop_first());
            assert(b =~= seq![b.first()] + b.drop_first());
        }
    } else {
        assert((a.first() as int) != (b.first() as int));
    }
}

/// Whether the order `key` puts `a` before `b`.
pub open spec fn before(a: PkgView, b: PkgView, key: SortKey) -> bool {
    if key.descending {
        lex_lt(key.column.of(b), key.column.of(a))
    } else {
        lex_lt(key.column.of(a), key.column.of(b))
    }
}

/// Where the order puts neither `b` before `a` nor `c` before `b`, it does
/// not put `c` before `a`.
pub proof fn lemma_not_before_transitive(a: PkgView, b: PkgView, c: PkgView, key: SortKey)
    requires
        !before(b, a, key),
        !before(c, b, key),
    ensures
        !before(c, a, key),
{
    let x = key.column.of(a);
    let y = key.column.of(b);
    let z = key.column.of(c);
    lemma_lex_total(x, y);
    lemma_lex_total(y, z);
    if key.descending {
        if lex_lt(x, z) {
            if lex_lt(z, y) {
                lemma_lex_transitive(x, z, y);
            }
        }
    } else {
        if lex_lt(z, x) {
            if lex_lt(x, y) {
                lemma_lex_transitive(z, x, y);
            }
        }
    }
}

/// `s` with `p` put in: behind every row that the order does not put behind
/// `p`.
pub open spec fn insert_sorted(s: Seq<PkgView>, p: PkgView, key: SortKey) -> Seq<PkgView>
    decreases s.len(),
{
    if s.len() > 0 && before(p, s.last(), key) {
        insert_sorted(s.drop_last(), p, key).push(s.last())
    } else {
        s.push(p)
    }
}

/// The rows of `s` in the order `key`; rows that the order does not tell
/// apart stay in the order of `s`.
pub open spec fn sorted(s: Seq<PkgView>, key: SortKey) -> Seq<PkgView>
    decreases s.len(),
{
    if s.len() == 0 {
        s
    } else {
        insert_sorted(sorted(s.drop_last(), key), s.last(), key)
    }
}

/// Whether no row of `s` stands behind one that the order puts behind it.
pub open spec fn in_order(s: Seq<PkgView>, key: SortKey) -> bool {
    forall|i: int, j: int| 0 <= i < j < s.len() ==> !before(#[trigger] s[j], #[trigger] s[i], key)
}

/// Putting a row in at position `at` is what [`insert_sorted`] does, where
/// the order puts the row before all rows from `at` on and not before the row
/// in front of `at`.
pub proof fn lemma_insert_position(s: Seq<PkgView>, p: PkgView, key: SortKey, at: int)
    requires
        0 <= at <= s.len(),
        forall|j: int| at <= j < s.len() ==> before(p, #[trigger] s[j], key),
        at == 0 || !before(p, s[at - 1], key),
    ensures
        insert_sorted(s, p, key) == s.insert(at, p),
    decreases s.len() - at,
{
    if at == s.len() {
        assert(s.push(p) =~= s.insert(at, p));
    } else {
        let rest = s.drop_last();
        assert(before(p, s[s.len() - 1], key));
        assert forall|j: int| at <= j < rest.len() implies before(p, #[trigger] rest[j], key) by {
            assert(rest[j] == s[j]);
        }
        lemma_insert_position(rest, p, key, at);
        assert(rest.insert(at, p).push(s.last()) =~= s.insert(at, p));
    }
}

/// Putting a row into rows that are in order leaves them in order, and
/// with the same rows and the new one.
pub proof fn lemma_insert_sorted(s: Seq<PkgView>, p: PkgView, key: SortKey)
    requires
        in_order(s, key),
    ensures
        in_order(insert_sorted(s, p, key), key),
        insert_sorted(s, p, key).to_multiset() == s.to_multiset().insert(p),
        insert_sorted(s, p, key).len() == s.len() + 1,
    decreases s.len(),
{
    broadcast use vstd::seq_lib::group_to_multiset_ensures;

    let out = insert_sorted(s, p, key);
    if s.len() > 0 && before(p, s.last(), key) {
        let rest = s.drop_last();
        let last = s.last();
        assert forall|i: int, j: int| 0 <= i < j < rest.len() implies !before(
            #[trigger] rest[j],
            #[trigger] rest[i],
            key,
        ) by {
            assert(!before(s[j], s[i], key));
        }
        lemma_insert_sorted(rest, p, key);
        let inner = insert_sorted(rest, p, key);
        assert(s =~= rest.push(last));
        assert forall|i: int| 0 <= i < inner.len() implies !before(last, #[trigger] inner[i], key) by {
            assert(inner.to_multiset().count(inner[i]) > 0);
            if inner[i] == p {
                lemma_lex_irreflexive(key.column.of(p));
                if before(last, p, key) {
                    lemma_lex_transitive(key.column.of(p), key.column.of(last), key.column.of(p));
                }
            } else {
                assert(rest.to_multiset().count(inner[i]) > 0);
                assert(rest.contains(inner[i]));
                let k = choose|k: int| 0 <= k < rest.len() && rest[k] == inner[i];
                assert(!before(s[s.len() - 1], s[k], key));
            }
        }
        assert forall|i: int, j: int| 0 <= i < j < out.len() implies !before(
            #[trigger] out[j],
            #[trigger] out[i],
            key,
        ) by {
            if j < inner.len() {
                assert(!before(inner[j], inner[i], key));
            } else {
                assert(out[j] == last);
                assert(out[i] == inner[i]);
            }
        }
    } else {
        assert forall|i: int, j: int| 0 <= i < j < out.len() implies !before(
            #[trigger] out[j],
            #[trigger] out[i],
            key,
        ) by {
            if j < s.len() {
                assert(!before(s[j], s[i], key));
            } else {
                assert(out[j] == p);
                assert(out[i] == s[i]);
                if i < s.len() - 1 {
                    assert(!before(s[s.len() - 1], s[i], key));
                    lemma_not_before_transitive(s[i], s.last(), p, key);
                }
            }
        }
    }
}

/// A listing is in the order asked for and holds the rows it was made of, each
/// as often as they do.
pub proof fn law_listing_is_ordered(s: Seq<PkgView>, key: SortKey)
    ensures
        in_order(sorted(s, key), key),
        sorted(s, key).to_multiset() == s.to_multiset(),
        sorted(s, key).len() == s.len(),
    decreases s.len(),
{
    broadcast use vstd::seq_lib::group_to_multiset_ensures;

    if s.len() > 0 {
        law_listing_is_ordered(s.drop_last(), key);
        lemma_insert_sorted(sorted(s.drop_last(), key), s.last(), key);
        assert(s =~= s.drop_last().push(s.last()));
    }
}

/// Whether the code of `c` is smaller than that of `d`.
pub fn code_lt(c: char, d: char) -> (r: bool)
    ensures
        r == ((c as int) < (d as int)),
{
    (c as u32) < (d as u32)
}

/// Whether `a` stands before `b` in the order of the dictionary.
pub fn precedes(a: &str, b: &str) -> (r: bool)
    ensures
        r == lex_lt(a@, b@),
{
    let x = to_chars(a);
    let y = to_chars(b);
    let mut i: usize = 0;
    assert(x@.skip(0) =~= x@ && y@.skip(0) =~= y@);
    loop
        invariant
            i <= x.len(),
            i <= y.len(),
            x@ == a@,
            y@ == b@,
            lex_lt(a@, b@) == lex_lt(x@.skip(i as int), y@.skip(i as int)),
        decreases x.len() - i,
    {
        if i == y.len() {
            return false;
        }
        if i == x.len() {
            return true;
        }
        if x[i] != y[i] {
            let cx: char = x[i];
            let cy: char = y[i];
            assert(x@.skip(i as int).first() == cx && y@.skip(i as int).first() == cy);
            return code_lt(cx, cy);
        }
        proof {
            assert(x@.skip(i as int).drop_first() =~= x@.skip(i + 1));
            assert(y@.skip(i as int).drop_first() =~= y@.skip(i + 1));
        }
        i += 1;
    }
}

/// Whether the order `key` puts `a` before `b`.
pub fn comes_before(a: &Pkg, b: &Pkg, key: SortKey) -> (r: bool)
    ensures
        r == before(a@, b@, key),
{
    if key.descending {
        precedes(key.column.read(b).as_str(), key.column.read(a).as_str())
    } else {
        precedes(key.column.read(a).as_str(), key.column.read(b).as_str())
    }
}

/// Puts `p` into `rows`: behind every row that the order does not put behind
/// it.
pub fn insert_in_order(rows: &mut Vec<Pkg>, p: Pkg, key: SortKey)
    ensures
        pkg_views(final(rows)@) == insert_sorted(pkg_views(old(rows)@), p@, key),
{
    let ghost had = pkg_views(rows@);
    let mut at: usize = rows.len();
    while at > 0 && comes_before(&p, &rows[at - 1], key)
        invariant
            at <= rows.len(),
            had == pkg_views(rows@),
            forall|j: int| at <= j < had.len() ==> before(p@, #[trigger] had[j], key),
        decreases at,
    {
        at -= 1;
    }
    proof {
        lemma_insert_position(had, p@, key, at as int);
    }
    let ghost pv = p@;
    rows.insert(at, p);
    assert(pkg_views(rows@) =~= had.insert(at as int, pv));
}

/// The rows in the order `key`; rows that the order does not tell apart stay
/// in the order given.
pub fn sort(rows: &Vec<Pkg>, key: SortKey) -> (out: Vec<Pkg>)
    ensures
        pkg_views(out@) == sorted(pkg_views(rows@), key),
{
    let ghost all = pkg_views(rows@);
    let mut out: Vec<Pkg> = Vec::new();
    let mut i: usize = 0;
    assert(pkg_views(out@) =~= sorted(all.take(0), key));
    while i < rows.len()
        invariant
            i <= rows.len(),
            all == pkg_views(rows@),
            pkg_views(out@) == sorted(all.take(i as int), key),
        decreases rows.len() - i,
    {
        proof {
            assert(all.take(i + 1).drop_last() =~= all.take(i as int));
            assert(all.take(i + 1).last() == rows@[i as int]@);
        }
        insert_in_order(&mut out, rows[i].clone(), key);
        i += 1;
    }
    assert(all.take(all.len() as int) =~= all);
    out
}

} // verus!
