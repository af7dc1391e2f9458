//! The package index that the repository host publishes.
//!
//! The host serves a descriptor document that names, among other files, the
//! compressed index of all packages. Fetching, decompressing and reading the
//! markup are the caller's work; this module says which file to fetch next,
//! finds the index in the descriptor, and turns the entries of the index into
//! a lookup table.
use crate::error::Error;
use crate::text::{
    count_leading, has_prefix, has_suffix, leading, part, slice, to_chars, CharClass,
};
use vstd::prelude::*;
use vstd::string::StringExecFns;

verus! {

/// What the index says of one package beyond its identity.
#[derive(Debug, PartialEq, Eq)]
pub struct PkgInf {
    pub summary: String,
    pub license: String,
}

/// What a [`PkgInf`] holds.
pub ghost struct PkgInfView {
    pub summary: Seq<char>,
    pub license: Seq<char>,
}

impl View for PkgInf {
    type V = PkgInfView;

    open spec fn view(&self) -> PkgInfView {
        PkgInfView { summary: self.summary@, license: self.license@ }
    }
}

impl Clone for PkgInf {
    fn clone(&self) -> (r: Self)
        ensures
            r@ == self@,
    {
        PkgInf { summary: self.summary.clone(), license: self.license.clone() }
    }
}

/// One package entry of the index.
#[derive(Debug, PartialEq, Eq)]
pub struct XmlPackage {
    pub name: String,
    pub arch: String,
    pub ver: String,
    pub rel: String,
    pub summary: String,
    pub license: String,
}

/// What an [`XmlPackage`] holds.
pub ghost struct XmlPackageView {
    pub name: Seq<char>,
    pub arch: Seq<char>,
    pub ver: Seq<char>,
    pub rel: Seq<char>,
    pub summary: Seq<char>,
    pub license: Seq<char>,
}

/// What identifies a package in the index: name, version, release and
/// architecture.
pub ghost struct Nevra {
    pub name: Seq<char>,
    pub ver: Seq<char>,
    pub rel: Seq<char>,
    pub arch: Seq<char>,
}

impl XmlPackageView {
    /// The identity of the entry.
    pub open spec fn key(self) -> Nevra {
        Nevra { name: self.name, ver: self.ver, rel: self.rel, arch: self.arch }
    }

    /// What the entry says beyond its identity.
    pub open spec fn info(self) -> PkgInfView {
        PkgInfView { summary: self.summary, license: self.license }
    }
}

impl View for XmlPackage {
    type V = XmlPackageView;

    open spec fn view(&self) -> XmlPackageView {
        XmlPackageView {
            name: self.name@,
            arch: self.arch@,
            ver: self.ver@,
            rel: self.rel@,
            summary: self.summary@,
            license: self.license@,
        }
    }
}

/// The views of the entries in `v`, in order.
pub open spec fn entry_views(v: Seq<XmlPackage>) -> Seq<XmlPackageView> {
    v.map_values(|e: XmlPackage| e@)
}

/// The lookup table of the entries: each identity with what the last entry
/// of that identity says.
pub open spec fn index_of(entries: Seq<XmlPackageView>) -> Map<Nevra, PkgInfView>
    decreases entries.len(),
{
    if entries.len() == 0 {
        Map::empty()
    } else {
        index_of(entries.drop_last()).insert(entries.last().key(), entries.last().info())
    }
}

/// The package index as a lookup table.
#[derive(Debug, PartialEq, Eq)]
pub struct RemoteIndex {
    /// The entries in the order of the index. Where two have one identity,
    /// the later one counts.
    pub entries: Vec<XmlPackage>,
}

impl View for RemoteIndex {
    type V = Map<Nevra, PkgInfView>;

    open spec fn view(&self) -> Map<Nevra, PkgInfView> {
        index_of(entry_views(self.entries@))
    }
}

impl RemoteIndex {
    /// The table of `entries`.
    pub fn new(entries: Vec<XmlPackage>) -> (r: RemoteIndex)
        ensures
            r@ == index_of(entry_views(entries@)),
    {
        RemoteIndex { entries }
    }

    /// Number of entries that the table was made of.
    pub fn len(&self) -> (n: usize)
        ensures
            n == self.entries@.len(),
    {
        self.entries.len()
    }

    /// What the index says of the package of that identity, if it lists it.
    pub fn get(&self, name: &str, ver: &str, rel: &str, arch: &str) -> (r: Option<PkgInf>)
        ensures
            match r {
                Some(inf) => self@.contains_key(
                    Nevra { name: name@, ver: ver@, rel: rel@, arch: arch@ },
                ) && self@[Nevra { name: name@, ver: ver@, rel: rel@, arch: arch@ }] == inf@,
                None => !self@.contains_key(
                    Nevra { name: name@, ver: ver@, rel: rel@, arch: arch@ },
                ),
            },
    {
        let want_name = String::from_str(name);
        let want_ver = String::from_str(ver);
        let want_rel = String::from_str(rel);
        let want_arch = String::from_str(arch);
        let ghost key = Nevra { name: name@, ver: ver@, rel: rel@, arch: arch@ };
        let ghost all = entry_views(self.entries@);
        let mut found: Option<usize> = None;
        let mut i: usize = 0;
        assert(all.take(0) =~= Seq::<XmlPackageView>::empty());
        while i < self.entries.len()
            invariant
                i <= self.entries.len(),
                all == entry_views(self.entries@),
                want_name@ == name@,
                want_ver@ == ver@,
                want_rel@ == rel@,
                want_arch@ == arch@,
                key == (Nevra { name: name@, ver: ver@, rel: rel@, arch: arch@ }),
                match found {
                    Some(f) => f < i && index_of(all.take(i as int)).contains_key(key) && index_of(
                        all.take(i as int),
                    )[key] == all[f as int].info(),
                    None => !index_of(all.take(i as int)).contains_key(key),
                },
            decreases self.entries.len() - i,
        {
            proof {
                assert(all.take(i + 1).drop_last() =~= all.take(i as int));
                assert(all.take(i + 1).last() == all[i as int]);
            }
            let e = &self.entries[i];
            if e.name == want_name && e.ver == want_ver && e.rel == want_rel && e.arch == want_arch {
                found = Some(i);
            }
            i += 1;
        }
        assert(all.take(all.len() as int) =~= all);
        match found {
            Some(f) => {
                let e = &self.entries[f];
                Some(PkgInf { summary: e.summary.clone(), license: e.license.clone() })
            },
            None => None,
        }
    }
}

/// How a line that names the index ends.
pub open spec fn index_suffix() -> Seq<char> {
    "-primary.xml.gz\"/>"@
}

/// How a line that names a file starts, after its indentation.
pub open spec fn location_prefix() -> Seq<char> {
    "<location href=\""@
}

/// What closes a line that names a file.
pub open spec fn location_closing() -> Seq<char> {
    "\"/>"@
}

/// Where the line that starts at `from` ends: at the next line feed, or at
/// the end of `s`.
pub open spec fn line_end(s: Seq<char>, from: int) -> int
    decreases s.len() - from,
{
    if from < 0 || from >= s.len() {
        s.len() as int
    } else if s[from] == '\n' {
        from
    } else {
        line_end(s, from + 1)
    }
}

/// The line that starts at `from`, without its line feed and without a
/// carriage return before that. A last line that no line feed ends keeps a
/// carriage return at its end.
pub open spec fn line_at(s: Seq<char>, from: int) -> Seq<char> {
    let raw = s.subrange(from, line_end(s, from));
    if line_end(s, from) < s.len() && raw.len() > 0 && raw.last() == '\r' {
        raw.drop_last()
    } else {
        raw
    }
}

/// The file that `line` names: what stands between `<location href="` and
/// `"/>`, where the line starts with the former after its indentation.
pub open spec fn location_in(line: Seq<char>) -> Option<Seq<char>> {
    let named = line.skip(leading(line, CharClass::Space) as int);
    if location_prefix().is_prefix_of(named) && named.len() >= location_prefix().len()
        + location_closing().len() {
        Some(
            named.subrange(
                location_prefix().len() as int,
                named.len() - location_closing().len(),
            ),
        )
    } else {
        None
    }
}

/// The index that the descriptor names from position `from` on: the file
/// named by the first line that ends in `-primary.xml.gz"/>`. `None` where no
/// line ends so, or where that line names no file.
pub open spec fn primary_from(s: Seq<char>, from: int) -> Option<Seq<char>>
    decreases s.len() - from,
{
    if from < 0 || from >= s.len() {
        None
    } else if index_suffix().is_suffix_of(line_at(s, from)) {
        location_in(line_at(s, from))
    } else if line_end(s, from) >= s.len() {
        None
    } else {
        proof {
            lemma_line_end_bounds(s, from);
        }
        primary_from(s, line_end(s, from) + 1)
    }
}

/// The index that the descriptor `s` names.
pub open spec fn primary_location(s: Seq<char>) -> Option<Seq<char>> {
    primary_from(s, 0)
}

/// A line ends within the text, at or after its start.
pub proof fn lemma_line_end_bounds(s: Seq<char>, from: int)
    requires
        0 <= from <= s.len(),
    ensures
        from <= line_end(s, from) <= s.len(),
    decreases s.len() - from,
{
    if from < s.len() && s[from] != '\n' {
        lemma_line_end_bounds(s, from + 1);
    }
}

/// The first line feed at or after `from`, or the end of the text, is where
/// the line ends.
pub proof fn lemma_line_end(s: Seq<char>, from: int, end: int)
    requires
        0 <= from <= end <= s.len(),
        forall|j: int| from <= j < end ==> s[j] != '\n',
        end == s.len() || s[end] == '\n',
    ensures
        line_end(s, from) == end,
    decreases end - from,
{
    if from < end {
        lemma_line_end(s, from + 1, end);
    }
}

/// Finds the index in the descriptor document: the file named by the first
/// line that ends in `-primary.xml.gz"/>`.
pub fn find_primary(doc: &str) -> (r: Option<String>)
    ensures
        match r {
            Some(loc) => primary_location(doc@) == Some(loc@),
            None => primary_location(doc@).is_none(),
        },
{
    let v = to_chars(doc);
    let suffix = to_chars("-primary.xml.gz\"/>");
    let prefix = to_chars("<location href=\"");
    let closing = to_chars("\"/>");
    let n = v.len();
    let mut from: usize = 0;
    while from < n
        invariant
            n == v@.len(),
            v@ == doc@,
            from <= n,
            suffix@ == index_suffix(),
            prefix@ == location_prefix(),
            closing@ == location_closing(),
            primary_from(v@, from as int) == primary_location(v@),
        decreases n - from,
    {
        let mut end: usize = from;
        while end < n && v[end] != '\n'
            invariant
                from <= end <= n,
                n == v@.len(),
                forall|j: int| from <= j < end ==> v@[j] != '\n',
            decreases n - end,
        {
            end += 1;
        }
        proof {
            lemma_line_end(v@, from as int, end as int);
        }
        let stop = if end < n && end > from && v[end - 1] == '\r' {
            end - 1
        } else {
            end
        };
        let line = part(&v, from, stop);
        proof {
            let raw = v@.subrange(from as int, end as int);
            if end < n && raw.len() > 0 && raw.last() == '\r' {
                assert(raw.drop_last() =~= v@.subrange(from as int, stop as int));
            }
            assert(line@ == line_at(v@, from as int));
        }
        if has_suffix(&line, &suffix) {
            let lead = count_leading(&line, CharClass::Space);
            let named = part(&line, lead, line.len());
            assert(named@ == line@.skip(lead as int));
            if has_prefix(&named, &prefix) && named.len() - prefix.len() >= closing.len() {
                let start = from + lead + prefix.len();
                let finish = from + lead + named.len() - closing.len();
                assert(named@.subrange(prefix@.len() as int, named@.len() - closing@.len())
                    =~= doc@.subrange(start as int, finish as int));
                return Some(slice(doc, start, finish));
            } else {
                return None;
            }
        }
        if end == n {
            return None;
        }
        from = end + 1;
    }
    None
}

/// What the caller reports of its last step.
#[derive(Debug, PartialEq, Eq)]
pub enum FeedEvent {
    /// Nothing was done yet.
    Start,
    /// The descriptor document, or `None` where it could not be fetched.
    Descriptor(Option<String>),
    /// The entries of the index, or what went wrong on the way to them.
    Index(Result<Vec<XmlPackage>, FeedFault>),
}

/// What can go wrong between asking for the index and holding its entries.
#[derive(Clone, Copy, Debug, PartialEq, Eq, Structural)]
pub enum FeedFault {
    /// The file could not be fetched.
    Fetch,
    /// The file is not a sequence of gzip members.
    Decompress,
    /// The decompressed document is not an index of packages.
    Parse,
}

/// What the caller is to do next.
#[derive(Debug, PartialEq, Eq)]
pub enum FeedStep {
    /// Fetch the descriptor document at this address.
    FetchDescriptor(String),
    /// Fetch the index at this address, decompress it and read its entries.
    FetchIndex(String),
    /// The index was read.
    Done(RemoteIndex),
    /// The index cannot be had.
    Failed(Error),
}

/// The address of the descriptor document of the repository at `url`.
pub open spec fn descriptor_url(url: Seq<char>) -> Seq<char> {
    url + "/repodata/repomd.xml"@
}

/// The address of the file `location` of the repository at `url`.
pub open spec fn artifact_url(url: Seq<char>, location: Seq<char>) -> Seq<char> {
    url + "/"@ + location
}

/// Whether `step` is what follows `event` when the index of the repository at
/// `url` is read.
pub open spec fn follows(url: Seq<char>, event: FeedEvent, step: FeedStep) -> bool {
    match event {
        FeedEvent::Start => step matches FeedStep::FetchDescriptor(at) && at@ == descriptor_url(
            url,
        ),
        FeedEvent::Descriptor(None) => step == FeedStep::Failed(Error::FeedUnavailable),
        FeedEvent::Descriptor(Some(doc)) => match primary_location(doc@) {
            Some(location) => step matches FeedStep::FetchIndex(at) && at@ == artifact_url(
                url,
                location,
            ),
            None => step == FeedStep::Failed(Error::FeedMalformed),
        },
        FeedEvent::Index(Err(FeedFault::Fetch)) => step == FeedStep::Failed(
            Error::FeedUnavailable,
        ),
        FeedEvent::Index(Err(_)) => step == FeedStep::Failed(Error::FeedMalformed),
        FeedEvent::Index(Ok(entries)) => step matches FeedStep::Done(index) && index@ == index_of(
            entry_views(entries@),
        ),
    }
}

/// Reads the package index of the repository at `url`, one step at a time:
/// given what the last step brought, says what to do next.
///
/// The caller starts with [`FeedEvent::Start`], does what each answer asks
/// for and reports the result, until the answer is [`FeedStep::Done`] or
/// [`FeedStep::Failed`]. A document that cannot be fetched fails with
/// `FeedUnavailable`; a descriptor that names no index, and an index that
/// cannot be decompressed or read, fail with `FeedMalformed`.
pub fn parse_primary_xml(url: &str, event: FeedEvent) -> (step: FeedStep)
    ensures
        follows(url@, event, step),
{
    match event {
        FeedEvent::Start => {
            let mut at = String::from_str(url);
            at.append("/repodata/repomd.xml");
            FeedStep::FetchDescriptor(at)
        },
        FeedEvent::Descriptor(None) => FeedStep::Failed(Error::FeedUnavailable),
        FeedEvent::Descriptor(Some(doc)) => match find_primary(doc.as_str()) {
            Some(location) => {
                let mut at = String::from_str(url);
                at.append("/");
                at.append(location.as_str());
                FeedStep::FetchIndex(at)
            },
            None => FeedStep::Failed(Error::FeedMalformed),
        },
        FeedEvent::Index(Err(FeedFault::Fetch)) => FeedStep::Failed(Error::FeedUnavailable),
        FeedEvent::Index(Err(_)) => FeedStep::Failed(Error::FeedMalformed),
        FeedEvent::Index(Ok(entries)) => FeedStep::Done(RemoteIndex::new(entries)),
    }
}

} // verus!
