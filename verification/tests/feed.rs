use madoguchi::api::ci::{submit_build, AddBuildBody};
use madoguchi::api::repopkgs::{
    find_primary, parse_primary_xml, FeedEvent, FeedFault, FeedStep, PkgInf, RemoteIndex,
    XmlPackage,
};
use madoguchi::db::Madoguchi;
use madoguchi::discovery::DiscoveryEntry;
use madoguchi::error::Error;

const REPOMD: &str = "<?xml version=\"1.0\" encoding=\"UTF-8\"?>\n<repomd xmlns=\"http://linux.duke.edu/metadata/repo\">\n  <revision>1700000000</revision>\n  <data type=\"filelists\">\n    <location href=\"repodata/abc-filelists.xml.gz\"/>\n  </data>\n  <data type=\"primary\">\n    <checksum type=\"sha256\">abc</checksum>\n    <location href=\"repodata/abc-primary.xml.gz\"/>\n    <size>123</size>\n  </data>\n  <data type=\"primary_db\">\n    <location href=\"repodata/def-primary.xml.gz\"/>\n  </data>\n</repomd>\n";

fn entry(name: &str, ver: &str, rel: &str, arch: &str, summary: &str, license: &str) -> XmlPackage {
    XmlPackage {
        name: name.into(),
        arch: arch.into(),
        ver: ver.into(),
        rel: rel.into(),
        summary: summary.into(),
        license: license.into(),
    }
}

#[test]
fn descriptor_names_the_index() {
    assert_eq!(find_primary(REPOMD).as_deref(), Some("repodata/abc-primary.xml.gz"));
}

#[test]
fn descriptor_lines_may_end_in_carriage_returns() {
    let doc = REPOMD.replace('\n', "\r\n");
    assert_eq!(find_primary(&doc).as_deref(), Some("repodata/abc-primary.xml.gz"));
}

#[test]
fn descriptor_without_final_line_feed() {
    let doc = "<data>\n\t<location href=\"x/1-primary.xml.gz\"/>";
    assert_eq!(find_primary(doc).as_deref(), Some("x/1-primary.xml.gz"));
    assert_eq!(find_primary("<location href=\"-primary.xml.gz\"/>").as_deref(), Some("-primary.xml.gz"));
}

#[test]
fn descriptor_that_ends_in_a_bare_carriage_return() {
    // a carriage return goes with the line feed after it; without one it belongs to the line
    assert_eq!(find_primary("<location href=\"repodata/a-primary.xml.gz\"/>\r"), None);
    assert_eq!(find_primary("<data>\r\n<location href=\"repodata/a-primary.xml.gz\"/>\r"), None);
    assert_eq!(
        find_primary("<location href=\"repodata/a-primary.xml.gz\"/>\r\n").as_deref(),
        Some("repodata/a-primary.xml.gz")
    );
    // one carriage return goes, not two; one in the middle of a line stays
    assert_eq!(find_primary("<location href=\"repodata/a-primary.xml.gz\"/>\r\r\n"), None);
    assert_eq!(
        find_primary("\r<location href=\"repodata/a-primary.xml.gz\"/>\n").as_deref(),
        Some("repodata/a-primary.xml.gz")
    );
    assert_eq!(
        parse_primary_xml("u", FeedEvent::Descriptor(Some("<location href=\"a-primary.xml.gz\"/>\r".into()))),
        FeedStep::Failed(Error::FeedMalformed)
    );
    for doc in ["a-primary.xml.gz\"/>\r", "x\r\ny\r", "x\ry\n", "\r", "\r\n", "a\n\nb"] {
        let lines: Vec<&str> = doc.lines().collect();
        let first = lines.iter().find(|l| l.ends_with("-primary.xml.gz\"/>"));
        assert_eq!(find_primary(doc).is_some(), first.is_some_and(|l| l.trim_start().starts_with("<location href=\"")));
    }
}

#[test]
fn descriptor_indentation_is_any_white_space() {
    let doc = "\u{a0}\u{2003} \t<location href=\"r/p-primary.xml.gz\"/>\n";
    assert_eq!(find_primary(doc).as_deref(), Some("r/p-primary.xml.gz"));
}

#[test]
fn descriptor_that_names_no_index() {
    assert_eq!(find_primary(""), None);
    assert_eq!(find_primary("\n\n"), None);
    assert_eq!(find_primary("<repomd>\n<location href=\"repodata/abc-filelists.xml.gz\"/>\n</repomd>"), None);
    // the line must end with the reference: what follows it on the line hides it
    assert_eq!(find_primary("<location href=\"repodata/abc-primary.xml.gz\"/> \n"), None);
    assert_eq!(find_primary("<location href=\"repodata/abc-primary.xml.gz\" />\n"), None);
}

#[test]
fn first_line_that_ends_like_the_index_decides() {
    // it ends like a reference to the index but does not start like one
    let doc = "<other href=\"a-primary.xml.gz\"/>\n<location href=\"b-primary.xml.gz\"/>\n";
    assert_eq!(find_primary(doc), None);
    let doc = "x<location href=\"a-primary.xml.gz\"/>\n<location href=\"b-primary.xml.gz\"/>\n";
    assert_eq!(find_primary(doc), None);
}

#[test]
fn index_keeps_the_last_entry_of_an_identity() {
    let index = RemoteIndex::new(vec![
        entry("foo", "1.0", "1", "x86_64", "old", "MIT"),
        entry("bar", "2.0", "1", "x86_64", "B", "GPL"),
        entry("foo", "1.0", "1", "x86_64", "new", "Apache"),
    ]);
    assert_eq!(index.len(), 3);
    assert_eq!(
        index.get("foo", "1.0", "1", "x86_64"),
        Some(PkgInf { summary: "new".into(), license: "Apache".into() })
    );
    assert_eq!(
        index.get("bar", "2.0", "1", "x86_64"),
        Some(PkgInf { summary: "B".into(), license: "GPL".into() })
    );
    assert_eq!(index.get("foo", "1.0", "1", "aarch64"), None);
    assert_eq!(index.get("foo", "1.0", "2", "x86_64"), None);
    assert_eq!(index.get("foo", "1.1", "1", "x86_64"), None);
    assert_eq!(index.get("baz", "1.0", "1", "x86_64"), None);
    assert_eq!(RemoteIndex::new(vec![]).get("foo", "1.0", "1", "x86_64"), None);
}

#[test]
fn reading_the_index_step_by_step() {
    let url = "https://repos.example.org/terra";
    assert_eq!(
        parse_primary_xml(url, FeedEvent::Start),
        FeedStep::FetchDescriptor("https://repos.example.org/terra/repodata/repomd.xml".into())
    );
    assert_eq!(
        parse_primary_xml(url, FeedEvent::Descriptor(Some(REPOMD.into()))),
        FeedStep::FetchIndex("https://repos.example.org/terra/repodata/abc-primary.xml.gz".into())
    );
    let entries = vec![entry("foo", "1.0", "1", "x86_64", "S", "L")];
    match parse_primary_xml(url, FeedEvent::Index(Ok(entries))) {
        FeedStep::Done(index) => {
            assert_eq!(index.get("foo", "1.0", "1", "x86_64"), Some(PkgInf { summary: "S".into(), license: "L".into() }));
        }
        other => panic!("{other:?}"),
    }
}

#[test]
fn reading_the_index_fails() {
    let url = "https://repos.example.org/terra";
    assert_eq!(parse_primary_xml(url, FeedEvent::Descriptor(None)), FeedStep::Failed(Error::FeedUnavailable));
    assert_eq!(
        parse_primary_xml(url, FeedEvent::Descriptor(Some("<repomd/>".into()))),
        FeedStep::Failed(Error::FeedMalformed)
    );
    assert_eq!(
        parse_primary_xml(url, FeedEvent::Index(Err(FeedFault::Fetch))),
        FeedStep::Failed(Error::FeedUnavailable)
    );
    assert_eq!(
        parse_primary_xml(url, FeedEvent::Index(Err(FeedFault::Decompress))),
        FeedStep::Failed(Error::FeedMalformed)
    );
    assert_eq!(
        parse_primary_xml(url, FeedEvent::Index(Err(FeedFault::Parse))),
        FeedStep::Failed(Error::FeedMalformed)
    );
}

fn catalogue() -> Madoguchi {
    let mut db = Madoguchi::new();
    db.put_repo("terra", "https://repos.example.org/terra", "https://github.com/terrapkg/packages/tree/f39")
        .unwrap();
    let ok = AddBuildBody {
        id: "42".into(),
        ver: "1.0".into(),
        rel: "1".into(),
        arch: "x86_64".into(),
        dirs: Some("anda/foo".into()),
        succ: true,
    };
    submit_build(&mut db, "terra", "foo", &ok, 100).unwrap();
    db
}

#[test]
fn reconcile_joins_catalogue_and_index() {
    let db = catalogue();
    let location = find_primary(REPOMD).unwrap();
    assert_eq!(location, "repodata/abc-primary.xml.gz");
    let feed = match parse_primary_xml(
        "https://repos.example.org/terra",
        FeedEvent::Index(Ok(vec![entry("foo", "1.0", "1", "x86_64", "S", "L")])),
    ) {
        FeedStep::Done(index) => Ok(index),
        FeedStep::Failed(e) => Err(e),
        other => panic!("{other:?}"),
    };
    let view = db.reconcile("terra", &feed).unwrap();
    assert_eq!(
        view,
        vec![DiscoveryEntry {
            name: "foo".into(),
            version: "1.0".into(),
            release: "1".into(),
            arch: "x86_64".into(),
            url: "https://github.com/terrapkg/packages/tree/f39/anda/foo".into(),
            recipe: "https://github.com/terrapkg/packages/tree/f39/anda/foo/anda.hcl".into(),
            build: Some("https://github.com/terrapkg/packages/actions/runs/42".into()),
            license: "L".into(),
            summary: "S".into(),
        }]
    );
    assert!(view[0].build.as_ref().unwrap().contains("42"));
}

#[test]
fn reconcile_leaves_out_what_the_index_does_not_list() {
    let mut db = catalogue();
    db.upsert("terra", "bar", "x86_64", "2.0", "1", "anda/bar").unwrap();
    db.upsert("terra", "baz", "x86_64", "3.0", "1", "anda/baz").unwrap();
    let index = RemoteIndex::new(vec![
        entry("foo", "1.0", "2", "x86_64", "other release", "L"),
        entry("baz", "3.0", "1", "x86_64", "Z", "MIT"),
        entry("qux", "1.0", "1", "x86_64", "not in the catalogue", "L"),
    ]);
    let view = db.join("terra", &index).unwrap();
    assert_eq!(view.len(), 1);
    assert_eq!(view[0].name, "baz");
    assert_eq!(view[0].summary, "Z");
    assert_eq!(view[0].license, "MIT");
    assert_eq!(view[0].build, None);
    assert_eq!(db.join("terra", &RemoteIndex::new(vec![])), Ok(vec![]));
}

#[test]
fn reconcile_refers_to_the_latest_successful_build_of_the_version() {
    let mut db = catalogue();
    let report = |id: &str, ver: &str, succ: bool| AddBuildBody {
        id: id.into(),
        ver: ver.into(),
        rel: "1".into(),
        arch: "x86_64".into(),
        dirs: Some("anda/foo".into()),
        succ,
    };
    submit_build(&mut db, "terra", "foo", &report("43", "1.0", true), 300).unwrap();
    submit_build(&mut db, "terra", "foo", &report("44", "1.0", true), 200).unwrap();
    submit_build(&mut db, "terra", "foo", &report("45", "1.0", false), 400).unwrap();
    let index = RemoteIndex::new(vec![entry("foo", "1.0", "1", "x86_64", "S", "L")]);
    let view = db.join("terra", &index).unwrap();
    assert_eq!(view[0].build.as_deref(), Some("https://github.com/terrapkg/packages/actions/runs/43"));
    // a newer version without a build of its own has no reference
    db.upsert("terra", "foo", "x86_64", "1.1", "1", "anda/foo").unwrap();
    let index = RemoteIndex::new(vec![entry("foo", "1.1", "1", "x86_64", "S", "L")]);
    assert_eq!(db.join("terra", &index).unwrap()[0].build, None);
}

#[test]
fn reconcile_keeps_to_the_repository() {
    let mut db = catalogue();
    db.put_repo("extras", "l", "https://example.org/extras").unwrap();
    db.upsert("extras", "foo", "x86_64", "1.0", "1", "e/foo").unwrap();
    let index = RemoteIndex::new(vec![entry("foo", "1.0", "1", "x86_64", "S", "L")]);
    let view = db.join("extras", &index).unwrap();
    assert_eq!(view.len(), 1);
    assert_eq!(view[0].url, "https://example.org/extras/e/foo");
    // the build of the package of the same name in the other repository is not referred to
    assert_eq!(view[0].build, None);
}

#[test]
fn reconcile_fails_as_a_whole() {
    let mut db = catalogue();
    assert_eq!(db.reconcile("terra", &Err(Error::FeedUnavailable)), Err(Error::FeedUnavailable));
    assert_eq!(db.reconcile("terra", &Err(Error::FeedMalformed)), Err(Error::FeedMalformed));
    let index = Ok(RemoteIndex::new(vec![entry("foo", "1.0", "1", "x86_64", "S", "L")]));
    assert_eq!(db.reconcile("nowhere", &index), Err(Error::NotFound));
    db.up = false;
    assert_eq!(db.reconcile("terra", &index), Err(Error::StoreUnavailable));
    assert_eq!(db.reconcile("terra", &Err(Error::FeedMalformed)), Err(Error::FeedMalformed));
}
