use madoguchi::api::ci::{
    add_build, add_failed_build, failure_notice, reply, routes, submit_build, AddBuildBody,
};
use madoguchi::api::Method;
use madoguchi::db::{Madoguchi, UpsertOutcome};
use madoguchi::error::{Error, Status};

fn store() -> Madoguchi {
    let mut db = Madoguchi::new();
    db.put_repo("terra", "https://repos.example.org/terra", "https://github.com/terrapkg/packages/tree/f39")
        .unwrap();
    db
}

fn body(id: &str, ver: &str, dirs: Option<&str>, succ: bool) -> AddBuildBody {
    AddBuildBody {
        id: id.to_string(),
        ver: ver.to_string(),
        rel: "1".to_string(),
        arch: "x86_64".to_string(),
        dirs: dirs.map(|d| d.to_string()),
        succ,
    }
}

#[test]
fn second_success_overwrites_the_package_row() {
    let mut db = store();
    let first = submit_build(&mut db, "terra", "foo", &body("1", "1.0", Some("pkgs/foo"), true), 10).unwrap();
    assert_eq!(first.outcome, Some(UpsertOutcome::Inserted));
    assert_eq!(first.status, Status::Created);
    let second = submit_build(&mut db, "terra", "foo", &body("2", "1.1", Some("pkgs/foo"), true), 20).unwrap();
    assert_eq!(second.outcome, Some(UpsertOutcome::Updated));
    assert_eq!(db.pkgs.len(), 1);
    assert_eq!(db.pkgs[0].ver, "1.1");
    assert_eq!(db.pkgs[0].name, "foo");
    assert_eq!(db.builds.len(), 2);
    assert_eq!(db.builds[0].id, "1");
    assert_eq!(db.builds[0].pver, "1.0");
    assert_eq!(db.builds[0].epoch, 10);
    assert_eq!(db.builds[1].id, "2");
    assert_eq!(db.builds[1].pver, "1.1");
    assert_eq!(db.builds[1].epoch, 20);
    assert!(db.builds[0].succ && db.builds[1].succ);
    assert_eq!(second.records.len(), 1);
    assert_eq!(second.records[0], db.builds[1]);
    assert_eq!(second.stored.as_ref(), Some(&db.pkgs[0]));
    assert_eq!(second.notice, None);
}

#[test]
fn success_for_another_architecture_adds_a_row() {
    let mut db = store();
    submit_build(&mut db, "terra", "foo", &body("1", "1.0", Some("pkgs/foo"), true), 10).unwrap();
    let mut other = body("2", "1.0", Some("pkgs/foo"), true);
    other.arch = "aarch64".to_string();
    let done = submit_build(&mut db, "terra", "foo", &other, 11).unwrap();
    assert_eq!(done.outcome, Some(UpsertOutcome::Inserted));
    assert_eq!(db.pkgs.len(), 2);
}

#[test]
fn success_stores_the_directory_as_given() {
    let mut db = store();
    let done = submit_build(&mut db, "terra", "foo", &body("1", "1.0", Some("//pkgs/foo/"), true), 10).unwrap();
    assert_eq!(db.pkgs[0].dirs, "//pkgs/foo/");
    assert_eq!(done.stored.unwrap().dirs, "//pkgs/foo/");
    submit_build(&mut db, "terra", "bar", &body("2", "1.0", Some("pkgs/bar"), true), 10).unwrap();
    assert_eq!(db.pkgs[1].dirs, "pkgs/bar");
    submit_build(&mut db, "terra", "baz", &body("3", "1.0", None, true), 10).unwrap();
    assert_eq!(db.pkgs[2].dirs, "");
    submit_build(&mut db, "terra", "foo", &body("4", "1.1", Some("pkgs/foo"), true), 11).unwrap();
    assert_eq!(db.pkgs[0].dirs, "pkgs/foo");
}

#[test]
fn failure_reaches_a_package_stored_with_a_trailing_slash() {
    let mut db = store();
    submit_build(&mut db, "terra", "foo", &body("1", "1.0", Some("pkgs/foo/"), true), 10).unwrap();
    let done = submit_build(&mut db, "terra", "foo-devel", &body("2", "1.0", Some("pkgs/foo/"), false), 20).unwrap();
    assert_eq!(done.records.len(), 1);
    assert_eq!(done.records[0].pname, "foo");
    assert_eq!(done.records[0].id, "2");
    assert!(!done.records[0].succ);
}

#[test]
fn failure_leaves_the_catalogue_alone() {
    let mut db = store();
    submit_build(&mut db, "terra", "foo", &body("1", "1.0", Some("pkgs/foo"), true), 10).unwrap();
    let before = db.pkgs.clone();
    let done = submit_build(&mut db, "terra", "foo", &body("2", "2.0", Some("pkgs/other"), false), 20).unwrap();
    assert_eq!(db.pkgs, before);
    assert_eq!(done.status, Status::NoContent);
    assert_eq!(done.stored, None);
    assert_eq!(done.outcome, None);
    assert_eq!(db.builds.len(), 2);
    assert!(!db.builds[1].succ);
}

#[test]
fn failure_marks_every_package_of_the_directory() {
    let mut db = store();
    submit_build(&mut db, "terra", "foo", &body("1", "1.0", Some("pkgs/foo"), true), 10).unwrap();
    submit_build(&mut db, "terra", "foo-devel", &body("2", "1.0", Some("pkgs/foo"), true), 11).unwrap();
    submit_build(&mut db, "terra", "bar", &body("3", "1.0", Some("pkgs/bar"), true), 12).unwrap();
    let done = submit_build(&mut db, "terra", "foo", &body("4", "1.1", Some("pkgs/foo"), false), 20).unwrap();
    assert_eq!(done.records.len(), 2);
    assert_eq!(done.records[0].pname, "foo");
    assert_eq!(done.records[1].pname, "foo-devel");
    for r in &done.records {
        assert_eq!(r.id, "4");
        assert_eq!(r.pver, "1.1");
        assert_eq!(r.parch, "x86_64");
        assert_eq!(r.epoch, 20);
        assert!(!r.succ);
        assert_eq!(r.commit, None);
    }
    assert_eq!(db.builds.len(), 5);
    assert_eq!(db.builds[3], done.records[0]);
    assert_eq!(db.builds[4], done.records[1]);
    assert_eq!(db.pkgs.len(), 3);
    assert_eq!(db.pkgs[0].ver, "1.0");
}

#[test]
fn failure_names_a_package_once_whatever_its_architectures() {
    let mut db = store();
    submit_build(&mut db, "terra", "foo", &body("1", "1.0", Some("pkgs/foo"), true), 10).unwrap();
    let mut arm = body("2", "1.0", Some("pkgs/foo"), true);
    arm.arch = "aarch64".to_string();
    submit_build(&mut db, "terra", "foo", &arm, 11).unwrap();
    let done = submit_build(&mut db, "terra", "foo", &body("3", "1.1", Some("pkgs/foo"), false), 20).unwrap();
    assert_eq!(done.records.len(), 1);
    assert_eq!(done.records[0].pname, "foo");
}

#[test]
fn failure_in_an_unknown_directory_is_recorded_under_the_reported_name() {
    let mut db = store();
    let done = submit_build(&mut db, "terra", "newpkg", &body("9", "0.1", Some("pkgs/newpkg"), false), 5).unwrap();
    assert_eq!(done.records.len(), 1);
    assert_eq!(done.records[0].pname, "newpkg");
    assert_eq!(db.builds.len(), 1);
    assert!(db.pkgs.is_empty());
    let none = submit_build(&mut db, "terra", "newpkg", &body("10", "0.1", None, false), 6).unwrap();
    assert_eq!(none.records.len(), 1);
    assert_eq!(none.records[0].pname, "newpkg");
}

#[test]
fn failure_compares_the_directory_as_reported() {
    let mut db = store();
    submit_build(&mut db, "terra", "foo", &body("1", "1.0", Some("pkgs/foo"), true), 10).unwrap();
    let done = submit_build(&mut db, "terra", "zzz", &body("2", "1.0", Some("pkgs/foo/"), false), 20).unwrap();
    assert_eq!(done.records.len(), 1);
    assert_eq!(done.records[0].pname, "zzz");
}

#[test]
fn failure_of_another_repository_does_not_match() {
    let mut db = store();
    db.put_repo("extras", "l", "g").unwrap();
    submit_build(&mut db, "terra", "foo", &body("1", "1.0", Some("pkgs/foo"), true), 10).unwrap();
    let done = submit_build(&mut db, "extras", "foo2", &body("2", "1.0", Some("pkgs/foo"), false), 20).unwrap();
    assert_eq!(done.records.len(), 1);
    assert_eq!(done.records[0].pname, "foo2");
    assert_eq!(done.records[0].repo, "extras");
}

#[test]
fn failure_asks_for_a_notice() {
    let mut db = store();
    let done = submit_build(&mut db, "terra", "foo", &body("77", "1.0", Some("pkgs/foo"), false), 20).unwrap();
    let expected = "\n<:incorrect:1176633989864362094> Build Failing on **terra**: **pkgs/foo** (*x86_64*)\n\u{21d2} [gha](https://github.com/terrapkg/packages/actions/runs/77/)";
    assert_eq!(done.notice.as_deref(), Some(expected));
    assert_eq!(failure_notice("terra", "pkgs/foo", "x86_64", "77"), expected);
    let bare = submit_build(&mut db, "terra", "foo", &body("78", "1.0", None, false), 20).unwrap();
    assert_eq!(bare.notice, Some(failure_notice("terra", "", "x86_64", "78")));
}

#[test]
fn a_run_is_reported_once() {
    let mut db = store();
    submit_build(&mut db, "terra", "foo", &body("1", "1.0", Some("pkgs/foo"), true), 10).unwrap();
    let again = submit_build(&mut db, "terra", "foo", &body("1", "1.1", Some("pkgs/foo"), true), 20);
    assert_eq!(again, Err(Error::Conflict));
    assert_eq!(db.pkgs[0].ver, "1.0");
    assert_eq!(db.builds.len(), 1);
    let failed = submit_build(&mut db, "terra", "bar", &body("1", "1.1", Some("pkgs/foo"), false), 20);
    assert_eq!(failed, Err(Error::Conflict));
    assert_eq!(db.builds.len(), 1);
    assert_eq!(reply(&failed), Status::Conflict);
}

#[test]
fn a_report_needs_its_repository() {
    let mut db = store();
    let r = submit_build(&mut db, "nowhere", "foo", &body("1", "1.0", Some("pkgs/foo"), true), 10);
    assert_eq!(r, Err(Error::NotFound));
    let f = submit_build(&mut db, "nowhere", "foo", &body("1", "1.0", Some("pkgs/foo"), false), 10);
    assert_eq!(f, Err(Error::NotFound));
    assert!(db.pkgs.is_empty() && db.builds.is_empty());
    assert_eq!(reply(&r), Status::NotFound);
}

#[test]
fn a_report_needs_the_store() {
    let mut db = store();
    db.up = false;
    let r = submit_build(&mut db, "terra", "foo", &body("1", "1.0", Some("pkgs/foo"), true), 10);
    assert_eq!(r, Err(Error::StoreUnavailable));
    let f = add_failed_build(&mut db, "terra", "foo", &body("1", "1.0", Some("pkgs/foo"), false), 10);
    assert_eq!(f, Err(Error::StoreUnavailable));
    assert!(db.pkgs.is_empty() && db.builds.is_empty());
    assert_eq!(reply(&r), Status::InternalServerError);
}

#[test]
fn add_failed_build_records_a_failure_whatever_the_flag() {
    let mut db = store();
    let done = add_failed_build(&mut db, "terra", "foo", &body("1", "1.0", Some("pkgs/foo"), true), 10).unwrap();
    assert!(!done.records[0].succ);
    assert!(db.pkgs.is_empty());
    assert_eq!(done.status, Status::NoContent);
}

#[test]
fn add_build_takes_the_time_from_the_clock() {
    let mut db = store();
    let done = add_build(&mut db, "terra", "foo", &body("1", "1.0", Some("pkgs/foo"), true)).unwrap();
    assert_eq!(done.records.len(), 1);
    // between 2020-01-01 and 2200-01-01 in microseconds: where the clock of the machine is
    assert!(done.records[0].epoch > 1_577_836_800_000_000);
    assert!(done.records[0].epoch < 7_258_118_400_000_000);
    assert_eq!(db.builds[0].epoch, done.records[0].epoch);
    assert_eq!(reply(&Ok(done)), Status::Created);
    let failed = add_build(&mut db, "terra", "foo", &body("2", "1.0", Some("pkgs/foo"), false)).unwrap();
    assert!(failed.records[0].epoch >= db.builds[0].epoch);
    assert_eq!(reply(&Ok(failed)), Status::NoContent);
}

#[test]
fn ci_routes() {
    let r = routes();
    assert_eq!(r.len(), 1);
    assert_eq!(r[0].method, Method::Put);
    assert_eq!(r[0].uri, "/<repo>/builds/<name>");
    assert_eq!(r[0].name, "add_build");
}
