use madoguchi::api::v4::{
    add_pkg, add_repo, del_pkg, del_repo, list_builds, list_repos, pkg_info, search_pkgs,
    AddPkgBody, AddRepoBody,
};
use madoguchi::api::ci::{submit_build, AddBuildBody};
use madoguchi::catalog::MAX_LIM;
use madoguchi::db::{Build, Madoguchi, UpsertOutcome};
use madoguchi::error::{Error, Status};
use madoguchi::order::{precedes, Column, SortKey};

fn store() -> Madoguchi {
    let mut db = Madoguchi::new();
    db.put_repo("terra", "https://repos.example.org/terra/", "https://github.com/terrapkg/packages/").unwrap();
    db
}

fn filled() -> Madoguchi {
    let mut db = store();
    for (name, ver) in [("delta", "4"), ("alpha", "1"), ("charlie", "3"), ("bravo", "2")] {
        db.upsert("terra", name, "x86_64", ver, "1", name).unwrap();
    }
    db
}

fn names(rows: &[madoguchi::db::Pkg]) -> Vec<String> {
    rows.iter().map(|p| p.name.clone()).collect()
}

#[test]
fn list_refuses_more_than_a_hundred_rows() {
    let db = filled();
    assert_eq!(db.list("terra", Some(101), None, None), Err(Error::LimitExceeded));
    assert!(db.list("terra", Some(100), None, None).is_ok());
    assert_eq!(MAX_LIM, 100);
    assert_eq!(search_pkgs(&db, "terra", Some(101), None, None), Err(Status::UnprocessableEntity));
    assert!(search_pkgs(&db, "terra", Some(100), None, None).is_ok());
    // too many rows and a repository that is not registered are told apart
    assert_eq!(search_pkgs(&db, "nowhere", None, None, None), Err(Status::NotFound));
    assert_eq!(search_pkgs(&db, "nowhere", Some(101), None, None), Err(Status::UnprocessableEntity));
    assert_eq!(search_pkgs(&db, "terra", None, None, None).unwrap().len(), 4);
}

#[test]
fn list_judges_the_query_before_the_store() {
    let mut db = filled();
    db.up = false;
    assert_eq!(db.list("terra", Some(101), None, None), Err(Error::LimitExceeded));
    assert_eq!(db.list("terra", Some(-1), None, None), Err(Error::Validation));
    assert_eq!(db.list("terra", None, None, Some(-1)), Err(Error::Validation));
    assert_eq!(db.list("terra", None, Some("name; DROP TABLE pkgs"), None), Err(Error::Validation));
    assert_eq!(db.list("terra", None, None, None), Err(Error::StoreUnavailable));
    db.up = true;
    assert_eq!(db.list("nowhere", None, None, None), Err(Error::NotFound));
    assert_eq!(search_pkgs(&db, "terra", None, Some("NAME"), None), Err(Status::BadRequest));
}

#[test]
fn list_orders_by_name_descending_unless_told() {
    let db = filled();
    let rows = db.list("terra", None, None, None).unwrap();
    assert_eq!(names(&rows), ["delta", "charlie", "bravo", "alpha"]);
    let rows = db.list("terra", None, Some("name"), None).unwrap();
    assert_eq!(names(&rows), ["alpha", "bravo", "charlie", "delta"]);
    let rows = db.list("terra", None, Some("name ASC"), None).unwrap();
    assert_eq!(names(&rows), ["alpha", "bravo", "charlie", "delta"]);
    let rows = db.list("terra", None, Some("ver DESC"), None).unwrap();
    assert_eq!(names(&rows), ["delta", "charlie", "bravo", "alpha"]);
}

#[test]
fn list_keeps_the_stored_order_among_equals() {
    let db = filled();
    let rows = db.list("terra", None, Some("rel"), None).unwrap();
    assert_eq!(names(&rows), ["delta", "alpha", "charlie", "bravo"]);
    let rows = db.list("terra", None, Some("arch DESC"), None).unwrap();
    assert_eq!(names(&rows), ["delta", "alpha", "charlie", "bravo"]);
}

#[test]
fn list_pages() {
    let db = filled();
    let rows = db.list("terra", Some(2), Some("name"), Some(1)).unwrap();
    assert_eq!(names(&rows), ["bravo", "charlie"]);
    let rows = db.list("terra", Some(10), Some("name"), Some(3)).unwrap();
    assert_eq!(names(&rows), ["delta"]);
    assert!(db.list("terra", Some(10), Some("name"), Some(4)).unwrap().is_empty());
    assert!(db.list("terra", Some(10), Some("name"), Some(i64::MAX)).unwrap().is_empty());
    assert!(db.list("terra", Some(0), Some("name"), Some(0)).unwrap().is_empty());
}

#[test]
fn list_holds_one_repository() {
    let mut db = filled();
    db.put_repo("extras", "l", "g").unwrap();
    db.upsert("extras", "zulu", "x86_64", "1", "1", "z").unwrap();
    assert_eq!(db.list("terra", None, None, None).unwrap().len(), 4);
    assert_eq!(names(&db.list("extras", None, None, None).unwrap()), ["zulu"]);
}

#[test]
fn sort_keys_on_offer() {
    assert_eq!(SortKey::parse("name"), Some(SortKey { column: Column::Name, descending: false }));
    assert_eq!(SortKey::parse("repo ASC"), Some(SortKey { column: Column::Repo, descending: false }));
    assert_eq!(SortKey::parse("ver DESC"), Some(SortKey { column: Column::Ver, descending: true }));
    assert_eq!(SortKey::parse("rel"), Some(SortKey { column: Column::Rel, descending: false }));
    assert_eq!(SortKey::parse("arch DESC"), Some(SortKey { column: Column::Arch, descending: true }));
    assert_eq!(SortKey::parse("dirs"), Some(SortKey { column: Column::Dirs, descending: false }));
    assert_eq!(SortKey::parse(""), None);
    assert_eq!(SortKey::parse("name desc"), None);
    assert_eq!(SortKey::parse("name  DESC"), None);
    assert_eq!(SortKey::parse("id"), None);
    assert_eq!(SortKey::fallback(), SortKey { column: Column::Name, descending: true });
}

#[test]
fn dictionary_order() {
    assert!(precedes("", "a"));
    assert!(!precedes("a", ""));
    assert!(!precedes("", ""));
    assert!(precedes("a", "b"));
    assert!(precedes("a", "ab"));
    assert!(!precedes("ab", "a"));
    assert!(!precedes("abc", "abc"));
    assert!(precedes("Z", "a"));
    assert!(precedes("10", "9"));
    assert!(precedes("z", "\u{e9}"));
    for (a, b) in [("foo", "foo-devel"), ("1.0", "1.0.1"), ("\u{10000}", "\u{ffff}"), ("b", "a")] {
        assert_eq!(precedes(a, b), a < b);
    }
}

#[test]
fn upsert_inserts_then_updates() {
    let mut db = store();
    assert_eq!(db.upsert("terra", "foo", "x86_64", "1.0", "1", "pkgs/foo"), Ok(UpsertOutcome::Inserted));
    assert_eq!(db.upsert("terra", "foo", "x86_64", "1.1", "2", "pkgs/foo2"), Ok(UpsertOutcome::Updated));
    assert_eq!(db.pkgs.len(), 1);
    assert_eq!(db.pkgs[0].ver, "1.1");
    assert_eq!(db.pkgs[0].rel, "2");
    assert_eq!(db.pkgs[0].dirs, "pkgs/foo2");
    assert_eq!(db.upsert("terra", "foo", "aarch64", "1.0", "1", "pkgs/foo"), Ok(UpsertOutcome::Inserted));
    assert_eq!(db.upsert("nowhere", "foo", "x86_64", "1.0", "1", "pkgs/foo"), Err(Error::NotFound));
    db.up = false;
    assert_eq!(db.upsert("terra", "foo", "x86_64", "2", "1", "pkgs/foo"), Err(Error::StoreUnavailable));
    assert_eq!(db.pkgs.len(), 2);
}

#[test]
fn get_gives_the_first_row_of_the_name() {
    let mut db = store();
    assert_eq!(db.get("terra", "foo"), None);
    db.upsert("terra", "bar", "x86_64", "0", "1", "b").unwrap();
    db.upsert("terra", "foo", "x86_64", "1.0", "1", "pkgs/foo").unwrap();
    db.upsert("terra", "foo", "aarch64", "1.1", "1", "pkgs/foo").unwrap();
    let got = db.get("terra", "foo").unwrap();
    assert_eq!(got.arch, "x86_64");
    assert_eq!(got.ver, "1.0");
    assert_eq!(pkg_info(&db, "terra", "foo"), Ok(got));
    assert_eq!(pkg_info(&db, "terra", "nope"), Err(Status::NotFound));
    assert_eq!(db.get("extras", "foo"), None);
    db.up = false;
    assert_eq!(db.get("terra", "foo"), None);
    assert_eq!(pkg_info(&db, "terra", "foo"), Err(Status::InternalServerError));
}

#[test]
fn endpoints_register_and_delete_packages() {
    let mut db = store();
    let p = AddPkgBody { ver: "1.0".into(), rel: "1".into(), arch: "x86_64".into(), dirs: "pkgs/foo/".into() };
    assert_eq!(add_pkg(&mut db, "terra", "foo", &p), Status::Created);
    assert_eq!(db.pkgs[0].dirs, "pkgs/foo");
    let q = AddPkgBody { ver: "1.1".into(), rel: "1".into(), arch: "x86_64".into(), dirs: "pkgs/foo//".into() };
    assert_eq!(add_pkg(&mut db, "terra", "foo", &q), Status::NoContent);
    assert_eq!(db.pkgs[0].dirs, "pkgs/foo/");
    assert_eq!(db.pkgs[0].ver, "1.1");
    assert_eq!(add_pkg(&mut db, "nowhere", "foo", &q), Status::NotFound);
    assert_eq!(del_pkg(&mut db, "terra", "foo", "1.0", "x86_64", "1"), Status::NoContent);
    assert_eq!(db.pkgs.len(), 1);
    assert_eq!(del_pkg(&mut db, "terra", "foo", "1.1", "x86_64", "1"), Status::NoContent);
    assert!(db.pkgs.is_empty());
    db.up = false;
    assert_eq!(add_pkg(&mut db, "terra", "foo", &p), Status::InternalServerError);
    assert_eq!(del_pkg(&mut db, "terra", "foo", "1.1", "x86_64", "1"), Status::InternalServerError);
}

#[test]
fn remove_pkg_counts() {
    let mut db = filled();
    assert_eq!(db.remove_pkg("terra", "alpha", "1", "x86_64", "1"), Ok(1));
    assert_eq!(db.remove_pkg("terra", "alpha", "1", "x86_64", "1"), Ok(0));
    assert_eq!(db.remove_pkg("terra", "bravo", "9", "x86_64", "1"), Ok(0));
    assert_eq!(db.pkgs.len(), 3);
}

#[test]
fn endpoints_register_and_delete_repositories() {
    let mut db = Madoguchi::new();
    let body = AddRepoBody { link: "https://example.org/terra/".into(), gh: "https://github.com/x/y/".into() };
    assert_eq!(add_repo(&mut db, "terra", &body), Status::Created);
    assert_eq!(db.repos[0].link, "https://example.org/terra");
    assert_eq!(db.repos[0].gh, "https://github.com/x/y");
    let other = AddRepoBody { link: "l".into(), gh: "g".into() };
    assert_eq!(add_repo(&mut db, "terra", &other), Status::NoContent);
    assert_eq!(db.repos.len(), 1);
    assert_eq!(db.repos[0].link, "l");
    assert_eq!(list_repos(&db).unwrap(), db.repos);
    assert_eq!(del_repo(&mut db, "nowhere"), Status::NotFound);
    assert_eq!(db.repos.len(), 1);
    assert_eq!(del_repo(&mut db, "terra"), Status::NoContent);
    assert!(db.repos.is_empty());
    assert_eq!(del_repo(&mut db, "terra"), Status::NotFound);
    db.up = false;
    assert_eq!(add_repo(&mut db, "terra", &body), Status::InternalServerError);
    assert_eq!(del_repo(&mut db, "terra"), Status::InternalServerError);
    assert_eq!(list_repos(&db), Err(Status::InternalServerError));
}

#[test]
fn deleting_a_repository_takes_its_packages_and_builds() {
    let mut db = store();
    db.put_repo("extras", "l", "g").unwrap();
    let b = |id: &str, succ: bool| AddBuildBody {
        id: id.into(),
        ver: "1".into(),
        rel: "1".into(),
        arch: "x86_64".into(),
        dirs: Some("d".into()),
        succ,
    };
    submit_build(&mut db, "terra", "foo", &b("1", true), 1).unwrap();
    submit_build(&mut db, "extras", "bar", &b("2", true), 2).unwrap();
    submit_build(&mut db, "terra", "foo", &b("3", false), 3).unwrap();
    submit_build(&mut db, "extras", "bar", &b("4", false), 4).unwrap();
    assert_eq!(db.drop_repo("terra"), Ok(()));
    assert_eq!(db.repos.len(), 1);
    assert_eq!(db.repos[0].name, "extras");
    assert!(db.pkgs.iter().all(|p| p.repo == "extras"));
    assert_eq!(db.pkgs.len(), 1);
    assert!(db.builds.iter().all(|b| b.repo == "extras"));
    assert_eq!(db.builds.len(), 2);
    assert_eq!(db.builds[0].id, "2");
    assert_eq!(db.builds[1].id, "4");
    assert_eq!(db.drop_repo("terra"), Err(Error::NotFound));
    db.up = false;
    assert_eq!(db.drop_repo("extras"), Err(Error::StoreUnavailable));
    assert_eq!(db.repos.len(), 1);
}

#[test]
fn ledger_rows() {
    let mut db = store();
    let row = |id: &str, pname: &str, epoch: i64, succ: bool| Build {
        id: id.into(),
        epoch,
        pname: pname.into(),
        pver: "1".into(),
        prel: "1".into(),
        parch: "x86_64".into(),
        repo: "terra".into(),
        succ,
        commit: None,
    };
    assert_eq!(db.append(row("1", "foo", 5, true)), Ok(()));
    assert_eq!(db.append(row("1", "foo", 6, true)), Err(Error::Conflict));
    assert_eq!(db.append(row("1", "bar", 6, false)), Ok(()));
    assert_eq!(db.append(row("2", "foo", 9, true)), Ok(()));
    assert_eq!(db.append(row("3", "foo", 9, true)), Ok(()));
    assert_eq!(db.append(row("4", "foo", 7, true)), Ok(()));
    assert_eq!(db.append(row("5", "foo", 99, false)), Ok(()));
    let mut stray = row("6", "foo", 1, true);
    stray.repo = "nowhere".into();
    assert_eq!(db.append(stray), Err(Error::NotFound));
    assert!(db.has_build("1") && !db.has_build("6"));
    assert!(db.has_build_row("1", "bar") && !db.has_build_row("2", "bar"));
    // the latest success; of two at the same time, the one recorded last
    assert_eq!(db.latest_success("terra", "foo", None), Some(3));
    assert_eq!(db.latest_success("terra", "foo", Some(("1", "1", "x86_64"))), Some(3));
    assert_eq!(db.latest_success("terra", "foo", Some(("2", "1", "x86_64"))), None);
    assert_eq!(db.latest_success("terra", "bar", None), None);
    assert_eq!(db.latest_success("extras", "foo", None), None);
    let foo = list_builds(&db, "terra", "foo").unwrap();
    assert_eq!(foo.len(), 5);
    assert_eq!(foo[0].id, "1");
    assert_eq!(foo[4].id, "5");
    assert!(list_builds(&db, "terra", "none").unwrap().is_empty());
    db.up = false;
    assert_eq!(list_builds(&db, "terra", "foo"), Err(Status::InternalServerError));
    assert_eq!(db.append(row("7", "foo", 1, true)), Err(Error::StoreUnavailable));
}
