use madoguchi::api::auth::{bearer, ApiAuth, ApiError, Candidate};
use madoguchi::api::repology::{
    anda_hcl_url, raw, redirect_andahcl, redirect_andaspec, redirect_andaspecraw, redirect_pkg,
    replace_all, root, rootdir, spec_file, strip_leading,
};
use madoguchi::api::{repology, v4, Method};
use madoguchi::db::{Build, Madoguchi};
use madoguchi::error::{Error, Status};
use madoguchi::text::{count_leading, strip_trailing_slash, to_chars, CharClass};

const TREE: &str = "https://github.com/terrapkg/packages/tree/";

fn store() -> Madoguchi {
    let mut db = Madoguchi::new();
    db.put_repo("terra", "https://repos.example.org/terra", "https://github.com/terrapkg/packages/tree/f39")
        .unwrap();
    db.upsert("terra", "foo", "x86_64", "1.0", "1", "anda/foo").unwrap();
    db
}

fn built(id: &str, epoch: i64, succ: bool, commit: Option<&str>) -> Build {
    Build {
        id: id.into(),
        epoch,
        pname: "foo".into(),
        pver: "1.0".into(),
        prel: "1".into(),
        parch: "x86_64".into(),
        repo: "terra".into(),
        succ,
        commit: commit.map(|c| c.to_string()),
    }
}

#[test]
fn sources_below_the_link_of_the_repository() {
    let db = store();
    assert_eq!(rootdir(&db, "terra", "foo").as_deref(), Some("https://github.com/terrapkg/packages/tree/f39/anda/foo"));
    assert_eq!(redirect_pkg(&db, "terra", "foo"), rootdir(&db, "terra", "foo"));
    assert_eq!(
        redirect_andahcl(&db, "terra", "foo").as_deref(),
        Some("https://github.com/terrapkg/packages/tree/f39/anda/foo/anda.hcl")
    );
    assert_eq!(
        anda_hcl_url(&db, "terra", "foo").as_deref(),
        Some("https://raw.githubusercontent.com/terrapkg/packages/f39/anda/foo/anda.hcl")
    );
    let recipe = vec![Some("foo.spec".to_string()), Some("other.spec".to_string())];
    assert_eq!(
        redirect_andaspec(&db, "terra", "foo", &recipe).as_deref(),
        Some("https://github.com/terrapkg/packages/tree/f39/anda/foo/foo.spec")
    );
    assert_eq!(
        redirect_andaspecraw(&db, "terra", "foo", &recipe).as_deref(),
        Some("https://raw.githubusercontent.com/terrapkg/packages/f39/anda/foo/foo.spec")
    );
    // the first project decides, also where it names no spec file
    let no_rpm = vec![None, Some("other.spec".to_string())];
    assert_eq!(redirect_andaspec(&db, "terra", "foo", &no_rpm), None);
    assert_eq!(redirect_andaspecraw(&db, "terra", "foo", &no_rpm), None);
    assert_eq!(redirect_andaspec(&db, "terra", "foo", &vec![]), None);
    assert_eq!(redirect_andaspecraw(&db, "terra", "foo", &vec![]), None);
    assert_eq!(spec_file(&recipe), Some(&"foo.spec".to_string()));
    assert_eq!(spec_file(&no_rpm), None);
}

#[test]
fn sources_of_what_is_not_stored() {
    let mut db = store();
    assert_eq!(rootdir(&db, "terra", "bar"), None);
    assert_eq!(rootdir(&db, "extras", "foo"), None);
    assert_eq!(redirect_andahcl(&db, "terra", "bar"), None);
    assert_eq!(anda_hcl_url(&db, "terra", "bar"), None);
    let recipe = vec![Some("x.spec".to_string())];
    assert_eq!(redirect_andaspec(&db, "terra", "bar", &recipe), None);
    assert_eq!(redirect_andaspecraw(&db, "terra", "bar", &recipe), None);
    db.up = false;
    assert_eq!(rootdir(&db, "terra", "foo"), None);
}

#[test]
fn sources_in_the_tree_of_the_revision_built_last() {
    let mut db = store();
    db.append(built("1", 10, true, Some("aaa111"))).unwrap();
    db.append(built("2", 30, true, Some("ccc333"))).unwrap();
    db.append(built("3", 20, true, Some("bbb222"))).unwrap();
    db.append(built("4", 40, false, Some("fff000"))).unwrap();
    assert_eq!(db.commit_of("terra", "foo").as_deref(), Some("ccc333"));
    assert_eq!(
        rootdir(&db, "terra", "foo").as_deref(),
        Some("https://github.com/terrapkg/packages/tree/ccc333/anda/foo")
    );
    // the latest successful build without a known revision: the link as it is
    db.append(built("5", 50, true, None)).unwrap();
    assert_eq!(db.commit_of("terra", "foo"), None);
    assert_eq!(rootdir(&db, "terra", "foo").as_deref(), Some("https://github.com/terrapkg/packages/tree/f39/anda/foo"));
}

#[test]
fn sources_of_the_row_with_the_greatest_version() {
    let mut db = store();
    db.upsert("terra", "foo", "aarch64", "1.2", "1", "anda/foo-arm").unwrap();
    db.upsert("terra", "foo", "i686", "1.2", "1", "anda/foo-686").unwrap();
    db.upsert("terra", "foo", "riscv64", "1.10", "1", "anda/foo-riscv").unwrap();
    assert_eq!(db.newest("terra", "foo"), Some(1));
    assert_eq!(rootdir(&db, "terra", "foo").as_deref(), Some("https://github.com/terrapkg/packages/tree/f39/anda/foo-arm"));
    assert_eq!(db.newest("terra", "bar"), None);
}

#[test]
fn root_formula() {
    assert_eq!(root("https://example.org/src", "a/b", None), "https://example.org/src/a/b");
    assert_eq!(
        root("https://github.com/terrapkg/packages/tree/f39", "a/b", Some("c0ffee")),
        "https://github.com/terrapkg/packages/tree/c0ffee/a/b"
    );
    // a link elsewhere: everything up to its first slash goes
    assert_eq!(
        root("https://example.org/src", "a/b", Some("c0ffee")),
        "https://github.com/terrapkg/packages/tree/c0ffee//example.org/src/a/b"
    );
    assert_eq!(
        root(&format!("{TREE}{TREE}main"), "d", Some("r")),
        "https://github.com/terrapkg/packages/tree/r/d"
    );
    assert_eq!(root("", "", Some("r")), "https://github.com/terrapkg/packages/tree/r/");
}

#[test]
fn strip_and_replace() {
    assert_eq!(strip_leading("ababc", "ab"), "c");
    assert_eq!(strip_leading("abc", "b"), "abc");
    assert_eq!(strip_leading("aaa", "a"), "");
    assert_eq!(strip_leading("abc", ""), "abc");
    assert_eq!(strip_leading("", "a"), "");
    for (s, p) in [("xxy", "x"), ("\u{e9}\u{e9}t\u{e9}", "\u{e9}"), ("abab", "aba")] {
        assert_eq!(strip_leading(s, p), s.trim_start_matches(p));
    }
    assert_eq!(replace_all("a/tree/b/tree/c", "/tree/", "/"), "a/b/c");
    assert_eq!(replace_all("aaa", "aa", "b"), "ba");
    assert_eq!(replace_all("abc", "", "x"), "abc");
    assert_eq!(replace_all("", "a", "b"), "");
    assert_eq!(replace_all("abc", "abc", ""), "");
    for (s, p, t) in [("github.com/github.com", "github.com", "raw.githubusercontent.com"), ("\u{e9}a\u{e9}", "\u{e9}", "e"), ("aXbXc", "X", "XX"), ("abcab", "ab", "")] {
        assert_eq!(replace_all(s, p, t), s.replace(p, t));
    }
    assert_eq!(raw("https://github.com/terrapkg/packages/tree/f39/anda/foo"), "https://raw.githubusercontent.com/terrapkg/packages/f39/anda/foo");
}

#[test]
fn slashes() {
    assert_eq!(strip_trailing_slash("a/b/"), "a/b");
    assert_eq!(strip_trailing_slash("a/b//"), "a/b/");
    assert_eq!(strip_trailing_slash("a/b"), "a/b");
    assert_eq!(strip_trailing_slash("/"), "");
    assert_eq!(strip_trailing_slash(""), "");
    for s in ["/x/", "x//", "//x", "/x/y/z", "///", "a/b/c/", "\u{e9}/"] {
        assert_eq!(strip_trailing_slash(s), s.strip_suffix('/').unwrap_or(s));
    }
}

#[test]
fn character_classes() {
    let v = to_chars("  \t//ab/ \n");
    assert_eq!(v.len(), 10);
    assert_eq!(count_leading(&v, CharClass::Space), 3);
    assert_eq!(count_leading(&v, CharClass::NotSlash), 3);
    assert_eq!(count_leading(&to_chars("//ab"), CharClass::NotSlash), 0);
    assert_eq!(count_leading(&to_chars("ab/c"), CharClass::NotSlash), 2);
    assert_eq!(count_leading(&to_chars("abc"), CharClass::NotSlash), 3);
    assert_eq!(count_leading(&to_chars(""), CharClass::Space), 0);
    for code in 0u32..0x3100 {
        if let Some(c) = char::from_u32(code) {
            assert_eq!(CharClass::Space.holds(c), c.is_whitespace(), "{code:#x}");
            assert_eq!(CharClass::NotSlash.holds(c), c != '/');
        }
    }
}

#[test]
fn tokens_in_headers() {
    assert_eq!(bearer("Bearer abc.def").as_deref(), Some("abc.def"));
    assert_eq!(bearer("Bearer ").as_deref(), Some(""));
    assert_eq!(bearer("Bearer"), None);
    assert_eq!(bearer("bearer abc"), None);
    assert_eq!(bearer("Basic abc"), None);
    assert_eq!(bearer(""), None);
}

fn candidate(token: &str, scopes: Option<&[&str]>) -> Candidate {
    Candidate { token: token.into(), scopes: scopes.map(|s| s.iter().map(|x| x.to_string()).collect()) }
}

#[test]
fn first_token_that_verifies_decides() {
    assert_eq!(ApiAuth::from_request(&vec![]), Err(ApiError::Nil));
    assert_eq!(ApiAuth::from_request(&vec![candidate("a", None), candidate("b", None)]), Err(ApiError::Nil));
    assert_eq!(
        ApiAuth::from_request(&vec![candidate("a", None), candidate("b", Some(&["read", "admin"]))]),
        Ok(ApiAuth { token: "b".into() })
    );
    assert_eq!(
        ApiAuth::from_request(&vec![candidate("a", Some(&["read"])), candidate("b", Some(&["admin"]))]),
        Err(ApiError::NoAdminScope)
    );
    assert_eq!(ApiAuth::from_request(&vec![candidate("a", Some(&[]))]), Err(ApiError::NoAdminScope));
    assert_eq!(ApiAuth::from_request(&vec![candidate("a", Some(&["Admin"]))]), Err(ApiError::NoAdminScope));
    assert_eq!(ApiError::Nil.message(), "Fail to verify token");
    assert_eq!(ApiError::NoAdminScope.message(), "Token has no admin scope as required");
    assert_eq!(ApiError::Nil.status(), Status::Forbidden);
    assert_eq!(ApiError::NoAdminScope.status(), Status::Forbidden);
}

#[test]
fn statuses() {
    assert_eq!(Status::Created.code(), 201);
    assert_eq!(Status::NoContent.code(), 204);
    assert_eq!(Status::BadRequest.code(), 400);
    assert_eq!(Status::Forbidden.code(), 403);
    assert_eq!(Status::NotFound.code(), 404);
    assert_eq!(Status::Conflict.code(), 409);
    assert_eq!(Status::UnprocessableEntity.code(), 422);
    assert_eq!(Status::InternalServerError.code(), 500);
    assert_eq!(Error::Validation.status(), Status::BadRequest);
    assert_eq!(Error::Conflict.status(), Status::Conflict);
    assert_eq!(Error::NotFound.status(), Status::NotFound);
    assert_eq!(Error::LimitExceeded.status(), Status::UnprocessableEntity);
    assert_ne!(Error::LimitExceeded.status(), Error::NotFound.status());
    assert_eq!(Error::ClockUnavailable.status(), Status::InternalServerError);
    assert_eq!(Error::FeedUnavailable.status(), Status::InternalServerError);
    assert_eq!(Error::FeedMalformed.status(), Status::InternalServerError);
    assert_eq!(Error::StoreUnavailable.status(), Status::InternalServerError);
    assert_eq!(Error::NotificationFailure.status(), Status::InternalServerError);
}

#[test]
fn routing_tables() {
    let r = v4::routes();
    let got: Vec<(Method, &str, &str)> = r.iter().map(|x| (x.method, x.uri.as_str(), x.name.as_str())).collect();
    assert_eq!(
        got,
        [
            (Method::Put, "/<repo>/packages/<name>", "add_pkg"),
            (Method::Delete, "/<repo>/packages/<name>?<ver>&<arch>&<rel>", "del_pkg"),
            (Method::Put, "/repos/<name>", "add_repo"),
            (Method::Delete, "/repos/<name>", "del_repo"),
            (Method::Get, "/repos", "list_repos"),
            (Method::Get, "/<repo>/packages?<n>&<order>&<offset>", "search_pkgs"),
            (Method::Get, "/<repo>/packages/<name>", "pkg_info"),
            (Method::Get, "/<repo>/builds/<pkg>", "list_builds"),
        ]
    );
    let r = repology::routes();
    let got: Vec<(Method, &str, &str)> = r.iter().map(|x| (x.method, x.uri.as_str(), x.name.as_str())).collect();
    assert_eq!(
        got,
        [
            (Method::Get, "/<repo>/packages/<name>", "redirect_pkg"),
            (Method::Get, "/<repo>/packages/<name>/hcl", "redirect_andahcl"),
            (Method::Get, "/<repo>/packages/<name>/spec", "redirect_andaspec"),
            (Method::Get, "/<repo>/packages/<name>/spec/raw", "redirect_andaspecraw"),
        ]
    );
}
