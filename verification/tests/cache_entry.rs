use gosh_builder::cache::{zstd_compress, GitCacheRepo};
use gosh_builder::errors::CacheError;
use gosh_builder::hash::hex_hash;

fn repo() -> GitCacheRepo {
    GitCacheRepo::from(String::from("gosh://0:abc/dao/repo.git"))
}

#[test]
fn hex_hash_known_values() {
    assert_eq!(hex_hash(""), "cbf29ce484222325");
    assert_eq!(hex_hash("a"), "af63dc4c8601ec8c");
    assert_eq!(hex_hash("foobar"), "85944171f73967e8");
}

#[test]
fn cache_dir_named_by_hash() {
    let url = "gosh://0:abc/dao/repo.git";
    let repo = GitCacheRepo::from(String::from(url));
    assert_eq!(repo.url, url);
    let suffix = format!("/gosh/{}", hex_hash(url));
    assert!(repo.git_dir.ends_with(&suffix));
}

#[test]
fn same_remote_same_directory() {
    let a = GitCacheRepo::from(String::from("gosh://0:abc/dao/repo.git"));
    let b = GitCacheRepo::from(String::from("gosh://0:abc/dao/repo.git"));
    let c = GitCacheRepo::from(String::from("gosh://0:abc/dao/other.git"));
    assert_eq!(a.git_dir, b.git_dir);
    assert_ne!(a.git_dir, c.git_dir);
}

#[test]
fn update_plans_pull_or_clone() {
    let repo = repo();
    assert_eq!(repo.update_args(true), vec!["pull", "--all"]);
    assert_eq!(
        repo.update_args(false),
        vec!["clone", "gosh://0:abc/dao/repo.git", "."]
    );
}

#[test]
fn update_outcome_errors_carry_context() {
    let repo = repo();
    assert!(repo.update_outcome(true, true).is_ok());
    assert!(repo.update_outcome(false, true).is_ok());
    match repo.update_outcome(true, false) {
        Err(CacheError::Refresh { url, dir }) => {
            assert_eq!(url, repo.url);
            assert_eq!(dir, repo.git_dir);
        }
        other => panic!("unexpected outcome: {:?}", other),
    }
    assert!(matches!(
        repo.update_outcome(false, false),
        Err(CacheError::Init { .. })
    ));
}

#[test]
fn archive_arguments_exact() {
    let repo = repo();
    assert_eq!(
        repo.archive_args("deadbeef"),
        vec!["archive", "--format=tar", "deadbeef"]
    );
}

#[test]
fn show_selector_joins_commit_and_path() {
    let repo = repo();
    assert_eq!(
        repo.show_args("deadbeef", "a/b.txt"),
        vec!["show", "deadbeef:a/b.txt"]
    );
}

#[test]
fn show_failure_is_not_found() {
    let repo = repo();
    match repo.show_outcome(false, Vec::new()) {
        Err(CacheError::NotFound { url }) => assert_eq!(url, repo.url),
        other => panic!("unexpected outcome: {:?}", other),
    }
}

#[test]
fn show_success_returns_exact_bytes() {
    let repo = repo();
    let body = b"file body".to_vec();
    assert_eq!(repo.show_outcome(true, body.clone()).unwrap(), body);
}

#[test]
fn normalize_arguments_exact() {
    let repo = repo();
    assert_eq!(
        repo.normalize_args("v1.0"),
        vec!["rev-list", "--no-walk", "v1.0"]
    );
}

#[test]
fn normalize_trims_subprocess_output() {
    let repo = repo();
    let out = b"0123abcd\n".to_vec();
    assert_eq!(repo.normalize_outcome("v1.0", true, out).unwrap(), "0123abcd");
}

#[test]
fn normalize_of_canonical_output_is_stable() {
    let repo = repo();
    let first = repo
        .normalize_outcome("v1.0", true, b" 0123abcd\n".to_vec())
        .unwrap();
    let again = repo
        .normalize_outcome("v1.0", true, first.clone().into_bytes())
        .unwrap();
    assert_eq!(first, again);
}

#[test]
fn normalize_failure_names_the_ref() {
    let repo = repo();
    match repo.normalize_outcome("nosuch", false, Vec::new()) {
        Err(CacheError::Normalize { url, reference }) => {
            assert_eq!(url, repo.url);
            assert_eq!(reference, "nosuch");
        }
        other => panic!("unexpected outcome: {:?}", other),
    }
}

#[test]
fn dumb_path_under_internal_store() {
    let repo = repo();
    let path = repo.dumb("info/refs");
    assert_eq!(path, format!("{}/.git/info/refs", repo.git_dir));
}

#[test]
fn error_messages_exact() {
    let e = CacheError::NotFound { url: String::from("gosh://0:abc/d/r.git") };
    assert_eq!(
        e.message(),
        "git-show process failed (usually it's because file doesn't exist): url=gosh://0:abc/d/r.git"
    );
    let e2 = CacheError::Refresh {
        url: String::from("u"),
        dir: String::from("/tmp/x"),
    };
    assert_eq!(e2.message(), "git pull process failed: url=u");
}

#[test]
fn compressed_archive_decompresses_to_original() {
    let data = b"tar archive bytes tar archive bytes tar archive bytes".to_vec();
    let compressed = zstd_compress(&data, 0).unwrap();
    assert_ne!(compressed, data);
    let restored = zstd::stream::decode_all(&compressed[..]).unwrap();
    assert_eq!(restored, data);
}
