use gosh_builder::errors::CacheError;
use gosh_builder::proxy::{
    collect_response, commit_resource, file_resource, remote_identity, session_dir,
    GitRemotePool, GoshGetService, ProxyError,
};
use gosh_builder::registry::GitCacheRegistry;
use gosh_builder::sbom::{GoshClassification, Sbom};

#[test]
fn first_resolution_creates_later_ones_reuse() {
    let mut registry = GitCacheRegistry::default();
    let (i1, created1) = registry.get_or_create_repository("gosh://0:abc/d/r.git");
    assert!(created1);
    let (i2, created2) = registry.get_or_create_repository("gosh://0:abc/d/r.git");
    assert!(!created2);
    assert_eq!(i1, i2);
    let (i3, created3) = registry.get_or_create_repository("gosh://0:abc/d/r.git");
    assert!(!created3);
    assert_eq!(i1, i3);
}

#[test]
fn unrelated_remotes_get_their_own_entries() {
    let mut registry = GitCacheRegistry::default();
    let (i1, c1) = registry.get_or_create_repository("gosh://0:abc/d/one.git");
    let (i2, c2) = registry.get_or_create_repository("gosh://0:abc/d/two.git");
    assert!(c1 && c2);
    assert_ne!(i1, i2);
    assert_eq!(registry.repo(i1).url, "gosh://0:abc/d/one.git");
    assert_eq!(registry.repo(i2).url, "gosh://0:abc/d/two.git");
}

#[test]
fn resource_identities_exact() {
    assert_eq!(commit_resource("u", "c"), "u:c");
    assert_eq!(file_resource("u", "c", "a/b.txt"), "u:c:a/b.txt");
    assert_eq!(remote_identity("0:abc", "dao", "repo"), "gosh://0:abc/dao/repo");
    assert_eq!(session_dir("s1"), ".git-cache/s1");
}

fn service() -> GoshGetService {
    GoshGetService::new(Sbom::default(), GitCacheRegistry::default())
}

#[test]
fn successful_commit_fetch_is_recorded() {
    let mut svc = service();
    let body = b"archive".to_vec();
    let r = svc.commit("u", "0123abcd", Ok(body.clone()));
    assert_eq!(r.unwrap(), body);
    assert_eq!(svc.sbom.inner.len(), 1);
    assert_eq!(svc.sbom.inner[0].1, "u:0123abcd");
    assert!(matches!(svc.sbom.inner[0].0, GoshClassification::Commit));
}

#[test]
fn file_fetch_returns_exact_bytes_and_records() {
    let mut svc = service();
    let body = b"the bytes of a/b.txt as committed".to_vec();
    let r = svc.file("u", "0123abcd", "a/b.txt", Ok(body.clone()));
    assert_eq!(r.unwrap(), body);
    assert_eq!(svc.sbom.inner.len(), 1);
    assert_eq!(svc.sbom.inner[0].1, "u:0123abcd:a/b.txt");
    assert!(matches!(svc.sbom.inner[0].0, GoshClassification::File));
}

#[test]
fn failed_fetch_is_not_recorded() {
    let mut svc = service();
    let r = svc.commit(
        "u",
        "0123abcd",
        Err(CacheError::Archive { url: String::from("u") }),
    );
    assert!(r.is_err());
    assert_eq!(svc.sbom.inner.len(), 0);
}

#[test]
fn missing_file_is_not_found_class() {
    let mut svc = service();
    let r = svc.file(
        "u",
        "0123abcd",
        "missing.txt",
        Err(CacheError::NotFound { url: String::from("u") }),
    );
    match r {
        Err(ProxyError::NotFound { message }) => {
            let original = CacheError::NotFound { url: String::from("u") };
            assert_eq!(message, original.message());
        }
        other => panic!("unexpected reply: {:?}", other),
    }

    let r2 = svc.file(
        "u",
        "0123abcd",
        "other.txt",
        Err(CacheError::Archive { url: String::from("u") }),
    );
    assert!(matches!(r2, Err(ProxyError::Internal { .. })));
    assert_eq!(svc.sbom.inner.len(), 0);
}

#[test]
fn repository_fetch_recorded_once() {
    let mut svc = service();
    svc.record_repository("gosh://0:abc/d/r");
    svc.record_repository("gosh://0:abc/d/r");
    assert_eq!(svc.sbom.inner.len(), 1);
    assert!(matches!(svc.sbom.inner[0].0, GoshClassification::Repository));
}

#[test]
fn response_framed_by_sentinel() {
    let lines = vec![
        String::from("first"),
        String::from("second"),
        String::from("endl"),
        String::from("ignored"),
    ];
    assert_eq!(collect_response(&lines), "first\nsecond\n");
}

#[test]
fn response_without_sentinel_takes_everything() {
    let lines = vec![String::from("only")];
    assert_eq!(collect_response(&lines), "only\n");
    let empty: Vec<String> = Vec::new();
    assert_eq!(collect_response(&empty), "");
}

#[test]
fn sentinel_inside_a_longer_line_still_ends_the_response() {
    let lines = vec![String::from("data"), String::from("== endl ==")];
    assert_eq!(collect_response(&lines), "data\n");
}

#[test]
fn session_pool_registers_and_finds() {
    let mut pool = GitRemotePool::new();
    pool.insert("s1");
    pool.insert("s2");
    pool.insert("s1");
    assert_eq!(pool.ids.len(), 2);
    assert_eq!(pool.get("s1"), Some(0));
    assert_eq!(pool.get("s2"), Some(1));
    assert_eq!(pool.get("s3"), None);
}
