use gosh_builder::git_context::GitContext;

#[test]
fn docker_git_url_test() {
    let url = "gosh://0:230230293XXXXXXXXXXXX/docker/docker.git#v1.13.0:src/dir";
    let ctx = GitContext::from_str(url);

    assert_eq!(
        ctx.remote,
        "gosh://0:230230293XXXXXXXXXXXX/docker/docker.git"
    );
    assert_eq!(ctx.git_ref, "v1.13.0");
    assert_eq!(ctx.sub_dir, "src/dir");

    assert_eq!(ctx.to_string(), url);
    assert_eq!(ctx.clone().to_string(), url);
}

#[test]
fn docker_git_url_test2() {
    let url = "gosh://0:230230293XXXXXXXXXXXX/docker/docker.git#ref/test";
    let ctx = GitContext::from_str(url);

    assert_eq!(
        ctx.remote,
        "gosh://0:230230293XXXXXXXXXXXX/docker/docker.git"
    );
    assert_eq!(ctx.git_ref, "ref/test");
    assert_eq!(ctx.sub_dir, "");

    assert_eq!(ctx.to_string(), url);
}

#[test]
fn docker_git_url_test3() {
    let url = "gosh://0:230230293XXXXXXXXXXXX/docker/docker.git#:dir/dir";
    let ctx = GitContext::from_str(url);

    assert_eq!(
        ctx.remote,
        "gosh://0:230230293XXXXXXXXXXXX/docker/docker.git"
    );
    assert_eq!(ctx.git_ref, "");
    assert_eq!(ctx.sub_dir, "dir/dir");

    assert_eq!(ctx.to_string(), url);
}

#[test]
fn plain_remote_round_trip() {
    let url = "https://example.com/repo.git";
    let ctx = GitContext::from_str(url);
    assert_eq!(ctx.remote, url);
    assert_eq!(ctx.git_ref, "");
    assert_eq!(ctx.sub_dir, "");
    assert_eq!(ctx.to_string(), url);
}
