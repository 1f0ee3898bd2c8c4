use gosh_builder::config::{
    clean_dockerfile_path, config_file_path, parent_dir, Dockerfile, GoshConfig, RawGoshConfig,
};
use gosh_builder::docker::{build_image_outcome, build_result, GoshBuilder};
use gosh_builder::errors::ConfigError;
use gosh_builder::git_context::GitContext;
use gosh_builder::user_config::{Config, KeyCheckError};

#[test]
fn dockerfile_path_resolution() {
    assert_eq!(clean_dockerfile_path("Dockerfile", "/work"), "/work/Dockerfile");
    assert_eq!(clean_dockerfile_path("/abs/Dockerfile", "/work"), "/abs/Dockerfile");
    assert_eq!(clean_dockerfile_path("Dockerfile", ""), "Dockerfile");
    assert_eq!(clean_dockerfile_path("Dockerfile", "dir/"), "dir/Dockerfile");
}

#[test]
fn parent_of_path() {
    assert_eq!(parent_dir("a/b/c.yaml"), "a/b");
    assert_eq!(parent_dir("c.yaml"), "");
    assert_eq!(parent_dir(""), "");
}

#[test]
fn config_path_inside_context() {
    let ctx = GitContext::from_str("gosh://0:abc/d/r.git#main:sub/dir");
    assert_eq!(config_file_path(&ctx, "Gosh.yaml"), "sub/dir/Gosh.yaml");
    let root = GitContext::from_str("gosh://0:abc/d/r.git");
    assert_eq!(config_file_path(&root, "Gosh.yaml"), "Gosh.yaml");
}

#[test]
fn inline_dockerfile_is_used_directly() {
    let raw = RawGoshConfig {
        dockerfile: Dockerfile::Content(String::from("FROM ubuntu")),
        tag: Some(String::from("test_tag")),
        args: None,
        install: None,
    };
    let config = GoshConfig::from_raw(raw, None).unwrap();
    assert_eq!(config.dockerfile, "FROM ubuntu");
    assert_eq!(config.tag.as_deref(), Some("test_tag"));
    assert!(config.args.is_empty());
    assert!(config.install.is_empty());
}

#[test]
fn path_dockerfile_needs_fetched_content() {
    let raw = RawGoshConfig {
        dockerfile: Dockerfile::Path { path: String::from("test/path.yaml") },
        tag: None,
        args: None,
        install: None,
    };
    match GoshConfig::from_raw(raw, None) {
        Err(ConfigError::MissingDockerfile { path }) => assert_eq!(path, "test/path.yaml"),
        other => panic!("unexpected outcome: {:?}", other),
    }

    let raw2 = RawGoshConfig {
        dockerfile: Dockerfile::Path { path: String::from("test/path.yaml") },
        tag: None,
        args: Some(vec![(String::from("arg1"), String::from("value-2"))]),
        install: Some(vec![String::from("/test")]),
    };
    let config = GoshConfig::from_raw(raw2, Some(String::from("FROM ubuntu\n"))).unwrap();
    assert_eq!(config.dockerfile, "FROM ubuntu\n");
    assert_eq!(config.args, vec![(String::from("arg1"), String::from("value-2"))]);
    assert_eq!(config.install, vec![String::from("/test")]);
}

#[test]
fn build_arguments_route_through_proxy() {
    let config = GoshConfig {
        dockerfile: String::from("FROM ubuntu"),
        tag: Some(String::from("gosh-build")),
        args: vec![(String::from("--label"), String::from("x=1"))],
        install: Vec::new(),
    };
    let builder = GoshBuilder { config };
    let args = builder.build_args(true, "127.0.0.1:6054");
    assert_eq!(
        args,
        vec![
            "buildx",
            "build",
            "--no-cache",
            "--network=host",
            "--tag",
            "gosh-build",
            "--quiet",
            "--label",
            "x=1",
            "--build-arg",
            "http_proxy=http://127.0.0.1:6054",
            "--build-arg",
            "https_proxy=http://127.0.0.1:6054",
            "--build-arg",
            "GOSH_HTTP_PROXY=http://127.0.0.1:6054",
            "-",
        ]
    );
    assert_eq!(builder.stdin_payload(), "FROM ubuntu");

    let plain = GoshBuilder {
        config: GoshConfig {
            dockerfile: String::from("FROM alpine"),
            tag: None,
            args: Vec::new(),
            install: Vec::new(),
        },
    };
    let plain_args = plain.build_args(false, "127.0.0.1:8000");
    assert_eq!(&plain_args[..4], ["buildx", "build", "--no-cache", "--network=host"]);
    assert!(!plain_args.contains(&String::from("--quiet")));
    assert_eq!(plain_args.last().unwrap(), "-");
}

#[test]
fn quiet_build_parses_image_identifier() {
    let r = build_result(true, 0, "sha256:abcd\n");
    assert_eq!(r.exit_code, 0);
    assert_eq!(r.image_hash.as_deref(), Some("sha256:abcd"));

    let v = build_result(false, 0, "");
    assert!(v.image_hash.is_none());
}

#[test]
fn nonzero_exit_is_build_error_with_code() {
    let ok = build_result(true, 0, "sha256:abcd\n");
    assert_eq!(build_image_outcome(ok).unwrap(), "sha256:abcd");

    let bad = build_result(false, 17, "");
    match build_image_outcome(bad) {
        Err(e) => assert_eq!(e.exit_code, 17),
        Ok(_) => panic!("a failing build must not yield an image"),
    }
}

#[test]
fn user_config_defaults_and_keys() {
    let config = Config::with_user_data(
        String::from("alice"),
        String::from("SECRET-REDACTED"),
        String::from("pub1"),
    );
    assert_eq!(config.primary_network, "network.gosh.sh");
    let endpoints = config.get_endpoints();
    assert_eq!(endpoints.len(), 3);
    assert_eq!(endpoints[0], "https://bhs01.network.gosh.sh");
    let wallet = config.get_username().unwrap();
    assert_eq!(wallet.profile, "alice");

    assert!(config.check_keys("pub1").is_ok());
    assert_eq!(config.check_keys("other"), Err(KeyCheckError::InvalidKeypair));

    let mut broken = config.clone();
    broken.primary_network = String::from("nowhere");
    assert_eq!(broken.check_keys("pub1"), Err(KeyCheckError::WrongNetwork));
}
