use artifact_server::job::{authorized_url, downloaded_dir, CircleCIBuild};

fn build() -> CircleCIBuild {
    CircleCIBuild {
        vcs: "github".to_string(),
        user: "orgX".to_string(),
        project: "projX".to_string(),
        build_num: 42,
    }
}

#[test]
fn downloaded_dir_from_job() {
    let d = downloaded_dir("github".to_string(), "orgX".to_string(), "projX".to_string(), 42, None);
    assert_eq!(d, "github/orgX/projX/42");
}

#[test]
fn downloaded_dir_under_directory() {
    let d = downloaded_dir(
        "bitbucket".to_string(),
        "me".to_string(),
        "p".to_string(),
        7,
        Some("/srv/mirror".to_string()),
    );
    assert_eq!(d, "/srv/mirror/bitbucket/me/p/7");
    let d = downloaded_dir("github".to_string(), "o".to_string(), "p".to_string(), 1, Some("out/".to_string()));
    assert_eq!(d, "out/github/o/p/1");
}

#[test]
fn artifacts_endpoint_of_build() {
    assert_eq!(
        build().artifacts_endpoint(),
        "https://circleci.com/api/v1.1/project/github/orgX/projX/42/artifacts?filter=completed"
    );
}

#[test]
fn artifacts_request_url_carries_token() {
    assert_eq!(
        build().artifacts_request_url("abc"),
        Ok("https://circleci.com/api/v1.1/project/github/orgX/projX/42/artifacts?filter=completed&circle-token=abc"
            .to_string())
    );
}

#[test]
fn artifacts_request_url_encodes_path() {
    let b = CircleCIBuild {
        vcs: "git hub".to_string(),
        user: "o".to_string(),
        project: "p".to_string(),
        build_num: 1,
    };
    assert_eq!(
        b.artifacts_request_url("t"),
        Ok("https://circleci.com/api/v1.1/project/git%20hub/o/p/1/artifacts?filter=completed&circle-token=t"
            .to_string())
    );
}

#[test]
fn authorized_url_appends_encoded_token() {
    assert_eq!(
        authorized_url("https://ci/out/42/a/index.html", "a b&c"),
        Some("https://ci/out/42/a/index.html?circle-token=a+b%26c".to_string())
    );
    assert_eq!(
        authorized_url("https://ci/x?y=1", "t"),
        Some("https://ci/x?y=1&circle-token=t".to_string())
    );
}

#[test]
fn authorized_url_rejects_relative_url() {
    assert_eq!(authorized_url("ci/out/a.txt", "t"), None);
}
