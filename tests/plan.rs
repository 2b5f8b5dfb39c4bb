use artifact_server::error::MirrorError;
use artifact_server::plan::{plan_downloads, plan_files};

fn strings(v: &[&str]) -> Vec<String> {
    v.iter().map(|s| s.to_string()).collect()
}

#[test]
fn plan_strips_common_prefix() {
    let urls = strings(&["https://ci/out/42/a/index.html", "https://ci/out/42/a/js/app.js"]);
    let plan = plan_files(&urls, "github/orgX/projX/42").ok().unwrap();
    assert_eq!(plan.prefix, "https://ci/out/42/a/");
    assert_eq!(plan.files.len(), 2);
    assert_eq!(plan.files[0].url, urls[0]);
    assert_eq!(plan.files[0].relative, "index.html");
    assert_eq!(plan.files[0].path, "github/orgX/projX/42/index.html");
    assert_eq!(plan.files[1].relative, "js/app.js");
    assert_eq!(plan.files[1].path, "github/orgX/projX/42/js/app.js");
}

#[test]
fn plan_gives_one_file_per_url() {
    let urls = strings(&["https://x/a/b/1.txt", "https://x/a/b/2.txt", "https://x/a/c/1.txt"]);
    let plan = plan_files(&urls, "dest").ok().unwrap();
    let paths: Vec<&str> = plan.files.iter().map(|f| f.path.as_str()).collect();
    assert_eq!(paths, vec!["dest/b/1.txt", "dest/b/2.txt", "dest/c/1.txt"]);
    for (f, u) in plan.files.iter().zip(urls.iter()) {
        assert_eq!(format!("{}{}", plan.prefix, f.relative), *u);
    }
}

#[test]
fn plan_of_no_urls_is_invalid_input() {
    let urls: Vec<String> = Vec::new();
    assert!(matches!(plan_files(&urls, "dest"), Err(MirrorError::InvalidInput)));
    assert!(matches!(plan_downloads(&urls, "dest", "t"), Err(MirrorError::InvalidInput)));
}

#[test]
fn plan_rejects_parent_segment() {
    let urls = strings(&["https://x/a/ok.txt", "https://x/a/../../etc/passwd"]);
    assert!(matches!(plan_files(&urls, "dest"), Err(MirrorError::Filesystem(1))));
    assert!(matches!(plan_downloads(&urls, "dest", "t"), Err(MirrorError::Filesystem(1))));
}

#[test]
fn plan_rejects_parent_segment_at_start() {
    let urls = strings(&["https://x/a/../b", "https://x/a/ok"]);
    assert!(matches!(plan_files(&urls, "dest"), Err(MirrorError::Filesystem(0))));
}

#[test]
fn plan_rejects_empty_relative_path() {
    let urls = strings(&["https://x/a/1.txt"]);
    assert!(matches!(plan_files(&urls, "dest"), Err(MirrorError::Filesystem(0))));
}

#[test]
fn plan_rejects_absolute_relative_path() {
    let urls = strings(&["https://x/a/b/1", "https://x/a//2"]);
    assert!(matches!(plan_files(&urls, "dest"), Err(MirrorError::Filesystem(1))));
}

#[test]
fn plan_downloads_attach_token() {
    let urls = strings(&["https://ci/out/42/a/index.html", "https://ci/out/42/a/js/app.js"]);
    let tasks = plan_downloads(&urls, "github/orgX/projX/42", "tok").ok().unwrap();
    assert_eq!(tasks.len(), 2);
    assert_eq!(tasks[0].request_url, "https://ci/out/42/a/index.html?circle-token=tok");
    assert_eq!(tasks[0].path, "github/orgX/projX/42/index.html");
    assert_eq!(tasks[1].request_url, "https://ci/out/42/a/js/app.js?circle-token=tok");
    assert_eq!(tasks[1].path, "github/orgX/projX/42/js/app.js");
}

#[test]
fn plan_downloads_reports_unparsable_url() {
    let urls = strings(&["ci/a.txt", "ci/b.txt"]);
    assert!(matches!(plan_downloads(&urls, "dest", "t"), Err(MirrorError::Download(0))));
}
