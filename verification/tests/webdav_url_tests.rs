use bastion_http::webdav_url::{dir_path_fix, webdav_run_urls};

#[test]
fn run_urls_sit_under_the_base_directory() {
    let (base, run) = webdav_run_urls(" https://dav.example.com/backups ", "job-1", "run-9").unwrap().unwrap();
    assert_eq!(base.as_str(), "https://dav.example.com/backups/");
    assert_eq!(run.as_str(), "https://dav.example.com/backups/job-1/run-9/");

    let (base, run) = webdav_run_urls("https://dav.example.com/b/", "j", "r").unwrap().unwrap();
    assert_eq!(base.as_str(), "https://dav.example.com/b/");
    assert_eq!(run.as_str(), "https://dav.example.com/b/j/r/");

    let (base, run) = webdav_run_urls("https://dav.example.com", "j", "r").unwrap().unwrap();
    assert_eq!(base.as_str(), "https://dav.example.com/");
    assert_eq!(run.as_str(), "https://dav.example.com/j/r/");
}

#[test]
fn base_urls_that_do_not_parse_are_refused() {
    assert!(webdav_run_urls("not a url", "j", "r").is_err());
    assert!(webdav_run_urls("", "j", "r").is_err());
}

#[test]
fn directory_paths_get_a_trailing_slash() {
    assert_eq!(dir_path_fix("/a"), Some("/a/".to_string()));
    assert_eq!(dir_path_fix("/a/"), None);
    assert_eq!(dir_path_fix(""), Some("/".to_string()));
}
