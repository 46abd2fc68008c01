use resolve_path::ResolveError;
use resolve_path::ResolveStep;
use resolve_path::home_dir;
use resolve_path::resolve_tilde_with_home;
use resolve_path::try_resolve_in_classified;
use resolve_path::try_resolve_in_step;
use resolve_path::try_resolve_in_with;
use resolve_path::try_resolve_tilde;
use resolve_path::try_resolve_with;

const HOME: &str = "/home/test";

#[test]
fn test_resolve_tilde() {
    assert_eq!(resolve_tilde_with_home(HOME, "~"), "/home/test");
    assert_eq!(resolve_tilde_with_home(HOME, String::from("~").as_str()), "/home/test");
    assert_eq!(try_resolve_with("~", Some("/"), Some(HOME)).unwrap(), "/home/test");
    assert_eq!(try_resolve_in_with("~", "/", Some(HOME), false).unwrap(), "/home/test");
    assert_eq!(try_resolve_in_with("~", "/tmp", Some(HOME), false).unwrap(), "/home/test");
    assert_eq!(resolve_tilde_with_home(String::from(HOME).as_str(), "~"), "/home/test");
}

#[test]
fn test_resolve_tilde_slash() {
    assert_eq!(try_resolve_with("~/", Some("/"), Some(HOME)).unwrap(), "/home/test");
}

#[test]
fn test_resolve_tilde_path() {
    assert_eq!(
        try_resolve_with("~/.config/alacritty/alacritty.yml", Some("/"), Some(HOME)).unwrap(),
        "/home/test/.config/alacritty/alacritty.yml"
    );
}

#[test]
fn test_resolve_tilde_multislash() {
    assert_eq!(try_resolve_with("~/////", Some("/"), Some(HOME)).unwrap(), "/home/test");
}

#[test]
fn test_resolve_tilde_multislash_path() {
    assert_eq!(
        try_resolve_with("~/////.config", Some("/"), Some(HOME)).unwrap(),
        "/home/test/.config"
    );
}

#[test]
fn test_resolve_tilde_with_relative_segments() {
    assert_eq!(
        try_resolve_with("~/.config/../.vim/", Some("/"), Some(HOME)).unwrap(),
        "/home/test/.config/../.vim/"
    );
}

#[test]
fn test_resolve_path() {
    assert_eq!(
        try_resolve_in_with("./config.yml", "/home/user/.app", Some(HOME), false).unwrap(),
        "/home/user/.app/config.yml"
    );
}

#[test]
fn test_resolve_path_base_trailing_slash() {
    assert_eq!(
        try_resolve_in_with("./config.yml", "/home/user/.app/", Some(HOME), false).unwrap(),
        "/home/user/.app/config.yml"
    );
}

#[test]
fn test_resolve_path_with_tilde() {
    assert_eq!(
        try_resolve_in_with("./config.yml", "~/.app", Some(HOME), false).unwrap(),
        "/home/test/.app/config.yml"
    );
}

#[test]
fn test_resolve_absolute_path() {
    assert_eq!(
        try_resolve_in_with("/etc/nixos/configuration.nix", "/home/usr/.app", Some(HOME), false)
            .unwrap(),
        "/etc/nixos/configuration.nix"
    );
}

#[test]
fn test_resolve_absolute_path2() {
    assert_eq!(
        try_resolve_in_with("~/.config/alacritty/alacritty.yml", "/tmp", Some(HOME), false)
            .unwrap(),
        "/home/test/.config/alacritty/alacritty.yml"
    );
}

#[test]
fn test_resolve_relative_path() {
    assert_eq!(
        try_resolve_in_with("../.app2/config.yml", "/home/user/.app", Some(HOME), false).unwrap(),
        "/home/user/.app/../.app2/config.yml"
    );
}

#[test]
fn test_resolve_current_dir() {
    assert_eq!(try_resolve_in_with(".", "/home/user", Some(HOME), false).unwrap(), "/home/user");
}

#[test]
fn test_resolve_cwd() {
    assert_eq!(
        try_resolve_with("garbage.txt", Some("/tmp"), Some(HOME)).unwrap(),
        "/tmp/garbage.txt"
    );
}

#[test]
fn test_resolve_base_file() {
    let base_path = "/tmp/path-resolve-test.txt";
    assert_eq!(
        try_resolve_in_with("./other-tmp-file.txt", base_path, Some(HOME), true).unwrap(),
        "/tmp/other-tmp-file.txt"
    );
}

#[test]
fn test_bare_tilde_forms() {
    assert_eq!(resolve_tilde_with_home(HOME, "~"), "/home/test");
    assert_eq!(resolve_tilde_with_home(HOME, "~/"), "/home/test");
    assert_eq!(resolve_tilde_with_home(HOME, "~/////"), "/home/test");
}

#[test]
fn test_tilde_with_path() {
    assert_eq!(resolve_tilde_with_home(HOME, "~/.config"), "/home/test/.config");
    assert_eq!(resolve_tilde_with_home(HOME, "~/////.config"), "/home/test/.config");
}

#[test]
fn test_other_user_tilde_unchanged() {
    assert_eq!(resolve_tilde_with_home(HOME, "~alice"), "~alice");
}

#[test]
fn test_tilde_no_canonicalization() {
    assert_eq!(
        resolve_tilde_with_home(HOME, "~/.config/../.vim/"),
        "/home/test/.config/../.vim/"
    );
}

#[test]
fn test_non_tilde_paths_unchanged_by_tilde_resolver() {
    assert_eq!(resolve_tilde_with_home(HOME, "/tmp/hello"), "/tmp/hello");
    assert_eq!(resolve_tilde_with_home(HOME, "./configure"), "./configure");
}

#[test]
fn test_invalid_base() {
    assert_eq!(
        try_resolve_in_with("./x", "relative/base", Some(HOME), false),
        Err(ResolveError::InvalidBase)
    );
}

#[test]
fn test_home_not_found_for_tilde_candidate() {
    assert_eq!(try_resolve_in_with("~/x", "/tmp", None, false), Err(ResolveError::HomeNotFound));
}

#[test]
fn test_home_not_found_for_relative_base() {
    assert_eq!(
        try_resolve_in_with("./x", "relative/base", None, false),
        Err(ResolveError::HomeNotFound)
    );
}

#[test]
fn test_cwd_unavailable() {
    assert_eq!(try_resolve_with("./x", None, Some(HOME)), Err(ResolveError::CwdUnavailable));
}

#[test]
fn test_no_parent_directory() {
    assert_eq!(try_resolve_in_classified("x", "/", true), Err(ResolveError::NoParentDirectory));
}

#[test]
fn test_file_base_uses_parent() {
    assert_eq!(
        try_resolve_in_classified("./other.txt", "/tmp/marker.txt", true).unwrap(),
        "/tmp/other.txt"
    );
    assert_eq!(try_resolve_in_classified("x", "/top", true).unwrap(), "/x");
}

#[test]
fn test_nonexistent_base_degrades_to_directory() {
    assert_eq!(
        try_resolve_in_with("./x", "/no/such/dir", Some(HOME), false).unwrap(),
        "/no/such/dir/x"
    );
}

#[test]
fn test_step_reports_base_to_classify() {
    match try_resolve_in_step("./x", "~/.app", Some(HOME)) {
        Ok(ResolveStep::ClassifyBase(b)) => assert_eq!(b, "/home/test/.app"),
        other => panic!("expected a base to classify, got {:?}", other),
    }
    match try_resolve_in_step("/etc/x.conf", "/tmp", Some(HOME)) {
        Ok(ResolveStep::Done(p)) => assert_eq!(p, "/etc/x.conf"),
        other => panic!("expected a finished resolution, got {:?}", other),
    }
    match try_resolve_in_step("~/x", "/tmp", Some(HOME)) {
        Ok(ResolveStep::Done(p)) => assert_eq!(p, "/home/test/x"),
        other => panic!("expected a finished resolution, got {:?}", other),
    }
}

#[test]
fn test_idempotence_on_resolved_output() {
    let first = try_resolve_in_with("./config.yml", "/home/user/.app", Some(HOME), false).unwrap();
    let again = try_resolve_in_with(first.as_str(), "/somewhere/else", Some(HOME), false).unwrap();
    assert_eq!(again, first);
    let tilde = try_resolve_in_with("~/.config/x", "/tmp", Some(HOME), false).unwrap();
    assert_eq!(tilde, "/home/test/.config/x");
    let again = try_resolve_with(tilde.as_str(), Some("/var"), Some(HOME)).unwrap();
    assert_eq!(again, tilde);
}

#[test]
fn test_empty_candidate_yields_base() {
    assert_eq!(try_resolve_in_with("", "/home/user", Some(HOME), false).unwrap(), "/home/user");
}

#[test]
fn test_try_resolve_tilde_matches_home_dir() {
    match home_dir() {
        Some(h) => {
            assert_eq!(try_resolve_tilde("~").unwrap(), h);
            assert_eq!(try_resolve_tilde("/abs/path").unwrap(), "/abs/path");
        }
        None => {
            assert_eq!(try_resolve_tilde("~"), Err(ResolveError::HomeNotFound));
            assert_eq!(try_resolve_tilde("/abs/path"), Err(ResolveError::HomeNotFound));
        }
    }
}
