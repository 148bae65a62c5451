use toolset_io::error::ToolsetError;
use toolset_io::tfb::{
    current_results_dir, frameworks_dir_of, get_tfb_dir, resolve_tfb_candidate, results_dir_name,
};

#[test]
fn it_will_get_a_valid_tfb_dir() {
    let passed = match get_tfb_dir("/opt/tfb", true) {
        Ok(_) => true,
        _ => false,
    };
    assert!(passed);
}

#[test]
fn env_variable_wins_over_every_other_source() {
    let c = resolve_tfb_candidate(
        Some("/opt/tfb".to_string()),
        Some("/home/user".to_string()),
        true,
        Some("/cwd".to_string()),
    );
    assert_eq!(c, "/opt/tfb");
}

#[test]
fn home_tfb_is_used_when_it_exists() {
    let c = resolve_tfb_candidate(None, Some("/home/user".to_string()), true, Some("/cwd".to_string()));
    assert_eq!(c, "/home/user/.tfb");
}

#[test]
fn current_dir_is_the_fallback_when_home_tfb_is_missing() {
    let c = resolve_tfb_candidate(None, Some("/home/user".to_string()), false, Some("/cwd".to_string()));
    assert_eq!(c, "/cwd");
}

#[test]
fn missing_current_dir_leaves_the_home_candidate() {
    let c = resolve_tfb_candidate(None, Some("/home/user".to_string()), false, None);
    assert_eq!(c, "/home/user/.tfb");
}

#[test]
fn no_sources_give_the_empty_candidate() {
    let c = resolve_tfb_candidate(None, None, false, None);
    assert_eq!(c, "");
}

#[test]
fn any_candidate_without_frameworks_dir_is_invalid() {
    for candidate in ["/opt/tfb", "/home/user/.tfb", "/cwd", ""] {
        let r = get_tfb_dir(candidate, false);
        assert_eq!(r, Err(ToolsetError::InvalidFrameworkBenchmarksDirError));
    }
}

#[test]
fn a_candidate_with_frameworks_dir_is_returned_unchanged() {
    let r = get_tfb_dir("/home/user/.tfb", true);
    assert_eq!(r, Ok("/home/user/.tfb".to_string()));
}

#[test]
fn frameworks_dir_is_joined_beneath_the_candidate() {
    assert_eq!(frameworks_dir_of("/opt/tfb"), "/opt/tfb/frameworks");
}

#[test]
fn results_dir_name_prefixes_the_timestamp() {
    assert_eq!(results_dir_name("20200619191252"), "results/20200619191252");
}

#[test]
fn current_results_dir_is_under_results_with_a_timestamp() {
    let d = current_results_dir();
    assert!(d.starts_with("results/"));
    assert!(d.len() >= 22);
    assert!(d["results/".len()..].chars().all(|c| c.is_ascii_digit()));
}
