use yoinkx::conf::Config;
use yoinkx::paths::{
    candidate_name, choose_filename, choose_subdirectory, contains_name, ensure_extension,
    resolve_filename, target_directory,
};

fn cfg(target: Option<&str>, subdirs: bool, pattern: &str) -> Config {
    Config {
        target_dir: target.map(str::to_string),
        enable_imagehost: false,
        enable_subdirectories: subdirs,
        subdirectory_regex: pattern.to_string(),
        bind: Vec::new(),
        max_image_size: 100_000_000,
    }
}

const DEFAULT_PATTERN: &str = r"(?P<subdir>.*)_[\d\w]{10}.[\w]+";

#[test]
fn candidate_preserves_extension() {
    assert_eq!(candidate_name(&"a.png".to_string(), 0), "a_0.png");
    assert_eq!(candidate_name(&"a.png".to_string(), 1), "a_1.png");
    assert_eq!(candidate_name(&"a.png".to_string(), 12), "a_12.png");
    assert_eq!(candidate_name(&"archive.tar.gz".to_string(), 2), "archive.tar_2.gz");
}

#[test]
fn candidate_without_extension() {
    assert_eq!(candidate_name(&"noext".to_string(), 3), "noext_3");
    assert_eq!(candidate_name(&".hidden".to_string(), 0), ".hidden_0");
}

#[test]
fn collision_skips_taken_suffixes() {
    let existing = vec!["a.png".to_string(), "a_0.png".to_string()];
    let r = resolve_filename(&existing, &"a.png".to_string());
    assert_eq!(r, "a_1.png");
}

#[test]
fn collision_keeps_free_base_name() {
    let existing: Vec<String> = Vec::new();
    let r = resolve_filename(&existing, &"a.png".to_string());
    assert_eq!(r, "a.png");
}

#[test]
fn collision_resolution_is_deterministic() {
    let existing = vec!["shot.png".to_string(), "other.png".to_string()];
    let first = resolve_filename(&existing, &"shot.png".to_string());
    let second = resolve_filename(&existing, &"shot.png".to_string());
    assert_eq!(first, second);
    assert_eq!(first, "shot_0.png");
    assert!(!contains_name(&existing, &first));
}

#[test]
fn subdirectory_captured_from_filename() {
    let config = cfg(Some("shots"), true, DEFAULT_PATTERN);
    let r = choose_subdirectory(&config, &"myapp_ab12cd34ef.png".to_string());
    assert_eq!(r, Some("myapp".to_string()));
}

#[test]
fn subdirectory_skipped_when_disabled() {
    let config = cfg(Some("shots"), false, DEFAULT_PATTERN);
    let r = choose_subdirectory(&config, &"myapp_ab12cd34ef.png".to_string());
    assert_eq!(r, None);
}

#[test]
fn subdirectory_skipped_on_bad_pattern() {
    let config = cfg(Some("shots"), true, "(unclosed");
    let r = choose_subdirectory(&config, &"myapp_ab12cd34ef.png".to_string());
    assert_eq!(r, None);
}

#[test]
fn subdirectory_skipped_without_match() {
    let config = cfg(Some("shots"), true, DEFAULT_PATTERN);
    let r = choose_subdirectory(&config, &"plain.png".to_string());
    assert_eq!(r, None);
}

#[test]
fn target_directory_joins_subdirectory() {
    let config = cfg(Some("shots"), true, DEFAULT_PATTERN);
    let r = target_directory(&config, &"myapp_ab12cd34ef.png".to_string());
    assert_eq!(r, Some("shots/myapp".to_string()));
}

#[test]
fn target_directory_absent_without_persistence() {
    let config = cfg(None, true, DEFAULT_PATTERN);
    assert_eq!(target_directory(&config, &"myapp_ab12cd34ef.png".to_string()), None);
}

#[test]
fn extension_appended_when_missing() {
    assert_eq!(ensure_extension(&"shot".to_string(), &"png".to_string()), "shot.png");
    assert_eq!(ensure_extension(&"shot.png".to_string(), &"png".to_string()), "shot.png");
    assert_eq!(ensure_extension(&"shot".to_string(), &"".to_string()), "shot");
    assert_eq!(ensure_extension(&"shot.jpg".to_string(), &"png".to_string()), "shot.jpg.png");
}

#[test]
fn placement_needs_directory() {
    let existing: Vec<String> = Vec::new();
    let config = cfg(Some("shots"), false, DEFAULT_PATTERN);
    let placed = choose_filename(&config, &"shot.png".to_string(), &existing, true);
    assert_eq!(placed, Some("shots/shot.png".to_string()));
    // failure to create the directory degrades to "do not persist"
    assert_eq!(choose_filename(&config, &"shot.png".to_string(), &existing, false), None);
    let no_dir = cfg(None, false, DEFAULT_PATTERN);
    assert_eq!(choose_filename(&no_dir, &"shot.png".to_string(), &existing, true), None);
}

#[test]
fn defaults_match_documented_values() {
    let c = Config::defaults();
    assert_eq!(c.target_dir, None);
    assert!(!c.enable_imagehost);
    assert!(!c.enable_subdirectories);
    assert_eq!(c.subdirectory_regex, DEFAULT_PATTERN);
    assert_eq!(c.bind, vec!["localhost:1256".to_string()]);
    assert_eq!(c.max_image_size, 100_000_000);
}

#[test]
fn imagehost_needs_target_dir() {
    let mut c = Config::defaults();
    c.enable_imagehost = true;
    c.check_options();
    assert!(!c.enable_imagehost);
    let mut c2 = cfg(Some("shots"), false, DEFAULT_PATTERN);
    c2.enable_imagehost = true;
    c2.check_options();
    assert!(c2.enable_imagehost);
}
