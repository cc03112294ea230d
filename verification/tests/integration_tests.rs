use dbx_ignore::platforms::{current_platform, get_platform_info};
use dbx_ignore::traits::PlatformHandler;
use dbx_ignore::{Action, Config};

#[test]
fn test_config_creation() {
    let config = Config {
        action: Action::Ignore,
        dry_run: true,
        verbose: false,
        quiet: false,
        files: vec!["test.txt".to_string()],
        patterns: vec![],
        git_mode: false,
        daemon_mode: false,
    };

    assert!(config.dry_run);
    assert!(!config.verbose);
    assert!(!config.quiet);
    assert!(!config.git_mode);
    assert_eq!(config.files.len(), 1);
    assert_eq!(config.files[0], "test.txt".to_string());
}

#[test]
fn test_platform_detection_consistency() {
    let current = current_platform();
    let (platform_name, is_supported) = get_platform_info();

    assert_eq!(platform_name, current.platform_name());
    assert_eq!(is_supported, current.is_supported());

    if is_supported {
        assert!(!current.get_target_attributes().is_empty());
    } else {
        assert_eq!(current.get_target_attributes().len(), 0);
    }
}
