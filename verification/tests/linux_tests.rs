use dbx_ignore::platforms::linux::LinuxHandler;
use dbx_ignore::traits::PlatformHandler;
use std::io::Write;
use std::path::Path;

fn linux_create_file(dir: &Path, name: &str, content: &str) -> String {
    let mut file = tempfile::NamedTempFile::new_in(dir).expect("Failed to create test file");
    file.write_all(content.as_bytes()).expect("Failed to write test file");
    let path = dir.join(name);
    file.persist(&path).expect("Failed to keep test file");
    path.to_str().expect("path is not UTF-8").to_string()
}

#[test]
fn test_linux_handler_basics() {
    assert_eq!(LinuxHandler.platform_name(), "Linux");
    assert!(LinuxHandler.is_supported());

    let attrs = LinuxHandler.get_target_attributes();
    assert_eq!(attrs.len(), 2);
    assert!(attrs.contains(&"user.com.dropbox.ignored"));
    assert!(attrs.contains(&"user.com.apple.fileprovider.ignore#P"));
}

#[test]
fn linux_tests_test_has_attribute_on_nonexistent_file() {
    let nonexistent = "/tmp/nonexistent_test_file_12345";

    // Should handle nonexistent files gracefully
    let result = LinuxHandler.has_attribute(nonexistent, "user.com.dropbox.ignored");
    assert!(result.is_ok());
    assert!(!result.unwrap());
}

#[test]
fn linux_tests_test_has_attribute_on_regular_file() {
    let env = tempfile::tempdir().expect("Failed to create temp directory");
    let test_file = linux_create_file(env.path(), "test.txt", "test content");

    // Regular files should not have these attributes by default
    let result = LinuxHandler.has_attribute(&test_file, "user.com.dropbox.ignored");
    assert!(result.is_ok());
    assert!(!result.unwrap());

    let result = LinuxHandler.has_attribute(&test_file, "user.com.apple.fileprovider.ignore#P");
    assert!(result.is_ok());
    assert!(!result.unwrap());
}

#[test]
fn linux_tests_test_has_attribute_with_invalid_attribute_name() {
    let env = tempfile::tempdir().expect("Failed to create temp directory");
    let test_file = linux_create_file(env.path(), "test.txt", "test content");

    // Test with an invalid/unusual attribute name
    let result = LinuxHandler.has_attribute(&test_file, "");
    assert!(result.is_ok());
    assert!(!result.unwrap());

    let result = LinuxHandler.has_attribute(&test_file, "user.invalid.attribute.name");
    assert!(result.is_ok());
    assert!(!result.unwrap());
}

#[test]
fn linux_tests_test_has_attribute_on_directory() {
    let env = tempfile::tempdir().expect("Failed to create temp directory");
    let test_dir = tempfile::Builder::new()
        .prefix("test_directory")
        .rand_bytes(0)
        .tempdir_in(env.path())
        .expect("Failed to create test directory");
    let test_dir_path = test_dir.path().to_str().expect("path is not UTF-8");

    // Directories should also not have these attributes by default
    let result = LinuxHandler.has_attribute(test_dir_path, "user.com.dropbox.ignored");
    assert!(result.is_ok());
    assert!(!result.unwrap());
}

#[test]
fn test_linux_specific_user_prefix() {
    // Verify that Linux uses the correct user.* prefix for extended attributes
    let attrs = LinuxHandler.get_target_attributes();

    for attr in attrs {
        assert!(
            attr.starts_with("user."),
            "Linux extended attribute '{}' should start with 'user.' prefix",
            attr
        );
    }
}

#[test]
fn linux_tests_test_error_handling_for_unsupported_filesystem() {
    let env = tempfile::tempdir().expect("Failed to create temp directory");
    let test_file = linux_create_file(env.path(), "test.txt", "test content");

    // Test with attribute that might not be supported on all filesystems
    let result = LinuxHandler.has_attribute(&test_file, "user.com.dropbox.ignored");
    assert!(result.is_ok());
    // Should return false for unsupported filesystems (treated as "not found")
    assert!(!result.unwrap());
}
