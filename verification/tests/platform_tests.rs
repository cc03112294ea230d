use dbx_ignore::platforms::linux::LinuxHandler;
use dbx_ignore::platforms::macos::MacOSHandler;
use dbx_ignore::platforms::unsupported::UnsupportedHandler;
use dbx_ignore::platforms::windows::WindowsHandler;
use dbx_ignore::platforms::{current_platform, get_platform_info};
use dbx_ignore::traits::PlatformHandler;

#[test]
fn test_unsupported_platform_handler() {
    // Test that unsupported platform handler behaves correctly
    assert_eq!(UnsupportedHandler.platform_name(), "Unsupported Platform");
    assert!(!UnsupportedHandler.is_supported());
    assert_eq!(UnsupportedHandler.get_target_attributes().len(), 0);

    let temp_path = "/tmp";

    // Should always return false for has_attribute
    assert!(!UnsupportedHandler.has_attribute(temp_path, "any.attr").unwrap());
}

#[test]
fn test_macos_platform_handler() {
    let handler = MacOSHandler::new(false);
    assert_eq!(handler.platform_name(), "macOS");
    assert!(handler.is_supported());

    let target_attrs = handler.get_target_attributes();
    assert!(target_attrs.contains(&"com.dropbox.ignored"));
    assert!(target_attrs.contains(&"com.apple.fileprovider.ignore#P"));
    assert_eq!(target_attrs.len(), 2);
}

#[test]
fn test_linux_platform_handler() {
    assert_eq!(LinuxHandler.platform_name(), "Linux");
    assert!(LinuxHandler.is_supported());

    let target_attrs = LinuxHandler.get_target_attributes();
    assert!(target_attrs.contains(&"user.com.dropbox.ignored"));
    assert!(target_attrs.contains(&"user.com.apple.fileprovider.ignore#P"));
    assert_eq!(target_attrs.len(), 2);
}

#[test]
fn test_windows_platform_handler() {
    assert_eq!(WindowsHandler.platform_name(), "Windows");
    assert!(WindowsHandler.is_supported());

    let target_attrs = WindowsHandler.get_target_attributes();
    assert!(target_attrs.contains(&"com.dropbox.ignored"));
    assert!(target_attrs.contains(&"com.apple.fileprovider.ignore#P"));
    assert_eq!(target_attrs.len(), 2);
}

#[test]
fn test_current_platform_detection() {
    let current = current_platform();
    let (platform_name, is_supported) = get_platform_info();

    // Test that platform name is set correctly
    assert!(!platform_name.is_empty());

    // Test that current platform reports consistent information
    assert_eq!(platform_name, current.platform_name());
    assert_eq!(is_supported, current.is_supported());

    // Test that we have some target attributes on supported platforms
    if is_supported {
        assert!(!current.get_target_attributes().is_empty());
    } else {
        assert_eq!(current.get_target_attributes().len(), 0);
    }
}
