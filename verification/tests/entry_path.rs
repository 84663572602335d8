use openusage::entry_path::{validate_entry, EntryError, PathStyle};

#[test]
fn normal_relative_entry_is_accepted() {
    assert_eq!(validate_entry("plugin.js", PathStyle::Unix), Ok(()));
    assert_eq!(validate_entry("plugin.js", PathStyle::Windows), Ok(()));
    assert_eq!(validate_entry("dist/./plugin.js", PathStyle::Unix), Ok(()));
    assert_eq!(validate_entry("..plugin.js", PathStyle::Unix), Ok(()));
    assert_eq!(validate_entry("a/b..c/d.js", PathStyle::Windows), Ok(()));
}

#[test]
fn parent_dir_traversal_is_rejected() {
    let err = validate_entry("../evil.js", PathStyle::Unix).expect_err("traversal must be rejected");
    assert!(err.message().contains("remain within plugin directory"));
    assert_eq!(validate_entry("a/../../evil.js", PathStyle::Unix), Err(EntryError::EscapesPluginDir));
    assert_eq!(validate_entry("a/..", PathStyle::Unix), Err(EntryError::EscapesPluginDir));
    assert_eq!(validate_entry("..", PathStyle::Windows), Err(EntryError::EscapesPluginDir));
    assert_eq!(validate_entry("a\\..\\evil.js", PathStyle::Windows), Err(EntryError::EscapesPluginDir));
    // On Unix a backslash is an ordinary character, not a separator.
    assert_eq!(validate_entry("a\\..\\evil.js", PathStyle::Unix), Ok(()));
}

#[test]
fn absolute_entry_is_rejected() {
    let err = validate_entry("/evil.js", PathStyle::Unix).expect_err("absolute entry must be rejected");
    let msg = err.message();
    assert!(msg.contains("relative path") || msg.contains("remain within plugin directory"), "unexpected error: {msg}");
    assert_eq!(validate_entry("/evil.js", PathStyle::Unix), Err(EntryError::NotRelative));
    assert_eq!(validate_entry("C:/evil.js", PathStyle::Windows), Err(EntryError::NotRelative));
    assert_eq!(validate_entry("c:\\evil.js", PathStyle::Windows), Err(EntryError::NotRelative));
    assert_eq!(validate_entry("\\\\server\\share\\evil.js", PathStyle::Windows), Err(EntryError::NotRelative));
    assert_eq!(validate_entry("\\\\?\\C:\\evil.js", PathStyle::Windows), Err(EntryError::NotRelative));
    assert_eq!(validate_entry("\\\\?\\", PathStyle::Windows), Err(EntryError::NotRelative));
    assert_eq!(validate_entry("\\\\.\\COM1", PathStyle::Windows), Err(EntryError::NotRelative));
    assert_eq!(validate_entry("//./COM1", PathStyle::Windows), Err(EntryError::NotRelative));
    assert_eq!(validate_entry("//server/share/evil.js", PathStyle::Windows), Err(EntryError::NotRelative));
    assert_eq!(validate_entry("//?/x", PathStyle::Windows), Err(EntryError::NotRelative));
}

#[test]
fn root_and_prefix_components_are_rejected() {
    // A rooted path without a drive is not absolute on Windows, but it
    // leaves the plugin directory all the same.
    assert_eq!(validate_entry("/evil.js", PathStyle::Windows), Err(EntryError::EscapesPluginDir));
    assert_eq!(validate_entry("\\evil.js", PathStyle::Windows), Err(EntryError::EscapesPluginDir));
    assert_eq!(validate_entry("C:evil.js", PathStyle::Windows), Err(EntryError::EscapesPluginDir));
    assert_eq!(validate_entry("\\\\server", PathStyle::Windows), Err(EntryError::EscapesPluginDir));
    // Two separators without a valid UNC, device or verbatim prefix are only a root.
    assert_eq!(validate_entry("\\\\server\\", PathStyle::Windows), Err(EntryError::EscapesPluginDir));
    assert_eq!(validate_entry("\\\\\\x", PathStyle::Windows), Err(EntryError::EscapesPluginDir));
    assert_eq!(validate_entry("\\\\server\\\\x", PathStyle::Windows), Err(EntryError::EscapesPluginDir));
    assert_eq!(validate_entry("//", PathStyle::Windows), Err(EntryError::EscapesPluginDir));
    // On Unix `C:` is an ordinary file name.
    assert_eq!(validate_entry("C:/evil.js", PathStyle::Unix), Ok(()));
}

#[test]
fn blank_entry_is_rejected() {
    assert_eq!(validate_entry("", PathStyle::Unix), Err(EntryError::Empty));
    assert_eq!(validate_entry(" \t\u{3000}", PathStyle::Windows), Err(EntryError::Empty));
    assert_eq!(EntryError::Empty.message(), "plugin entry field cannot be empty");
    assert_eq!(EntryError::NotRelative.message(), "plugin entry must be a relative path");
    assert_eq!(
        EntryError::EscapesPluginDir.message(),
        "plugin entry must remain within plugin directory"
    );
}
