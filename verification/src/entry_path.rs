//! Validation of a plugin's `entry` path: it must name a file inside the
//! plugin's own directory.
//!
//! The check works on the path's components rather than on canonicalized
//! paths: an entry is refused when it is blank, absolute, or has a
//! parent-directory (`..`), root or prefix component. How a path splits into
//! components depends on the platform's path syntax, so the rules take the
//! syntax as an argument.
use vstd::prelude::*;

use crate::text::{trim, trim_spec};

verus! {

/// The path syntax of the platform the plugin is loaded on.
#[derive(Debug, Clone, Copy, PartialEq, Eq, Structural)]
pub enum PathStyle {
    /// `/` separates components; a path is absolute when it starts with `/`.
    Unix,
    /// `/` and `\` both separate components; paths may start with a drive
    /// (`C:`) or with a UNC, device or verbatim prefix (`\\server\share`,
    /// `\\.\`, `\\?\`).
    Windows,
}

/// Why an entry path was refused.
#[derive(Debug, Clone, Copy, PartialEq, Eq, Structural)]
pub enum EntryError {
    /// The entry is empty or only whitespace.
    Empty,
    /// The entry is an absolute path.
    NotRelative,
    /// The entry has a `..`, root or prefix component.
    EscapesPluginDir,
}

impl EntryError {
    /// The message that reports this error.
    pub open spec fn message_spec(self) -> Seq<char> {
        match self {
            EntryError::Empty => "plugin entry field cannot be empty"@,
            EntryError::NotRelative => "plugin entry must be a relative path"@,
            EntryError::EscapesPluginDir => "plugin entry must remain within plugin directory"@,
        }
    }

    /// The message that reports this error.
    pub fn message(&self) -> (r: String)
        ensures
            r@ == self.message_spec(),
    {
        match self {
            EntryError::Empty => String::from_str("plugin entry field cannot be empty"),
            EntryError::NotRelative => String::from_str("plugin entry must be a relative path"),
            EntryError::EscapesPluginDir => String::from_str(
                "plugin entry must remain within plugin directory",
            ),
        }
    }
}

/// Whether `c` separates path components.
pub open spec fn is_separator(c: char, style: PathStyle) -> bool {
    c == '/' || (style == PathStyle::Windows && c == '\\')
}

/// Whether a `..` component starts at index `i` of `s`.
pub open spec fn parent_component_at(s: Seq<char>, i: int, style: PathStyle) -> bool {
    &&& 0 <= i
    &&& i + 2 <= s.len()
    &&& s[i] == '.'
    &&& s[i + 1] == '.'
    &&& (i == 0 || is_separator(s[i - 1], style))
    &&& (i + 2 == s.len() || is_separator(s[i + 2], style))
}

/// Whether `s` has a `..` component.
pub open spec fn has_parent_component(s: Seq<char>, style: PathStyle) -> bool {
    exists|i: int| parent_component_at(s, i, style)
}

/// Whether `s` starts with a separator, which is a root component.
pub open spec fn starts_with_separator(s: Seq<char>, style: PathStyle) -> bool {
    s.len() > 0 && is_separator(s[0], style)
}

/// Whether `s` starts with a Windows drive prefix such as `C:`.
pub open spec fn has_drive_prefix(s: Seq<char>) -> bool {
    &&& s.len() >= 2
    &&& ('a' <= s[0] <= 'z' || 'A' <= s[0] <= 'Z')
    &&& s[1] == ':'
}

/// Whether `s` starts with a Windows verbatim prefix `\\?\`, which is only
/// recognized when written with backslashes.
pub open spec fn has_verbatim_prefix(s: Seq<char>) -> bool {
    &&& s.len() >= 4
    &&& s[0] == '\\'
    &&& s[1] == '\\'
    &&& s[2] == '?'
    &&& s[3] == '\\'
}

/// Whether `s` starts with a Windows device prefix `\\.\`, with either
/// separator.
pub open spec fn has_device_prefix(s: Seq<char>) -> bool {
    &&& s.len() >= 4
    &&& is_separator(s[0], PathStyle::Windows)
    &&& is_separator(s[1], PathStyle::Windows)
    &&& s[2] == '.'
    &&& is_separator(s[3], PathStyle::Windows)
}

/// Whether, in a path that starts with two separators, the server component
/// that begins at index 2 is not empty and ends at the separator at `j`.
pub open spec fn server_ends_at(s: Seq<char>, j: int) -> bool {
    &&& 2 < j < s.len()
    &&& is_separator(s[j], PathStyle::Windows)
    &&& forall|m: int| 2 <= m < j ==> !is_separator(#[trigger] s[m], PathStyle::Windows)
}

/// Whether `s` starts with a Windows UNC prefix `\\server\share`: two
/// separators, a non-empty server component, a separator and a non-empty
/// share component.
pub open spec fn has_unc_prefix(s: Seq<char>) -> bool {
    &&& s.len() >= 2
    &&& is_separator(s[0], PathStyle::Windows)
    &&& is_separator(s[1], PathStyle::Windows)
    &&& exists|j: int|
        server_ends_at(s, j) && j + 1 < s.len() && !is_separator(
            #[trigger] s[j + 1],
            PathStyle::Windows,
        )
}

/// Whether `s` starts with a Windows verbatim, device or UNC prefix. A path
/// that starts with two separators but has none of these (such as
/// `\\server\` or `\\\x`) has no prefix, only a root.
pub open spec fn has_network_prefix(s: Seq<char>) -> bool {
    has_verbatim_prefix(s) || has_device_prefix(s) || has_unc_prefix(s)
}

/// Whether `s` is an absolute path in the given syntax.
pub open spec fn is_absolute_path(s: Seq<char>, style: PathStyle) -> bool {
    match style {
        PathStyle::Unix => starts_with_separator(s, style),
        PathStyle::Windows => {
            ||| (has_drive_prefix(s) && s.len() >= 3 && is_separator(s[2], style))
            ||| has_network_prefix(s)
        },
    }
}

/// Whether `s` has a parent-directory, root or prefix component.
pub open spec fn escapes_plugin_dir(s: Seq<char>, style: PathStyle) -> bool {
    ||| has_parent_component(s, style)
    ||| starts_with_separator(s, style)
    ||| (style == PathStyle::Windows && has_drive_prefix(s))
}

/// The error an entry path is refused with, checked in this order; `None`
/// when the entry is accepted.
pub open spec fn entry_error(s: Seq<char>, style: PathStyle) -> Option<EntryError> {
    if trim_spec(s).len() == 0 {
        Some(EntryError::Empty)
    } else if is_absolute_path(s, style) {
        Some(EntryError::NotRelative)
    } else if escapes_plugin_dir(s, style) {
        Some(EntryError::EscapesPluginDir)
    } else {
        None
    }
}

fn separator(c: char, style: PathStyle) -> (r: bool)
    ensures
        r == is_separator(c, style),
{
    c == '/' || (style == PathStyle::Windows && c == '\\')
}

fn parent_component(s: &str, style: PathStyle) -> (r: bool)
    ensures
        r == has_parent_component(s@, style),
{
    let n = s.unicode_len();
    let mut i: usize = 0;
    while i < n
        invariant
            i <= n,
            n == s@.len(),
            forall|k: int| 0 <= k < i ==> !parent_component_at(s@, k, style),
        decreases n - i,
    {
        if i < n - 1 && s.get_char(i) == '.' && s.get_char(i + 1) == '.' && (i == 0
            || separator(s.get_char(i - 1), style)) && (i + 2 == n || separator(
            s.get_char(i + 2),
            style,
        )) {
            assert(parent_component_at(s@, i as int, style));
            return true;
        }
        i = i + 1;
    }
    assert forall|k: int| !parent_component_at(s@, k, style) by {
        if 0 <= k < n {
        }
    }
    false
}

fn drive_prefix(s: &str) -> (r: bool)
    ensures
        r == has_drive_prefix(s@),
{
    if s.unicode_len() < 2 {
        return false;
    }
    let c = s.get_char(0);
    (('a' <= c && c <= 'z') || ('A' <= c && c <= 'Z')) && s.get_char(1) == ':'
}

fn unc_prefix(s: &str) -> (r: bool)
    ensures
        r == has_unc_prefix(s@),
{
    let n = s.unicode_len();
    if n < 3 || !separator(s.get_char(0), PathStyle::Windows) || !separator(
        s.get_char(1),
        PathStyle::Windows,
    ) || separator(s.get_char(2), PathStyle::Windows) {
        return false;
    }
    let mut j: usize = 3;
    while j < n
        invariant
            3 <= j <= n,
            n == s@.len(),
            is_separator(s@[0], PathStyle::Windows),
            is_separator(s@[1], PathStyle::Windows),
            forall|m: int| 2 <= m < j ==> !is_separator(#[trigger] s@[m], PathStyle::Windows),
        decreases n - j,
    {
        if separator(s.get_char(j), PathStyle::Windows) {
            assert(server_ends_at(s@, j as int));
            assert forall|k: int| server_ends_at(s@, k) implies k == j by {
                if k < j {
                    assert(!is_separator(s@[k], PathStyle::Windows));
                } else if k > j {
                    assert(!is_separator(s@[j as int], PathStyle::Windows));
                }
            }
            let share = j + 1 < n && !separator(s.get_char(j + 1), PathStyle::Windows);
            return share;
        }
        j = j + 1;
    }
    assert forall|k: int| !server_ends_at(s@, k) by {
        if 2 < k < s@.len() {
            assert(!is_separator(s@[k], PathStyle::Windows));
        }
    }
    false
}

fn network_prefix(s: &str) -> (r: bool)
    ensures
        r == has_network_prefix(s@),
{
    let n = s.unicode_len();
    let verbatim = n >= 4 && s.get_char(0) == '\\' && s.get_char(1) == '\\' && s.get_char(2)
        == '?' && s.get_char(3) == '\\';
    let device = n >= 4 && separator(s.get_char(0), PathStyle::Windows) && separator(
        s.get_char(1),
        PathStyle::Windows,
    ) && s.get_char(2) == '.' && separator(s.get_char(3), PathStyle::Windows);
    verbatim || device || unc_prefix(s)
}

/// Checks a manifest's `entry` path: it must not be blank, must be relative,
/// and must not have a `..`, root or prefix component, so that it names a
/// file inside the plugin's directory.
pub fn validate_entry(entry: &str, style: PathStyle) -> (r: Result<(), EntryError>)
    ensures
        r matches Ok(_) <==> entry_error(entry@, style) is None,
        r matches Err(e) ==> entry_error(entry@, style) == Some(e),
{
    let trimmed = trim(entry);
    if trimmed.as_str().unicode_len() == 0 {
        return Err(EntryError::Empty);
    }
    let starts_sep = entry.unicode_len() > 0 && separator(entry.get_char(0), style);
    let absolute = match style {
        PathStyle::Unix => starts_sep,
        PathStyle::Windows => (drive_prefix(entry) && entry.unicode_len() >= 3 && separator(
            entry.get_char(2),
            style,
        )) || network_prefix(entry),
    };
    if absolute {
        return Err(EntryError::NotRelative);
    }
    let escapes = parent_component(entry, style) || starts_sep || (style == PathStyle::Windows
        && drive_prefix(entry));
    if escapes {
        return Err(EntryError::EscapesPluginDir);
    }
    Ok(())
}

/// An accepted entry stays inside the plugin directory: it has no `..`
/// component, does not start at a root, and (on Windows) has no drive prefix.
pub proof fn lemma_accepted_entry_stays_inside(s: Seq<char>, style: PathStyle)
    requires
        entry_error(s, style) is None,
    ensures
        forall|i: int| !parent_component_at(s, i, style),
        !starts_with_separator(s, style),
        style == PathStyle::Windows ==> !has_drive_prefix(s),
        !is_absolute_path(s, style),
        trim_spec(s).len() > 0,
{
}

/// On Unix an entry is accepted exactly when it is not blank, does not start
/// with `/`, and has no component `..` (two dots between separators or the
/// ends); `.` components and plain names never refuse it, so `./plugin.js`
/// is accepted.
pub proof fn lemma_unix_entry_law(s: Seq<char>)
    ensures
        entry_error(s, PathStyle::Unix) is None <==> {
            &&& trim_spec(s).len() > 0
            &&& !(s.len() > 0 && s[0] == '/')
            &&& forall|i: int|
                0 <= i && i + 2 <= s.len() && #[trigger] s[i] == '.' && s[i + 1] == '.' ==> !((i
                    == 0 || s[i - 1] == '/') && (i + 2 == s.len() || s[i + 2] == '/'))
        },
{
    let st = PathStyle::Unix;
    if has_parent_component(s, st) {
        let i = choose|i: int| parent_component_at(s, i, st);
        assert(s[i] == '.');
    } else {
        assert forall|i: int|
            0 <= i && i + 2 <= s.len() && #[trigger] s[i] == '.' && s[i + 1] == '.' implies !((i
                == 0 || is_separator(s[i - 1], st)) && (i + 2 == s.len() || is_separator(
                s[i + 2],
                st,
            ))) by {
            assert(!parent_component_at(s, i, st));
        }
    }
    if has_network_prefix(s) {
        assert(s[0] == '/' || s[0] == '\\');
    }
}

/// On Windows an entry is accepted exactly when it is not blank, does not
/// start with `/` or `\`, does not start with a drive (`C:`), and has no
/// component `..` (with `/` and `\` both separating components).
pub proof fn lemma_windows_entry_law(s: Seq<char>)
    ensures
        entry_error(s, PathStyle::Windows) is None <==> {
            &&& trim_spec(s).len() > 0
            &&& !(s.len() > 0 && (s[0] == '/' || s[0] == '\\'))
            &&& !(s.len() >= 2 && ('a' <= s[0] <= 'z' || 'A' <= s[0] <= 'Z') && s[1] == ':')
            &&& forall|i: int|
                0 <= i && i + 2 <= s.len() && #[trigger] s[i] == '.' && s[i + 1] == '.' ==> !((i
                    == 0 || s[i - 1] == '/' || s[i - 1] == '\\') && (i + 2 == s.len() || s[i + 2]
                    == '/' || s[i + 2] == '\\'))
        },
{
    let st = PathStyle::Windows;
    if has_parent_component(s, st) {
        let i = choose|i: int| parent_component_at(s, i, st);
        assert(s[i] == '.');
    } else {
        assert forall|i: int|
            0 <= i && i + 2 <= s.len() && #[trigger] s[i] == '.' && s[i + 1] == '.' implies !((i
                == 0 || is_separator(s[i - 1], st)) && (i + 2 == s.len() || is_separator(
                s[i + 2],
                st,
            ))) by {
            assert(!parent_component_at(s, i, st));
        }
    }
    if has_network_prefix(s) {
        assert(s[0] == '/' || s[0] == '\\');
    }
}

} // verus!
