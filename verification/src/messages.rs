//! The notifications the workspace shows: their kind, text, and whether they hide by
//! themselves. Error texts and displayed paths are handed in as text.

use vstd::prelude::*;
use crate::text::{push_char, push_str, string_of};

verus! {

/// The kind of a notification.
#[derive(Clone, Copy, Debug, PartialEq, Eq, Structural)]
pub enum NoticeKind {
    Info,
    Success,
    Warning,
    Error,
}

/// A notification: its kind, its text, and whether it hides by itself.
pub struct Notice {
    pub kind: NoticeKind,
    pub message: String,
    pub autohide: bool,
}

/// The decimal digit with value `d`.
pub open spec fn digit_char(d: nat) -> char {
    if d == 0 {
        '0'
    } else if d == 1 {
        '1'
    } else if d == 2 {
        '2'
    } else if d == 3 {
        '3'
    } else if d == 4 {
        '4'
    } else if d == 5 {
        '5'
    } else if d == 6 {
        '6'
    } else if d == 7 {
        '7'
    } else if d == 8 {
        '8'
    } else {
        '9'
    }
}

/// The decimal representation of `n`, without leading zeros.
pub open spec fn decimal_spec(n: nat) -> Seq<char>
    decreases n,
{
    if n < 10 {
        seq![digit_char(n)]
    } else {
        decimal_spec(n / 10).push(digit_char(n % 10))
    }
}

fn digit(d: usize) -> (r: char)
    requires
        d < 10,
    ensures
        r == digit_char(d as nat),
{
    if d == 0 {
        '0'
    } else if d == 1 {
        '1'
    } else if d == 2 {
        '2'
    } else if d == 3 {
        '3'
    } else if d == 4 {
        '4'
    } else if d == 5 {
        '5'
    } else if d == 6 {
        '6'
    } else if d == 7 {
        '7'
    } else if d == 8 {
        '8'
    } else {
        '9'
    }
}

/// Appends the decimal representation of `n` to `s`.
pub fn push_decimal(s: &mut String, n: usize)
    ensures
        final(s)@ == old(s)@ + decimal_spec(n as nat),
    decreases n,
{
    if n < 10 {
        push_char(s, digit(n));
    } else {
        push_decimal(s, n / 10);
        push_char(s, digit(n % 10));
        assert(old(s)@ + decimal_spec(n as nat) =~= old(s)@ + decimal_spec((n / 10) as nat) + seq![
            digit_char((n % 10) as nat),
        ]);
    }
}

/// The text of `n` in decimal.
pub fn decimal(n: usize) -> (r: String)
    ensures
        r@ == decimal_spec(n as nat),
{
    let mut s = String::new();
    push_decimal(&mut s, n);
    assert(s@ =~= decimal_spec(n as nat));
    s
}

fn notice(kind: NoticeKind, message: String, autohide: bool) -> (r: Notice)
    ensures
        r.kind == kind,
        r.message@ == message@,
        r.autohide == autohide,
{
    Notice { kind, message, autohide }
}

/// The catalog of the vault is ready.
pub fn vault_db_ready() -> (r: Notice)
    ensures
        r.kind == NoticeKind::Info && r.message@ == "Vault DB ready"@ && r.autohide,
{
    notice(NoticeKind::Info, string_of("Vault DB ready"), true)
}

/// The catalog of the vault could not be loaded; this stays until dismissed.
pub fn vault_db_failed_to_load() -> (r: Notice)
    ensures
        r.kind == NoticeKind::Error && r.message@ == "Vault DB failed to load"@ && !r.autohide,
{
    notice(NoticeKind::Error, string_of("Vault DB failed to load"), false)
}

/// The catalog of the vault is loading.
pub fn catalog_loading() -> (r: Notice)
    ensures
        r.kind == NoticeKind::Info && r.message@ == "Vault DB loading, some features degraded"@
            && r.autohide,
{
    notice(NoticeKind::Info, string_of("Vault DB loading, some features degraded"), true)
}

/// A rename was asked for before the catalog loaded.
pub fn rename_while_loading() -> (r: Notice)
    ensures
        r.kind == NoticeKind::Warning && r.message@ == "Vault DB still loading, rename unavailable"@
            && r.autohide,
{
    notice(NoticeKind::Warning, string_of("Vault DB still loading, rename unavailable"), true)
}

/// The text of a completed rename that updated `updated` files.
pub open spec fn rename_completed_text(updated: nat) -> Seq<char> {
    if updated == 0 {
        "Rename completed"@
    } else {
        "Rename completed, "@ + decimal_spec(updated) + " files updated"@
    }
}

/// A rename completed, updating the links in `updated` files.
pub fn rename_completed(updated: usize) -> (r: Notice)
    ensures
        r.kind == NoticeKind::Success && r.message@ == rename_completed_text(updated as nat)
            && r.autohide,
{
    let msg = if updated == 0 {
        string_of("Rename completed")
    } else {
        let mut m = string_of("Rename completed, ");
        push_decimal(&mut m, updated);
        push_str(&mut m, " files updated");
        m
    };
    notice(NoticeKind::Success, msg, true)
}

/// A rename completed, but only `updated` of the `total` files that link to it were
/// updated; this stays until dismissed.
pub fn rename_completed_partial(updated: usize, total: usize) -> (r: Notice)
    ensures
        r.kind == NoticeKind::Warning,
        r.message@ == "Rename completed partially, "@ + decimal_spec(updated as nat) + "/"@
            + decimal_spec(total as nat) + " files updated"@,
        !r.autohide,
{
    let mut m = string_of("Rename completed partially, ");
    push_decimal(&mut m, updated);
    push_str(&mut m, "/");
    push_decimal(&mut m, total);
    push_str(&mut m, " files updated");
    notice(NoticeKind::Warning, m, false)
}

/// The notification after a rename that updated `updated` of the `total` linking files.
pub fn rename_outcome(updated: usize, total: usize) -> (r: Notice)
    ensures
        updated == total ==> r.kind == NoticeKind::Success && r.message@ == rename_completed_text(
            updated as nat,
        ),
        updated != total ==> r.kind == NoticeKind::Warning && r.message@
            == "Rename completed partially, "@ + decimal_spec(updated as nat) + "/"@
            + decimal_spec(total as nat) + " files updated"@,
{
    if updated == total {
        rename_completed(updated)
    } else {
        rename_completed_partial(updated, total)
    }
}

/// A rename failed; this stays until dismissed.
pub fn rename_failed() -> (r: Notice)
    ensures
        r.kind == NoticeKind::Error && r.message@ == "Rename failed"@ && !r.autohide,
{
    notice(NoticeKind::Error, string_of("Rename failed"), false)
}

/// An error that stays until dismissed, with the text `head`, then `subject` and `tail`
/// when there is a subject, then `: ` and the error.
fn error_notice(head: &str, subject: Option<&str>, tail: &str, error: &str) -> (r: Notice)
    ensures
        r.kind == NoticeKind::Error,
        !r.autohide,
        r.message@ == head@ + (match subject {
            Some(s) => s@ + tail@,
            None => Seq::empty(),
        }) + ": "@ + error@,
{
    let mut m = string_of(head);
    match subject {
        Some(s) => {
            push_str(&mut m, s);
            push_str(&mut m, tail);
        },
        None => {},
    }
    push_str(&mut m, ": ");
    push_str(&mut m, error);
    proof {
        match subject {
            Some(s) => {},
            None => {
                assert(head@ + Seq::<char>::empty() =~= head@);
            },
        }
    }
    notice(NoticeKind::Error, m, false)
}

/// Saving the setting `action` failed with `error`.
pub fn settings_save_failed(action: &str, error: &str) -> (r: Notice)
    ensures
        r.kind == NoticeKind::Error && !r.autohide,
        r.message@ == "Failed to save "@ + action@ + ": "@ + error@,
{
    proof {
        reveal_strlit("");
    }
    error_notice("Failed to save ", Some(action), "", error)
}

/// Opening the documentation failed with `error`.
pub fn documentation_open_failed(error: &str) -> (r: Notice)
    ensures
        r.kind == NoticeKind::Error && !r.autohide,
        r.message@ == "Failed to open documentation"@ + ": "@ + error@,
{
    let r = error_notice("Failed to open documentation", None, "", error);
    assert("Failed to open documentation"@ + Seq::<char>::empty() =~= "Failed to open documentation"@);
    r
}

/// Revealing `target` (as displayed) in the file manager failed with `error`.
pub fn reveal_in_file_manager_failed(target: &str, error: &str) -> (r: Notice)
    ensures
        r.kind == NoticeKind::Error && !r.autohide,
        r.message@ == "Failed to reveal "@ + target@ + " in the file manager"@ + ": "@ + error@,
{
    error_notice("Failed to reveal ", Some(target), " in the file manager", error)
}

/// Copying `target` (as displayed) to the clipboard failed with `error`.
pub fn copy_path_failed(target: &str, error: &str) -> (r: Notice)
    ensures
        r.kind == NoticeKind::Error && !r.autohide,
        r.message@ == "Failed to copy "@ + target@ + " to the clipboard"@ + ": "@ + error@,
{
    error_notice("Failed to copy ", Some(target), " to the clipboard", error)
}

/// Opening `url` failed with `error`.
pub fn open_url_failed(url: &str, error: &str) -> (r: Notice)
    ensures
        r.kind == NoticeKind::Error && !r.autohide,
        r.message@ == "Failed to open "@ + url@ + ": "@ + error@,
{
    proof {
        reveal_strlit("");
    }
    error_notice("Failed to open ", Some(url), "", error)
}

/// Saving `path` (as displayed) failed with `error`.
pub fn save_file_failed(path: &str, error: &str) -> (r: Notice)
    ensures
        r.kind == NoticeKind::Error && !r.autohide,
        r.message@ == "Failed to save "@ + path@ + ": "@ + error@,
{
    proof {
        reveal_strlit("");
    }
    error_notice("Failed to save ", Some(path), "", error)
}

/// The task action `action` failed with `error`.
pub fn todo_task_failed(action: &str, error: &str) -> (r: Notice)
    ensures
        r.kind == NoticeKind::Error && !r.autohide,
        r.message@ == "Failed to "@ + action@ + ": "@ + error@,
{
    proof {
        reveal_strlit("");
    }
    error_notice("Failed to ", Some(action), "", error)
}

/// Opening a link from the graph view failed with `error`.
pub fn graph_link_open_failed(error: &str) -> (r: Notice)
    ensures
        r.kind == NoticeKind::Error && !r.autohide,
        r.message@ == "Failed to open Graph View link"@ + ": "@ + error@,
{
    let r = error_notice("Failed to open Graph View link", None, "", error);
    assert("Failed to open Graph View link"@ + Seq::<char>::empty() =~= "Failed to open Graph View link"@);
    r
}

/// Loading the theme `theme` failed with `error`.
pub fn theme_load_failed(theme: &str, error: &str) -> (r: Notice)
    ensures
        r.kind == NoticeKind::Error && !r.autohide,
        r.message@ == "Failed to load the "@ + theme@ + " theme"@ + ": "@ + error@,
{
    error_notice("Failed to load the ", Some(theme), " theme", error)
}

/// Creating the file `base_name` failed with `error`.
pub fn create_file_failed(base_name: &str, error: &str) -> (r: Notice)
    ensures
        r.kind == NoticeKind::Error && !r.autohide,
        r.message@ == "Failed to create "@ + base_name@ + ": "@ + error@,
{
    proof {
        reveal_strlit("");
    }
    error_notice("Failed to create ", Some(base_name), "", error)
}

/// Loading the bundled font failed with `error`.
pub fn font_load_failed(error: &str) -> (r: Notice)
    ensures
        r.kind == NoticeKind::Error && !r.autohide,
        r.message@ == "Failed to load the bundled Pixeloid font"@ + ": "@ + error@,
{
    let r = error_notice("Failed to load the bundled Pixeloid font", None, "", error);
    assert("Failed to load the bundled Pixeloid font"@ + Seq::<char>::empty()
        =~= "Failed to load the bundled Pixeloid font"@);
    r
}

/// The saved theme `saved` is not available and `fallback` is used; this stays until
/// dismissed.
pub fn theme_fallback(saved: &str, fallback: &str) -> (r: Notice)
    ensures
        r.kind == NoticeKind::Warning && !r.autohide,
        r.message@ == "Saved theme \""@ + saved@ + "\" is not available, using \""@ + fallback@
            + "\""@,
{
    let mut m = string_of("Saved theme \"");
    push_str(&mut m, saved);
    push_str(&mut m, "\" is not available, using \"");
    push_str(&mut m, fallback);
    push_str(&mut m, "\"");
    notice(NoticeKind::Warning, m, false)
}

} // verus!
