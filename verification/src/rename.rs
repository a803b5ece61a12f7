//! What renaming a file or folder from the sidebar does: when it is attempted, what the
//! user is told about it, and how the open tabs, the document waiting to be opened and the
//! sidebar selection follow it.

use vstd::prelude::*;

use crate::messages::{decimal_spec, rename_completed_text, rename_failed, rename_outcome, Notice, NoticeKind};
use crate::paths::{rebase, DocPath};
use crate::tabs::{tabs_renamed, Tabs};
use crate::vault_session::{pending_renamed, VaultSession};
use crate::workspace::opt_path_view;

verus! {

/// Whether a rename of `old` to `new` is attempted: the two paths differ, neither lies in a
/// read-only place (`old_read_only`, `new_read_only`), and the vault's catalog is available.
pub fn rename_allowed(old: &DocPath, new: &DocPath, old_read_only: bool, new_read_only: bool, has_catalog: bool) -> (r: bool)
    ensures
        r == (old@ != new@ && !old_read_only && !new_read_only && has_catalog),
{
    if old.same(new) || old_read_only || new_read_only {
        return false;
    }
    has_catalog
}

/// The notification after a rename was attempted. `outcome` is `None` when the file
/// operation failed, and otherwise how many of the files linking to the renamed one were
/// updated, out of how many.
pub fn rename_notice(outcome: Option<(usize, usize)>) -> (r: Notice)
    ensures
        match outcome {
            None => r.kind == NoticeKind::Error && r.message@ == "Rename failed"@ && !r.autohide,
            Some((updated, total)) => if updated == total {
                r.kind == NoticeKind::Success && r.message@ == rename_completed_text(updated as nat)
            } else {
                r.kind == NoticeKind::Warning && r.message@ == "Rename completed partially, "@
                    + decimal_spec(updated as nat) + "/"@ + decimal_spec(total as nat)
                    + " files updated"@
            },
        },
{
    match outcome {
        None => rename_failed(),
        Some((updated, total)) => rename_outcome(updated, total),
    }
}

/// After a successful rename of `from` to `to`: the open tabs follow it, then the document
/// waiting to be opened, then the sidebar selection.
pub fn follow_rename<H>(
    tabs: &mut Tabs<H>,
    session: &mut VaultSession,
    selection: &mut Option<DocPath>,
    from: &DocPath,
    to: &DocPath,
)
    ensures
        tabs_renamed(old(tabs)@, final(tabs)@, from@, to@),
        final(session)@ == pending_renamed(old(session)@, from@, to@),
        opt_path_view(*final(selection)) == match *old(selection) {
            Some(p) => Some(rebase(p@, from@, to@)),
            None => None,
        },
{
    tabs.rename_path(from, to);
    session.rename_pending_open(from, to);
    let next = match selection {
        Some(p) => Some(p.rebase(from, to)),
        None => None,
    };
    *selection = next;
}

} // verus!
