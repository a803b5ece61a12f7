//! The application menu's session: which menu of the menu bar is open, moving between
//! menus with the arrow keys, and where focus returns when the session ends.

use vstd::prelude::*;

verus! {

/// The menu session: the index of the open menu, and whether the focus to return to on
/// closing was captured when the session began.
pub struct MenuSession {
    pub open: Option<usize>,
    pub has_return_focus: bool,
}

/// What opening a menu does.
#[derive(Clone, Copy, Debug, PartialEq, Eq, Structural)]
pub enum MenuOpen {
    /// Nothing: the menu is already open with its popup focused, it does not exist, or it
    /// is disabled.
    Unchanged,
    /// The menu's popup is built and focused; `capture_focus` tells whether the focus to
    /// return to is captured first, which happens when no menu was open.
    Open { ix: usize, capture_focus: bool },
}

/// The menu left of `ix` among `n` menus, wrapping from the first to the last.
pub open spec fn menu_left(ix: usize, n: usize) -> usize {
    if ix > 0 {
        (ix - 1) as usize
    } else if n > 0 {
        (n - 1) as usize
    } else {
        0
    }
}

/// The menu right of `ix` among `n` menus, wrapping from the last to the first.
pub open spec fn menu_right(ix: usize, n: usize) -> usize {
    if ix + 1 < n {
        (ix + 1) as usize
    } else {
        0
    }
}

/// The outcome of opening menu `ix`, given the session, whether that menu's popup already
/// holds the focus, and which menus are disabled.
pub open spec fn open_outcome(open: Option<usize>, ix: usize, popup_focused: bool, disabled: Seq<bool>) -> MenuOpen {
    if open == Some(ix) && popup_focused {
        MenuOpen::Unchanged
    } else if ix >= disabled.len() || disabled[ix as int] {
        MenuOpen::Unchanged
    } else {
        MenuOpen::Open { ix, capture_focus: open is None }
    }
}

impl MenuSession {
    /// No menu is open.
    pub fn new() -> (r: MenuSession)
        ensures
            r.open is None,
            !r.has_return_focus,
    {
        MenuSession { open: None, has_return_focus: false }
    }

    /// Opens menu `ix` of the menus whose disabled flags are `disabled`;
    /// `popup_focused` tells whether the open popup holds the focus; `focus_captured`
    /// whether the window had a focused element to return to when none was open.
    pub fn open(&mut self, ix: usize, popup_focused: bool, disabled: &Vec<bool>, focus_captured: bool) -> (r: MenuOpen)
        ensures
            r == open_outcome(old(self).open, ix, popup_focused, disabled@),
            r == MenuOpen::Unchanged ==> final(self).open == old(self).open
                && final(self).has_return_focus == old(self).has_return_focus,
            r != MenuOpen::Unchanged ==> final(self).open == Some(ix) && final(self).has_return_focus
                == (if old(self).open is None {
                focus_captured
            } else {
                old(self).has_return_focus
            }),
    {
        if self.open == Some(ix) && popup_focused {
            return MenuOpen::Unchanged;
        }
        if ix >= disabled.len() || disabled[ix] {
            return MenuOpen::Unchanged;
        }
        let capture = self.open.is_none();
        if capture {
            self.has_return_focus = focus_captured;
        }
        self.open = Some(ix);
        MenuOpen::Open { ix, capture_focus: capture }
    }

    /// Ends the session; the result tells whether the captured focus is to be restored,
    /// which happens when a session was open, a focus was captured and `restore_focus`
    /// asks for it.
    pub fn close(&mut self, restore_focus: bool) -> (r: bool)
        ensures
            final(self).open is None,
            old(self).open is None ==> !r && final(self).has_return_focus == old(
                self,
            ).has_return_focus,
            old(self).open is Some ==> r == (old(self).has_return_focus && restore_focus)
                && !final(self).has_return_focus,
    {
        if self.open.is_none() {
            return false;
        }
        self.open = None;
        let restore = self.has_return_focus && restore_focus;
        self.has_return_focus = false;
        restore
    }

    /// The menu the left arrow opens, if a menu is open.
    pub fn left_target(&self, n: usize) -> (r: Option<usize>)
        ensures
            r == (match self.open {
                Some(ix) => Some(menu_left(ix, n)),
                None => None,
            }),
    {
        match self.open {
            Some(ix) => Some(
                if ix > 0 {
                    ix - 1
                } else {
                    n.saturating_sub(1)
                },
            ),
            None => None,
        }
    }

    /// The menu the right arrow opens, if a menu is open.
    pub fn right_target(&self, n: usize) -> (r: Option<usize>)
        ensures
            r == (match self.open {
                Some(ix) => Some(menu_right(ix, n)),
                None => None,
            }),
    {
        match self.open {
            Some(ix) => Some(
                if ix < usize::MAX && ix + 1 < n {
                    ix + 1
                } else {
                    0
                },
            ),
            None => None,
        }
    }
}

/// Among `n` menus, the left arrow then the right one, or the right then the left, come
/// back to the menu that was open.
pub proof fn law_left_and_right_undo_each_other(ix: usize, n: usize)
    requires
        ix < n,
    ensures
        menu_right(menu_left(ix, n), n) == ix,
        menu_left(menu_right(ix, n), n) == ix,
{
}

} // verus!
