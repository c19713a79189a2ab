//! The tray's menu.
use crate::text::same_text;
use vstd::prelude::*;

verus! {

/// What an entry of the menu does. The shell and dsh are updated apart: an old dsh under
/// a current shell is the common lot.
#[derive(Clone, Copy, PartialEq, Eq, Debug, Structural)]
pub enum TrayAction {
    /// Show the window.
    Show,
    /// Check for an update of the shell.
    UpdateShell,
    /// Check for an update of dsh.
    UpdateDsh,
    /// Quit.
    Quit,
}

/// The name that an entry is known by.
pub open spec fn tray_id(action: TrayAction) -> Seq<char> {
    match action {
        TrayAction::Show => "show"@,
        TrayAction::UpdateShell => "update"@,
        TrayAction::UpdateDsh => "update-dsh"@,
        TrayAction::Quit => "quit"@,
    }
}

/// What an entry says.
pub open spec fn tray_label(action: TrayAction) -> Seq<char> {
    match action {
        TrayAction::Show => "显示 DSH"@,
        TrayAction::UpdateShell => "检查桌面端更新"@,
        TrayAction::UpdateDsh => "检查 dsh 更新"@,
        TrayAction::Quit => "退出"@,
    }
}

/// The entries of the menu, from top to bottom.
pub fn setup_tray() -> (menu: [TrayAction; 4])
    ensures
        menu@ == seq![
            TrayAction::Show,
            TrayAction::UpdateShell,
            TrayAction::UpdateDsh,
            TrayAction::Quit,
        ],
{
    [TrayAction::Show, TrayAction::UpdateShell, TrayAction::UpdateDsh, TrayAction::Quit]
}

impl TrayAction {
    pub fn id(self) -> (id: &'static str)
        ensures
            id@ == tray_id(self),
    {
        match self {
            TrayAction::Show => "show",
            TrayAction::UpdateShell => "update",
            TrayAction::UpdateDsh => "update-dsh",
            TrayAction::Quit => "quit",
        }
    }

    pub fn label(self) -> (label: &'static str)
        ensures
            label@ == tray_label(self),
    {
        match self {
            TrayAction::Show => "显示 DSH",
            TrayAction::UpdateShell => "检查桌面端更新",
            TrayAction::UpdateDsh => "检查 dsh 更新",
            TrayAction::Quit => "退出",
        }
    }

    /// The entry that is known by a name, if there is one.
    pub fn named(id: &str) -> (action: Option<TrayAction>)
        ensures
            action matches Some(a) ==> tray_id(a) == id@,
            action is None ==> forall|a: TrayAction| #[trigger] tray_id(a) != id@,
    {
        if same_text(id, "show") {
            Some(TrayAction::Show)
        } else if same_text(id, "update") {
            Some(TrayAction::UpdateShell)
        } else if same_text(id, "update-dsh") {
            Some(TrayAction::UpdateDsh)
        } else if same_text(id, "quit") {
            Some(TrayAction::Quit)
        } else {
            None
        }
    }
}

/// No two entries go by one name.
pub proof fn law_entries_are_told_apart(a: TrayAction, b: TrayAction)
    ensures
        tray_id(a) == tray_id(b) ==> a == b,
{
    reveal_strlit("show");
    reveal_strlit("update");
    reveal_strlit("update-dsh");
    reveal_strlit("quit");
    if tray_id(a) == tray_id(b) {
        assert("show"@[0] != "quit"@[0]);
        assert(tray_id(a)[0] == tray_id(b)[0]);
        assert(tray_id(a).len() == tray_id(b).len());
    }
}

} // verus!
