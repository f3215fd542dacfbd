//! The tray menu's items and what choosing each does.
use vstd::prelude::*;

verus! {

broadcast use vstd::string::group_string_axioms;

/// Menu id of "Show Archeio".
pub const ID_SHOW: &'static str = "show";

/// Menu id of "Toggle stream".
pub const ID_TOGGLE: &'static str = "toggle";

/// Menu id of "Quit".
pub const ID_QUIT: &'static str = "quit";

/// What choosing a tray menu item does.
#[derive(Debug, Clone, Copy, PartialEq, Eq)]
pub enum MenuAction {
    ShowWindow,
    ToggleBroadcast,
    Quit,
    Ignore,
}

/// The action of the menu item with id `id`.
pub fn menu_action(id: &str) -> (r: MenuAction)
    ensures
        id@ == "show"@ ==> r == MenuAction::ShowWindow,
        id@ == "toggle"@ ==> r == MenuAction::ToggleBroadcast,
        id@ == "quit"@ ==> r == MenuAction::Quit,
        id@ != "show"@ && id@ != "toggle"@ && id@ != "quit"@ ==> r == MenuAction::Ignore,
{
    proof {
        reveal_strlit("show");
        reveal_strlit("toggle");
        reveal_strlit("quit");
        assert("show"@.len() == 4 && "toggle"@.len() == 6 && "quit"@.len() == 4);
        assert("show"@[0] == 's' && "quit"@[0] == 'q');
    }
    let s = id.to_string();
    if s == "show".to_string() {
        MenuAction::ShowWindow
    } else if s == "toggle".to_string() {
        MenuAction::ToggleBroadcast
    } else if s == "quit".to_string() {
        MenuAction::Quit
    } else {
        MenuAction::Ignore
    }
}

/// A tray icon click shows the main window only for the left button, on release.
pub fn click_shows_window(left_button: bool, released: bool) -> (r: bool)
    ensures
        r == (left_button && released),
{
    left_button && released
}

} // verus!
