//! The small decisions of the desktop shell: what a menu entry stands for,
//! what a click on the tray does to the main window, and what a generated
//! file is called. The shell itself, which shows and hides windows and writes
//! files, acts on what these functions return.

use vstd::prelude::*;
use vstd::string::{StringExecFns, StringSliceAdditionalSpecFns};
use vstd::utf8::encode_utf8;

verus! {

/// What an entry of the tray menu asks for.
#[derive(Clone, Copy, Debug, PartialEq, Eq, Structural)]
pub enum TrayMenuAction {
    /// Leave the application.
    Quit,
    /// Show what the application is.
    About,
    /// The entry is none of the tray's own.
    Unhandled,
}

/// The action that the tray menu entry `id` stands for.
pub open spec fn tray_menu_action_of(id: Seq<char>) -> TrayMenuAction {
    if id == "quit"@ {
        TrayMenuAction::Quit
    } else if id == "about"@ {
        TrayMenuAction::About
    } else {
        TrayMenuAction::Unhandled
    }
}

/// Decides what the tray menu entry `id` asks for.
pub fn tray_menu_action(id: &str) -> (action: TrayMenuAction)
    ensures
        action == tray_menu_action_of(id@),
{
    let given = id.to_owned();
    if given == "quit".to_owned() {
        TrayMenuAction::Quit
    } else if given == "about".to_owned() {
        TrayMenuAction::About
    } else {
        TrayMenuAction::Unhandled
    }
}

/// What a left click on the tray icon does to the main window.
#[derive(Clone, Copy, Debug, PartialEq, Eq, Structural)]
pub enum WindowAction {
    /// Hide the window.
    Hide,
    /// Show the window and give it the focus.
    ShowAndFocus,
    /// There is no main window: say so.
    ReportMissing,
}

/// Decides what a left click on the tray icon does. `visible` is `None` where
/// there is no main window, and holds what the window said of its visibility
/// otherwise, `None` again where it could not say. A window that shows is
/// hidden; one that is hidden, or cannot say, is shown.
pub fn toggle_action(visible: Option<Option<bool>>) -> (action: WindowAction)
    ensures
        action == match visible {
            None => WindowAction::ReportMissing,
            Some(Some(true)) => WindowAction::Hide,
            Some(_) => WindowAction::ShowAndFocus,
        },
{
    match visible {
        None => WindowAction::ReportMissing,
        Some(Some(true)) => WindowAction::Hide,
        Some(_) => WindowAction::ShowAndFocus,
    }
}

/// What an entry of the menu bar asks for.
#[derive(Clone, Copy, Debug, PartialEq, Eq, Structural)]
pub enum MenuBarAction {
    /// The entry needs nothing done.
    Nothing,
    /// A language was picked: which of the two language entries is checked.
    Language { english: bool, chinese: bool },
    /// The entry is none of the menu bar's own.
    Unexpected,
}

/// The action that the menu bar entry `id` stands for.
pub open spec fn menu_bar_action_of(id: Seq<char>) -> MenuBarAction {
    if id == "menu1_about"@ {
        MenuBarAction::Nothing
    } else if id == "en"@ {
        MenuBarAction::Language { english: true, chinese: false }
    } else if id == "zh"@ {
        MenuBarAction::Language { english: false, chinese: true }
    } else {
        MenuBarAction::Unexpected
    }
}

/// Decides what the menu bar entry `id` asks for. Of the two language entries
/// exactly the one that was picked is checked afterwards.
pub fn menu_bar_action(id: &str) -> (action: MenuBarAction)
    ensures
        action == menu_bar_action_of(id@),
{
    let given = id.to_owned();
    if given == "menu1_about".to_owned() {
        MenuBarAction::Nothing
    } else if given == "en".to_owned() {
        MenuBarAction::Language { english: true, chinese: false }
    } else if given == "zh".to_owned() {
        MenuBarAction::Language { english: false, chinese: true }
    } else {
        MenuBarAction::Unexpected
    }
}

/// Whether `text` ends in `suffix`.
pub open spec fn ends_with(text: Seq<u8>, suffix: Seq<u8>) -> bool {
    text.len() >= suffix.len() && text.subrange(text.len() - suffix.len(), text.len() as int)
        == suffix
}

/// Whether the bytes of `title` end in the bytes of `.txt`.
pub open spec fn has_txt_extension(title: Seq<char>) -> bool {
    ends_with(encode_utf8(title), encode_utf8(".txt"@))
}

/// The name of the text file for `title`: the title itself where it ends in
/// `.txt`, and the title with `.txt` behind it otherwise.
pub open spec fn txt_file_name_of(title: Seq<char>) -> Seq<char> {
    if has_txt_extension(title) {
        title
    } else {
        title + ".txt"@
    }
}

/// Decides whether `text` ends in `suffix`.
pub fn bytes_end_with(text: &[u8], suffix: &[u8]) -> (ends: bool)
    ensures
        ends == ends_with(text@, suffix@),
{
    if text.len() < suffix.len() {
        return false;
    }
    let start: usize = text.len() - suffix.len();
    let ghost tail = text@.subrange(start as int, text@.len() as int);
    let mut i: usize = 0;
    while i < suffix.len()
        invariant
            start + suffix.len() == text.len(),
            tail == text@.subrange(start as int, text@.len() as int),
            i <= suffix.len(),
            forall|j: int| 0 <= j < i ==> tail[j] == suffix@[j],
        decreases suffix.len() - i,
    {
        if text[start + i] != suffix[i] {
            assert(tail[i as int] != suffix@[i as int]);
            return false;
        }
        i += 1;
    }
    assert(tail =~= suffix@);
    true
}

/// Names the text file for `title`.
pub fn txt_file_name(title: &str) -> (name: String)
    ensures
        name@ == txt_file_name_of(title@),
{
    if bytes_end_with(title.as_bytes(), ".txt".as_bytes()) {
        title.to_owned()
    } else {
        String::from_str(title).concat(".txt")
    }
}

/// Names the PDF file for `name`: the name with `.pdf` behind it.
pub fn pdf_file_name(name: &str) -> (file: String)
    ensures
        file@ == name@ + ".pdf"@,
{
    String::from_str(name).concat(".pdf")
}

} // verus!
