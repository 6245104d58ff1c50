//! The application and tray menus, and what each menu command does.
use vstd::prelude::*;
use crate::text::same_text;

verus! {

/// What the shell does for a menu command.
#[derive(Clone, Debug)]
pub enum MenuAction {
    /// Show the main window and give it focus.
    ShowMainWindow,
    /// Run this script in the main window.
    RunScript(String),
    /// Open the settings window, or focus it where it is open.
    OpenSettingsWindow,
    /// Clear the browsing data and reload the target URL.
    ClearCacheAndCookies,
    /// Open the developer tools (debug builds only).
    OpenDevtools,
    /// Leave the application.
    Quit,
    /// Nothing.
    Nothing,
}

/// A menu command as a plain value.
pub enum MenuCommand {
    ShowMainWindow,
    RunScript(Seq<char>),
    OpenSettingsWindow,
    ClearCacheAndCookies,
    OpenDevtools,
    Quit,
    Nothing,
}

impl View for MenuAction {
    type V = MenuCommand;

    open spec fn view(&self) -> MenuCommand {
        match self {
            MenuAction::ShowMainWindow => MenuCommand::ShowMainWindow,
            MenuAction::RunScript(s) => MenuCommand::RunScript(s@),
            MenuAction::OpenSettingsWindow => MenuCommand::OpenSettingsWindow,
            MenuAction::ClearCacheAndCookies => MenuCommand::ClearCacheAndCookies,
            MenuAction::OpenDevtools => MenuCommand::OpenDevtools,
            MenuAction::Quit => MenuCommand::Quit,
            MenuAction::Nothing => MenuCommand::Nothing,
        }
    }
}

/// The command that the menu item with this id stands for.
pub open spec fn command_for(id: Seq<char>) -> MenuCommand {
    if id == "app.open"@ {
        MenuCommand::ShowMainWindow
    } else if id == "file.reload"@ {
        MenuCommand::RunScript("window.location.reload();"@)
    } else if id == "file.back"@ {
        MenuCommand::RunScript("window.history.back();"@)
    } else if id == "file.forward"@ {
        MenuCommand::RunScript("window.history.forward();"@)
    } else if id == "file.settings"@ {
        MenuCommand::OpenSettingsWindow
    } else if id == "file.clear-cache-cookies"@ {
        MenuCommand::ClearCacheAndCookies
    } else if id == "file.toggle-devtools"@ {
        MenuCommand::OpenDevtools
    } else if id == "app.quit"@ {
        MenuCommand::Quit
    } else {
        MenuCommand::Nothing
    }
}

/// Decides what to do for the menu item `id`; unknown ids and the tray hint do nothing.
pub fn menu_action(id: &str) -> (r: MenuAction)
    ensures
        r@ == command_for(id@),
{
    if same_text(id, "app.open") {
        MenuAction::ShowMainWindow
    } else if same_text(id, "file.reload") {
        MenuAction::RunScript(String::from_str("window.location.reload();"))
    } else if same_text(id, "file.back") {
        MenuAction::RunScript(String::from_str("window.history.back();"))
    } else if same_text(id, "file.forward") {
        MenuAction::RunScript(String::from_str("window.history.forward();"))
    } else if same_text(id, "file.settings") {
        MenuAction::OpenSettingsWindow
    } else if same_text(id, "file.clear-cache-cookies") {
        MenuAction::ClearCacheAndCookies
    } else if same_text(id, "file.toggle-devtools") {
        MenuAction::OpenDevtools
    } else if same_text(id, "app.quit") {
        MenuAction::Quit
    } else {
        MenuAction::Nothing
    }
}

/// One item of a menu: its id, its label, whether it can be chosen, and its shortcut.
#[derive(Clone, Debug)]
pub struct MenuEntry {
    pub id: String,
    pub label: String,
    pub enabled: bool,
    pub accelerator: Option<String>,
}

impl View for MenuEntry {
    type V = (Seq<char>, Seq<char>, bool, Option<Seq<char>>);

    open spec fn view(&self) -> (Seq<char>, Seq<char>, bool, Option<Seq<char>>) {
        (
            self.id@,
            self.label@,
            self.enabled,
            match self.accelerator {
                Some(a) => Some(a@),
                None => None,
            },
        )
    }
}

/// The menu items of the File menu, in order; the developer-tools item is there
/// only when `with_devtools` holds.
pub open spec fn app_menu_layout(with_devtools: bool) -> Seq<(Seq<char>, Seq<char>, bool, Option<Seq<char>>)> {
    let head = seq![
        ("app.open"@, "Open NET Control Center"@, true, None),
        ("file.reload"@, "Reload"@, true, Some("CmdOrControl+R"@)),
        ("file.back"@, "Back"@, true, Some("Alt+Left"@)),
        ("file.forward"@, "Forward"@, true, Some("Alt+Right"@)),
        ("file.settings"@, "Settings..."@, true, None),
        ("file.clear-cache-cookies"@, "Clear Cache + Cookies"@, true, None),
    ];
    let quit = ("app.quit"@, "Quit"@, true, Some("CmdOrControl+Q"@));
    if with_devtools {
        head.push(
            (
                "file.toggle-devtools"@,
                "Toggle DevTools (Dev Only)"@,
                true,
                Some("CmdOrControl+Shift+I"@),
            ),
        ).push(quit)
    } else {
        head.push(quit)
    }
}

/// The menu items of the tray icon's menu, in order.
pub open spec fn tray_menu_layout() -> Seq<(Seq<char>, Seq<char>, bool, Option<Seq<char>>)> {
    seq![
        ("app.open"@, "Open NET Control Center"@, true, None),
        ("tray.hint"@, "App is running in tray"@, false, None),
        ("file.reload"@, "Reload"@, true, Some("CmdOrControl+R"@)),
        ("file.clear-cache-cookies"@, "Clear Cache + Cookies"@, true, None),
        ("app.quit"@, "Quit"@, true, Some("CmdOrControl+Q"@)),
    ]
}

/// The menu ids are pairwise different texts.
proof fn lemma_menu_ids_known()
    ensures
        "app.open"@.len() == 8,
        "app.quit"@.len() == 8,
        "file.back"@.len() == 9,
        "tray.hint"@.len() == 9,
        "file.reload"@.len() == 11,
        "file.forward"@.len() == 12,
        "file.settings"@.len() == 13,
        "file.toggle-devtools"@.len() == 20,
        "file.clear-cache-cookies"@.len() == 24,
        "app.open"@ != "app.quit"@,
        "file.back"@ != "tray.hint"@,
{
    reveal_strlit("app.open");
    reveal_strlit("app.quit");
    reveal_strlit("file.back");
    reveal_strlit("tray.hint");
    reveal_strlit("file.reload");
    reveal_strlit("file.forward");
    reveal_strlit("file.settings");
    reveal_strlit("file.toggle-devtools");
    reveal_strlit("file.clear-cache-cookies");
    assert("app.open"@[4] != "app.quit"@[4]);
    assert("file.back"@[0] != "tray.hint"@[0]);
}

/// Every item of the File menu can be chosen and leads to a command; Back is on
/// Alt+Left and Forward on Alt+Right.
pub proof fn lemma_app_menu_items(with_devtools: bool)
    ensures
        forall|i: int| 0 <= i < app_menu_layout(with_devtools).len() ==> (#[trigger] app_menu_layout(with_devtools)[i]).2,
        forall|i: int| 0 <= i < app_menu_layout(with_devtools).len() ==> !(command_for((#[trigger] app_menu_layout(with_devtools)[i]).0) is Nothing),
        forall|i: int| 0 <= i < app_menu_layout(with_devtools).len() && (#[trigger] app_menu_layout(with_devtools)[i]).0 == "file.back"@ ==> app_menu_layout(with_devtools)[i].3 == Some("Alt+Left"@),
        forall|i: int| 0 <= i < app_menu_layout(with_devtools).len() && (#[trigger] app_menu_layout(with_devtools)[i]).0 == "file.forward"@ ==> app_menu_layout(with_devtools)[i].3 == Some("Alt+Right"@),
{
    lemma_menu_ids_known();
}

/// Every item of the tray menu but the hint can be chosen and leads to a command;
/// the hint can be neither.
pub proof fn lemma_tray_menu_items()
    ensures
        forall|i: int| 0 <= i < tray_menu_layout().len() ==> (#[trigger] tray_menu_layout()[i]).2 == (tray_menu_layout()[i].0 != "tray.hint"@),
        forall|i: int| 0 <= i < tray_menu_layout().len() ==> (command_for((#[trigger] tray_menu_layout()[i]).0) is Nothing) == (tray_menu_layout()[i].0 == "tray.hint"@),
{
    lemma_menu_ids_known();
}

fn entry(id: &str, label: &str, enabled: bool, accelerator: Option<&str>) -> (r: MenuEntry)
    ensures
        r@ == (id@, label@, enabled, match accelerator {
            Some(a) => Some(a@),
            None => None,
        }),
{
    MenuEntry {
        id: String::from_str(id),
        label: String::from_str(label),
        enabled,
        accelerator: match accelerator {
            Some(a) => Some(String::from_str(a)),
            None => None,
        },
    }
}

/// The entries of the File menu.
pub fn app_menu_entries(with_devtools: bool) -> (r: Vec<MenuEntry>)
    ensures
        r@.map_values(|e: MenuEntry| e@) == app_menu_layout(with_devtools),
        r@.len() == if with_devtools { 8int } else { 7int },
        r@[0]@ == ("app.open"@, "Open NET Control Center"@, true, None::<Seq<char>>),
        r@[1]@ == ("file.reload"@, "Reload"@, true, Some("CmdOrControl+R"@)),
        r@[2]@ == ("file.back"@, "Back"@, true, Some("Alt+Left"@)),
        r@[3]@ == ("file.forward"@, "Forward"@, true, Some("Alt+Right"@)),
        r@[4]@ == ("file.settings"@, "Settings..."@, true, None::<Seq<char>>),
        r@[5]@ == ("file.clear-cache-cookies"@, "Clear Cache + Cookies"@, true, None::<Seq<char>>),
        with_devtools ==> r@[6]@ == ("file.toggle-devtools"@, "Toggle DevTools (Dev Only)"@, true, Some("CmdOrControl+Shift+I"@)),
        r@.last()@ == ("app.quit"@, "Quit"@, true, Some("CmdOrControl+Q"@)),
        forall|i: int| 0 <= i < r@.len() ==> (#[trigger] r@[i]).enabled,
        forall|i: int| 0 <= i < r@.len() ==> !(command_for((#[trigger] r@[i]).id@) is Nothing),
        forall|i: int| 0 <= i < r@.len() && (#[trigger] r@[i]).id@ == "file.back"@ ==> r@[i]@.3 == Some("Alt+Left"@),
        forall|i: int| 0 <= i < r@.len() && (#[trigger] r@[i]).id@ == "file.forward"@ ==> r@[i]@.3 == Some("Alt+Right"@),
{
    let mut v: Vec<MenuEntry> = Vec::new();
    v.push(entry("app.open", "Open NET Control Center", true, None));
    v.push(entry("file.reload", "Reload", true, Some("CmdOrControl+R")));
    v.push(entry("file.back", "Back", true, Some("Alt+Left")));
    v.push(entry("file.forward", "Forward", true, Some("Alt+Right")));
    v.push(entry("file.settings", "Settings...", true, None));
    v.push(entry("file.clear-cache-cookies", "Clear Cache + Cookies", true, None));
    if with_devtools {
        v.push(
            entry(
                "file.toggle-devtools",
                "Toggle DevTools (Dev Only)",
                true,
                Some("CmdOrControl+Shift+I"),
            ),
        );
    }
    v.push(entry("app.quit", "Quit", true, Some("CmdOrControl+Q")));
    assert(v@.map_values(|e: MenuEntry| e@) =~= app_menu_layout(with_devtools));
    proof {
        lemma_app_menu_items(with_devtools);
        assert forall|i: int| 0 <= i < v@.len() implies v@[i]@ == #[trigger] app_menu_layout(with_devtools)[i] by {
            assert(v@.map_values(|e: MenuEntry| e@)[i] == v@[i]@);
        }
        assert forall|i: int| 0 <= i < v@.len() && (#[trigger] v@[i]).id@ == "file.back"@ implies v@[i]@.3 == Some("Alt+Left"@) by {
            assert(v@[i]@ == app_menu_layout(with_devtools)[i]);
        }
        assert forall|i: int| 0 <= i < v@.len() && (#[trigger] v@[i]).id@ == "file.forward"@ implies v@[i]@.3 == Some("Alt+Right"@) by {
            assert(v@[i]@ == app_menu_layout(with_devtools)[i]);
        }
    }
    v
}

/// The entries of the tray menu.
pub fn tray_menu_entries() -> (r: Vec<MenuEntry>)
    ensures
        r@.map_values(|e: MenuEntry| e@) == tray_menu_layout(),
        r@.len() == 5,
        r@[0]@ == ("app.open"@, "Open NET Control Center"@, true, None::<Seq<char>>),
        r@[1]@ == ("tray.hint"@, "App is running in tray"@, false, None::<Seq<char>>),
        r@[2]@ == ("file.reload"@, "Reload"@, true, Some("CmdOrControl+R"@)),
        r@[3]@ == ("file.clear-cache-cookies"@, "Clear Cache + Cookies"@, true, None::<Seq<char>>),
        r@[4]@ == ("app.quit"@, "Quit"@, true, Some("CmdOrControl+Q"@)),
        forall|i: int| 0 <= i < r@.len() ==> (#[trigger] r@[i]).enabled == (r@[i].id@ != "tray.hint"@),
        forall|i: int| 0 <= i < r@.len() ==> (command_for((#[trigger] r@[i]).id@) is Nothing) == (r@[i].id@ == "tray.hint"@),
{
    let mut v: Vec<MenuEntry> = Vec::new();
    v.push(entry("app.open", "Open NET Control Center", true, None));
    v.push(entry("tray.hint", "App is running in tray", false, None));
    v.push(entry("file.reload", "Reload", true, Some("CmdOrControl+R")));
    v.push(entry("file.clear-cache-cookies", "Clear Cache + Cookies", true, None));
    v.push(entry("app.quit", "Quit", true, Some("CmdOrControl+Q")));
    assert(v@.map_values(|e: MenuEntry| e@) =~= tray_menu_layout());
    proof {
        lemma_tray_menu_items();
        assert forall|i: int| 0 <= i < v@.len() implies v@[i]@ == #[trigger] tray_menu_layout()[i] by {
            assert(v@.map_values(|e: MenuEntry| e@)[i] == v@[i]@);
        }
    }
    v
}

} // verus!
