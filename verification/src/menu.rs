//! The tray menu's contents and what each choice does, apart from showing
//! the menu: the items in order with their check marks, the update offer
//! when there is one, and the action behind each returned command id.

use vstd::prelude::*;

verus! {

pub const CMD_SETTINGS: u32 = 1;
pub const CMD_VIEW_LOGS: u32 = 2;
pub const CMD_AUTOSTART: u32 = 3;
pub const CMD_ABOUT: u32 = 4;
pub const CMD_EXIT: u32 = 5;
pub const CMD_UPDATE: u32 = 6;

/// Menu item flags, as the system menu API reads them.
pub const MF_STRING: u32 = 0x0000;
pub const MF_UNCHECKED: u32 = 0x0000;
pub const MF_CHECKED: u32 = 0x0008;
pub const MF_SEPARATOR: u32 = 0x0800;

/// One menu entry: its flags, its command id (0 for a separator), and its
/// label (empty for a separator).
#[derive(Debug, Clone, PartialEq, Eq)]
pub struct MenuEntry {
    pub flags: u32,
    pub id: u32,
    pub label: String,
}

pub open spec fn entry_view(e: MenuEntry) -> (u32, u32, Seq<char>) {
    (e.flags, e.id, e.label@)
}

pub open spec fn separator() -> (u32, u32, Seq<char>) {
    (MF_SEPARATOR, 0, Seq::empty())
}

/// The menu, top to bottom: the update offer and a separator when a newer
/// version is available; then Settings, View Logs, Auto-Start (checked when
/// the logon task is registered), a separator, About, a separator, Exit.
pub open spec fn menu_spec(registered: bool, update: Option<Seq<char>>) -> Seq<(u32, u32, Seq<char>)> {
    let head = match update {
        Some(v) => seq![(MF_STRING, CMD_UPDATE, "&Update to "@ + v + "..."@), separator()],
        None => Seq::empty(),
    };
    head + seq![
        (MF_STRING, CMD_SETTINGS, "&Settings..."@),
        (MF_STRING, CMD_VIEW_LOGS, "&View Logs"@),
        (if registered { MF_CHECKED } else { MF_UNCHECKED }, CMD_AUTOSTART, "&Auto-Start"@),
        separator(),
        (MF_STRING, CMD_ABOUT, "A&bout"@),
        separator(),
        (MF_STRING, CMD_EXIT, "E&xit"@),
    ]
}

fn item(flags: u32, id: u32, label: &str) -> (e: MenuEntry)
    ensures
        entry_view(e) == (flags, id, label@),
{
    MenuEntry { flags, id, label: String::from_str(label) }
}

fn separator_entry() -> (e: MenuEntry)
    ensures
        entry_view(e) == separator(),
{
    MenuEntry { flags: MF_SEPARATOR, id: 0, label: String::new() }
}

/// Build the tray menu for the current auto-start registration and update
/// offer. The check mark follows the registration, never the configuration.
pub fn menu_entries(auto_start_registered: bool, available_update: Option<&str>) -> (m: Vec<MenuEntry>)
    ensures
        m@.map_values(|e: MenuEntry| entry_view(e)) == menu_spec(
            auto_start_registered,
            match available_update {
                Some(v) => Some(v@),
                None => None,
            },
        ),
{
    let mut m: Vec<MenuEntry> = Vec::new();
    if let Some(version) = available_update {
        let mut label = String::from_str("&Update to ");
        label.append(version);
        label.append("...");
        m.push(MenuEntry { flags: MF_STRING, id: CMD_UPDATE, label });
        m.push(separator_entry());
    }
    m.push(item(MF_STRING, CMD_SETTINGS, "&Settings..."));
    m.push(item(MF_STRING, CMD_VIEW_LOGS, "&View Logs"));
    let check = if auto_start_registered {
        MF_CHECKED
    } else {
        MF_UNCHECKED
    };
    m.push(item(check, CMD_AUTOSTART, "&Auto-Start"));
    m.push(separator_entry());
    m.push(item(MF_STRING, CMD_ABOUT, "A&bout"));
    m.push(separator_entry());
    m.push(item(MF_STRING, CMD_EXIT, "E&xit"));
    assert(m@.map_values(|e: MenuEntry| entry_view(e)) =~= menu_spec(
        auto_start_registered,
        match available_update {
            Some(v) => Some(v@),
            None => None,
        },
    ));
    m
}

/// What a menu choice does.
#[derive(Debug, Clone, Copy, PartialEq, Eq, Structural)]
pub enum MenuAction {
    /// Open the settings helper; the update offer leads there too, to the
    /// pane that shows what changed.
    OpenSettings,
    ViewLogs,
    ToggleAutoStart,
    ShowAbout,
    Exit,
}

/// The action for the command id the menu returned; `None` when it was
/// dismissed without a choice.
pub fn menu_action(cmd: u32) -> (a: Option<MenuAction>)
    ensures
        a == if cmd == CMD_SETTINGS || cmd == CMD_UPDATE {
            Some(MenuAction::OpenSettings)
        } else if cmd == CMD_VIEW_LOGS {
            Some(MenuAction::ViewLogs)
        } else if cmd == CMD_AUTOSTART {
            Some(MenuAction::ToggleAutoStart)
        } else if cmd == CMD_ABOUT {
            Some(MenuAction::ShowAbout)
        } else if cmd == CMD_EXIT {
            Some(MenuAction::Exit)
        } else {
            None
        },
{
    if cmd == CMD_SETTINGS || cmd == CMD_UPDATE {
        Some(MenuAction::OpenSettings)
    } else if cmd == CMD_VIEW_LOGS {
        Some(MenuAction::ViewLogs)
    } else if cmd == CMD_AUTOSTART {
        Some(MenuAction::ToggleAutoStart)
    } else if cmd == CMD_ABOUT {
        Some(MenuAction::ShowAbout)
    } else if cmd == CMD_EXIT {
        Some(MenuAction::Exit)
    } else {
        None
    }
}

/// The About text for `version`.
pub fn about_text(version: &str) -> (t: String)
    ensures
        t@ == "Wira Desk v"@ + version@
            + "\n\nSame-application window switcher and window arrangement for Windows 10/11.\n\nRuns quietly in the background as an elevated system tray service."@,
{
    let mut t = String::from_str("Wira Desk v");
    t.append(version);
    t.append(
        "\n\nSame-application window switcher and window arrangement for Windows 10/11.\n\nRuns quietly in the background as an elevated system tray service.",
    );
    t
}

} // verus!
