//! The tray icon: its commands, its identity, its tooltip and the entries
//! of its menu in the chosen language.
use vstd::prelude::*;

use crate::config::Language;
use crate::i18n::texts_of_language;

verus! {

/// What the tray icon asks of the window.
#[derive(Debug, Clone, Copy, PartialEq, Eq, Structural)]
pub enum TrayCommand {
    ShowWindow,
    Quit,
}

pub const APP_ID: &'static str = "io.github.routelane";
pub const APP_ICON_NAME: &'static str = "network-workgroup-symbolic";
pub const APP_TITLE: &'static str = "RouteLane";

/// An entry of the tray menu.
#[derive(Debug, Clone, Copy)]
pub enum TrayEntry {
    /// A line that cannot be chosen.
    Label { label: &'static str, icon_name: Option<&'static str> },
    Separator,
    /// A line that sends a command to the window.
    Action { label: &'static str, icon_name: &'static str, command: TrayCommand },
}

pub enum EntryView {
    Label { label: Seq<char>, icon_name: Option<Seq<char>> },
    Separator,
    Action { label: Seq<char>, icon_name: Seq<char>, command: TrayCommand },
}

impl View for TrayEntry {
    type V = EntryView;

    open spec fn view(&self) -> EntryView {
        match *self {
            TrayEntry::Label { label, icon_name } => EntryView::Label {
                label: label@,
                icon_name: match icon_name {
                    Some(i) => Some(i@),
                    None => None,
                },
            },
            TrayEntry::Separator => EntryView::Separator,
            TrayEntry::Action { label, icon_name, command } => EntryView::Action {
                label: label@,
                icon_name: icon_name@,
                command,
            },
        }
    }
}

/// The tray menu: the application's name and what it does, then showing
/// the window, then quitting.
pub open spec fn tray_menu_of(l: Language) -> Seq<EntryView> {
    let t = texts_of_language(l);
    seq![
        EntryView::Label { label: "RouteLane"@, icon_name: Some("network-workgroup-symbolic"@) },
        EntryView::Label { label: t.tray_description, icon_name: None },
        EntryView::Separator,
        EntryView::Action {
            label: t.tray_show,
            icon_name: "window-new-symbolic"@,
            command: TrayCommand::ShowWindow,
        },
        EntryView::Separator,
        EntryView::Action {
            label: t.tray_quit,
            icon_name: "application-exit-symbolic"@,
            command: TrayCommand::Quit,
        },
    ]
}

pub open spec fn entries_view(v: Seq<TrayEntry>) -> Seq<EntryView> {
    v.map_values(|e: TrayEntry| e@)
}

/// The entries of the tray menu in a language.
pub fn tray_menu(language: Language) -> (r: Vec<TrayEntry>)
    ensures
        entries_view(r@) == tray_menu_of(language),
{
    let texts = language.texts();
    let mut r: Vec<TrayEntry> = Vec::new();
    r.push(TrayEntry::Label { label: APP_TITLE, icon_name: Some(APP_ICON_NAME) });
    r.push(TrayEntry::Label { label: texts.tray_description, icon_name: None });
    r.push(TrayEntry::Separator);
    r.push(
        TrayEntry::Action {
            label: texts.tray_show,
            icon_name: "window-new-symbolic",
            command: TrayCommand::ShowWindow,
        },
    );
    r.push(TrayEntry::Separator);
    r.push(
        TrayEntry::Action {
            label: texts.tray_quit,
            icon_name: "application-exit-symbolic",
            command: TrayCommand::Quit,
        },
    );
    assert(entries_view(r@) =~= tray_menu_of(language));
    r
}

/// The tray icon's tooltip: its title and its description.
pub fn tray_tool_tip(language: Language) -> (r: (&'static str, &'static str))
    ensures
        r.0@ == "RouteLane"@,
        r.1@ == texts_of_language(language).tray_tooltip,
{
    (APP_TITLE, language.texts().tray_tooltip)
}

} // verus!
