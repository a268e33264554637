//! What the system tray shows of the application, and what can be asked of it there.

use crate::text;
use vstd::prelude::*;

verus! {

/// How many commands can wait for the application.
pub const TRAY_COMMAND_QUEUE_SIZE: usize = 8;

/// What the system tray can ask of the application.
#[derive(Clone, Copy, Debug, PartialEq, Eq, Structural)]
pub enum TrayCommand {
    Show,
    Cancel,
    Quit,
}

/// What the tray knows of the application.
#[derive(Clone, Copy, Debug, PartialEq, Eq, Structural)]
pub struct InterpolateTray {
    pub running: bool,
}

/// An entry of the tray's menu.
pub struct TrayEntry {
    pub label: &'static str,
    pub icon_name: &'static str,
    pub enabled: bool,
    pub command: TrayCommand,
}

/// Whether a menu entry has the given parts.
pub open spec fn is_entry(
    entry: TrayEntry,
    label: Seq<char>,
    icon_name: Seq<char>,
    enabled: bool,
    command: TrayCommand,
) -> bool {
    &&& entry.label@ == label
    &&& entry.icon_name@ == icon_name
    &&& entry.enabled == enabled
    &&& entry.command == command
}

impl InterpolateTray {
    /// The identifier of the tray item.
    pub fn id(&self) -> (id: String)
        ensures
            id@ == "interpolate"@,
    {
        "interpolate".to_owned()
    }

    /// The title of the tray item.
    pub fn title(&self) -> (title: String)
        ensures
            title@ == if self.running {
                "Interpolate · Processing"@
            } else {
                "Interpolate"@
            },
    {
        if self.running {
            "Interpolate · Processing".to_owned()
        } else {
            "Interpolate".to_owned()
        }
    }

    /// The icon of the tray item.
    pub fn icon_name(&self) -> (icon_name: String)
        ensures
            icon_name@ == "video-x-generic"@,
    {
        "video-x-generic".to_owned()
    }

    /// What a click on the tray item asks for.
    pub fn activate(&self) -> (command: TrayCommand)
        ensures
            command == TrayCommand::Show,
    {
        TrayCommand::Show
    }

    /// The menu of the tray item. Only a running job can be cancelled.
    pub fn menu(&self) -> (entries: Vec<TrayEntry>)
        ensures
            entries@.len() == 3,
            is_entry(
                entries@[0],
                "Show Interpolate"@,
                "window-restore"@,
                true,
                TrayCommand::Show,
            ),
            is_entry(
                entries@[1],
                "Cancel job"@,
                "process-stop"@,
                self.running,
                TrayCommand::Cancel,
            ),
            is_entry(entries@[2], "Quit"@, "application-exit"@, true, TrayCommand::Quit),
    {
        let mut entries: Vec<TrayEntry> = Vec::new();
        entries.push(
            TrayEntry {
                label: "Show Interpolate",
                icon_name: "window-restore",
                enabled: true,
                command: TrayCommand::Show,
            },
        );
        entries.push(
            TrayEntry {
                label: "Cancel job",
                icon_name: "process-stop",
                enabled: self.running,
                command: TrayCommand::Cancel,
            },
        );
        entries.push(
            TrayEntry {
                label: "Quit",
                icon_name: "application-exit",
                enabled: true,
                command: TrayCommand::Quit,
            },
        );
        entries
    }
}

/// Whether the tray took in a change: it has to be there before, during and after.
pub fn tray_updated(closed_before: bool, updated: bool, closed_after: bool) -> (result: Result<
    (),
    String,
>)
    ensures
        text::result_text(result) == if closed_before || !updated || closed_after {
            Err("system tray stopped unexpectedly"@)
        } else {
            Ok(())
        },
{
    if closed_before || !updated || closed_after {
        return Err("system tray stopped unexpectedly".to_owned());
    }
    Ok(())
}

/// An entry of the menu is the one with its label, its icon, its command, and whether it
/// can be chosen.
pub proof fn entries_are_what_they_show(entry: TrayEntry, label: Seq<char>, enabled: bool)
    ensures
        is_entry(entry, entry.label@, entry.icon_name@, entry.enabled, entry.command),
        is_entry(entry, label, entry.icon_name@, enabled, entry.command) ==> label == entry.label@
            && enabled == entry.enabled,
{
}

} // verus!
