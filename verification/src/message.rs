//! Control messages as they arrive from a client, and the commands they
//! stand for.

use crate::text::same_text;
use vstd::prelude::*;

verus! {

/// One decoded frame. All five fields are present in every message; a frame
/// that lacks one never becomes a `ControlMessage`.
///
/// `movex` and `movey` hold the motion already multiplied by the speed
/// factor and cut to whole device units, in the client's orientation.
#[derive(Clone, Debug, PartialEq, Eq)]
pub struct ControlMessage {
    pub control_type: String,
    pub password: String,
    pub movex: i32,
    pub movey: i32,
    pub key: String,
}

pub struct ControlMessageView {
    pub control_type: Seq<char>,
    pub password: Seq<char>,
    pub movex: i32,
    pub movey: i32,
    pub key: Seq<char>,
}

impl View for ControlMessage {
    type V = ControlMessageView;

    open spec fn view(&self) -> ControlMessageView {
        ControlMessageView {
            control_type: self.control_type@,
            password: self.password@,
            movex: self.movex,
            movey: self.movey,
            key: self.key@,
        }
    }
}

/// What a client asks for.
#[derive(Clone, Debug, PartialEq, Eq)]
pub enum Command {
    /// Set the pointer in motion; `dx` and `dy` are in the client's
    /// orientation.
    Move { dx: i32, dy: i32 },
    /// Click the primary pointer button.
    Click,
    /// Toggle fullscreen.
    Fullscreen,
    /// Press the key with this label.
    KeyPress { label: String },
    /// A control type that is not known. It is carried along and has no
    /// effect on the device.
    Unknown,
}

pub enum CommandView {
    Move { dx: i32, dy: i32 },
    Click,
    Fullscreen,
    KeyPress { label: Seq<char> },
    Unknown,
}

impl View for Command {
    type V = CommandView;

    open spec fn view(&self) -> CommandView {
        match self {
            Command::Move { dx, dy } => CommandView::Move { dx: *dx, dy: *dy },
            Command::Click => CommandView::Click,
            Command::Fullscreen => CommandView::Fullscreen,
            Command::KeyPress { label } => CommandView::KeyPress { label: label@ },
            Command::Unknown => CommandView::Unknown,
        }
    }
}

/// The command that a message stands for, decided by its control type alone.
pub open spec fn command_of(m: ControlMessageView) -> CommandView {
    if m.control_type == "move"@ {
        CommandView::Move { dx: m.movex, dy: m.movey }
    } else if m.control_type == "click"@ {
        CommandView::Click
    } else if m.control_type == "fullscreen"@ {
        CommandView::Fullscreen
    } else if m.control_type == "keyboard"@ {
        CommandView::KeyPress { label: m.key }
    } else {
        CommandView::Unknown
    }
}

impl ControlMessage {
    /// The command that this message stands for.
    pub fn command(&self) -> (command: Command)
        ensures
            command@ == command_of(self@),
    {
        let kind = self.control_type.as_str();
        if same_text(kind, "move") {
            Command::Move { dx: self.movex, dy: self.movey }
        } else if same_text(kind, "click") {
            Command::Click
        } else if same_text(kind, "fullscreen") {
            Command::Fullscreen
        } else if same_text(kind, "keyboard") {
            Command::KeyPress { label: self.key.clone() }
        } else {
            Command::Unknown
        }
    }
}

} // verus!
