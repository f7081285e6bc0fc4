//! What the input device is asked to do, and the actions that each command
//! stands for.

use crate::keys::{key_for, map_key, KeyStroke, BTN_LEFT, KEY_F, KEY_LEFTMETA, KEY_LEFTSHIFT};
use crate::message::{Command, CommandView};
use vstd::prelude::*;

verus! {

/// One call on the input device.
#[derive(Clone, Copy, Debug, PartialEq, Eq, Structural)]
pub enum DeviceAction {
    /// Hold a key or button down.
    Press(u16),
    /// Let a key or button go.
    Release(u16),
    /// Press a key or button and let it go at once.
    Click(u16),
    /// Move the pointer by this much from where it is.
    MoveRelative { dx: i32, dy: i32 },
}

/// The actions that type one key: the key is clicked, and where the stroke
/// asks for shift, shift is pressed before the click and released after it.
pub open spec fn stroke_actions(stroke: KeyStroke) -> Seq<DeviceAction> {
    if stroke.shift {
        seq![
            DeviceAction::Press(KEY_LEFTSHIFT),
            DeviceAction::Click(stroke.code),
            DeviceAction::Release(KEY_LEFTSHIFT),
        ]
    } else {
        seq![DeviceAction::Click(stroke.code)]
    }
}

/// The actions that toggle fullscreen: the meta key is held while `F` is
/// clicked.
pub open spec fn fullscreen_actions() -> Seq<DeviceAction> {
    seq![
        DeviceAction::Press(KEY_LEFTMETA),
        DeviceAction::Click(KEY_F),
        DeviceAction::Release(KEY_LEFTMETA),
    ]
}

/// The key and button actions that a command stands for, in the order in
/// which they are issued. A move has none, nor has an unknown command or a
/// key whose label the key mapper does not hold.
pub open spec fn discrete_actions(command: CommandView) -> Seq<DeviceAction> {
    match command {
        CommandView::Move { .. } => Seq::empty(),
        CommandView::Click => seq![DeviceAction::Click(BTN_LEFT)],
        CommandView::Fullscreen => fullscreen_actions(),
        CommandView::KeyPress { label } => match key_for(label) {
            Some(stroke) => stroke_actions(stroke),
            None => Seq::empty(),
        },
        CommandView::Unknown => Seq::empty(),
    }
}

/// The keys and buttons that are down once `actions` have been carried out,
/// when none was down before.
pub open spec fn held_after(actions: Seq<DeviceAction>) -> Set<u16>
    decreases actions.len(),
{
    if actions.len() == 0 {
        Set::empty()
    } else {
        let before = held_after(actions.drop_last());
        match actions.last() {
            DeviceAction::Press(code) => before.insert(code),
            DeviceAction::Release(code) => before.remove(code),
            _ => before,
        }
    }
}

/// No command leaves a key or button down: whatever is pressed for it is
/// released again before its actions end.
pub proof fn lemma_nothing_left_held(command: CommandView)
    ensures
        held_after(discrete_actions(command)) == Set::<u16>::empty(),
{
    let actions = discrete_actions(command);
    if actions.len() == 3 {
        let two = actions.drop_last();
        let one = two.drop_last();
        assert(held_after(one.drop_last()) == Set::<u16>::empty());
        assert(held_after(one) == Set::<u16>::empty().insert(actions[0]->Press_0));
        assert(held_after(two) == held_after(one));
        assert(held_after(actions) =~= Set::<u16>::empty());
    } else if actions.len() == 1 {
        assert(held_after(actions.drop_last()) == Set::<u16>::empty());
    }
}

/// The actions that type one key.
pub fn key_actions(stroke: KeyStroke) -> (actions: Vec<DeviceAction>)
    ensures
        actions@ == stroke_actions(stroke),
{
    let mut actions: Vec<DeviceAction> = Vec::new();
    if stroke.shift {
        actions.push(DeviceAction::Press(KEY_LEFTSHIFT));
    }
    actions.push(DeviceAction::Click(stroke.code));
    if stroke.shift {
        actions.push(DeviceAction::Release(KEY_LEFTSHIFT));
    }
    assert(actions@ =~= stroke_actions(stroke));
    actions
}

/// The key and button actions that a command stands for.
pub fn command_actions(command: &Command) -> (actions: Vec<DeviceAction>)
    ensures
        actions@ == discrete_actions(command@),
{
    let mut actions: Vec<DeviceAction> = Vec::new();
    match command {
        Command::Move { .. } => {},
        Command::Click => {
            actions.push(DeviceAction::Click(BTN_LEFT));
        },
        Command::Fullscreen => {
            actions.push(DeviceAction::Press(KEY_LEFTMETA));
            actions.push(DeviceAction::Click(KEY_F));
            actions.push(DeviceAction::Release(KEY_LEFTMETA));
        },
        Command::KeyPress { label } => {
            match map_key(label.as_str()) {
                Some(stroke) => {
                    actions = key_actions(stroke);
                },
                None => {},
            }
        },
        Command::Unknown => {},
    }
    assert(actions@ =~= discrete_actions(command@));
    actions
}

} // verus!
