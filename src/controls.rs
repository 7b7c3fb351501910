//! What a key press does: the viewer's commands, and the state that the
//! commands act on besides the visible rectangle.

use vstd::prelude::*;
use crate::depth::{decreased, increased, Depth};

verus! {

/// A key as the viewer tells keys apart.
#[derive(Clone, Copy, Debug, PartialEq, Eq, Structural)]
pub enum Key {
    Char(char),
    Esc,
    Up,
    Down,
    Left,
    Right,
    PageUp,
    PageDown,
    Other,
}

/// A move of the visible rectangle.
#[derive(Clone, Copy, Debug, PartialEq, Eq, Structural)]
pub enum Motion {
    PanUp,
    PanDown,
    PanLeft,
    PanRight,
    ZoomIn,
    ZoomOut,
}

/// One logical command; each key event carries at most one.
#[derive(Clone, Copy, Debug, PartialEq, Eq, Structural)]
pub enum Command {
    Quit,
    IncreaseDepth,
    DecreaseDepth,
    Move(Motion),
    Nothing,
}

/// The command bound to `key`. Only a press counts: a release or a repeat is
/// no command.
pub open spec fn command_of(key: Key, pressed: bool) -> Command {
    if !pressed {
        Command::Nothing
    } else {
        match key {
            Key::Char('q') | Key::Esc => Command::Quit,
            Key::Char('+') => Command::IncreaseDepth,
            Key::Char('-') => Command::DecreaseDepth,
            Key::Char('k') | Key::Up => Command::Move(Motion::PanUp),
            Key::Char('j') | Key::Down => Command::Move(Motion::PanDown),
            Key::Char('h') | Key::Left => Command::Move(Motion::PanLeft),
            Key::Char('l') | Key::Right => Command::Move(Motion::PanRight),
            Key::Char('z') | Key::PageUp => Command::Move(Motion::ZoomIn),
            Key::Char('x') | Key::PageDown => Command::Move(Motion::ZoomOut),
            _ => Command::Nothing,
        }
    }
}

pub fn command_for_key(key: Key, pressed: bool) -> (r: Command)
    ensures
        r == command_of(key, pressed),
{
    if !pressed {
        return Command::Nothing;
    }
    match key {
        Key::Char('q') | Key::Esc => Command::Quit,
        Key::Char('+') => Command::IncreaseDepth,
        Key::Char('-') => Command::DecreaseDepth,
        Key::Char('k') | Key::Up => Command::Move(Motion::PanUp),
        Key::Char('j') | Key::Down => Command::Move(Motion::PanDown),
        Key::Char('h') | Key::Left => Command::Move(Motion::PanLeft),
        Key::Char('l') | Key::Right => Command::Move(Motion::PanRight),
        Key::Char('z') | Key::PageUp => Command::Move(Motion::ZoomIn),
        Key::Char('x') | Key::PageDown => Command::Move(Motion::ZoomOut),
        _ => Command::Nothing,
    }
}

/// The budget after `command`.
pub open spec fn depth_after(d: nat, command: Command) -> nat {
    match command {
        Command::IncreaseDepth => increased(d),
        Command::DecreaseDepth => decreased(d),
        _ => d,
    }
}

/// Whether the viewer is to stop after `command`.
pub open spec fn exit_after(exit: bool, command: Command) -> bool {
    exit || command == Command::Quit
}

/// The move of the visible rectangle that `command` asks for, if any.
pub open spec fn motion_of(command: Command) -> Option<Motion> {
    match command {
        Command::Move(m) => Some(m),
        _ => None,
    }
}

/// The viewer's state apart from the visible rectangle: the escape-time
/// budget and whether the user asked to quit.
pub struct Session {
    pub depth: Depth,
    pub exit: bool,
}

impl Session {
    pub open spec fn wf(&self) -> bool {
        self.depth.wf()
    }

    /// A running session with the given budget.
    pub fn new(depth: Depth) -> (r: Session)
        requires
            depth.wf(),
        ensures
            r.wf(),
            r.depth@ == depth@,
            !r.exit,
    {
        Session { depth, exit: false }
    }

    /// Whether `command` can be applied: an increase must leave the budget
    /// within a `u32`.
    pub fn accepts(&self, command: Command) -> (r: bool)
        ensures
            r == (command == Command::IncreaseDepth ==> increased(self.depth@) <= u32::MAX),
    {
        match command {
            Command::IncreaseDepth => self.depth.can_increase(),
            _ => true,
        }
    }

    /// Applies `command` to the budget and the exit flag, and hands back the
    /// move of the visible rectangle that it asks for.
    pub fn apply(&mut self, command: Command) -> (r: Option<Motion>)
        requires
            old(self).wf(),
            command == Command::IncreaseDepth ==> increased(old(self).depth@) <= u32::MAX,
        ensures
            final(self).wf(),
            final(self).depth@ == depth_after(old(self).depth@, command),
            final(self).exit == exit_after(old(self).exit, command),
            r == motion_of(command),
    {
        match command {
            Command::Quit => {
                self.exit = true;
                None
            },
            Command::IncreaseDepth => {
                self.depth.increase_depth();
                None
            },
            Command::DecreaseDepth => {
                self.depth.decrease_depth();
                None
            },
            Command::Move(m) => Some(m),
            Command::Nothing => None,
        }
    }
}

} // verus!
