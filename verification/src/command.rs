use vstd::prelude::*;
use crate::geometry::Size;

verus! {

/// The direction of a cursor movement command.
#[derive(Clone, Copy, Debug, PartialEq, Eq, Structural)]
pub enum MoveDirection {
    Up,
    Down,
    Left,
    Right,
    PageUp,
    PageDown,
    Home,
    End,
    ScrollUp,
    ScrollDown,
}

/// A cursor movement, possibly extending the selection.
#[derive(Clone, Copy, Debug, PartialEq, Eq, Structural)]
pub struct Move {
    pub direction: MoveDirection,
    pub is_selection: bool,
}

/// A text editing command.
#[derive(Clone, Copy, Debug, PartialEq, Eq, Structural)]
pub enum Edit {
    Insert(char),
    InsertNewline,
    Delete,
    DeleteBackward,
}

/// An editor-wide command.
#[derive(Clone, Copy, Debug, PartialEq, Eq, Structural)]
pub enum System {
    Save,
    Resize(Size),
    Quit,
    Dismiss,
    Search,
    Replace,
    ToggleSidebar,
    FocusSidebar,
    FocusDebuggerSidebar,
    FocusView,
    CreateFile,
    CreateFolder,
    ToggleTerminal,
    FocusTerminal,
    StartDebug,
    StopDebug,
    ToggleBreakpoint,
    StepOver,
    StepInto,
    StepOut,
    Continue,
    Pause,
    /// Restarts the program being debugged.
    Restart,
}

/// A command to the editor.
#[derive(Clone, Copy, Debug, PartialEq, Eq, Structural)]
pub enum Command {
    Edit(Edit),
    Move(Move),
    System(System),
}

/// A key, as the terminal reports it.
#[derive(Clone, Copy, Debug, PartialEq, Eq, Structural)]
pub enum KeyCode {
    Backspace,
    Enter,
    Left,
    Right,
    Up,
    Down,
    Home,
    End,
    PageUp,
    PageDown,
    Tab,
    BackTab,
    Delete,
    Insert,
    F(u8),
    Char(char),
    Null,
    Esc,
    /// Any other key.
    Other,
}

/// The modifier-key bit of Shift.
pub const SHIFT: u8 = 1;

/// The modifier-key bit of Control.
pub const CONTROL: u8 = 2;

/// The modifier-key bit of Alt.
pub const ALT: u8 = 4;

/// A key press with the modifier keys held (a bit set of `SHIFT`, `CONTROL`,
/// `ALT` and further modifiers).
#[derive(Clone, Copy, Debug, PartialEq, Eq, Structural)]
pub struct KeyEvent {
    pub code: KeyCode,
    pub modifiers: u8,
}

/// Why a key is not an editor-wide command: the key (carried along) is not
/// bound with the modifiers held, named by those modifiers.
#[derive(Clone, Copy, Debug, PartialEq, Eq, Structural)]
pub enum UnboundKey {
    NoModifier(KeyCode),
    Shift(KeyCode),
    ControlShift(KeyCode),
    ControlAlt(KeyCode),
    Control(KeyCode),
    /// The key and the modifier bits held.
    OtherModifiers(KeyCode, u8),
}

/// The editor-wide command bound to a key, if any: function keys drive the
/// debugger, Escape dismisses, and Control (with Shift or Alt) combinations
/// reach the sidebar, the terminal and the file commands.
pub open spec fn system_binding(code: KeyCode, modifiers: u8) -> Result<System, UnboundKey> {
    if modifiers == 0 {
        match code {
            KeyCode::F(5) => Ok(System::StartDebug),
            KeyCode::F(9) => Ok(System::ToggleBreakpoint),
            KeyCode::F(10) => Ok(System::StepOver),
            KeyCode::F(11) => Ok(System::StepInto),
            KeyCode::F(6) => Ok(System::Pause),
            KeyCode::Esc => Ok(System::Dismiss),
            _ => Err(UnboundKey::NoModifier(code)),
        }
    } else if modifiers == SHIFT {
        match code {
            KeyCode::F(5) => Ok(System::StopDebug),
            KeyCode::F(11) => Ok(System::StepOut),
            KeyCode::F(6) => Ok(System::Restart),
            _ => Err(UnboundKey::Shift(code)),
        }
    } else if modifiers == CONTROL | SHIFT {
        match code {
            KeyCode::Char(c) => if c == 'e' || c == 'E' {
                Ok(System::FocusSidebar)
            } else if c == 'd' || c == 'D' {
                Ok(System::FocusDebuggerSidebar)
            } else if c == 'n' || c == 'N' {
                Ok(System::CreateFolder)
            } else {
                Err(UnboundKey::ControlShift(code))
            },
            _ => Err(UnboundKey::ControlShift(code)),
        }
    } else if modifiers == CONTROL | ALT {
        match code {
            KeyCode::Char(c) => if c == 'e' || c == 'E' {
                Ok(System::FocusSidebar)
            } else if c == 'd' || c == 'D' {
                Ok(System::FocusDebuggerSidebar)
            } else {
                Err(UnboundKey::ControlAlt(code))
            },
            _ => Err(UnboundKey::ControlAlt(code)),
        }
    } else if modifiers == CONTROL {
        match code {
            KeyCode::Char(c) => if c == 'q' {
                Ok(System::Quit)
            } else if c == 's' {
                Ok(System::Save)
            } else if c == 'f' {
                Ok(System::Search)
            } else if c == 'h' {
                Ok(System::Replace)
            } else if c == 'b' {
                Ok(System::ToggleSidebar)
            } else if c == '1' {
                Ok(System::FocusView)
            } else if c == '2' {
                Ok(System::FocusTerminal)
            } else if c == 'n' {
                Ok(System::CreateFile)
            } else if c == 'r' {
                Ok(System::Continue)
            } else if c == '@' {
                Ok(System::ToggleTerminal)
            } else {
                Err(UnboundKey::Control(code))
            },
            KeyCode::Null => Ok(System::ToggleTerminal),
            _ => Err(UnboundKey::Control(code)),
        }
    } else {
        Err(UnboundKey::OtherModifiers(code, modifiers))
    }
}

impl System {
    /// The editor-wide command bound to a key (see `system_binding`).
    pub fn try_from(event: KeyEvent) -> (r: Result<System, UnboundKey>)
        ensures
            r == system_binding(event.code, event.modifiers),
    {
        let code = event.code;
        let modifiers = event.modifiers;
        if modifiers == 0 {
            match code {
                KeyCode::F(5) => Ok(System::StartDebug),
                KeyCode::F(9) => Ok(System::ToggleBreakpoint),
                KeyCode::F(10) => Ok(System::StepOver),
                KeyCode::F(11) => Ok(System::StepInto),
                KeyCode::F(6) => Ok(System::Pause),
                KeyCode::Esc => Ok(System::Dismiss),
                _ => Err(UnboundKey::NoModifier(code)),
            }
        } else if modifiers == SHIFT {
            match code {
                KeyCode::F(5) => Ok(System::StopDebug),
                KeyCode::F(11) => Ok(System::StepOut),
                KeyCode::F(6) => Ok(System::Restart),
                _ => Err(UnboundKey::Shift(code)),
            }
        } else if modifiers == CONTROL | SHIFT {
            match code {
                KeyCode::Char('e') | KeyCode::Char('E') => Ok(System::FocusSidebar),
                KeyCode::Char('d') | KeyCode::Char('D') => Ok(System::FocusDebuggerSidebar),
                KeyCode::Char('n') | KeyCode::Char('N') => Ok(System::CreateFolder),
                _ => Err(UnboundKey::ControlShift(code)),
            }
        } else if modifiers == CONTROL | ALT {
            match code {
                KeyCode::Char('e') | KeyCode::Char('E') => Ok(System::FocusSidebar),
                KeyCode::Char('d') | KeyCode::Char('D') => Ok(System::FocusDebuggerSidebar),
                _ => Err(UnboundKey::ControlAlt(code)),
            }
        } else if modifiers == CONTROL {
            match code {
                KeyCode::Char('q') => Ok(System::Quit),
                KeyCode::Char('s') => Ok(System::Save),
                KeyCode::Char('f') => Ok(System::Search),
                KeyCode::Char('h') => Ok(System::Replace),
                KeyCode::Char('b') => Ok(System::ToggleSidebar),
                KeyCode::Char('1') => Ok(System::FocusView),
                KeyCode::Char('2') => Ok(System::FocusTerminal),
                KeyCode::Char('n') => Ok(System::CreateFile),
                KeyCode::Char('r') => Ok(System::Continue),
                KeyCode::Null | KeyCode::Char('@') => Ok(System::ToggleTerminal),
                _ => Err(UnboundKey::Control(code)),
            }
        } else {
            Err(UnboundKey::OtherModifiers(code, modifiers))
        }
    }
}

} // verus!
