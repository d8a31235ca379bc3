use den::command::{KeyCode, KeyEvent, System, UnboundKey, ALT, CONTROL, SHIFT};

fn key(code: KeyCode, modifiers: u8) -> Result<System, UnboundKey> {
    System::try_from(KeyEvent { code, modifiers })
}

#[test]
fn control_bindings() {
    assert_eq!(key(KeyCode::Char('q'), CONTROL), Ok(System::Quit));
    assert_eq!(key(KeyCode::Char('s'), CONTROL), Ok(System::Save));
    assert_eq!(key(KeyCode::Char('f'), CONTROL), Ok(System::Search));
    assert_eq!(key(KeyCode::Char('h'), CONTROL), Ok(System::Replace));
    assert_eq!(key(KeyCode::Char('b'), CONTROL), Ok(System::ToggleSidebar));
    assert_eq!(key(KeyCode::Char('1'), CONTROL), Ok(System::FocusView));
    assert_eq!(key(KeyCode::Char('2'), CONTROL), Ok(System::FocusTerminal));
    assert_eq!(key(KeyCode::Char('n'), CONTROL), Ok(System::CreateFile));
    assert_eq!(key(KeyCode::Char('r'), CONTROL), Ok(System::Continue));
    assert_eq!(key(KeyCode::Char('@'), CONTROL), Ok(System::ToggleTerminal));
    assert_eq!(key(KeyCode::Null, CONTROL), Ok(System::ToggleTerminal));
    assert_eq!(key(KeyCode::Char('Q'), CONTROL), Err(UnboundKey::Control(KeyCode::Char('Q'))));
    assert_eq!(key(KeyCode::Enter, CONTROL), Err(UnboundKey::Control(KeyCode::Enter)));
}

#[test]
fn control_shift_and_control_alt_bindings() {
    assert_eq!(key(KeyCode::Char('E'), CONTROL | SHIFT), Ok(System::FocusSidebar));
    assert_eq!(key(KeyCode::Char('e'), CONTROL | SHIFT), Ok(System::FocusSidebar));
    assert_eq!(key(KeyCode::Char('D'), CONTROL | SHIFT), Ok(System::FocusDebuggerSidebar));
    assert_eq!(key(KeyCode::Char('N'), CONTROL | SHIFT), Ok(System::CreateFolder));
    assert_eq!(key(KeyCode::Char('x'), CONTROL | SHIFT), Err(UnboundKey::ControlShift(KeyCode::Char('x'))));
    assert_eq!(key(KeyCode::Char('e'), CONTROL | ALT), Ok(System::FocusSidebar));
    assert_eq!(key(KeyCode::Char('d'), CONTROL | ALT), Ok(System::FocusDebuggerSidebar));
    assert_eq!(key(KeyCode::Char('n'), CONTROL | ALT), Err(UnboundKey::ControlAlt(KeyCode::Char('n'))));
}

#[test]
fn function_keys_drive_the_debugger() {
    assert_eq!(key(KeyCode::F(5), 0), Ok(System::StartDebug));
    assert_eq!(key(KeyCode::F(5), SHIFT), Ok(System::StopDebug));
    assert_eq!(key(KeyCode::F(6), 0), Ok(System::Pause));
    assert_eq!(key(KeyCode::F(9), 0), Ok(System::ToggleBreakpoint));
    assert_eq!(key(KeyCode::F(10), 0), Ok(System::StepOver));
    assert_eq!(key(KeyCode::F(11), 0), Ok(System::StepInto));
    assert_eq!(key(KeyCode::F(11), SHIFT), Ok(System::StepOut));
    assert_eq!(key(KeyCode::F(1), 0), Err(UnboundKey::NoModifier(KeyCode::F(1))));
    assert_eq!(key(KeyCode::F(6), SHIFT), Ok(System::Restart));
    assert_eq!(key(KeyCode::F(9), SHIFT), Err(UnboundKey::Shift(KeyCode::F(9))));
}

#[test]
fn escape_dismisses_and_other_keys_are_unbound() {
    assert_eq!(key(KeyCode::Esc, 0), Ok(System::Dismiss));
    assert_eq!(key(KeyCode::Char('q'), 0), Err(UnboundKey::NoModifier(KeyCode::Char('q'))));
    assert_eq!(key(KeyCode::Char('q'), ALT), Err(UnboundKey::OtherModifiers(KeyCode::Char('q'), ALT)));
    assert_eq!(key(KeyCode::Char('q'), CONTROL | SHIFT | ALT), Err(UnboundKey::OtherModifiers(KeyCode::Char('q'), CONTROL | SHIFT | ALT)));
}
