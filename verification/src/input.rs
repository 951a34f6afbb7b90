//! Keys and mouse events.

use vstd::prelude::*;

verus! {

/// The bit of the Control key among the modifiers.
pub const CONTROL: u8 = 2;

/// The bit of the Alt key among the modifiers.
pub const ALT: u8 = 4;

/// The bit of the Super key among the modifiers.
pub const SUPER: u8 = 8;

/// The modifier keys that are held.
#[derive(Debug, Clone, Copy, PartialEq, Eq, Structural)]
pub struct KeyModifiers {
    pub bits: u8,
}

/// Whether all of some modifiers are held.
pub open spec fn holds_all(held: u8, wanted: u8) -> bool {
    held & wanted == wanted
}

/// Whether one of some modifiers is held.
pub open spec fn holds_some(held: u8, wanted: u8) -> bool {
    held & wanted != 0
}

impl KeyModifiers {
    /// Asks `crossterm::event::KeyModifiers::contains`: whether all of the
    /// modifiers with the bits `wanted` are held.
    #[verifier::external_body]
    pub(crate) fn contains(self, wanted: u8) -> (held: bool)
        ensures
            held == holds_all(self.bits, wanted),
    {
        crossterm::event::KeyModifiers::from_bits_retain(self.bits).contains(
            crossterm::event::KeyModifiers::from_bits_retain(wanted),
        )
    }

    /// Asks `crossterm::event::KeyModifiers::intersects`: whether one of the
    /// modifiers with the bits `wanted` is held.
    #[verifier::external_body]
    pub(crate) fn intersects(self, wanted: u8) -> (held: bool)
        ensures
            held == holds_some(self.bits, wanted),
    {
        crossterm::event::KeyModifiers::from_bits_retain(self.bits).intersects(
            crossterm::event::KeyModifiers::from_bits_retain(wanted),
        )
    }
}

/// A key, as far as it is told apart here.
#[derive(Debug, Clone, Copy, PartialEq, Eq, Structural)]
pub enum KeyCode {
    Char(char),
    Enter,
    Esc,
    Backspace,
    Other,
}

/// A key that was pressed.
#[derive(Debug, Clone, Copy, PartialEq, Eq, Structural)]
pub struct KeyEvent {
    pub code: KeyCode,
    pub modifiers: KeyModifiers,
}

#[derive(Debug, Clone, Copy, PartialEq, Eq, Structural)]
pub enum MouseButton {
    Left,
    Right,
    Middle,
}

#[derive(Debug, Clone, Copy, PartialEq, Eq, Structural)]
pub enum MouseEventKind {
    Down(MouseButton),
    Up(MouseButton),
    Drag(MouseButton),
    Moved,
    ScrollDown,
    ScrollUp,
    ScrollLeft,
    ScrollRight,
}

/// What the mouse did, and where.
#[derive(Debug, Clone, Copy, PartialEq, Eq, Structural)]
pub struct MouseEvent {
    pub kind: MouseEventKind,
    pub column: u16,
    pub row: u16,
    pub modifiers: KeyModifiers,
}

/// The event moved to another cell.
pub open spec fn moved_to(event: MouseEvent, row: u16, col: u16) -> MouseEvent {
    MouseEvent { row, column: col, ..event }
}

/// The event moved to another cell.
pub fn mouse_at(event: MouseEvent, row: u16, col: u16) -> (moved: MouseEvent)
    ensures
        moved == moved_to(event, row, col),
{
    MouseEvent { kind: event.kind, column: col, row, modifiers: event.modifiers }
}

/// Control and Q.
pub open spec fn quits(key: KeyEvent) -> bool {
    key.code == KeyCode::Char('q') && holds_all(key.modifiers.bits, CONTROL)
}

/// Whether a key ends the program.
pub fn is_quit(key: KeyEvent) -> (quit: bool)
    ensures
        quit == quits(key),
{
    key.code == KeyCode::Char('q') && key.modifiers.contains(CONTROL)
}

/// Super and C, or Control and C while something is selected.
pub open spec fn copies(key: KeyEvent, has_selection: bool) -> bool {
    key.code == KeyCode::Char('c') && (holds_all(key.modifiers.bits, SUPER) || (has_selection
        && holds_all(key.modifiers.bits, CONTROL)))
}

/// Whether a key copies the selection.
pub fn should_copy_selection(key: KeyEvent, has_selection: bool) -> (copy: bool)
    ensures
        copy == copies(key, has_selection),
{
    key.code == KeyCode::Char('c') && (key.modifiers.contains(SUPER) || (has_selection
        && key.modifiers.contains(CONTROL)))
}

/// Super and V.
pub open spec fn pastes(key: KeyEvent) -> bool {
    key.code == KeyCode::Char('v') && holds_all(key.modifiers.bits, SUPER)
}

/// Whether a key pastes from the clipboard.
pub fn is_system_paste(key: KeyEvent) -> (paste: bool)
    ensures
        paste == pastes(key),
{
    key.code == KeyCode::Char('v') && key.modifiers.contains(SUPER)
}

/// What a key does while a menu is open.
#[derive(Debug, Clone, Copy, PartialEq, Eq, Structural)]
pub enum ContextMenuKeyAction {
    Copy,
    Paste,
    Dismiss,
}

/// What a key does while a menu is open. Copying takes the Super key.
pub open spec fn menu_key(key: KeyEvent, copy_enabled: bool) -> ContextMenuKeyAction {
    if copy_enabled && copies(key, false) {
        ContextMenuKeyAction::Copy
    } else if pastes(key) {
        ContextMenuKeyAction::Paste
    } else {
        ContextMenuKeyAction::Dismiss
    }
}

/// What a key does while a menu is open.
pub fn context_menu_key_action(key: KeyEvent, copy_enabled: bool) -> (action: ContextMenuKeyAction)
    ensures
        action == menu_key(key, copy_enabled),
{
    if copy_enabled && key.code == KeyCode::Char('c') && key.modifiers.contains(SUPER) {
        ContextMenuKeyAction::Copy
    } else if is_system_paste(key) {
        ContextMenuKeyAction::Paste
    } else {
        ContextMenuKeyAction::Dismiss
    }
}

/// A character that is typed rather than a shortcut.
pub open spec fn typed_character(key: KeyEvent) -> Option<char> {
    match key.code {
        KeyCode::Char(character) => if holds_some(key.modifiers.bits, CONTROL | ALT) {
            None
        } else {
            Some(character)
        },
        _ => None,
    }
}

/// A character that is typed rather than a shortcut.
pub fn character_of(key: KeyEvent) -> (character: Option<char>)
    ensures
        character == typed_character(key),
{
    match key.code {
        KeyCode::Char(character) => if key.modifiers.intersects(CONTROL | ALT) {
            None
        } else {
            Some(character)
        },
        _ => None,
    }
}

/// No key means two of quitting, copying and pasting.
pub proof fn law_shortcuts_are_distinct(key: KeyEvent, has_selection: bool)
    ensures
        !(quits(key) && copies(key, has_selection)),
        !(quits(key) && pastes(key)),
        !(copies(key, has_selection) && pastes(key)),
{
}

} // verus!
