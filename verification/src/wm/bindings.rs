//! Key and mouse input: key codes, modifiers, mouse states and events.
use vstd::prelude::*;
use vstd::std_specs::convert::{FromSpecImpl, TryFromSpecImpl};

use crate::pure::geometry::Point;
use crate::Error;
use crate::Xid;

verus! {

/// Abstraction layer for working with key presses
#[derive(Debug, Clone, PartialEq, Eq)]
pub enum KeyPress {
    /// A raw character key
    Utf8(String),
    /// Return / enter key
    Return,
    /// Escape
    Escape,
    /// Tab
    Tab,
    /// Backspace
    Backspace,
    /// Delete
    Delete,
    /// PageUp
    PageUp,
    /// PageDown
    PageDown,
    /// Up
    Up,
    /// Down
    Down,
    /// Left
    Left,
    /// Right
    Right,
}

/// A u16 X key-code bitmask
pub type KeyCodeMask = u16;

/// A u8 X key-code enum value
pub type KeyCodeValue = u8;

/// A key press and held modifiers
#[derive(Debug, PartialEq, Eq, Hash, Clone, Copy, Structural)]
pub struct KeyCode {
    /// The held modifier mask
    pub mask: KeyCodeMask,
    /// The key code that was held
    pub code: KeyCodeValue,
}

impl KeyCode {
    /// Create a new [KeyCode] from this one that removes the given mask
    pub fn ignoring_modifier(&self, mask: KeyCodeMask) -> (r: KeyCode)
        ensures
            r.mask == self.mask & !mask,
            r.code == self.code,
    {
        KeyCode { mask: self.mask & !mask, code: self.code }
    }
}

/// Known mouse buttons for binding actions
#[derive(Debug, PartialEq, Eq, Hash, Clone, Copy, Structural)]
pub enum MouseButton {
    /// 1
    Left,
    /// 2
    Middle,
    /// 3
    Right,
    /// 4
    ScrollUp,
    /// 5
    ScrollDown,
}

impl Default for MouseButton {
    fn default() -> (r: Self)
        ensures
            r == MouseButton::Left,
    {
        MouseButton::Left
    }
}

/// The X button number of a mouse button.
pub open spec fn button_number(b: MouseButton) -> u8 {
    match b {
        MouseButton::Left => 1,
        MouseButton::Middle => 2,
        MouseButton::Right => 3,
        MouseButton::ScrollUp => 4,
        MouseButton::ScrollDown => 5,
    }
}

impl From<MouseButton> for u8 {
    fn from(b: MouseButton) -> (r: u8) {
        match b {
            MouseButton::Left => 1,
            MouseButton::Middle => 2,
            MouseButton::Right => 3,
            MouseButton::ScrollUp => 4,
            MouseButton::ScrollDown => 5,
        }
    }
}

impl FromSpecImpl<MouseButton> for u8 {
    open spec fn obeys_from_spec() -> bool {
        true
    }

    open spec fn from_spec(b: MouseButton) -> u8 {
        button_number(b)
    }
}

/// The mouse button with X button number `n`, if there is one.
pub open spec fn button_from_number(n: u8) -> Option<MouseButton> {
    match n {
        1 => Some(MouseButton::Left),
        2 => Some(MouseButton::Middle),
        3 => Some(MouseButton::Right),
        4 => Some(MouseButton::ScrollUp),
        5 => Some(MouseButton::ScrollDown),
        _ => None,
    }
}

/// The mouse button with a given X button number.
pub open spec fn mouse_button_result(n: u8) -> Result<MouseButton, Error> {
    match button_from_number(n) {
        Some(b) => Ok(b),
        None => Err(Error::UnknownMouseButton { button: n }),
    }
}

impl TryFrom<u8> for MouseButton {
    type Error = Error;

    fn try_from(n: u8) -> (r: Result<Self, Error>) {
        match n {
            1 => Ok(Self::Left),
            2 => Ok(Self::Middle),
            3 => Ok(Self::Right),
            4 => Ok(Self::ScrollUp),
            5 => Ok(Self::ScrollDown),
            _ => Err(Error::UnknownMouseButton { button: n }),
        }
    }
}

impl TryFromSpecImpl<u8> for MouseButton {
    open spec fn obeys_try_from_spec() -> bool {
        true
    }

    open spec fn try_from_spec(n: u8) -> Result<Self, Error> {
        mouse_button_result(n)
    }
}

/// Known modifier keys for bindings
#[derive(Debug, PartialEq, Eq, Hash, Clone, Copy, PartialOrd, Ord, Structural)]
pub enum ModifierKey {
    /// Control
    Ctrl,
    /// Alt
    Alt,
    /// Shift
    Shift,
    /// Meta / super / windows
    Meta,
}

/// The X modifier mask bit of a modifier key.
pub open spec fn modifier_mask(m: ModifierKey) -> u16 {
    match m {
        ModifierKey::Shift => 1,
        ModifierKey::Ctrl => 4,
        ModifierKey::Alt => 8,
        ModifierKey::Meta => 64,
    }
}

/// The position of a modifier key in the order the keys are declared in.
pub open spec fn modifier_rank(m: ModifierKey) -> int {
    match m {
        ModifierKey::Ctrl => 0,
        ModifierKey::Alt => 1,
        ModifierKey::Shift => 2,
        ModifierKey::Meta => 3,
    }
}

/// Every modifier key, in the order the keys are declared in.
pub open spec fn all_modifiers() -> Seq<ModifierKey> {
    seq![ModifierKey::Ctrl, ModifierKey::Alt, ModifierKey::Shift, ModifierKey::Meta]
}

impl ModifierKey {
    fn was_held(&self, mask: u16) -> (r: bool)
        ensures
            r == (mask & modifier_mask(*self) > 0),
    {
        mask & u16::from(*self) > 0
    }
}

impl From<ModifierKey> for u16 {
    fn from(m: ModifierKey) -> (r: u16) {
        match m {
            ModifierKey::Shift => 1,
            ModifierKey::Ctrl => 4,
            ModifierKey::Alt => 8,
            ModifierKey::Meta => 64,
        }
    }
}

impl FromSpecImpl<ModifierKey> for u16 {
    open spec fn obeys_from_spec() -> bool {
        true
    }

    open spec fn from_spec(m: ModifierKey) -> u16 {
        modifier_mask(m)
    }
}

/// The modifier key that a one letter name stands for: "C", "A", "S" or "M".
pub open spec fn modifier_named(name: Seq<char>) -> Option<ModifierKey> {
    if name == seq!['C'] {
        Some(ModifierKey::Ctrl)
    } else if name == seq!['A'] {
        Some(ModifierKey::Alt)
    } else if name == seq!['S'] {
        Some(ModifierKey::Shift)
    } else if name == seq!['M'] {
        Some(ModifierKey::Meta)
    } else {
        None
    }
}

/// `s` holds each element of `m` in the order given by `modifier_rank`.
pub open spec fn sorted_modifiers(s: Seq<ModifierKey>) -> bool {
    forall|i: int, j: int| 0 <= i < j < s.len() ==> modifier_rank(s[i]) <= modifier_rank(s[j])
}

/// The modifiers of `all_modifiers()` whose mask bit is set in `state`.
pub open spec fn held_modifiers(state: u16) -> Seq<ModifierKey> {
    all_modifiers().filter(|m: ModifierKey| state & modifier_mask(m) > 0)
}

/// The combined mask of a sequence of modifier keys.
pub open spec fn combined_mask(s: Seq<ModifierKey>) -> u16
    decreases s.len(),
{
    if s.len() == 0 {
        0
    } else {
        combined_mask(s.drop_last()) | modifier_mask(s.last())
    }
}

/// A mouse state specification indicating the button and modifiers held
#[derive(Debug, PartialEq, Eq, Hash, Clone)]
pub struct MouseState {
    /// The [MouseButton] being held
    pub button: MouseButton,
    /// All [ModifierKey]s being held
    pub modifiers: Vec<ModifierKey>,
}

impl MouseState {
    /// Construct a new MouseState, holding the modifiers in sorted order
    pub fn new(button: MouseButton, modifiers: Vec<ModifierKey>) -> (r: Self)
        ensures
            r.button == button,
            sorted_modifiers(r.modifiers@),
            r.modifiers@.to_multiset() == modifiers@.to_multiset(),
    {
        let sorted = sort_modifiers(modifiers);
        Self { button, modifiers: sorted }
    }

    /// Parse raw mouse state values into a [MouseState]
    pub fn from_detail_and_state(detail: u8, state: u16) -> (r: Result<Self, Error>)
        ensures
            match button_from_number(detail) {
                Some(b) => r matches Ok(ms) && ms.button == b && ms.modifiers@ == held_modifiers(
                    state,
                ),
                None => r == Err::<Self, Error>(Error::UnknownMouseButton { button: detail }),
            },
    {
        let button = match MouseButton::try_from(detail) {
            Ok(b) => b,
            Err(e) => return Err(e),
        };
        let all = [ModifierKey::Ctrl, ModifierKey::Alt, ModifierKey::Shift, ModifierKey::Meta];
        let mut modifiers: Vec<ModifierKey> = Vec::new();
        let mut i: usize = 0;
        while i < 4
            invariant
                i <= 4,
                all@ == all_modifiers(),
                modifiers@ == all_modifiers().take(i as int).filter(
                    |m: ModifierKey| state & modifier_mask(m) > 0,
                ),
            decreases 4 - i,
        {
            let m = all[i];
            proof {
                reveal_with_fuel(Seq::filter, 1);
                assert(all_modifiers().take(i + 1).drop_last() =~= all_modifiers().take(i as int));
            }
            if m.was_held(state) {
                modifiers.push(m);
            }
            i += 1;
        }
        proof {
            assert(all_modifiers().take(4) =~= all_modifiers());
        }
        Ok(Self { button, modifiers })
    }

    /// The xcb bitmask for this [MouseState]
    pub fn mask(&self) -> (r: u16)
        ensures
            r == combined_mask(self.modifiers@),
    {
        let mut acc: u16 = 0;
        let mut i: usize = 0;
        while i < self.modifiers.len()
            invariant
                i <= self.modifiers@.len(),
                acc == combined_mask(self.modifiers@.take(i as int)),
            decreases self.modifiers@.len() - i,
        {
            proof {
                assert(self.modifiers@.take(i + 1).drop_last() =~= self.modifiers@.take(i as int));
            }
            acc = acc | u16::from(self.modifiers[i]);
            i += 1;
        }
        proof {
            assert(self.modifiers@.take(i as int) =~= self.modifiers@);
        }
        acc
    }

    /// The xcb button ID for this [MouseState]
    pub fn button(&self) -> (r: u8)
        ensures
            r == button_number(self.button),
    {
        u8::from(self.button)
    }
}

/// Sort modifier keys into the order they are declared in, keeping duplicates.
fn sort_modifiers(v: Vec<ModifierKey>) -> (r: Vec<ModifierKey>)
    ensures
        sorted_modifiers(r@),
        r@.to_multiset() == v@.to_multiset(),
{
    broadcast use vstd::seq_lib::group_to_multiset_ensures, vstd::multiset::group_multiset_axioms;

    let mut out: Vec<ModifierKey> = Vec::new();
    let mut i: usize = 0;
    while i < v.len()
        invariant
            i <= v@.len(),
            sorted_modifiers(out@),
            out@.to_multiset() == v@.take(i as int).to_multiset(),
        decreases v@.len() - i,
    {
        let m = v[i];
        let mut j: usize = 0;
        while j < out.len() && rank_of(out[j]) <= rank_of(m)
            invariant
                j <= out@.len(),
                sorted_modifiers(out@),
                forall|k: int| 0 <= k < j ==> modifier_rank(#[trigger] out@[k]) <= modifier_rank(m),
            decreases out@.len() - j,
        {
            j += 1;
        }
        let ghost before = out@;
        out.insert(j, m);
        proof {
            assert(v@.take(i + 1) =~= v@.take(i as int).push(m));
            assert(out@ == before.insert(j as int, m));
            vstd::seq_lib::to_multiset_insert(before, j as int, m);
            vstd::seq_lib::to_multiset_build(v@.take(i as int), m);
            assert(v@.take(i + 1).to_multiset() == v@.take(i as int).to_multiset().insert(m));
            assert forall|a: int, b: int| 0 <= a < b < out@.len() implies modifier_rank(out@[a])
                <= modifier_rank(out@[b]) by {
                if b == j as int {
                    assert(out@[a] == before[a]);
                } else if a == j as int {
                    assert(out@[b] == before[b - 1]);
                    if (j as int) < before.len() {
                        assert(modifier_rank(before[j as int]) > modifier_rank(m));
                    }
                } else if a > j as int {
                    assert(out@[a] == before[a - 1]);
                    assert(out@[b] == before[b - 1]);
                } else if b > j as int {
                    assert(out@[a] == before[a]);
                    assert(out@[b] == before[b - 1]);
                } else {
                    assert(out@[a] == before[a]);
                    assert(out@[b] == before[b]);
                }
            }
        }
        i += 1;
    }
    proof {
        assert(v@.take(i as int) =~= v@);
    }
    out
}

fn rank_of(m: ModifierKey) -> (r: u8)
    ensures
        r == modifier_rank(m),
{
    match m {
        ModifierKey::Ctrl => 0,
        ModifierKey::Alt => 1,
        ModifierKey::Shift => 2,
        ModifierKey::Meta => 3,
    }
}

/// The types of mouse events represented by a MouseEvent
#[derive(Debug, Clone, Copy, Hash, PartialEq, Eq, Structural)]
pub enum MouseEventKind {
    /// A button was pressed
    Press,
    /// A button was released
    Release,
}

/// Data from a button press or motion-notify event
#[derive(Debug, Clone, PartialEq, Eq, Hash, Structural)]
pub struct MouseEventData {
    /// The ID of the window that was contained the click
    pub id: Xid,
    /// Absolute coordinate of the event
    pub rpt: Point,
    /// Coordinate of the event relative to top-left of the window itself
    pub wpt: Point,
}

/// A mouse movement or button event
#[derive(Debug, Clone, PartialEq, Eq, Hash)]
pub struct MouseEvent {
    /// The details of which window the event applies to and where the event occurred
    pub data: MouseEventData,
    /// The modifier and button code that was received
    pub state: MouseState,
    /// Was this press or release
    pub kind: MouseEventKind,
}

impl MouseEvent {
    /// Construct a new [MouseEvent] from raw data
    pub fn new(
        id: Xid,
        rx: i16,
        ry: i16,
        ex: i16,
        ey: i16,
        state: MouseState,
        kind: MouseEventKind,
    ) -> (r: Self)
        ensures
            r.data == (MouseEventData {
                id,
                rpt: Point { x: rx as i32, y: ry as i32 },
                wpt: Point { x: ex as i32, y: ey as i32 },
            }),
            r.state == state,
            r.kind == kind,
    {
        MouseEvent {
            data: MouseEventData {
                id,
                rpt: Point::new(rx as i32, ry as i32),
                wpt: Point::new(ex as i32, ey as i32),
            },
            state,
            kind,
        }
    }
}

/// Mouse motion with a held button and optional modifiers
#[derive(Debug, Clone, PartialEq, Eq, Hash)]
pub struct MotionNotifyEvent {
    /// The details of which window the event applies to and where the event occurred
    pub data: MouseEventData,
    /// All [ModifierKey]s being held
    pub modifiers: Vec<ModifierKey>,
}

impl MotionNotifyEvent {
    /// Construct a new [MotionNotifyEvent] from raw data
    pub fn new(id: Xid, rx: i16, ry: i16, ex: i16, ey: i16, modifiers: Vec<ModifierKey>) -> (r: Self)
        ensures
            r.data == (MouseEventData {
                id,
                rpt: Point { x: rx as i32, y: ry as i32 },
                wpt: Point { x: ex as i32, y: ey as i32 },
            }),
            r.modifiers@ == modifiers@,
    {
        MotionNotifyEvent {
            data: MouseEventData {
                id,
                rpt: Point::new(rx as i32, ry as i32),
                wpt: Point::new(ex as i32, ey as i32),
            },
            modifiers,
        }
    }
}

} // verus!
