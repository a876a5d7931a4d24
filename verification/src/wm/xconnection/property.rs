//! Data types for working with X window properties
use vstd::prelude::*;

use crate::wm::data_types::{Point, Region};
use crate::wm::xconnection::Xid;
use vstd::string::StringExecFns;

use crate::{decimal_string, decimal_text, PenroseError};

verus! {

/// Know property types that should be returnable by XConn impls when they check
/// window properties.
#[derive(Debug, PartialEq, Eq, Hash, Clone)]
pub enum Prop {
    /// One or more X Atoms
    Atom(Vec<String>),
    /// Raw bytes for when the prop type is non-standard
    Bytes(Vec<u32>),
    /// A cardinal number
    Cardinal(u32),
    /// UTF-8 encoded string data
    UTF8String(Vec<String>),
    /// An X window IDs
    Window(Vec<Xid>),
    /// The WmHints properties for this window
    WmHints(WmHints),
    /// The WmNormalHints properties for this window
    WmNormalHints(WmNormalHints),
}

/// Input hint is set
pub const INPUT_HINT: u32 = 0b0000000001;
/// State hint is set
pub const STATE_HINT: u32 = 0b0000000010;
/// Icon pixmap hint is set
pub const ICON_PIXMAP_HINT: u32 = 0b0000000100;
/// Icon window hint is set
pub const ICON_WINDOW_HINT: u32 = 0b0000001000;
/// Icon position hint is set
pub const ICON_POSITION_HINT: u32 = 0b0000010000;
/// Icon mask hint is set
pub const ICON_MASK_HINT: u32 = 0b0000100000;
/// Window group hint is set
pub const WINDOW_GROUP_HINT: u32 = 0b0001000000;
/// Urgency hint is set
pub const URGENCY_HINT: u32 = 0b0100000000;
/// Every flag that a WmHints property may set
pub const ALL_WM_HINTS_FLAGS: u32 = 0b0101111111;

/// User-specified x, y
pub const U_POSITION: u32 = 0b0000000001;
/// User-specified width, height
pub const U_SIZE: u32 = 0b0000000010;
/// Program-specified position
pub const P_POSITION: u32 = 0b0000000100;
/// Program-specified size
pub const P_SIZE: u32 = 0b0000001000;
/// Program-specified minimum size
pub const P_MIN_SIZE: u32 = 0b0000010000;
/// Program-specified maximum size
pub const P_MAX_SIZE: u32 = 0b0000100000;
/// Program-specified resize increments
pub const P_RESIZE_INC: u32 = 0b0001000000;
/// Program-specified min and max aspect ratios
pub const P_ASPECT: u32 = 0b0010000000;
/// Program-specified base size
pub const P_BASE_SIZE: u32 = 0b0100000000;
/// Program-specified window gravity
pub const P_WIN_GRAVITY: u32 = 0b1000000000;
/// Every flag that a WmNormalHints property may set
pub const ALL_WM_NORMAL_HINTS_FLAGS: u32 = 0b1111111111;

/// Possible flags that can be set in a WmHints client property
#[derive(Debug, Default, PartialEq, Eq, Hash, Clone, Copy, Structural)]
pub struct WmHintsFlags {
    /// The raw flag bits
    pub bits: u32,
}

impl WmHintsFlags {
    /// The flags with the given bits, if every bit is a known flag.
    pub fn from_bits(bits: u32) -> (r: Option<Self>)
        ensures
            bits & !ALL_WM_HINTS_FLAGS == 0 ==> r == Some(WmHintsFlags { bits }),
            bits & !ALL_WM_HINTS_FLAGS != 0 ==> r is None,
    {
        if bits & !ALL_WM_HINTS_FLAGS == 0 {
            Some(WmHintsFlags { bits })
        } else {
            None
        }
    }

    /// The raw bits of these flags.
    pub fn bits(&self) -> (r: u32)
        ensures
            r == self.bits,
    {
        self.bits
    }

    /// Whether every bit of `flag` is set.
    pub fn contains(&self, flag: u32) -> (r: bool)
        ensures
            r == (self.bits & flag == flag),
    {
        self.bits & flag == flag
    }
}

/// Possible flags that can be set in a WmNormalHints client property
#[derive(Debug, Default, PartialEq, Eq, Hash, Clone, Copy, Structural)]
pub struct WmNormalHintsFlags {
    /// The raw flag bits
    pub bits: u32,
}

impl WmNormalHintsFlags {
    /// The flags with the given bits, if every bit is a known flag.
    pub fn from_bits(bits: u32) -> (r: Option<Self>)
        ensures
            bits & !ALL_WM_NORMAL_HINTS_FLAGS == 0 ==> r == Some(WmNormalHintsFlags { bits }),
            bits & !ALL_WM_NORMAL_HINTS_FLAGS != 0 ==> r is None,
    {
        if bits & !ALL_WM_NORMAL_HINTS_FLAGS == 0 {
            Some(WmNormalHintsFlags { bits })
        } else {
            None
        }
    }

    /// The raw bits of these flags.
    pub fn bits(&self) -> (r: u32)
        ensures
            r == self.bits,
    {
        self.bits
    }

    /// Whether every bit of `flag` is set.
    pub fn contains(&self, flag: u32) -> (r: bool)
        ensures
            r == (self.bits & flag == flag),
    {
        self.bits & flag == flag
    }
}

/// Possible valid values for setting the `WM_STATE` property on a client.
#[derive(Debug, PartialEq, Eq, Hash, Clone, Copy, Structural)]
pub enum WindowState {
    /// Window is not visible
    Withdrawn,
    /// Window is visible
    Normal,
    /// Window is iconified
    Iconic,
}

/// The mapping states a window can be in
#[derive(Debug, PartialEq, Eq, Hash, Clone, Copy, Structural)]
pub enum MapState {
    /// The window is unmapped
    Unmapped,
    /// The window is never viewable
    UnViewable,
    /// The window is currently viewable
    Viewable,
}

/// The input class for a window
#[derive(Debug, PartialEq, Eq, Hash, Clone, Copy, Structural)]
pub enum WindowClass {
    /// Class is copied from parent window
    CopyFromParent,
    /// Window can be displayed
    InputOutput,
    /// Window can only be used for queries
    InputOnly,
}

/// Client requested hints about information other than window geometry.
#[derive(Debug, PartialEq, Eq, Hash, Clone, Copy, Structural)]
pub struct WmHints {
    /// Which of the hints are set
    pub flags: WmHintsFlags,
    /// Whether the client accepts input focus
    pub accepts_input: bool,
    /// The state the client wants to start in
    pub initial_state: WindowState,
    /// Pixmap to be used as an icon
    pub icon_pixmap: u32,
    /// Window to be used as an icon
    pub icon_win: Xid,
    /// Initial position of the icon
    pub icon_position: Point,
    /// Pixmap to be used as mask for the icon pixmap
    pub icon_mask: u32,
    /// ID of the related window group
    pub window_group: u32,
}

/// The initial state named by a WM_HINTS `initial_state` field, given whether the
/// state hint is set; `None` when the state hint is set to a value with no meaning.
pub open spec fn initial_state_of(state_hint: bool, raw: u32) -> Option<WindowState> {
    if !state_hint {
        Some(WindowState::Normal)
    } else if raw == 0 {
        Some(WindowState::Withdrawn)
    } else if raw == 1 {
        Some(WindowState::Normal)
    } else if raw == 2 {
        Some(WindowState::Iconic)
    } else {
        None
    }
}

/// The WmHints that nine raw words describe, or `None` when the initial state is invalid.
pub open spec fn parse_wm_hints(raw: Seq<u32>) -> Option<WmHints> {
    let flags = WmHintsFlags { bits: raw[0] };
    let state_hint = raw[0] & STATE_HINT == STATE_HINT;
    match initial_state_of(state_hint, raw[2]) {
        Some(initial_state) => Some(
            WmHints {
                flags,
                accepts_input: !(raw[0] & INPUT_HINT == INPUT_HINT) || raw[1] > 0,
                initial_state,
                icon_pixmap: raw[3],
                icon_win: raw[4],
                icon_position: Point { x: raw[5], y: raw[6] },
                icon_mask: raw[7],
                window_group: raw[8],
            },
        ),
        None => None,
    }
}

/// Why `actual` raw values cannot be read as the hints `name`, which take `expected`.
pub open spec fn hints_length_text(expected: usize, actual: usize, name: Seq<char>) -> Seq<char> {
    "raw bytes should be [u32; "@ + decimal_text(expected as nat) + "] for "@ + name + ", got [u32; "@
        + decimal_text(actual as nat) + "]"@
}

/// Why `state` is not an initial state.
pub open spec fn initial_state_text(state: u32) -> Seq<char> {
    "initial state flag should be 0, 1, 2: got "@ + decimal_text(state as nat)
}

fn hints_length_message(expected: usize, actual: usize, name: &str) -> (r: String)
    ensures
        r@ == hints_length_text(expected, actual, name@),
{
    "raw bytes should be [u32; ".to_owned().concat(decimal_string(expected).as_str()).concat("] for ").concat(
        name,
    ).concat(", got [u32; ").concat(decimal_string(actual).as_str()).concat("]")
}

fn initial_state_message(state: u32) -> (r: String)
    ensures
        r@ == initial_state_text(state),
{
    "initial state flag should be 0, 1, 2: got ".to_owned().concat(decimal_string(state as usize).as_str())
}

impl WmHints {
    /// Create a new instance from component parts
    pub fn new(
        flags: WmHintsFlags,
        accepts_input: bool,
        initial_state: WindowState,
        icon_pixmap: u32,
        icon_win: Xid,
        icon_position: Point,
        icon_mask: u32,
        window_group: u32,
    ) -> (r: Self)
        ensures
            r == (WmHints {
                flags,
                accepts_input,
                initial_state,
                icon_pixmap,
                icon_win,
                icon_position,
                icon_mask,
                window_group,
            }),
    {
        Self {
            flags,
            accepts_input,
            initial_state,
            icon_pixmap,
            icon_win,
            icon_position,
            icon_mask,
            window_group,
        }
    }

    /// Try to construct a [WmHints] instance from raw bytes.
    ///
    /// This method expects a slice of 9 u32s corresponding to the C struct layout of
    /// `XWMHints`: flags, input, initial_state, icon_pixmap, icon_window, icon_x,
    /// icon_y, icon_mask, window_group.
    pub fn try_from_bytes(raw: &[u32]) -> (r: Result<Self, PenroseError>)
        requires
            raw@.len() == 9 ==> raw@[0] & !ALL_WM_HINTS_FLAGS == 0,
        ensures
            raw@.len() != 9 ==> (r matches Err(PenroseError::InvalidHints(m)) && m@ == hints_length_text(
                9,
                raw@.len() as usize,
                "WmHints"@,
            )),
            raw@.len() == 9 ==> match parse_wm_hints(raw@) {
                Some(h) => r == Ok::<Self, PenroseError>(h),
                None => r matches Err(PenroseError::InvalidHints(m)) && m@ == initial_state_text(raw@[2]),
            },
    {
        if raw.len() != 9 {
            return Err(PenroseError::InvalidHints(hints_length_message(9, raw.len(), "WmHints")));
        }
        let flags = WmHintsFlags::from_bits(raw[0]).unwrap();
        let accepts_input = !flags.contains(INPUT_HINT) || raw[1] > 0;
        let initial_state = match (flags.contains(STATE_HINT), raw[2]) {
            (true, 0) => WindowState::Withdrawn,
            (true, 1) | (false, _) => WindowState::Normal,
            (true, 2) => WindowState::Iconic,
            _ => {
                return Err(PenroseError::InvalidHints(initial_state_message(raw[2])));
            },
        };

        Ok(Self {
            flags,
            accepts_input,
            initial_state,
            icon_pixmap: raw[3],
            icon_win: raw[4],
            icon_position: Point::new(raw[5], raw[6]),
            icon_mask: raw[7],
            window_group: raw[8],
        })
    }
}

/// Client requested hints about window geometry.
///
/// Penrose does not honour the gravity, increment or aspect ratio hints.
#[derive(Debug, PartialEq, Eq, Hash, Clone, Copy, Structural)]
pub struct WmNormalHints {
    /// Which of the hints are set
    pub flags: WmNormalHintsFlags,
    /// The base size of the window
    pub base: Option<Region>,
    /// The minimum size of the window
    pub min: Option<Region>,
    /// The maximum size of the window
    pub max: Option<Region>,
    /// The user specified size of the window
    pub user_specified: Option<Region>,
}

/// A region at (x, y) of size w x h, if both dimensions are non-zero.
pub open spec fn region_if_set(x: u32, y: u32, w: u32, h: u32) -> Option<Region> {
    if w > 0 && h > 0 {
        Some(Region { x, y, w, h })
    } else {
        None
    }
}

/// The WmNormalHints that eighteen raw words describe.
pub open spec fn parse_wm_normal_hints(raw: Seq<u32>) -> WmNormalHints {
    WmNormalHints {
        flags: WmNormalHintsFlags { bits: raw[0] },
        base: region_if_set(raw[1], raw[2], raw[15], raw[16]),
        min: region_if_set(raw[1], raw[2], raw[5], raw[6]),
        max: region_if_set(raw[1], raw[2], raw[7], raw[8]),
        user_specified: region_if_set(raw[1], raw[2], raw[3], raw[4]),
    }
}

fn if_set(x: u32, y: u32, w: u32, h: u32) -> (r: Option<Region>)
    ensures
        r == region_if_set(x, y, w, h),
{
    if w > 0 && h > 0 {
        Some(Region::new(x, y, w, h))
    } else {
        None
    }
}

impl WmNormalHints {
    /// Create a new instance from component parts
    pub fn new(
        flags: WmNormalHintsFlags,
        base: Option<Region>,
        min: Option<Region>,
        max: Option<Region>,
        user_specified: Option<Region>,
    ) -> (r: Self)
        ensures
            r == (WmNormalHints { flags, base, min, max, user_specified }),
    {
        Self { flags, base, min, max, user_specified }
    }

    /// Try to construct a [WmNormalHints] instance from raw bytes.
    ///
    /// This method expects a slice of 18 u32s corresponding to the C struct layout of
    /// `XSizeHints`. The obsolete x, y, width and height fields are still used as
    /// fallbacks as some clients set them.
    pub fn try_from_bytes(raw: &[u32]) -> (r: Result<Self, PenroseError>)
        requires
            raw@.len() == 18 ==> raw@[0] & !ALL_WM_NORMAL_HINTS_FLAGS == 0,
        ensures
            raw@.len() != 18 ==> (r matches Err(PenroseError::InvalidHints(m)) && m@ == hints_length_text(
                18,
                raw@.len() as usize,
                "WmNormalHints"@,
            )),
            raw@.len() == 18 ==> r == Ok::<Self, PenroseError>(parse_wm_normal_hints(raw@)),
    {
        if raw.len() != 18 {
            return Err(
                PenroseError::InvalidHints(hints_length_message(18, raw.len(), "WmNormalHints")),
            );
        }

        let flags = WmNormalHintsFlags::from_bits(raw[0]).unwrap();

        // These properties are marked as obsolete but some clients still set them
        // so they are useful as fallbacks
        let (x, y) = (raw[1], raw[2]);
        let (user_w, user_h) = (raw[3], raw[4]);

        let (min_w, min_h) = (raw[5], raw[6]);
        let (max_w, max_h) = (raw[7], raw[8]);
        let (base_w, base_h) = (raw[15], raw[16]);

        Ok(Self {
            flags,
            base: if_set(x, y, base_w, base_h),
            min: if_set(x, y, min_w, min_h),
            max: if_set(x, y, max_w, max_h),
            user_specified: if_set(x, y, user_w, user_h),
        })
    }
}

/// Window Attributes honoured by penose.
///
/// Only a small subset of window attributes are checked and honoured by penrose.
#[derive(Debug, PartialEq, Eq, Hash, Clone, Copy, Structural)]
pub struct WindowAttributes {
    /// Whether the window manager should leave this window alone
    pub override_redirect: bool,
    /// Whether the window is mapped
    pub map_state: MapState,
    /// The input class of the window
    pub window_class: WindowClass,
}

impl WindowAttributes {
    /// Create a new instance from component parts
    pub fn new(override_redirect: bool, map_state: MapState, window_class: WindowClass) -> (r: Self)
        ensures
            r == (WindowAttributes { override_redirect, map_state, window_class }),
    {
        Self { override_redirect, map_state, window_class }
    }
}

} // verus!
