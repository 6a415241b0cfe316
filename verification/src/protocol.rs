//! The values that travel between a server and its clients.
use vstd::prelude::*;

use crate::layout::Layout;

verus! {

/// An axis-aligned rectangle in virtual desktop pixels. It covers the
/// columns `x..x + w` and the rows `y..y + h`.
#[derive(Debug, Clone, Copy, PartialEq, Eq, Structural)]
pub struct Rect {
    pub x: i32,
    pub y: i32,
    pub w: i32,
    pub h: i32,
}

/// Half of `v`, rounded toward zero.
pub open spec fn half(v: int) -> int {
    if v >= 0 {
        v / 2
    } else {
        -((-v) / 2)
    }
}

impl Rect {
    /// First column.
    pub open spec fn l(self) -> int {
        self.x as int
    }

    /// First row.
    pub open spec fn t(self) -> int {
        self.y as int
    }

    /// First column past the right edge.
    pub open spec fn r(self) -> int {
        self.x + self.w
    }

    /// First row past the bottom edge.
    pub open spec fn b(self) -> int {
        self.y + self.h
    }

    /// Both far edges are representable.
    pub open spec fn fits(self) -> bool {
        &&& i32::MIN <= self.r() <= i32::MAX
        &&& i32::MIN <= self.b() <= i32::MAX
    }

    /// The rectangle covers the point.
    pub open spec fn covers(self, x: int, y: int) -> bool {
        self.l() <= x < self.r() && self.t() <= y < self.b()
    }

    /// The rectangle covers at least one pixel.
    pub open spec fn nonempty(self) -> bool {
        self.w > 0 && self.h > 0
    }

    /// The middle point, in the coordinates of `x` and `y`.
    pub open spec fn middle(self) -> (int, int) {
        (self.x + half(self.w as int), self.y + half(self.h as int))
    }

    /// The middle point, counted from the rectangle's own corner.
    pub open spec fn inner_middle(self) -> (int, int) {
        (half(self.w as int), half(self.h as int))
    }

    pub fn left(&self) -> (v: i32)
        ensures
            v == self.l(),
    {
        self.x
    }

    pub fn top(&self) -> (v: i32)
        ensures
            v == self.t(),
    {
        self.y
    }

    pub fn right(&self) -> (v: i32)
        requires
            self.fits(),
        ensures
            v == self.r(),
    {
        self.x + self.w
    }

    pub fn bottom(&self) -> (v: i32)
        requires
            self.fits(),
        ensures
            v == self.b(),
    {
        self.y + self.h
    }

    /// Is the point inside?
    pub fn contains(&self, x: i32, y: i32) -> (inside: bool)
        ensures
            inside == self.covers(x as int, y as int),
    {
        self.x <= x && (x as i64) < self.x as i64 + self.w as i64 && self.y <= y && (y as i64)
            < self.y as i64 + self.h as i64
    }

    /// The middle point of a rectangle with non-negative size.
    pub fn center(&self) -> (c: (i32, i32))
        requires
            self.fits(),
        ensures
            (c.0 as int, c.1 as int) == self.middle(),
    {
        let hw: i32 = halve(self.w);
        let hh: i32 = halve(self.h);
        (self.x + hw, self.y + hh)
    }

    /// The middle point, counted from the rectangle's own corner.
    pub fn local_center(&self) -> (c: (i32, i32))
        ensures
            (c.0 as int, c.1 as int) == self.inner_middle(),
    {
        (halve(self.w), halve(self.h))
    }
}

/// Half of `v`, rounded toward zero.
fn halve(v: i32) -> (r: i32)
    ensures
        r == half(v as int),
{
    if v >= 0 {
        v / 2
    } else if v == i32::MIN {
        -1_073_741_824
    } else {
        -((-v) / 2)
    }
}

/// One screen of the desktop. Id 0 is the server's own screen.
#[derive(Debug, PartialEq, Eq)]
pub struct Screen {
    pub id: u8,
    pub name: String,
    pub rect: Rect,
}

impl Clone for Screen {
    fn clone(&self) -> (r: Self)
        ensures
            r == *self,
    {
        Screen { id: self.id, name: self.name.clone(), rect: self.rect }
    }
}

/// The shape of a client's screen, as the client reports it.
#[derive(Debug, Clone, Copy, PartialEq, Eq, Structural)]
pub struct ScreenInfo {
    /// Width in the pixels that the client injects into.
    pub width: u32,
    /// Height in the pixels that the client injects into.
    pub height: u32,
    /// Width in logical pixels: the width over the display's scale.
    pub logical_w: i32,
    /// Height in logical pixels: the height over the display's scale.
    pub logical_h: i32,
}

/// Which way a key moved.
#[derive(Debug, Clone, Copy, PartialEq, Eq, Structural)]
pub enum KeyKind {
    Down,
    Up,
    Repeat,
}

/// What a server can order a client to do.
#[derive(Debug, Clone, Copy, PartialEq, Eq, Structural)]
pub enum Command {
    /// End the session and stay stopped.
    Disconnect,
    /// End the session and connect again.
    Reconnect,
    /// Restart the client.
    Restart,
}

/// Why a handshake was refused.
#[derive(Debug, Clone, Copy, PartialEq, Eq, Structural)]
pub enum ErrorCode {
    VersionMismatch,
    Revoked,
    NotLocal,
    NotAllowed,
    NameConflict,
}

/// One message of the wire protocol.
#[derive(Debug, Clone, PartialEq)]
pub enum Message {
    /// A client introduces itself.
    Hello { version: u16, id: String, name: String, info: ScreenInfo },
    /// The server accepts a client.
    Welcome { server_version: u16, server_id: String, layout: Layout, own_screen_id: u8 },
    /// The server refuses a client.
    Error { code: u16, text: String },
    /// The screen map changed.
    Layout { layout: Layout },
    /// A client's screen changed shape.
    ScreenInfo { info: ScreenInfo },
    /// The cursor enters a client's screen at its local `(x, y)`.
    Enter { screen_id: u8, x: i32, y: i32 },
    /// The cursor leaves a client's screen.
    Leave { screen_id: u8 },
    /// Relative pointer motion.
    MouseMoveRel { dx: i32, dy: i32 },
    /// The real pointer position on the sending screen.
    MouseMoveAbs { x: i32, y: i32 },
    MouseButton { button: u8, pressed: bool },
    MouseWheel { dx: i32, dy: i32 },
    Key { kind: KeyKind, key: u32 },
    /// Clipboard content.
    Clipboard { mime: String, data: Vec<u8> },
    /// A client reports where its real cursor is.
    CursorPos { x: i32, y: i32 },
    KeepAlive,
    /// The user pressed the escape key.
    Escape,
    /// An operational command for a client.
    Control { command: Command },
}

} // verus!
