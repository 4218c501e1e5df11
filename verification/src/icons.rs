//! The pixels of the tray and menu icons: battery-style status icon colours
//! and shapes, and the check mark and cross of the menu.
use vstd::prelude::*;

use crate::canvas::{canvas_into_raw, canvas_new, canvas_pixels, canvas_put, canvas_size, raw_rgba};

verus! {

/// An RGBA colour.
#[derive(Debug, Clone, Copy, PartialEq, Eq, Structural)]
pub struct Color {
    pub r: u8,
    pub g: u8,
    pub b: u8,
    pub a: u8,
}

pub open spec fn color(r: u8, g: u8, b: u8, a: u8) -> Color {
    Color { r, g, b, a }
}

pub open spec fn red() -> Color {
    color(255, 59, 48, 255)
}

pub open spec fn orange() -> Color {
    color(255, 149, 0, 255)
}

pub open spec fn green() -> Color {
    color(52, 199, 89, 255)
}

pub open spec fn transparent() -> Color {
    color(0, 0, 0, 0)
}

/// The outline colour of the battery icon.
pub open spec fn outline() -> Color {
    color(255, 255, 255, 220)
}

/// The colour for a battery charge: red up to 20%, orange up to 50%, green
/// above.
pub fn battery_color(percent: u8) -> (c: Color)
    ensures
        c == if percent <= 20 {
            red()
        } else if percent <= 50 {
            orange()
        } else {
            green()
        },
{
    if percent <= 20 {
        Color { r: 255, g: 59, b: 48, a: 255 }
    } else if percent <= 50 {
        Color { r: 255, g: 149, b: 0, a: 255 }
    } else {
        Color { r: 52, g: 199, b: 89, a: 255 }
    }
}

/// The colour for a CPU load: green up to 40%, orange up to 75%, red above.
pub fn cpu_color(usage: u8) -> (c: Color)
    ensures
        c == if usage <= 40 {
            green()
        } else if usage <= 75 {
            orange()
        } else {
            red()
        },
{
    if usage <= 40 {
        Color { r: 52, g: 199, b: 89, a: 255 }
    } else if usage <= 75 {
        Color { r: 255, g: 149, b: 0, a: 255 }
    } else {
        Color { r: 255, g: 59, b: 48, a: 255 }
    }
}

/// The side of the square battery icon, in pixels.
pub const BATTERY_ICON_SIZE: u32 = 22;

/// The side of the square menu icons, in pixels.
pub const MENU_ICON_SIZE: u32 = 16;

/// A pixel of the battery body's outline (a 13×11 frame from (4, 6)) or of
/// its cap (x 17–19, y 9–13).
pub open spec fn battery_outline(x: int, y: int) -> bool {
    ||| (4 <= x <= 16 && (y == 6 || y == 16))
    ||| (6 <= y <= 16 && (x == 4 || x == 16))
    ||| (17 <= x <= 19 && 9 <= y <= 13)
}

/// A pixel of the battery's fill, which runs from x 6 to `inner_right`.
pub open spec fn battery_fill(x: int, y: int, inner_right: int) -> bool {
    6 <= x <= inner_right && 8 <= y <= 14
}

/// The colour of a battery icon pixel: the fill colour in the fill, the
/// outline colour on the outline, transparent elsewhere.
pub open spec fn battery_color_at(x: int, y: int, inner_right: int, fill: Color) -> Color {
    if battery_fill(x, y, inner_right) {
        fill
    } else if battery_outline(x, y) {
        outline()
    } else {
        transparent()
    }
}

/// The colour of a battery icon pixel. `inner_right` is the fill's right
/// edge for the charge being shown.
pub fn battery_pixel(x: i32, y: i32, inner_right: i32, color: Color) -> (c: Color)
    ensures
        c == battery_color_at(x as int, y as int, inner_right as int, color),
{
    let is_outline = (x >= 4 && x <= 16 && (y == 6 || y == 16)) || (y >= 6 && y <= 16 && (x == 4
        || x == 16)) || (x >= 17 && x <= 19 && y >= 9 && y <= 13);
    let is_fill = x >= 6 && x <= inner_right && y >= 8 && y <= 14;
    if is_fill {
        color
    } else if is_outline {
        Color { r: 255, g: 255, b: 255, a: 220 }
    } else {
        Color { r: 0, g: 0, b: 0, a: 0 }
    }
}

/// A pixel of the check mark: its short stroke runs down-left along
/// x + y = 14..15, its long stroke up-right along x − y = 2..3.
pub open spec fn check_pixel(x: int, y: int) -> bool {
    ||| ((x + y == 14 || x + y == 15) && 3 <= x <= 7 && 7 <= y <= 11)
    ||| ((x - y == 2 || x - y == 3) && 7 <= x <= 12 && 5 <= y <= 10)
}

/// A pixel of the cross: inside the square 4–11, on one of its diagonals or
/// next to it.
pub open spec fn cross_pixel(x: int, y: int) -> bool {
    &&& 4 <= x <= 11
    &&& 4 <= y <= 11
    &&& (-1 <= x - y <= 1 || -1 <= x + y - 15 <= 1)
}

/// Whether (x, y) is a pixel of the check mark.
pub fn is_check_pixel(x: i32, y: i32) -> (r: bool)
    requires
        i32::MIN <= x + y <= i32::MAX,
        i32::MIN <= x - y <= i32::MAX,
    ensures
        r == check_pixel(x as int, y as int),
{
    let short = (x + y == 14 || x + y == 15) && (3 <= x && x <= 7) && (7 <= y && y <= 11);
    let long = (x - y == 2 || x - y == 3) && (7 <= x && x <= 12) && (5 <= y && y <= 10);
    short || long
}

/// Whether (x, y) is a pixel of the cross.
pub fn is_cross_pixel(x: i32, y: i32) -> (r: bool)
    ensures
        r == cross_pixel(x as int, y as int),
{
    if !(4 <= x && x <= 11) || !(4 <= y && y <= 11) {
        return false;
    }
    let d = x - y;
    let s = x + y - 15;
    (-1 <= d && d <= 1) || (-1 <= s && s <= 1)
}

/// The colour of a menu status icon pixel: a green check mark when active,
/// a red cross otherwise, on a transparent ground.
pub open spec fn menu_color_at(active: bool, x: int, y: int) -> Color {
    if (active && check_pixel(x, y)) || (!active && cross_pixel(x, y)) {
        if active {
            green()
        } else {
            red()
        }
    } else {
        transparent()
    }
}

/// The colour of a menu status icon pixel.
pub fn menu_status_pixel(active: bool, x: i32, y: i32) -> (c: Color)
    requires
        0 <= x < MENU_ICON_SIZE,
        0 <= y < MENU_ICON_SIZE,
    ensures
        c == menu_color_at(active, x as int, y as int),
{
    let pixel = if active {
        is_check_pixel(x, y)
    } else {
        is_cross_pixel(x, y)
    };
    if pixel {
        if active {
            Color { r: 52, g: 199, b: 89, a: 255 }
        } else {
            Color { r: 255, g: 59, b: 48, a: 255 }
        }
    } else {
        Color { r: 0, g: 0, b: 0, a: 0 }
    }
}

// ---------------------------------------------------------------------------
// Whole icons
// ---------------------------------------------------------------------------

/// A colour as `(red, green, blue, alpha)`.
pub open spec fn channels(c: Color) -> (u8, u8, u8, u8) {
    (c.r, c.g, c.b, c.a)
}

/// Which icon to draw.
pub enum IconKind {
    /// The menu status icon: a check mark when active, else a cross.
    MenuStatus(bool),
    /// The battery icon with its fill's right edge and colour.
    Battery(i32, Color),
}

/// The side of the icon, in pixels.
pub open spec fn icon_size(kind: IconKind) -> u32 {
    match kind {
        IconKind::MenuStatus(_) => MENU_ICON_SIZE,
        IconKind::Battery(_, _) => BATTERY_ICON_SIZE,
    }
}

/// The colour of the icon's pixel at `(x, y)`.
pub open spec fn icon_color_at(kind: IconKind, x: int, y: int) -> Color {
    match kind {
        IconKind::MenuStatus(active) => menu_color_at(active, x, y),
        IconKind::Battery(inner_right, fill) => battery_color_at(x, y, inner_right as int, fill),
    }
}

/// All the pixels of the icon.
pub open spec fn icon_pixels(kind: IconKind) -> Map<(u32, u32), (u8, u8, u8, u8)> {
    Map::new(
        |p: (u32, u32)| p.0 < icon_size(kind) && p.1 < icon_size(kind),
        |p: (u32, u32)| channels(icon_color_at(kind, p.0 as int, p.1 as int)),
    )
}

/// The pixels drawn so far: rows above `y`, and in row `y` the columns
/// before `x`; the others are still blank.
pub open spec fn painted(kind: IconKind, y: u32, x: u32) -> Map<(u32, u32), (u8, u8, u8, u8)> {
    Map::new(
        |p: (u32, u32)| p.0 < icon_size(kind) && p.1 < icon_size(kind),
        |p: (u32, u32)|
            if p.1 < y || (p.1 == y && p.0 < x) {
                channels(icon_color_at(kind, p.0 as int, p.1 as int))
            } else {
                (0u8, 0u8, 0u8, 0u8)
            },
    )
}

fn icon_color(kind: &IconKind, x: u32, y: u32) -> (c: Color)
    requires
        x < icon_size(*kind),
        y < icon_size(*kind),
    ensures
        c == icon_color_at(*kind, x as int, y as int),
{
    match kind {
        IconKind::MenuStatus(active) => menu_status_pixel(*active, x as i32, y as i32),
        IconKind::Battery(inner_right, fill) => battery_pixel(x as i32, y as i32, *inner_right, *fill),
    }
}

/// The icon's bytes: row by row from the top, four bytes (red, green, blue,
/// alpha) per pixel, as `RgbaImage::into_raw` lays them out.
pub fn render_icon(kind: &IconKind) -> (v: Vec<u8>)
    ensures
        v@ == raw_rgba(icon_pixels(*kind), icon_size(*kind), icon_size(*kind)),
{
    let size: u32 = match kind {
        IconKind::MenuStatus(_) => MENU_ICON_SIZE,
        IconKind::Battery(_, _) => BATTERY_ICON_SIZE,
    };
    let mut c = canvas_new(size, size);
    assert(canvas_pixels(c) =~= painted(*kind, 0, 0));
    let mut y: u32 = 0;
    while y < size
        invariant
            size == icon_size(*kind),
            size <= 22,
            y <= size,
            canvas_size(c) == (size, size),
            canvas_pixels(c) == painted(*kind, y, 0),
        decreases size - y,
    {
        let mut x: u32 = 0;
        while x < size
            invariant
                size == icon_size(*kind),
                size <= 22,
                y < size,
                x <= size,
                canvas_size(c) == (size, size),
                canvas_pixels(c) == painted(*kind, y, x),
            decreases size - x,
        {
            let col = icon_color(kind, x, y);
            canvas_put(&mut c, x, y, (col.r, col.g, col.b, col.a));
            assert(canvas_pixels(c) =~= painted(*kind, y, (x + 1) as u32));
            x = x + 1;
        }
        assert(painted(*kind, y, size) =~= painted(*kind, (y + 1) as u32, 0));
        y = y + 1;
    }
    assert(painted(*kind, size, 0) =~= icon_pixels(*kind));
    canvas_into_raw(c)
}

/// The bytes of the menu status icon (16×16).
pub fn menu_status_rgba(active: bool) -> (v: Vec<u8>)
    ensures
        v@ == raw_rgba(icon_pixels(IconKind::MenuStatus(active)), MENU_ICON_SIZE, MENU_ICON_SIZE),
{
    render_icon(&IconKind::MenuStatus(active))
}

/// The bytes of the battery icon (22×22) whose fill ends at `inner_right`.
pub fn battery_icon_rgba(inner_right: i32, fill: Color) -> (v: Vec<u8>)
    ensures
        v@ == raw_rgba(
            icon_pixels(IconKind::Battery(inner_right, fill)),
            BATTERY_ICON_SIZE,
            BATTERY_ICON_SIZE,
        ),
{
    render_icon(&IconKind::Battery(inner_right, fill))
}

/// Moving the battery fill's right edge outwards never takes a pixel away
/// from the fill: with a fill colour other than the outline's and the
/// background's, every pixel that has the fill colour with the edge at `a`
/// still has it with the edge at any `b` at or beyond `a`.
pub proof fn law_battery_fill_grows(a: i32, b: i32, fill: Color)
    requires
        a <= b,
        fill != outline(),
        fill != transparent(),
    ensures
        icon_pixels(IconKind::Battery(a, fill)).dom() == icon_pixels(IconKind::Battery(b, fill)).dom(),
        forall|p: (u32, u32)|
            #[trigger] icon_pixels(IconKind::Battery(a, fill)).contains_key(p)
                && icon_pixels(IconKind::Battery(a, fill))[p] == channels(fill)
                ==> icon_pixels(IconKind::Battery(b, fill))[p] == channels(fill),
{
    assert(icon_pixels(IconKind::Battery(a, fill)).dom() =~= icon_pixels(IconKind::Battery(b, fill)).dom());
    assert forall|p: (u32, u32)|
        #[trigger] icon_pixels(IconKind::Battery(a, fill)).contains_key(p)
            && icon_pixels(IconKind::Battery(a, fill))[p] == channels(fill)
            implies icon_pixels(IconKind::Battery(b, fill))[p] == channels(fill) by {
        let c = battery_color_at(p.0 as int, p.1 as int, a as int, fill);
        assert(channels(c) == channels(fill));
        assert(c == fill);
    }
}

/// A fill whose right edge stands left of its first column (an empty
/// charge) paints no pixel in the fill colour, when that colour differs
/// from the outline's and the background's.
pub proof fn law_battery_empty_fill(inner_right: i32, fill: Color)
    requires
        inner_right < 6,
        fill != outline(),
        fill != transparent(),
    ensures
        forall|p: (u32, u32)|
            #[trigger] icon_pixels(IconKind::Battery(inner_right, fill)).contains_key(p)
                ==> icon_pixels(IconKind::Battery(inner_right, fill))[p] != channels(fill),
{
    assert forall|p: (u32, u32)|
        #[trigger] icon_pixels(IconKind::Battery(inner_right, fill)).contains_key(p)
            implies icon_pixels(IconKind::Battery(inner_right, fill))[p] != channels(fill) by {
        let c = battery_color_at(p.0 as int, p.1 as int, inner_right as int, fill);
        if channels(c) == channels(fill) {
            assert(c == fill);
        }
    }
}

} // verus!
