use vstd::prelude::*;

verus! {

/// The side of the tray icon, in pixels.
pub const ICON_SIZE: usize = 32;

/// The RGBA color of the icon's pixel at column `x`, row `y`: a dark border
/// two pixels wide, a white diagonal band, green elsewhere.
pub open spec fn icon_color(x: int, y: int) -> Seq<u8> {
    if x < 2 || y < 2 || x >= 30 || y >= 30 {
        seq![24u8, 24u8, 27u8, 255u8]
    } else if -2 <= x - y <= 2 {
        seq![255u8, 255u8, 255u8, 255u8]
    } else {
        seq![34u8, 197u8, 94u8, 255u8]
    }
}

/// Byte `k` of the icon's pixels, row by row, four bytes per pixel.
pub open spec fn icon_byte(k: int) -> u8 {
    let p = k / 4;
    icon_color(p % 32, p / 32)[k % 4]
}

fn pixel_color(x: usize, y: usize) -> (r: [u8; 4])
    requires
        x < 32,
        y < 32,
    ensures
        r@ == icon_color(x as int, y as int),
{
    let border = x < 2 || y < 2 || x >= ICON_SIZE - 2 || y >= ICON_SIZE - 2;
    let diagonal = (x <= y && y - x <= 2) || (y < x && x - y <= 2);
    let c: [u8; 4] = if border {
        [24, 24, 27, 255]
    } else if diagonal {
        [255, 255, 255, 255]
    } else {
        [34, 197, 94, 255]
    };
    assert(c@ =~= icon_color(x as int, y as int));
    c
}

proof fn lemma_byte_position(y: int, x: int, c: int)
    requires
        0 <= y < 32,
        0 <= x < 32,
        0 <= c < 4,
    ensures
        ((y * 32 + x) * 4 + c) / 4 == y * 32 + x,
        ((y * 32 + x) * 4 + c) % 4 == c,
        (y * 32 + x) % 32 == x,
        (y * 32 + x) / 32 == y,
{
    assert(((y * 32 + x) * 4 + c) / 4 == y * 32 + x) by (nonlinear_arith)
        requires
            0 <= c < 4,
            0 <= y,
            0 <= x,
    ;
    assert(((y * 32 + x) * 4 + c) % 4 == c) by (nonlinear_arith)
        requires
            0 <= c < 4,
            0 <= y,
            0 <= x,
    ;
    assert((y * 32 + x) % 32 == x) by (nonlinear_arith)
        requires
            0 <= x < 32,
            0 <= y,
    ;
    assert((y * 32 + x) / 32 == y) by (nonlinear_arith)
        requires
            0 <= x < 32,
            0 <= y,
    ;
}

/// The pixels of the tray icon, RGBA, row by row.
pub fn icon_rgba() -> (r: Vec<u8>)
    ensures
        r@.len() == 32 * 32 * 4,
        forall|k: int| 0 <= k < r@.len() ==> #[trigger] r@[k] == icon_byte(k),
{
    let mut rgba: Vec<u8> = Vec::new();
    let mut y: usize = 0;
    while y < ICON_SIZE
        invariant
            y <= 32,
            rgba@.len() == y * 32 * 4,
            forall|k: int| 0 <= k < rgba@.len() ==> #[trigger] rgba@[k] == icon_byte(k),
        decreases 32 - y,
    {
        let mut x: usize = 0;
        while x < ICON_SIZE
            invariant
                y < 32,
                x <= 32,
                rgba@.len() == (y * 32 + x) * 4,
                forall|k: int| 0 <= k < rgba@.len() ==> #[trigger] rgba@[k] == icon_byte(k),
            decreases 32 - x,
        {
            let c = pixel_color(x, y);
            let mut i: usize = 0;
            while i < 4
                invariant
                    y < 32,
                    x < 32,
                    i <= 4,
                    c@ == icon_color(x as int, y as int),
                    rgba@.len() == (y * 32 + x) * 4 + i,
                    forall|k: int| 0 <= k < rgba@.len() ==> #[trigger] rgba@[k] == icon_byte(k),
                decreases 4 - i,
            {
                proof {
                    lemma_byte_position(y as int, x as int, i as int);
                }
                rgba.push(c[i]);
                i = i + 1;
            }
            x = x + 1;
        }
        y = y + 1;
    }
    rgba
}

} // verus!
