//! The 5×7 bitmap font used for review-image captions, and text drawing.

use vstd::prelude::*;

use crate::image::{blend, channel_of, col_of, fill_rect, fill_rect_spec, in_rect, row_of, RenderImage};
use crate::text::{ascii_upper, char_to_ascii_upper};

verus! {

/// The rows of the 5×7 glyph of `c`, top row first; bit 4 of a row is its
/// leftmost pixel.  Characters without a glyph show a box with a question mark.
pub open spec fn glyph_rows(c: char) -> Seq<u8> {
    match c {
        'A' => seq![0b01110, 0b10001, 0b10001, 0b11111, 0b10001, 0b10001, 0b10001],
        'B' => seq![0b11110, 0b10001, 0b10001, 0b11110, 0b10001, 0b10001, 0b11110],
        'C' => seq![0b01111, 0b10000, 0b10000, 0b10000, 0b10000, 0b10000, 0b01111],
        'D' => seq![0b11110, 0b10001, 0b10001, 0b10001, 0b10001, 0b10001, 0b11110],
        'E' => seq![0b11111, 0b10000, 0b10000, 0b11110, 0b10000, 0b10000, 0b11111],
        'F' => seq![0b11111, 0b10000, 0b10000, 0b11110, 0b10000, 0b10000, 0b10000],
        'G' => seq![0b01111, 0b10000, 0b10000, 0b10111, 0b10001, 0b10001, 0b01111],
        'H' => seq![0b10001, 0b10001, 0b10001, 0b11111, 0b10001, 0b10001, 0b10001],
        'I' => seq![0b11111, 0b00100, 0b00100, 0b00100, 0b00100, 0b00100, 0b11111],
        'J' => seq![0b00111, 0b00010, 0b00010, 0b00010, 0b10010, 0b10010, 0b01100],
        'K' => seq![0b10001, 0b10010, 0b10100, 0b11000, 0b10100, 0b10010, 0b10001],
        'L' => seq![0b10000, 0b10000, 0b10000, 0b10000, 0b10000, 0b10000, 0b11111],
        'M' => seq![0b10001, 0b11011, 0b10101, 0b10101, 0b10001, 0b10001, 0b10001],
        'N' => seq![0b10001, 0b11001, 0b10101, 0b10011, 0b10001, 0b10001, 0b10001],
        'O' => seq![0b01110, 0b10001, 0b10001, 0b10001, 0b10001, 0b10001, 0b01110],
        'P' => seq![0b11110, 0b10001, 0b10001, 0b11110, 0b10000, 0b10000, 0b10000],
        'Q' => seq![0b01110, 0b10001, 0b10001, 0b10001, 0b10101, 0b10010, 0b01101],
        'R' => seq![0b11110, 0b10001, 0b10001, 0b11110, 0b10100, 0b10010, 0b10001],
        'S' => seq![0b01111, 0b10000, 0b10000, 0b01110, 0b00001, 0b00001, 0b11110],
        'T' => seq![0b11111, 0b00100, 0b00100, 0b00100, 0b00100, 0b00100, 0b00100],
        'U' => seq![0b10001, 0b10001, 0b10001, 0b10001, 0b10001, 0b10001, 0b01110],
        'V' => seq![0b10001, 0b10001, 0b10001, 0b10001, 0b10001, 0b01010, 0b00100],
        'W' => seq![0b10001, 0b10001, 0b10001, 0b10101, 0b10101, 0b10101, 0b01010],
        'X' => seq![0b10001, 0b10001, 0b01010, 0b00100, 0b01010, 0b10001, 0b10001],
        'Y' => seq![0b10001, 0b10001, 0b01010, 0b00100, 0b00100, 0b00100, 0b00100],
        'Z' => seq![0b11111, 0b00001, 0b00010, 0b00100, 0b01000, 0b10000, 0b11111],
        '0' => seq![0b01110, 0b10001, 0b10011, 0b10101, 0b11001, 0b10001, 0b01110],
        '1' => seq![0b00100, 0b01100, 0b00100, 0b00100, 0b00100, 0b00100, 0b01110],
        '2' => seq![0b01110, 0b10001, 0b00001, 0b00010, 0b00100, 0b01000, 0b11111],
        '3' => seq![0b11110, 0b00001, 0b00001, 0b01110, 0b00001, 0b00001, 0b11110],
        '4' => seq![0b00010, 0b00110, 0b01010, 0b10010, 0b11111, 0b00010, 0b00010],
        '5' => seq![0b11111, 0b10000, 0b10000, 0b11110, 0b00001, 0b00001, 0b11110],
        '6' => seq![0b01110, 0b10000, 0b10000, 0b11110, 0b10001, 0b10001, 0b01110],
        '7' => seq![0b11111, 0b00001, 0b00010, 0b00100, 0b01000, 0b01000, 0b01000],
        '8' => seq![0b01110, 0b10001, 0b10001, 0b01110, 0b10001, 0b10001, 0b01110],
        '9' => seq![0b01110, 0b10001, 0b10001, 0b01111, 0b00001, 0b00001, 0b01110],
        ':' => seq![0, 0b00100, 0b00100, 0, 0b00100, 0b00100, 0],
        '.' => seq![0, 0, 0, 0, 0, 0b00110, 0b00110],
        '/' => seq![0b00001, 0b00010, 0b00010, 0b00100, 0b01000, 0b01000, 0b10000],
        '+' => seq![0, 0b00100, 0b00100, 0b11111, 0b00100, 0b00100, 0],
        '>' => seq![0b10000, 0b01000, 0b00100, 0b00010, 0b00100, 0b01000, 0b10000],
        '-' => seq![0, 0, 0, 0b11111, 0, 0, 0],
        ' ' => seq![0, 0, 0, 0, 0, 0, 0],
        _ => seq![0b11111, 0b10001, 0b00100, 0b00100, 0, 0b00100, 0],
    }
}

/// The glyph of `c` (an upper-case letter, a digit or one of `: . / + > -` and
/// space).
pub fn glyph(c: char) -> (rows: [u8; 7])
    ensures
        rows@ == glyph_rows(c),
{
    let rows: [u8; 7] = match c {
        'A' => [0b01110, 0b10001, 0b10001, 0b11111, 0b10001, 0b10001, 0b10001],
        'B' => [0b11110, 0b10001, 0b10001, 0b11110, 0b10001, 0b10001, 0b11110],
        'C' => [0b01111, 0b10000, 0b10000, 0b10000, 0b10000, 0b10000, 0b01111],
        'D' => [0b11110, 0b10001, 0b10001, 0b10001, 0b10001, 0b10001, 0b11110],
        'E' => [0b11111, 0b10000, 0b10000, 0b11110, 0b10000, 0b10000, 0b11111],
        'F' => [0b11111, 0b10000, 0b10000, 0b11110, 0b10000, 0b10000, 0b10000],
        'G' => [0b01111, 0b10000, 0b10000, 0b10111, 0b10001, 0b10001, 0b01111],
        'H' => [0b10001, 0b10001, 0b10001, 0b11111, 0b10001, 0b10001, 0b10001],
        'I' => [0b11111, 0b00100, 0b00100, 0b00100, 0b00100, 0b00100, 0b11111],
        'J' => [0b00111, 0b00010, 0b00010, 0b00010, 0b10010, 0b10010, 0b01100],
        'K' => [0b10001, 0b10010, 0b10100, 0b11000, 0b10100, 0b10010, 0b10001],
        'L' => [0b10000, 0b10000, 0b10000, 0b10000, 0b10000, 0b10000, 0b11111],
        'M' => [0b10001, 0b11011, 0b10101, 0b10101, 0b10001, 0b10001, 0b10001],
        'N' => [0b10001, 0b11001, 0b10101, 0b10011, 0b10001, 0b10001, 0b10001],
        'O' => [0b01110, 0b10001, 0b10001, 0b10001, 0b10001, 0b10001, 0b01110],
        'P' => [0b11110, 0b10001, 0b10001, 0b11110, 0b10000, 0b10000, 0b10000],
        'Q' => [0b01110, 0b10001, 0b10001, 0b10001, 0b10101, 0b10010, 0b01101],
        'R' => [0b11110, 0b10001, 0b10001, 0b11110, 0b10100, 0b10010, 0b10001],
        'S' => [0b01111, 0b10000, 0b10000, 0b01110, 0b00001, 0b00001, 0b11110],
        'T' => [0b11111, 0b00100, 0b00100, 0b00100, 0b00100, 0b00100, 0b00100],
        'U' => [0b10001, 0b10001, 0b10001, 0b10001, 0b10001, 0b10001, 0b01110],
        'V' => [0b10001, 0b10001, 0b10001, 0b10001, 0b10001, 0b01010, 0b00100],
        'W' => [0b10001, 0b10001, 0b10001, 0b10101, 0b10101, 0b10101, 0b01010],
        'X' => [0b10001, 0b10001, 0b01010, 0b00100, 0b01010, 0b10001, 0b10001],
        'Y' => [0b10001, 0b10001, 0b01010, 0b00100, 0b00100, 0b00100, 0b00100],
        'Z' => [0b11111, 0b00001, 0b00010, 0b00100, 0b01000, 0b10000, 0b11111],
        '0' => [0b01110, 0b10001, 0b10011, 0b10101, 0b11001, 0b10001, 0b01110],
        '1' => [0b00100, 0b01100, 0b00100, 0b00100, 0b00100, 0b00100, 0b01110],
        '2' => [0b01110, 0b10001, 0b00001, 0b00010, 0b00100, 0b01000, 0b11111],
        '3' => [0b11110, 0b00001, 0b00001, 0b01110, 0b00001, 0b00001, 0b11110],
        '4' => [0b00010, 0b00110, 0b01010, 0b10010, 0b11111, 0b00010, 0b00010],
        '5' => [0b11111, 0b10000, 0b10000, 0b11110, 0b00001, 0b00001, 0b11110],
        '6' => [0b01110, 0b10000, 0b10000, 0b11110, 0b10001, 0b10001, 0b01110],
        '7' => [0b11111, 0b00001, 0b00010, 0b00100, 0b01000, 0b01000, 0b01000],
        '8' => [0b01110, 0b10001, 0b10001, 0b01110, 0b10001, 0b10001, 0b01110],
        '9' => [0b01110, 0b10001, 0b10001, 0b01111, 0b00001, 0b00001, 0b01110],
        ':' => [0, 0b00100, 0b00100, 0, 0b00100, 0b00100, 0],
        '.' => [0, 0, 0, 0, 0, 0b00110, 0b00110],
        '/' => [0b00001, 0b00010, 0b00010, 0b00100, 0b01000, 0b01000, 0b10000],
        '+' => [0, 0b00100, 0b00100, 0b11111, 0b00100, 0b00100, 0],
        '>' => [0b10000, 0b01000, 0b00100, 0b00010, 0b00100, 0b01000, 0b10000],
        '-' => [0, 0, 0, 0b11111, 0, 0, 0],
        ' ' => [0, 0, 0, 0, 0, 0, 0],
        _ => [0b11111, 0b10001, 0b00100, 0b00100, 0, 0b00100, 0],
    };
    assert(rows@ =~= glyph_rows(c));
    rows
}

/// Whether pixel `col` of glyph row `row` is set.
pub open spec fn glyph_bit(rows: Seq<u8>, row: int, col: int) -> bool {
    (rows[row] & (1u8 << ((4 - col) as u32))) != 0
}

/// Pixel width of a text of `len` characters drawn at `scale`: six font
/// columns per character.
pub open spec fn text_width_spec(len: nat, scale: int) -> int {
    len * 6 * scale
}

/// Pixel width of `text` drawn at `scale`.
pub fn text_width(text: &str, scale: u32) -> (w: u32)
    requires
        text_width_spec(text@.len(), scale as int) <= u32::MAX,
    ensures
        w == text_width_spec(text@.len(), scale as int),
{
    let n = text.unicode_len();
    if scale == 0 {
        assert(text_width_spec(text@.len(), 0) == 0) by (nonlinear_arith);
        return 0;
    }
    assert(n * 6 <= u32::MAX) by (nonlinear_arith)
        requires
            n * 6 * scale <= u32::MAX,
            scale >= 1,
    ;
    let chars = n as u32;
    chars * 6 * scale
}

/// Whether character `k` of a text of `len` characters is drawn: drawing
/// starts at `origin_x` and stops once the cursor reaches the frame width.
pub open spec fn char_drawn(origin_x: int, scale: int, width: int, len: int, k: int) -> bool {
    0 <= k < len && (k == 0 || origin_x + 6 * scale * k < width)
}

/// Whether the font cell `(row, col)` of character `k` covers pixel `(px, py)`.
pub open spec fn cell_covers(
    text: Seq<char>,
    origin_x: int,
    origin_y: int,
    scale: int,
    width: int,
    k: int,
    row: int,
    col: int,
    px: int,
    py: int,
) -> bool {
    &&& char_drawn(origin_x, scale, width, text.len() as int, k)
    &&& 0 <= row < 7
    &&& 0 <= col < 5
    &&& glyph_bit(glyph_rows(ascii_upper(text[k])), row, col)
    &&& in_rect(px, py, origin_x + 6 * scale * k + col * scale, origin_y + row * scale, scale, scale)
}

/// Lexicographic order on (character, row, column) positions.
pub open spec fn lex_before(k: int, row: int, col: int, k0: int, r0: int, c0: int) -> bool {
    k < k0 || (k == k0 && (row < r0 || (row == r0 && col < c0)))
}

/// Whether some cell before position `(k0, r0, c0)` covers pixel `(px, py)`.
pub open spec fn covered_before(
    text: Seq<char>,
    origin_x: int,
    origin_y: int,
    scale: int,
    width: int,
    k0: int,
    r0: int,
    c0: int,
    px: int,
    py: int,
) -> bool {
    exists|k: int, row: int, col: int|
        lex_before(k, row, col, k0, r0, c0) && #[trigger] cell_covers(
            text,
            origin_x,
            origin_y,
            scale,
            width,
            k,
            row,
            col,
            px,
            py,
        )
}

/// Whether the drawn text covers pixel `(px, py)`.
pub open spec fn text_covers(
    text: Seq<char>,
    origin_x: int,
    origin_y: int,
    scale: int,
    width: int,
    px: int,
    py: int,
) -> bool {
    exists|k: int, row: int, col: int|
        #[trigger] cell_covers(text, origin_x, origin_y, scale, width, k, row, col, px, py)
}

/// The byte `i` of a pixel painted opaque `color`.
pub open spec fn painted_byte(i: int, color: [u8; 3]) -> u8 {
    if channel_of(i) == 3 {
        255u8
    } else {
        color[channel_of(i)]
    }
}

/// The image after drawing the cells before position `(k0, r0, c0)`.
pub open spec fn text_progress(
    rgba: Seq<u8>,
    w: int,
    text: Seq<char>,
    origin_x: int,
    origin_y: int,
    scale: int,
    color: [u8; 3],
    k0: int,
    r0: int,
    c0: int,
) -> Seq<u8> {
    Seq::new(
        rgba.len(),
        |i: int|
            if covered_before(
                text,
                origin_x,
                origin_y,
                scale,
                w,
                k0,
                r0,
                c0,
                col_of(i, w),
                row_of(i, w),
            ) {
                painted_byte(i, color)
            } else {
                rgba[i]
            },
    )
}

/// The image after drawing `text` in `color`: every pixel covered by a set
/// glyph cell of a drawn character becomes opaque `color`; the others keep
/// their value.
pub open spec fn draw_text_spec(
    rgba: Seq<u8>,
    w: int,
    text: Seq<char>,
    origin_x: int,
    origin_y: int,
    scale: int,
    color: [u8; 3],
) -> Seq<u8> {
    Seq::new(
        rgba.len(),
        |i: int|
            if text_covers(text, origin_x, origin_y, scale, w, col_of(i, w), row_of(i, w)) {
                painted_byte(i, color)
            } else {
                rgba[i]
            },
    )
}

/// Opaque blending replaces the channel.
pub proof fn lemma_blend_opaque(existing: u8, value: u8)
    ensures
        blend(existing, value, 255u8) == value,
{
    assert((existing as int * 0 + value as int * 255) / 255 == value as int) by (nonlinear_arith);
}

/// Advancing one cell adds exactly that cell to the covered set.
proof fn lemma_covered_step(
    text: Seq<char>,
    ox: int,
    oy: int,
    s: int,
    w: int,
    k: int,
    row: int,
    col: int,
    px: int,
    py: int,
)
    ensures
        covered_before(text, ox, oy, s, w, k, row, col + 1, px, py) == (covered_before(
            text,
            ox,
            oy,
            s,
            w,
            k,
            row,
            col,
            px,
            py,
        ) || cell_covers(text, ox, oy, s, w, k, row, col, px, py)),
{
    if covered_before(text, ox, oy, s, w, k, row, col + 1, px, py) {
        let (k1, r1, c1) = choose|k1: int, r1: int, c1: int|
            lex_before(k1, r1, c1, k, row, col + 1) && #[trigger] cell_covers(
                text,
                ox,
                oy,
                s,
                w,
                k1,
                r1,
                c1,
                px,
                py,
            );
        if !(k1 == k && r1 == row && c1 == col) {
            assert(lex_before(k1, r1, c1, k, row, col));
        }
    }
    if covered_before(text, ox, oy, s, w, k, row, col, px, py) {
        let (k1, r1, c1) = choose|k1: int, r1: int, c1: int|
            lex_before(k1, r1, c1, k, row, col) && #[trigger] cell_covers(
                text,
                ox,
                oy,
                s,
                w,
                k1,
                r1,
                c1,
                px,
                py,
            );
        assert(lex_before(k1, r1, c1, k, row, col + 1));
    }
    if cell_covers(text, ox, oy, s, w, k, row, col, px, py) {
        assert(lex_before(k, row, col, k, row, col + 1));
    }
}

/// Positions past the last column of a row, or past the last row of a
/// character, cover nothing new.
proof fn lemma_covered_wrap(
    text: Seq<char>,
    ox: int,
    oy: int,
    s: int,
    w: int,
    k: int,
    row: int,
    px: int,
    py: int,
)
    ensures
        covered_before(text, ox, oy, s, w, k, row, 5, px, py) == covered_before(
            text,
            ox,
            oy,
            s,
            w,
            k,
            row + 1,
            0,
            px,
            py,
        ),
        covered_before(text, ox, oy, s, w, k, 7, 0, px, py) == covered_before(
            text,
            ox,
            oy,
            s,
            w,
            k + 1,
            0,
            0,
            px,
            py,
        ),
{
    if covered_before(text, ox, oy, s, w, k, row + 1, 0, px, py) {
        let (k1, r1, c1) = choose|k1: int, r1: int, c1: int|
            lex_before(k1, r1, c1, k, row + 1, 0) && #[trigger] cell_covers(
                text,
                ox,
                oy,
                s,
                w,
                k1,
                r1,
                c1,
                px,
                py,
            );
        assert(lex_before(k1, r1, c1, k, row, 5));
    }
    if covered_before(text, ox, oy, s, w, k, row, 5, px, py) {
        let (k1, r1, c1) = choose|k1: int, r1: int, c1: int|
            lex_before(k1, r1, c1, k, row, 5) && #[trigger] cell_covers(
                text,
                ox,
                oy,
                s,
                w,
                k1,
                r1,
                c1,
                px,
                py,
            );
        assert(lex_before(k1, r1, c1, k, row + 1, 0));
    }
    if covered_before(text, ox, oy, s, w, k + 1, 0, 0, px, py) {
        let (k1, r1, c1) = choose|k1: int, r1: int, c1: int|
            lex_before(k1, r1, c1, k + 1, 0, 0) && #[trigger] cell_covers(
                text,
                ox,
                oy,
                s,
                w,
                k1,
                r1,
                c1,
                px,
                py,
            );
        assert(lex_before(k1, r1, c1, k, 7, 0));
    }
    if covered_before(text, ox, oy, s, w, k, 7, 0, px, py) {
        let (k1, r1, c1) = choose|k1: int, r1: int, c1: int|
            lex_before(k1, r1, c1, k, 7, 0) && #[trigger] cell_covers(
                text,
                ox,
                oy,
                s,
                w,
                k1,
                r1,
                c1,
                px,
                py,
            );
        assert(lex_before(k1, r1, c1, k + 1, 0, 0));
    }
}

/// Once drawing has stopped after `k` characters, the remaining characters
/// cover nothing.
proof fn lemma_covered_done(
    text: Seq<char>,
    ox: int,
    oy: int,
    s: int,
    w: int,
    k: int,
    px: int,
    py: int,
)
    requires
        k >= text.len() || (k >= 1 && s >= 0 && ox + 6 * s * k >= w),
    ensures
        covered_before(text, ox, oy, s, w, k, 0, 0, px, py) == text_covers(text, ox, oy, s, w, px, py),
{
    if text_covers(text, ox, oy, s, w, px, py) {
        let (k1, r1, c1) = choose|k1: int, r1: int, c1: int|
            #[trigger] cell_covers(text, ox, oy, s, w, k1, r1, c1, px, py);
        if k1 >= k {
            assert(k1 < text.len());
            assert(ox + 6 * s * k1 >= ox + 6 * s * k) by (nonlinear_arith)
                requires
                    k1 >= k,
                    s >= 0,
            ;
        }
        assert(lex_before(k1, r1, c1, k, 0, 0));
    }
    if covered_before(text, ox, oy, s, w, k, 0, 0, px, py) {
        let (k1, r1, c1) = choose|k1: int, r1: int, c1: int|
            lex_before(k1, r1, c1, k, 0, 0) && #[trigger] cell_covers(
                text,
                ox,
                oy,
                s,
                w,
                k1,
                r1,
                c1,
                px,
                py,
            );
    }
}

/// The cell step of `draw_text` keeps the progress description.
proof fn lemma_cell_painted(
    before: Seq<u8>,
    rgba: Seq<u8>,
    w: int,
    h: int,
    text: Seq<char>,
    ox: int,
    oy: int,
    s: int,
    color: [u8; 3],
    k: int,
    row: int,
    col: int,
    set: bool,
)
    requires
        rgba.len() == w * h * 4,
        before == text_progress(rgba, w, text, ox, oy, s, color, k, row, col),
        char_drawn(ox, s, w, text.len() as int, k),
        0 <= row < 7,
        0 <= col < 5,
        set == glyph_bit(glyph_rows(ascii_upper(text[k])), row, col),
    ensures
        (if set {
            fill_rect_spec(before, w, ox + 6 * s * k + col * s, oy + row * s, s, s, color, 255u8)
        } else {
            before
        }) == text_progress(rgba, w, text, ox, oy, s, color, k, row, col + 1),
{
    let after = if set {
        fill_rect_spec(before, w, ox + 6 * s * k + col * s, oy + row * s, s, s, color, 255u8)
    } else {
        before
    };
    let target = text_progress(rgba, w, text, ox, oy, s, color, k, row, col + 1);
    assert forall|i: int| 0 <= i < before.len() implies after[i] == target[i] by {
        let px = col_of(i, w);
        let py = row_of(i, w);
        lemma_covered_step(text, ox, oy, s, w, k, row, col, px, py);
        if set && in_rect(px, py, ox + 6 * s * k + col * s, oy + row * s, s, s) {
            assert(cell_covers(text, ox, oy, s, w, k, row, col, px, py));
            lemma_blend_opaque(before[i], color[0]);
            lemma_blend_opaque(before[i], color[1]);
            lemma_blend_opaque(before[i], color[2]);
        }
    }
    assert(after =~= target);
}

/// Draw `text` (upper-cased) with the 5×7 font at `(origin_x, origin_y)`,
/// each font pixel a `scale`×`scale` square of opaque `color`; drawing stops
/// once the cursor reaches the frame's right edge.
pub fn draw_text(
    frame: &mut RenderImage,
    origin_x: u32,
    origin_y: u32,
    text: &str,
    scale: u32,
    color: [u8; 3],
)
    requires
        old(frame).wf(),
        text@.len() > 0 ==> origin_x + 6 * scale <= u32::MAX,
        text@.len() > 0 ==> old(frame).width + 6 * scale <= u32::MAX,
        text@.len() > 0 ==> origin_y + 6 * scale <= u32::MAX,
    ensures
        final(frame).wf(),
        final(frame).width == old(frame).width,
        final(frame).height == old(frame).height,
        final(frame).non_background_pixels == old(frame).non_background_pixels,
        final(frame).rgba@ == draw_text_spec(
            old(frame).rgba@,
            old(frame).width as int,
            text@,
            origin_x as int,
            origin_y as int,
            scale as int,
            color,
        ),
{
    let ghost img0 = frame.rgba@;
    let ghost t = text@;
    let ghost ox = origin_x as int;
    let ghost oy = origin_y as int;
    let ghost s = scale as int;
    let fw = frame.width;
    let ghost wi = fw as int;
    let ghost hi = frame.height as int;
    let n = text.unicode_len();
    if n == 0 {
        assert(frame.rgba@ =~= draw_text_spec(img0, wi, t, ox, oy, s, color));
        return;
    }
    let mut cursor_x = origin_x;
    let mut k: usize = 0;
    let mut done = false;
    proof {
        assert forall|i: int| 0 <= i < frame.rgba@.len() implies frame.rgba@[i]
            == text_progress(img0, wi, t, ox, oy, s, color, 0, 0, 0)[i] by {
            if covered_before(t, ox, oy, s, wi, 0, 0, 0, col_of(i, wi), row_of(i, wi)) {
                let (k1, r1, c1) = choose|k1: int, r1: int, c1: int|
                    lex_before(k1, r1, c1, 0, 0, 0) && #[trigger] cell_covers(
                        t,
                        ox,
                        oy,
                        s,
                        wi,
                        k1,
                        r1,
                        c1,
                        col_of(i, wi),
                        row_of(i, wi),
                    );
            }
        }
        assert(frame.rgba@ =~= text_progress(img0, wi, t, ox, oy, s, color, 0, 0, 0));
    }
    while k < n && !done
        invariant
            frame.wf(),
            frame.width == fw,
            frame.height as int == hi,
            frame.non_background_pixels == old(frame).non_background_pixels,
            img0 == old(frame).rgba@,
            img0.len() == wi * hi * 4,
            t == text@,
            n == t.len(),
            wi == fw,
            ox == origin_x,
            oy == origin_y,
            s == scale,
            origin_x + 6 * scale <= u32::MAX,
            fw + 6 * scale <= u32::MAX,
            origin_y + 6 * scale <= u32::MAX,
            k <= n,
            cursor_x as int == ox + 6 * s * k,
            !done && k > 0 ==> cursor_x < fw,
            done ==> k >= 1 && cursor_x >= fw,
            frame.rgba@ == text_progress(img0, wi, t, ox, oy, s, color, k as int, 0, 0),
        decreases n - k,
    {
        assert(char_drawn(ox, s, wi, n as int, k as int));
        let c = char_to_ascii_upper(text.get_char(k));
        let rows = glyph(c);
        let mut row: u32 = 0;
        while row < 7
            invariant
                frame.wf(),
                frame.width == fw,
                frame.height as int == hi,
                frame.non_background_pixels == old(frame).non_background_pixels,
                img0 == old(frame).rgba@,
                img0.len() == wi * hi * 4,
                t == text@,
                n == t.len(),
                wi == fw,
                ox == origin_x,
                oy == origin_y,
                s == scale,
                k < n,
                char_drawn(ox, s, wi, n as int, k as int),
                cursor_x as int == ox + 6 * s * k,
                cursor_x + 6 * scale <= u32::MAX,
                origin_y + 6 * scale <= u32::MAX,
                rows@ == glyph_rows(ascii_upper(t[k as int])),
                row <= 7,
                frame.rgba@ == text_progress(img0, wi, t, ox, oy, s, color, k as int, row as int, 0),
            decreases 7 - row,
        {
            let bits = rows[row as usize];
            let mut column: u32 = 0;
            while column < 5
                invariant
                    frame.wf(),
                    frame.width == fw,
                    frame.height as int == hi,
                    frame.non_background_pixels == old(frame).non_background_pixels,
                    img0 == old(frame).rgba@,
                    img0.len() == wi * hi * 4,
                    t == text@,
                    n == t.len(),
                    wi == fw,
                    ox == origin_x,
                    oy == origin_y,
                    s == scale,
                    k < n,
                    char_drawn(ox, s, wi, n as int, k as int),
                    cursor_x as int == ox + 6 * s * k,
                    cursor_x + 6 * scale <= u32::MAX,
                    origin_y + 6 * scale <= u32::MAX,
                    rows@ == glyph_rows(ascii_upper(t[k as int])),
                    row < 7,
                    bits == rows@[row as int],
                    column <= 5,
                    frame.rgba@ == text_progress(
                        img0,
                        wi,
                        t,
                        ox,
                        oy,
                        s,
                        color,
                        k as int,
                        row as int,
                        column as int,
                    ),
                decreases 5 - column,
            {
                let set = bits & (1u8 << (4 - column)) != 0;
                let ghost before = frame.rgba@;
                proof {
                    assert(column * scale <= 4 * scale) by (nonlinear_arith)
                        requires
                            column <= 4,
                    ;
                    assert(row * scale <= 6 * scale) by (nonlinear_arith)
                        requires
                            row <= 6,
                    ;
                    lemma_cell_painted(
                        before,
                        img0,
                        wi,
                        hi,
                        t,
                        ox,
                        oy,
                        s,
                        color,
                        k as int,
                        row as int,
                        column as int,
                        set,
                    );
                }
                if set {
                    fill_rect(
                        frame,
                        cursor_x + column * scale,
                        origin_y + row * scale,
                        scale,
                        scale,
                        color,
                        255,
                    );
                }
                column = column + 1;
            }
            proof {
                assert forall|i: int| 0 <= i < frame.rgba@.len() implies frame.rgba@[i]
                    == text_progress(img0, wi, t, ox, oy, s, color, k as int, row + 1, 0)[i] by {
                    lemma_covered_wrap(t, ox, oy, s, wi, k as int, row as int, col_of(i, wi), row_of(i, wi));
                }
                assert(frame.rgba@ =~= text_progress(img0, wi, t, ox, oy, s, color, k as int, row + 1, 0));
            }
            row = row + 1;
        }
        proof {
            assert forall|i: int| 0 <= i < frame.rgba@.len() implies frame.rgba@[i]
                == text_progress(img0, wi, t, ox, oy, s, color, k + 1, 0, 0)[i] by {
                lemma_covered_wrap(t, ox, oy, s, wi, k as int, 6, col_of(i, wi), row_of(i, wi));
            }
            assert(frame.rgba@ =~= text_progress(img0, wi, t, ox, oy, s, color, k + 1, 0, 0));
        }
        assert(6 * scale + cursor_x <= u32::MAX);
        cursor_x = cursor_x + 6 * scale;
        k = k + 1;
        assert(cursor_x as int == ox + 6 * s * k) by (nonlinear_arith)
            requires
                cursor_x as int == ox + 6 * s * (k - 1) + 6 * s,
        ;
        if cursor_x >= fw {
            done = true;
        }
    }
    proof {
        let full = draw_text_spec(img0, wi, t, ox, oy, s, color);
        assert forall|i: int| 0 <= i < frame.rgba@.len() implies frame.rgba@[i] == full[i] by {
            lemma_covered_done(t, ox, oy, s, wi, k as int, col_of(i, wi), row_of(i, wi));
        }
        assert(frame.rgba@ =~= full);
    }
}

} // verus!
