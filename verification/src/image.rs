//! RGBA raster images and the drawing operations on them: blended
//! rectangles, region copies and bitmap text.

use vstd::prelude::*;
use vstd::arithmetic::div_mod::lemma_fundamental_div_mod_converse;

verus! {

/// An RGBA8 raster image, row-major, four bytes per pixel.
#[derive(Debug, Clone, PartialEq, Eq)]
pub struct RenderImage {
    pub width: u32,
    pub height: u32,
    pub rgba: Vec<u8>,
    pub non_background_pixels: usize,
}

/// The pixel buffer holds exactly `width * height` RGBA pixels, and every
/// byte offset fits in a `u32`.
pub open spec fn image_wf(width: int, height: int, len: int) -> bool {
    &&& len == width * height * 4
    &&& width * height * 4 <= u32::MAX
}

impl RenderImage {
    /// The pixel buffer matches the dimensions.
    pub open spec fn wf(&self) -> bool {
        image_wf(self.width as int, self.height as int, self.rgba@.len() as int)
    }
}

/// Byte offset of the first channel of pixel `(px, py)` in an image `w` wide.
pub open spec fn pixel_index(px: int, py: int, w: int) -> int {
    (py * w + px) * 4
}

/// Column of the pixel that byte `i` belongs to.
pub open spec fn col_of(i: int, w: int) -> int {
    (i / 4) % w
}

/// Row of the pixel that byte `i` belongs to.
pub open spec fn row_of(i: int, w: int) -> int {
    (i / 4) / w
}

/// Channel (0 red, 1 green, 2 blue, 3 alpha) of byte `i`.
pub open spec fn channel_of(i: int) -> int {
    i % 4
}

/// Every byte of an image lies in exactly one pixel and channel.
pub proof fn lemma_index_decompose(i: int, w: int, h: int)
    requires
        w > 0,
        h >= 0,
        0 <= i < w * h * 4,
    ensures
        0 <= col_of(i, w) < w,
        0 <= row_of(i, w) < h,
        0 <= channel_of(i) < 4,
        i == pixel_index(col_of(i, w), row_of(i, w), w) + channel_of(i),
{
    let p = i / 4;
    let c = i % 4;
    assert(i == p * 4 + c && 0 <= c < 4) by (nonlinear_arith)
        requires
            p == i / 4,
            c == i % 4,
            i >= 0,
    ;
    let col = p % w;
    let row = p / w;
    assert(p == row * w + col && 0 <= col < w && row >= 0) by (nonlinear_arith)
        requires
            col == p % w,
            row == p / w,
            w > 0,
            p >= 0,
    ;
    assert(row < h) by (nonlinear_arith)
        requires
            p == row * w + col,
            0 <= col < w,
            i == p * 4 + c,
            0 <= c < 4,
            i < w * h * 4,
            w > 0,
            row >= 0,
    ;
}

/// The byte of channel `c` of pixel `(px, py)` decomposes back to that pixel.
pub proof fn lemma_index_compose(px: int, py: int, c: int, w: int)
    requires
        0 <= px < w,
        0 <= py,
        0 <= c < 4,
    ensures
        col_of(pixel_index(px, py, w) + c, w) == px,
        row_of(pixel_index(px, py, w) + c, w) == py,
        channel_of(pixel_index(px, py, w) + c) == c,
{
    let i = pixel_index(px, py, w) + c;
    let p = py * w + px;
    assert(p >= 0) by (nonlinear_arith)
        requires
            0 <= px < w,
            0 <= py,
            p == py * w + px,
    ;
    lemma_fundamental_div_mod_converse(i, 4, p, c);
    lemma_fundamental_div_mod_converse(p, w, py, px);
}

/// The last pixel offset of a well-formed image fits in a `u32`.
pub proof fn lemma_pixel_index_bound(px: int, py: int, w: int, h: int)
    requires
        0 <= px < w,
        0 <= py < h,
        w * h * 4 <= u32::MAX,
    ensures
        0 <= pixel_index(px, py, w),
        pixel_index(px, py, w) + 4 <= w * h * 4,
        py * w + px < w * h,
{
    assert(py * w + px < w * h && 0 <= py * w + px) by (nonlinear_arith)
        requires
            0 <= px < w,
            0 <= py < h,
    ;
}

/// A channel value blended over `existing` with opacity `alpha` out of 255.
pub open spec fn blend(existing: u8, value: u8, alpha: u8) -> u8 {
    ((existing as int * (255 - alpha as int) + value as int * alpha as int) / 255) as u8
}

/// Whether pixel `(px, py)` lies in the rectangle at `(x, y)` of the given size.
pub open spec fn in_rect(px: int, py: int, x: int, y: int, width: int, height: int) -> bool {
    x <= px < x + width && y <= py < y + height
}

/// The byte `i` after a rectangle fill: color channels are blended with
/// `alpha`, the alpha channel becomes opaque.
pub open spec fn filled_byte(rgba: Seq<u8>, i: int, color: [u8; 3], alpha: u8) -> u8 {
    if channel_of(i) == 3 {
        255u8
    } else {
        blend(rgba[i], color[channel_of(i)], alpha)
    }
}

/// The image after blending `color` over the rectangle at `(x, y)` of the given
/// size, clipped to the image.
pub open spec fn fill_rect_spec(
    rgba: Seq<u8>,
    w: int,
    x: int,
    y: int,
    width: int,
    height: int,
    color: [u8; 3],
    alpha: u8,
) -> Seq<u8> {
    Seq::new(
        rgba.len(),
        |i: int|
            if in_rect(col_of(i, w), row_of(i, w), x, y, width, height) {
                filled_byte(rgba, i, color, alpha)
            } else {
                rgba[i]
            },
    )
}

/// The rectangle fill once the rows before `row`, and the pixels of `row`
/// before column `col`, have been done.
pub open spec fn fill_progress(
    rgba: Seq<u8>,
    w: int,
    x: int,
    y: int,
    width: int,
    height: int,
    color: [u8; 3],
    alpha: u8,
    row: int,
    col: int,
) -> Seq<u8> {
    Seq::new(
        rgba.len(),
        |i: int|
            if in_rect(col_of(i, w), row_of(i, w), x, y, width, height) && (row_of(i, w) < row || (
            row_of(i, w) == row && col_of(i, w) < col)) {
                filled_byte(rgba, i, color, alpha)
            } else {
                rgba[i]
            },
    )
}

/// One channel blended over `existing`.
fn blend_channel(existing: u8, value: u8, alpha: u8) -> (r: u8)
    ensures
        r == blend(existing, value, alpha),
{
    let e = existing as u16;
    let v = value as u16;
    let a = alpha as u16;
    assert(e * (255 - a) + v * a <= 65025) by (nonlinear_arith)
        requires
            e <= 255,
            v <= 255,
            a <= 255,
    ;
    ((e * (255 - a) + v * a) / 255) as u8
}

/// Blend `color` over the pixel whose first byte is at `index`.
fn blend_pixel(rgba: &mut Vec<u8>, index: usize, color: [u8; 3], alpha: u8)
    requires
        index + 4 <= old(rgba)@.len(),
    ensures
        final(rgba)@ == old(rgba)@.update(index as int, blend(old(rgba)@[index as int], color[0], alpha)).update(
            index + 1,
            blend(old(rgba)@[index + 1], color[1], alpha),
        ).update(index + 2, blend(old(rgba)@[index + 2], color[2], alpha)).update(
            index + 3,
            255u8,
        ),
{
    let n = rgba.len();
    let b0 = blend_channel(rgba[index], color[0], alpha);
    rgba.set(index, b0);
    let b1 = blend_channel(rgba[index + 1], color[1], alpha);
    rgba.set(index + 1, b1);
    let b2 = blend_channel(rgba[index + 2], color[2], alpha);
    rgba.set(index + 2, b2);
    rgba.set(index + 3, 255);
}

/// Blend `color` with opacity `alpha` over the rectangle at `(x, y)` of the
/// given size, clipped to the frame; the covered pixels become opaque.
pub fn fill_rect(
    frame: &mut RenderImage,
    x: u32,
    y: u32,
    width: u32,
    height: u32,
    color: [u8; 3],
    alpha: u8,
)
    requires
        old(frame).wf(),
    ensures
        final(frame).wf(),
        final(frame).width == old(frame).width,
        final(frame).height == old(frame).height,
        final(frame).non_background_pixels == old(frame).non_background_pixels,
        final(frame).rgba@ == fill_rect_spec(
            old(frame).rgba@,
            old(frame).width as int,
            x as int,
            y as int,
            width as int,
            height as int,
            color,
            alpha,
        ),
{
    let ghost img0 = frame.rgba@;
    let fw = frame.width;
    let fh = frame.height;
    let end_x = if x.saturating_add(width) < fw { x.saturating_add(width) } else { fw };
    let end_y = if y.saturating_add(height) < fh { y.saturating_add(height) } else { fh };
    let start_x = if x < end_x { x } else { end_x };
    let mut pixel_y = if y < end_y { y } else { end_y };
    let ghost wi = fw as int;
    let ghost hi = fh as int;
    while pixel_y < end_y
        invariant
            frame.wf(),
            frame.width == fw,
            frame.height == fh,
            frame.non_background_pixels == old(frame).non_background_pixels,
            img0 == old(frame).rgba@,
            wi == fw,
            hi == fh,
            end_x <= fw,
            end_y <= fh,
            end_x as int == if x + width < fw { x + width } else { fw as int },
            end_y as int == if y + height < fh { y + height } else { fh as int },
            start_x as int == if x < end_x { x as int } else { end_x as int },
            pixel_y <= end_y,
            y <= pixel_y || pixel_y == end_y,
            frame.rgba@ == fill_progress(
                img0,
                wi,
                x as int,
                y as int,
                width as int,
                height as int,
                color,
                alpha,
                pixel_y as int,
                0,
            ),
        decreases end_y - pixel_y,
    {
        let mut pixel_x = start_x;
        while pixel_x < end_x
            invariant
                frame.wf(),
                frame.width == fw,
                frame.height == fh,
                frame.non_background_pixels == old(frame).non_background_pixels,
                img0 == old(frame).rgba@,
                wi == fw,
                hi == fh,
                end_x <= fw,
                end_y <= fh,
                end_x as int == if x + width < fw { x + width } else { fw as int },
                end_y as int == if y + height < fh { y + height } else { fh as int },
                start_x as int == if x < end_x { x as int } else { end_x as int },
                pixel_y < end_y,
                y <= pixel_y,
                start_x <= pixel_x <= end_x,
                frame.rgba@ == fill_progress(
                    img0,
                    wi,
                    x as int,
                    y as int,
                    width as int,
                    height as int,
                    color,
                    alpha,
                    pixel_y as int,
                    pixel_x as int,
                ) || pixel_x == start_x && frame.rgba@ == fill_progress(
                    img0,
                    wi,
                    x as int,
                    y as int,
                    width as int,
                    height as int,
                    color,
                    alpha,
                    pixel_y as int,
                    0,
                ),
            decreases end_x - pixel_x,
        {
            proof {
                lemma_pixel_index_bound(pixel_x as int, pixel_y as int, wi, hi);
            }
            let index = ((pixel_y * fw + pixel_x) * 4) as usize;
            let ghost before = frame.rgba@;
            blend_pixel(&mut frame.rgba, index, color, alpha);
            proof {
                let after = fill_progress(
                    img0,
                    wi,
                    x as int,
                    y as int,
                    width as int,
                    height as int,
                    color,
                    alpha,
                    pixel_y as int,
                    pixel_x + 1,
                );
                let prev = fill_progress(
                    img0,
                    wi,
                    x as int,
                    y as int,
                    width as int,
                    height as int,
                    color,
                    alpha,
                    pixel_y as int,
                    pixel_x as int,
                );
                assert(before == prev);
                assert(in_rect(pixel_x as int, pixel_y as int, x as int, y as int, width as int, height as int));
                assert forall|i: int| 0 <= i < frame.rgba@.len() implies frame.rgba@[i] == after[i] by {
                    lemma_index_decompose(i, wi, hi);
                    let c = col_of(i, wi);
                    let r = row_of(i, wi);
                    if r == pixel_y && c == pixel_x {
                        let ch = channel_of(i);
                        lemma_index_compose(pixel_x as int, pixel_y as int, ch, wi);
                        assert(i == index + ch);
                        assert(before[i] == img0[i]);
                        if ch == 0 {
                            assert(frame.rgba@[i] == blend(img0[i], color[0], alpha));
                        } else if ch == 1 {
                            assert(frame.rgba@[i] == blend(img0[i], color[1], alpha));
                        } else if ch == 2 {
                            assert(frame.rgba@[i] == blend(img0[i], color[2], alpha));
                        } else {
                            assert(frame.rgba@[i] == 255u8);
                        }
                    } else {
                        assert(i < index || i >= index + 4) by {
                            if index <= i < index + 4 {
                                lemma_index_compose(pixel_x as int, pixel_y as int, i - index, wi);
                            }
                        }
                        assert(frame.rgba@[i] == before[i]);
                    }
                }
                assert(frame.rgba@ =~= after);
            }
            pixel_x = pixel_x + 1;
        }
        proof {
            let done = fill_progress(
                img0,
                wi,
                x as int,
                y as int,
                width as int,
                height as int,
                color,
                alpha,
                pixel_y + 1,
                0,
            );
            assert forall|i: int| 0 <= i < frame.rgba@.len() implies frame.rgba@[i] == done[i] by {
                lemma_index_decompose(i, wi, hi);
            }
            assert(frame.rgba@ =~= done);
        }
        pixel_y = pixel_y + 1;
    }
    proof {
        let full = fill_rect_spec(
            img0,
            wi,
            x as int,
            y as int,
            width as int,
            height as int,
            color,
            alpha,
        );
        assert forall|i: int| 0 <= i < frame.rgba@.len() implies frame.rgba@[i] == full[i] by {
            lemma_index_decompose(i, wi, hi);
        }
        assert(frame.rgba@ =~= full);
    }
}

/// A copy of `image` with the same dimensions, pixels and pixel count.
pub fn duplicate(image: &RenderImage) -> (r: RenderImage)
    ensures
        r.width == image.width,
        r.height == image.height,
        r.rgba@ == image.rgba@,
        r.non_background_pixels == image.non_background_pixels,
{
    let rgba = image.rgba.clone();
    assert(rgba@ =~= image.rgba@);
    RenderImage {
        width: image.width,
        height: image.height,
        rgba,
        non_background_pixels: image.non_background_pixels,
    }
}

/// The target image after copying, for every row, the pixels of the source
/// whose column lies in `start..end`.
pub open spec fn copy_region_spec(target: Seq<u8>, source: Seq<u8>, w: int, start: int, end: int) -> Seq<u8> {
    Seq::new(
        target.len(),
        |i: int| if start <= col_of(i, w) < end { source[i] } else { target[i] },
    )
}

/// The region copy once the rows before `row`, and the columns of `row`
/// before `col`, have been copied.
pub open spec fn copy_progress(
    target: Seq<u8>,
    source: Seq<u8>,
    w: int,
    start: int,
    end: int,
    row: int,
    col: int,
) -> Seq<u8> {
    Seq::new(
        target.len(),
        |i: int|
            if start <= col_of(i, w) < end && (row_of(i, w) < row || (row_of(i, w) == row && col_of(
                i,
                w,
            ) < col)) {
                source[i]
            } else {
                target[i]
            },
    )
}

/// Copy the four bytes of the pixel at `index` from `source`.
fn copy_pixel(target: &mut Vec<u8>, source: &Vec<u8>, index: usize)
    requires
        index + 4 <= old(target)@.len(),
        index + 4 <= source@.len(),
    ensures
        final(target)@ == old(target)@.update(index as int, source@[index as int]).update(
            index + 1,
            source@[index + 1],
        ).update(index + 2, source@[index + 2]).update(index + 3, source@[index + 3]),
{
    let n = target.len();
    target.set(index, source[index]);
    target.set(index + 1, source[index + 1]);
    target.set(index + 2, source[index + 2]);
    target.set(index + 3, source[index + 3]);
}

/// Copy the columns `start_x..end_x` (clipped to the target) of every row of
/// `source` into `target`.  Both images have the same dimensions.
pub fn copy_region(source: &RenderImage, target: &mut RenderImage, start_x: u32, end_x: u32)
    requires
        old(target).wf(),
        start_x < end_x && start_x < old(target).width && old(target).height > 0 ==> source.rgba@.len()
            >= old(target).rgba@.len(),
    ensures
        final(target).wf(),
        final(target).width == old(target).width,
        final(target).height == old(target).height,
        final(target).non_background_pixels == old(target).non_background_pixels,
        final(target).rgba@ == copy_region_spec(
            old(target).rgba@,
            source.rgba@,
            old(target).width as int,
            start_x as int,
            end_x as int,
        ),
{
    let ghost t0 = target.rgba@;
    let ghost src = source.rgba@;
    let tw = target.width;
    let th = target.height;
    let ghost wi = tw as int;
    let ghost hi = th as int;
    let end = if end_x < tw { end_x } else { tw };
    let first_x = if start_x < end { start_x } else { end };
    if first_x >= end || th == 0 {
        proof {
            assert forall|i: int| 0 <= i < t0.len() implies !(start_x <= #[trigger] col_of(i, wi) < end_x) by {
                lemma_index_decompose(i, wi, hi);
            }
        }
        assert(target.rgba@ =~= copy_region_spec(t0, src, wi, start_x as int, end_x as int));
        return;
    }
    let mut y: u32 = 0;
    while y < th
        invariant
            target.wf(),
            target.width == tw,
            target.height == th,
            target.non_background_pixels == old(target).non_background_pixels,
            t0 == old(target).rgba@,
            src == source.rgba@,
            src.len() >= t0.len(),
            wi == tw,
            hi == th,
            end <= tw,
            end as int == if end_x < tw { end_x as int } else { tw as int },
            first_x as int == if start_x < end { start_x as int } else { end as int },
            y <= th,
            target.rgba@ == copy_progress(t0, src, wi, start_x as int, end as int, y as int, 0),
        decreases th - y,
    {
        let mut x = first_x;
        while x < end
            invariant
                target.wf(),
                target.width == tw,
                target.height == th,
                target.non_background_pixels == old(target).non_background_pixels,
                t0 == old(target).rgba@,
                src == source.rgba@,
                src.len() >= t0.len(),
                wi == tw,
                hi == th,
                end <= tw,
            end as int == if end_x < tw { end_x as int } else { tw as int },
                first_x as int == if start_x < end { start_x as int } else { end as int },
                y < th,
                first_x <= x <= end,
                target.rgba@ == copy_progress(t0, src, wi, start_x as int, end as int, y as int, x as int),
            decreases end - x,
        {
            proof {
                lemma_pixel_index_bound(x as int, y as int, wi, hi);
            }
            let index = ((y * tw + x) * 4) as usize;
            let ghost before = target.rgba@;
            copy_pixel(&mut target.rgba, &source.rgba, index);
            proof {
                let after = copy_progress(t0, src, wi, start_x as int, end as int, y as int, x + 1);
                assert forall|i: int| 0 <= i < target.rgba@.len() implies target.rgba@[i] == after[i] by {
                    lemma_index_decompose(i, wi, hi);
                    if row_of(i, wi) == y && col_of(i, wi) == x {
                        let ch = channel_of(i);
                        lemma_index_compose(x as int, y as int, ch, wi);
                        assert(i == index + ch);
                    } else {
                        assert(i < index || i >= index + 4) by {
                            if index <= i < index + 4 {
                                lemma_index_compose(x as int, y as int, i - index, wi);
                            }
                        }
                    }
                }
                assert(target.rgba@ =~= after);
            }
            x = x + 1;
        }
        proof {
            let done = copy_progress(t0, src, wi, start_x as int, end as int, y + 1, 0);
            assert forall|i: int| 0 <= i < target.rgba@.len() implies target.rgba@[i] == done[i] by {
                lemma_index_decompose(i, wi, hi);
            }
            assert(target.rgba@ =~= done);
        }
        y = y + 1;
    }
    proof {
        let full = copy_region_spec(t0, src, wi, start_x as int, end_x as int);
        assert forall|i: int| 0 <= i < target.rgba@.len() implies target.rgba@[i] == full[i] by {
            lemma_index_decompose(i, wi, hi);
        }
        assert(target.rgba@ =~= full);
    }
}

} // verus!
