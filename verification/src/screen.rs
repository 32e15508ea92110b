//! Copying an emulator frame into a locked window buffer.
//!
//! The window buffer holds 4 bytes per pixel in RGBX order and `stride`
//! pixels per line. Each frame pixel inside both the frame and the buffer is
//! written as its red, green and blue bytes followed by `0xff`; a pixel whose
//! 4 bytes would not fit in the buffer is skipped. Lines are written top to
//! bottom, so where lines overlap (a stride narrower than a line) the lower
//! line's bytes are what stays.

use vstd::prelude::*;

verus! {

/// A frame pixel's color.
#[derive(Clone, Copy, Debug, PartialEq, Eq, Structural)]
pub struct Rgb {
    pub r: u8,
    pub g: u8,
    pub b: u8,
}

/// The first byte of line `y` in a buffer of `stride` pixels per line.
pub open spec fn row_start(stride: int, y: int) -> int {
    y * stride * 4
}

/// Whether line `y` writes byte `i`: the byte falls on one of the line's
/// first `cols` pixels, and that pixel's 4 bytes fit in `len` bytes.
pub open spec fn covers(len: int, stride: int, cols: int, y: int, i: int) -> bool {
    let rs = row_start(stride, y);
    &&& rs <= i
    &&& (i - rs) / 4 < cols
    &&& rs + ((i - rs) / 4) * 4 + 4 <= len
}

/// The last of the first `rows` lines that writes byte `i`, if any.
pub open spec fn last_covering_row(len: int, stride: int, cols: int, rows: nat, i: int) -> Option<int>
    decreases rows,
{
    if rows == 0 {
        None
    } else if covers(len, stride, cols, rows - 1, i) {
        Some(rows - 1)
    } else {
        last_covering_row(len, stride, cols, (rows - 1) as nat, i)
    }
}

/// Byte `k` (0 to 3) of a pixel in RGBX order.
pub open spec fn channel(p: Rgb, k: int) -> u8 {
    if k == 0 {
        p.r
    } else if k == 1 {
        p.g
    } else if k == 2 {
        p.b
    } else {
        0xff
    }
}

/// Byte `i` of a buffer that held `old` after the first `rows` lines of
/// `cols` pixels of a frame `src_width` pixels wide have been copied in.
pub open spec fn blitted_byte(
    old: Seq<u8>,
    pixels: Seq<Rgb>,
    src_width: int,
    stride: int,
    cols: int,
    rows: nat,
    i: int,
) -> u8 {
    match last_covering_row(old.len() as int, stride, cols, rows, i) {
        Some(y) => {
            let rs = row_start(stride, y);
            channel(pixels[y * src_width + (i - rs) / 4], (i - rs) % 4)
        },
        None => old[i],
    }
}

proof fn lemma_pixel_index(y: int, x: int, w: int, h: int)
    by (nonlinear_arith)
    requires
        0 <= y < h,
        0 <= x < w,
    ensures
        0 <= y * w + x < w * h,
{
}

/// Copies the frame `pixels`, `src_width` by `src_height` pixels in row-major
/// order, into `dst`, a buffer of `dst_width` by `dst_height` pixels with
/// `dst_stride` pixels per line, as described for this module.
pub fn blit_frame(
    dst: &mut [u8],
    dst_stride: usize,
    dst_width: u32,
    dst_height: u32,
    pixels: &[Rgb],
    src_width: u32,
    src_height: u32,
)
    requires
        pixels@.len() == src_width * src_height,
    ensures
        final(dst)@.len() == old(dst)@.len(),
        forall|i: int|
            0 <= i < old(dst)@.len() ==> #[trigger] final(dst)@[i] == blitted_byte(
                old(dst)@,
                pixels@,
                src_width as int,
                dst_stride as int,
                if src_width < dst_width { src_width as int } else { dst_width as int },
                (if src_height < dst_height { src_height } else { dst_height }) as nat,
                i,
            ),
{
    let rows: usize = if src_height < dst_height { src_height as usize } else { dst_height as usize };
    let cols: usize = if src_width < dst_width { src_width as usize } else { dst_width as usize };
    let len = dst.len();
    let npix = pixels.len();
    let ghost old_dst = dst@;
    let ghost stride = dst_stride as int;
    let mut y: usize = 0;
    while y < rows
        invariant
            dst@.len() == len,
            len == old_dst.len(),
            rows <= src_height,
            rows <= dst_height,
            cols <= src_width,
            cols <= dst_width,
            y <= rows,
            stride == dst_stride,
            pixels@.len() == src_width * src_height,
            npix == pixels@.len(),
            forall|i: int|
                0 <= i < len ==> #[trigger] dst@[i] == blitted_byte(
                    old_dst,
                    pixels@,
                    src_width as int,
                    stride,
                    cols as int,
                    y as nat,
                    i,
                ),
        decreases rows - y,
    {
        let row_start_opt = match y.checked_mul(dst_stride) {
            Some(v) => v.checked_mul(4),
            None => None,
        };
        match row_start_opt {
            None => {
                assert forall|i: int| 0 <= i < len implies #[trigger] dst@[i] == blitted_byte(
                    old_dst,
                    pixels@,
                    src_width as int,
                    stride,
                    cols as int,
                    (y + 1) as nat,
                    i,
                ) by {
                    assert(!covers(len as int, stride, cols as int, y as int, i));
                }
            },
            Some(rs) => {
                assert(rs == row_start(stride, y as int));
                let mut x: usize = 0;
                while x < cols
                    invariant
                        dst@.len() == len,
                        len == old_dst.len(),
                        rows <= src_height,
                        cols <= src_width,
                        y < rows,
                        x <= cols,
                        stride == dst_stride,
                        rs == row_start(stride, y as int),
                        pixels@.len() == src_width * src_height,
                        npix == pixels@.len(),
                        forall|i: int|
                            0 <= i < len ==> #[trigger] dst@[i] == if covers(len as int, stride, x as int, y as int, i) {
                                channel(pixels@[y * src_width + (i - rs) / 4], (i - rs) % 4)
                            } else {
                                blitted_byte(old_dst, pixels@, src_width as int, stride, cols as int, y as nat, i)
                            },
                    decreases cols - x,
                {
                    proof {
                        lemma_pixel_index(y as int, x as int, src_width as int, src_height as int);
                        assert(y * src_width <= y * src_width + x);
                    }
                    let off_opt = match x.checked_mul(4) {
                        Some(dx) => rs.checked_add(dx),
                        None => None,
                    };
                    let ghost prev = dst@;
                    match off_opt {
                        Some(off) => {
                            if len >= 4 && off <= len - 4 {
                                let p = pixels[y * (src_width as usize) + x];
                                dst[off] = p.r;
                                dst[off + 1] = p.g;
                                dst[off + 2] = p.b;
                                dst[off + 3] = 0xff;
                                assert forall|i: int| 0 <= i < len implies #[trigger] dst@[i] == if covers(len as int, stride, x + 1, y as int, i) {
                                    channel(pixels@[y * src_width + (i - rs) / 4], (i - rs) % 4)
                                } else {
                                    blitted_byte(old_dst, pixels@, src_width as int, stride, cols as int, y as nat, i)
                                } by {
                                    if off <= i < off + 4 {
                                        assert((i - rs) / 4 == x);
                                        assert((i - rs) % 4 == i - off);
                                    } else {
                                        assert(dst@[i] == prev[i]);
                                    }
                                }
                            } else {
                                assert forall|i: int| 0 <= i < len implies #[trigger] dst@[i] == if covers(len as int, stride, x + 1, y as int, i) {
                                    channel(pixels@[y * src_width + (i - rs) / 4], (i - rs) % 4)
                                } else {
                                    blitted_byte(old_dst, pixels@, src_width as int, stride, cols as int, y as nat, i)
                                } by {
                                    assert(covers(len as int, stride, x + 1, y as int, i) == covers(len as int, stride, x as int, y as int, i));
                                }
                            }
                        },
                        None => {
                            assert forall|i: int| 0 <= i < len implies #[trigger] dst@[i] == if covers(len as int, stride, x + 1, y as int, i) {
                                channel(pixels@[y * src_width + (i - rs) / 4], (i - rs) % 4)
                            } else {
                                blitted_byte(old_dst, pixels@, src_width as int, stride, cols as int, y as nat, i)
                            } by {
                                assert(covers(len as int, stride, x + 1, y as int, i) == covers(len as int, stride, x as int, y as int, i));
                            }
                        },
                    }
                    x = x + 1;
                }
                assert forall|i: int| 0 <= i < len implies #[trigger] dst@[i] == blitted_byte(
                    old_dst,
                    pixels@,
                    src_width as int,
                    stride,
                    cols as int,
                    (y + 1) as nat,
                    i,
                ) by {
                }
            },
        }
        y = y + 1;
    }
}

proof fn lemma_later_rows_start_later(stride: int, y: int, y2: int)
    by (nonlinear_arith)
    requires
        0 <= stride,
        0 <= y < y2,
    ensures
        row_start(stride, y2) >= row_start(stride, y) + stride * 4,
{
}

proof fn lemma_last_covering_row_is(
    len: int,
    stride: int,
    cols: int,
    rows: nat,
    y: int,
    i: int,
)
    requires
        0 <= cols <= stride,
        0 <= y < rows,
        covers(len, stride, cols, y, i),
    ensures
        last_covering_row(len, stride, cols, rows, i) == Some(y),
    decreases rows,
{
    if rows - 1 > y {
        lemma_later_rows_start_later(stride, y, rows - 1);
        assert(!covers(len, stride, cols, rows - 1, i));
        lemma_last_covering_row_is(len, stride, cols, (rows - 1) as nat, y, i);
    }
}

/// Where lines do not overlap (a line holds at least as many pixels in
/// memory as are copied per line, as in every window buffer), each copied
/// pixel whose 4 bytes fit in the buffer ends up as its red, green and blue
/// bytes followed by `0xff`.
pub proof fn lemma_blit_writes_each_pixel(
    old: Seq<u8>,
    pixels: Seq<Rgb>,
    src_width: int,
    stride: int,
    cols: int,
    rows: nat,
    y: int,
    x: int,
    k: int,
)
    requires
        0 <= cols <= stride,
        0 <= y < rows,
        0 <= x < cols,
        0 <= k < 4,
        row_start(stride, y) + x * 4 + 4 <= old.len(),
    ensures
        blitted_byte(old, pixels, src_width, stride, cols, rows, row_start(stride, y) + x * 4 + k)
            == channel(pixels[y * src_width + x], k),
{
    let i = row_start(stride, y) + x * 4 + k;
    assert((i - row_start(stride, y)) / 4 == x);
    assert((i - row_start(stride, y)) % 4 == k);
    lemma_last_covering_row_is(old.len() as int, stride, cols, rows, y, i);
}

/// A byte that no copied pixel's 4 bytes fall on keeps its value.
pub proof fn lemma_blit_keeps_other_bytes(
    old: Seq<u8>,
    pixels: Seq<Rgb>,
    src_width: int,
    stride: int,
    cols: int,
    rows: nat,
    i: int,
)
    requires
        forall|y: int| 0 <= y < rows ==> !#[trigger] covers(old.len() as int, stride, cols, y, i),
    ensures
        blitted_byte(old, pixels, src_width, stride, cols, rows, i) == old[i],
    decreases rows,
{
    if rows > 0 {
        assert(!covers(old.len() as int, stride, cols, rows - 1, i));
        lemma_blit_keeps_other_bytes(old, pixels, src_width, stride, cols, (rows - 1) as nat, i);
    }
}

/// The 4 bytes of a pixel are its red, green and blue values in that
/// order, then `0xff`.
pub proof fn lemma_channels_are_rgbx(p: Rgb)
    ensures
        channel(p, 0) == p.r,
        channel(p, 1) == p.g,
        channel(p, 2) == p.b,
        channel(p, 3) == 0xffu8,
{
}

} // verus!
