//! Pixel compositing of an image with its foreground mask.
//!
//! Images are row-major pixel buffers: three bytes per pixel for RGB, four
//! for RGBA, one for a grayscale mask.

use crate::text::{trim, trim_of};
use vstd::prelude::*;
use vstd::string::*;

verus! {

pub struct RgbBuffer {
    pub width: u32,
    pub height: u32,
    pub data: Vec<u8>,
}

pub struct GrayBuffer {
    pub width: u32,
    pub height: u32,
    pub data: Vec<u8>,
}

pub struct RgbaBuffer {
    pub width: u32,
    pub height: u32,
    pub data: Vec<u8>,
}

impl RgbBuffer {
    pub open spec fn wf(&self) -> bool {
        self.data@.len() == self.width * self.height * 3
    }
}

impl GrayBuffer {
    pub open spec fn wf(&self) -> bool {
        self.data@.len() == self.width * self.height
    }
}

impl RgbaBuffer {
    pub open spec fn wf(&self) -> bool {
        self.data@.len() == self.width * self.height * 4
    }
}

/// A mask value after optional binarisation at threshold `t`.
pub open spec fn thresholded(a: u8, t: Option<u8>) -> u8 {
    match t {
        Some(t) => if a >= t {
            255
        } else {
            0
        },
        None => a,
    }
}

fn threshold_value(a: u8, t: Option<u8>) -> (r: u8)
    ensures
        r == thresholded(a, t),
{
    match t {
        Some(t) => if a >= t {
            255
        } else {
            0
        },
        None => a,
    }
}

/// Binarises a mask in place: values at or above `t` become 255, the others 0.
pub fn threshold_mask(mask: &mut GrayBuffer, t: Option<u8>)
    ensures
        final(mask).width == old(mask).width,
        final(mask).height == old(mask).height,
        final(mask).data@.len() == old(mask).data@.len(),
        forall|i: int|
            0 <= i < old(mask).data@.len() ==> final(mask).data@[i] == thresholded(
                #[trigger] old(mask).data@[i],
                t,
            ),
{
    let ghost before = mask.data@;
    let n = mask.data.len();
    let mut i: usize = 0;
    while i < n
        invariant
            n == before.len(),
            mask.data@.len() == n,
            mask.width == old(mask).width,
            mask.height == old(mask).height,
            before == old(mask).data@,
            forall|j: int| 0 <= j < i ==> mask.data@[j] == thresholded(#[trigger] before[j], t),
            forall|j: int| i <= j < n ==> mask.data@[j] == before[j],
        decreases n - i,
    {
        let v = threshold_value(mask.data[i], t);
        mask.data.set(i, v);
        i = i + 1;
    }
}

/// Channel `c` of pixel (`x`, `y`).
pub open spec fn px(img: RgbBuffer, x: int, y: int, c: int) -> int {
    img.data@[(y * img.width + x) * 3 + c] as int
}

/// Sum of channel `c` over the first `k` pixels of row `y` from column `ox`.
pub open spec fn row_sum(img: RgbBuffer, ox: int, y: int, k: int, c: int) -> int
    decreases k,
{
    if k <= 0 {
        0
    } else {
        row_sum(img, ox, y, k - 1, c) + px(img, ox + k - 1, y, c)
    }
}

/// Sum of channel `c` over the first `rows` rows of the `p`-wide block at
/// (`ox`, `oy`).
pub open spec fn block_sum(img: RgbBuffer, ox: int, oy: int, p: int, rows: int, c: int) -> int
    decreases rows,
{
    if rows <= 0 {
        0
    } else {
        block_sum(img, ox, oy, p, rows - 1, c) + row_sum(img, ox, oy + rows - 1, p, c)
    }
}

/// The side of the corner patches: six pixels, or less in a smaller image.
pub open spec fn patch_side(img: RgbBuffer) -> int {
    let w = img.width as int;
    let h = img.height as int;
    let m = if w < h { w } else { h };
    if m < 6 {
        m
    } else {
        6
    }
}

/// Sum of channel `c` over the four corner patches.
pub open spec fn corners_sum(img: RgbBuffer, c: int) -> int {
    let p = patch_side(img);
    let w = img.width as int;
    let h = img.height as int;
    block_sum(img, 0, 0, p, p, c) + block_sum(img, w - p, 0, p, p, c) + block_sum(img, 0, h - p, p, p, c)
        + block_sum(img, w - p, h - p, p, p, c)
}

/// The background color estimated from an image: the mean of its four corner
/// patches; white for an empty image.
pub open spec fn estimated_bg(img: RgbBuffer) -> (u8, u8, u8) {
    if img.width == 0 || img.height == 0 {
        (255, 255, 255)
    } else {
        let n = 4 * patch_side(img) * patch_side(img);
        (
            (corners_sum(img, 0) / n) as u8,
            (corners_sum(img, 1) / n) as u8,
            (corners_sum(img, 2) / n) as u8,
        )
    }
}

proof fn lemma_index_bound(w: int, h: int, x: int, y: int, c: int)
    requires
        0 <= x < w,
        0 <= y < h,
        0 <= c < 3,
    ensures
        0 <= (y * w + x) * 3 + c < w * h * 3,
        0 <= y * w <= y * w + x,
        y * w + x <= (y * w + x) * 3 + c,
{
    assert(y * w + x < w * h) by (nonlinear_arith)
        requires
            0 <= x < w,
            0 <= y < h,
    ;
    assert(0 <= y * w) by (nonlinear_arith)
        requires
            0 <= y,
            0 <= w,
    ;
}

proof fn lemma_row_sum_bound(img: RgbBuffer, ox: int, y: int, k: int, c: int)
    requires
        k >= 0,
    ensures
        0 <= row_sum(img, ox, y, k, c) <= 255 * k,
    decreases k,
{
    if k > 0 {
        lemma_row_sum_bound(img, ox, y, k - 1, c);
    }
}

proof fn lemma_block_sum_bound(img: RgbBuffer, ox: int, oy: int, p: int, rows: int, c: int)
    requires
        rows >= 0,
        p >= 0,
    ensures
        0 <= block_sum(img, ox, oy, p, rows, c) <= 255 * p * rows,
    decreases rows,
{
    if rows > 0 {
        lemma_block_sum_bound(img, ox, oy, p, rows - 1, c);
        lemma_row_sum_bound(img, ox, oy + rows - 1, p, c);
        assert(255 * p * (rows - 1) + 255 * p == 255 * p * rows) by (nonlinear_arith);
    }
}

fn block_sum_exec(img: &RgbBuffer, ox: u32, oy: u32, p: u32, c: usize) -> (r: u64)
    requires
        img.wf(),
        p <= 6,
        ox + p <= img.width,
        oy + p <= img.height,
        c < 3,
    ensures
        r == block_sum(*img, ox as int, oy as int, p as int, p as int, c as int),
{
    let w = img.width as usize;
    let len = img.data.len();
    let mut acc: u64 = 0;
    let mut y: u32 = 0;
    while y < p
        invariant
            img.wf(),
            w == img.width,
            len == img.data@.len(),
            p <= 6,
            ox + p <= img.width,
            oy + p <= img.height,
            c < 3,
            y <= p,
            acc == block_sum(*img, ox as int, oy as int, p as int, y as int, c as int),
        decreases p - y,
    {
        proof {
            lemma_block_sum_bound(*img, ox as int, oy as int, p as int, y as int, c as int);
            assert(255 * p * y <= 255 * 36) by (nonlinear_arith)
                requires
                    p <= 6,
                    y <= 6,
            ;
        }
        let mut k: u32 = 0;
        let mut row: u64 = 0;
        while k < p
            invariant
                img.wf(),
                w == img.width,
                len == img.data@.len(),
                p <= 6,
                ox + p <= img.width,
                oy + p <= img.height,
                c < 3,
                y < p,
                k <= p,
                row == row_sum(*img, ox as int, (oy + y) as int, k as int, c as int),
                row <= 255 * k,
            decreases p - k,
        {
            let x = ox + k;
            let yy = oy + y;
            proof {
                lemma_index_bound(img.width as int, img.height as int, x as int, yy as int, c as int);
                assert(((yy * w + x) * 3 + c) < len);
            }
            let idx = ((yy as usize) * w + (x as usize)) * 3 + c;
            row = row + img.data[idx] as u64;
            k = k + 1;
        }
        acc = acc + row;
        y = y + 1;
    }
    acc
}

/// Estimates the background color from the four corner patches of an image.
pub fn estimate_bg_rgb(img: &RgbBuffer) -> (r: (u8, u8, u8))
    requires
        img.wf(),
    ensures
        r == estimated_bg(*img),
{
    let w = img.width;
    let h = img.height;
    if w == 0 || h == 0 {
        return (255, 255, 255);
    }
    let m = if w < h { w } else { h };
    let p: u32 = if m < 6 { m } else { 6 };
    let mut sums: [u64; 3] = [0, 0, 0];
    let mut out: (u64, u64, u64) = (0, 0, 0);
    assert(4 * p * p <= 144) by (nonlinear_arith)
        requires
            p <= 6,
    ;
    let n: u64 = 4 * (p as u64) * (p as u64);
    assert(n > 0) by (nonlinear_arith)
        requires
            n == 4 * p * p,
            p >= 1,
    ;
    let mut c: usize = 0;
    let mut vals: Vec<u8> = Vec::new();
    while c < 3
        invariant
            img.wf(),
            w == img.width,
            h == img.height,
            w > 0 && h > 0,
            p == patch_side(*img),
            n == 4 * p * p,
            n > 0,
            c <= 3,
            vals@.len() == c,
            forall|j: int| 0 <= j < c ==> vals@[j] == (corners_sum(*img, j) / (n as int)) as u8,
        decreases 3 - c,
    {
        let s0 = block_sum_exec(img, 0, 0, p, c);
        let s1 = block_sum_exec(img, w - p, 0, p, c);
        let s2 = block_sum_exec(img, 0, h - p, p, c);
        let s3 = block_sum_exec(img, w - p, h - p, p, c);
        proof {
            lemma_block_sum_bound(*img, 0, 0, p as int, p as int, c as int);
            lemma_block_sum_bound(*img, (w - p) as int, 0, p as int, p as int, c as int);
            lemma_block_sum_bound(*img, 0, (h - p) as int, p as int, p as int, c as int);
            lemma_block_sum_bound(*img, (w - p) as int, (h - p) as int, p as int, p as int, c as int);
            assert(255 * p * p <= 255 * 36) by (nonlinear_arith)
                requires
                    p <= 6,
            ;
        }
        let total = s0 + s1 + s2 + s3;
        assert(total / n <= 255) by (nonlinear_arith)
            requires
                total <= 4 * (255 * p * p),
                n == 4 * p * p,
                n > 0,
        ;
        vals.push((total / n) as u8);
        c = c + 1;
    }
    (vals[0], vals[1], vals[2])
}

/// Squared distance of two colors.
pub open spec fn dist2(p: (u8, u8, u8), q: (u8, u8, u8)) -> int {
    (p.0 - q.0) * (p.0 - q.0) + (p.1 - q.1) * (p.1 - q.1) + (p.2 - q.2) * (p.2 - q.2)
}

/// The color key of a request: the estimated background color and the
/// squared tolerance, where a non-zero tolerance was given.
pub open spec fn color_key(img: RgbBuffer, tolerance: Option<u8>) -> Option<((u8, u8, u8), int)> {
    match tolerance {
        Some(t) => if t == 0 {
            None
        } else {
            Some((estimated_bg(img), t * t))
        },
        None => None,
    }
}

/// Color of pixel `i`.
pub open spec fn rgb_at(img: RgbBuffer, i: int) -> (u8, u8, u8) {
    (img.data@[3 * i], img.data@[3 * i + 1], img.data@[3 * i + 2])
}

/// The alpha of a pixel of color `p` whose mask value is `m`.
pub open spec fn keyed_alpha(
    p: (u8, u8, u8),
    m: u8,
    threshold: Option<u8>,
    key: Option<((u8, u8, u8), int)>,
) -> u8 {
    match key {
        Some((bg, tol2)) => if dist2(p, bg) <= tol2 {
            0
        } else {
            thresholded(m, threshold)
        },
        None => thresholded(m, threshold),
    }
}

fn dist2_exec(p: (u8, u8, u8), q: (u8, u8, u8)) -> (r: i32)
    ensures
        r == dist2(p, q),
{
    let dr = p.0 as i32 - q.0 as i32;
    let dg = p.1 as i32 - q.1 as i32;
    let db = p.2 as i32 - q.2 as i32;
    assert(dr * dr <= 65025 && dg * dg <= 65025 && db * db <= 65025) by (nonlinear_arith)
        requires
            -255 <= dr <= 255,
            -255 <= dg <= 255,
            -255 <= db <= 255,
    ;
    assert(dr * dr >= 0 && dg * dg >= 0 && db * db >= 0) by (nonlinear_arith);
    dr * dr + dg * dg + db * db
}

/// Pixel `i` of `out` is pixel `i` of `img` with the alpha its mask value
/// and the color key give.
pub open spec fn alpha_pixel_ok(
    out: Seq<u8>,
    img: RgbBuffer,
    mask: GrayBuffer,
    threshold: Option<u8>,
    tolerance: Option<u8>,
    i: int,
) -> bool {
    &&& out[4 * i] == img.data@[3 * i]
    &&& out[4 * i + 1] == img.data@[3 * i + 1]
    &&& out[4 * i + 2] == img.data@[3 * i + 2]
    &&& out[4 * i + 3] == keyed_alpha(
        rgb_at(img, i),
        mask.data@[i],
        threshold,
        color_key(img, tolerance),
    )
}

/// Gives each pixel the alpha of its mask value, binarised at `threshold`
/// where one is given, and zero where the pixel is within the color-key
/// tolerance of the estimated background color.
pub fn apply_alpha(
    img: &RgbBuffer,
    mask: &GrayBuffer,
    threshold: Option<u8>,
    color_key_tolerance: Option<u8>,
) -> (r: RgbaBuffer)
    requires
        img.wf(),
        mask.wf(),
        mask.width == img.width,
        mask.height == img.height,
    ensures
        r.wf(),
        r.width == img.width,
        r.height == img.height,
        forall|i: int|
            0 <= i < img.width * img.height ==> #[trigger] alpha_pixel_ok(
                r.data@,
                *img,
                *mask,
                threshold,
                color_key_tolerance,
                i,
            ),
{
    let key: Option<((u8, u8, u8), i32)> = match color_key_tolerance {
        Some(t) => if t == 0 {
            None
        } else {
            assert((t as i32) * (t as i32) <= 65025) by (nonlinear_arith)
                requires
                    t <= 255,
            ;
            Some((estimate_bg_rgb(img), (t as i32) * (t as i32)))
        },
        None => None,
    };
    let npx = mask.data.len();
    let ilen = img.data.len();
    let mut out: Vec<u8> = Vec::new();
    let mut i: usize = 0;
    while i < npx
        invariant
            ilen == img.data@.len(),
            img.wf(),
            mask.wf(),
            mask.width == img.width,
            mask.height == img.height,
            npx == img.width * img.height,
            img.data@.len() == 3 * npx,
            out@.len() == 4 * i,
            i <= npx,
            match (key, color_key(*img, color_key_tolerance)) {
                (Some((b, t)), Some((b2, t2))) => b == b2 && t as int == t2,
                (None, None) => true,
                _ => false,
            },
            forall|j: int|
                0 <= j < i ==> #[trigger] alpha_pixel_ok(
                    out@,
                    *img,
                    *mask,
                    threshold,
                    color_key_tolerance,
                    j,
                ),
        decreases npx - i,
    {
        let p = (img.data[3 * i], img.data[3 * i + 1], img.data[3 * i + 2]);
        let mut a = threshold_value(mask.data[i], threshold);
        if let Some((bg, tol2)) = key {
            if dist2_exec(p, bg) <= tol2 {
                a = 0;
            }
        }
        assert(p == rgb_at(*img, i as int));
        let ghost prev = out@;
        out.push(p.0);
        out.push(p.1);
        out.push(p.2);
        out.push(a);
        assert forall|j: int| 0 <= j < i + 1 implies #[trigger] alpha_pixel_ok(
            out@,
            *img,
            *mask,
            threshold,
            color_key_tolerance,
            j,
        ) by {
            if j < i {
                assert(alpha_pixel_ok(prev, *img, *mask, threshold, color_key_tolerance, j));
                assert(out@[4 * j] == prev[4 * j]);
                assert(out@[4 * j + 1] == prev[4 * j + 1]);
                assert(out@[4 * j + 2] == prev[4 * j + 2]);
                assert(out@[4 * j + 3] == prev[4 * j + 3]);
            }
        }
        i = i + 1;
    }
    RgbaBuffer { width: img.width, height: img.height, data: out }
}

/// One channel of a pixel blended over the background with alpha `a`,
/// rounded to nearest.
pub open spec fn blend(fg: u8, bg: u8, a: u8) -> u8 {
    ((fg * a + bg * (255 - a) + 127) / 255) as u8
}

fn blend_exec(fg: u8, bg: u8, a: u8) -> (r: u8)
    ensures
        r == blend(fg, bg, a),
{
    let a = a as u32;
    let inv = 255u32 - a;
    assert(fg as u32 * a <= 65025 && bg as u32 * inv <= 65025) by (nonlinear_arith)
        requires
            a <= 255,
            inv <= 255,
    ;
    assert((fg * a + bg * (255 - a) + 127) / 255 <= 255) by (nonlinear_arith)
        requires
            a <= 255,
            fg <= 255,
            bg <= 255,
    ;
    ((fg as u32 * a + bg as u32 * inv + 127) / 255) as u8
}

/// A hexadecimal digit's value.
pub open spec fn hex_val(c: char) -> Option<u8> {
    if '0' <= c && c <= '9' {
        Some((c as u8 - '0' as u8) as u8)
    } else if 'a' <= c && c <= 'f' {
        Some((c as u8 - 'a' as u8 + 10) as u8)
    } else if 'A' <= c && c <= 'F' {
        Some((c as u8 - 'A' as u8 + 10) as u8)
    } else {
        None
    }
}

/// A byte written as two characters in base 16, as `u8::from_str_radix`
/// reads them: two digits, or a `+` sign and one digit.
pub open spec fn byte_of_pair(a: char, b: char) -> Option<u8> {
    if a == '+' {
        hex_val(b)
    } else {
        match (hex_val(a), hex_val(b)) {
            (Some(x), Some(y)) => Some((x * 16 + y) as u8),
            _ => None,
        }
    }
}

/// The text without one leading `#`.
pub open spec fn without_hash(s: Seq<char>) -> Seq<char> {
    if s.len() > 0 && s[0] == '#' {
        s.drop_first()
    } else {
        s
    }
}

#[derive(Debug, Clone, PartialEq, Eq)]
pub enum ColorError {
    /// Not six characters once a leading `#` is dropped.
    InvalidLength { text: String },
    /// A channel that is not a hexadecimal byte.
    InvalidHex { text: String },
}

fn hex_val_exec(c: char) -> (r: Option<u8>)
    ensures
        r == hex_val(c),
{
    if '0' <= c && c <= '9' {
        Some(c as u8 - '0' as u8)
    } else if 'a' <= c && c <= 'f' {
        Some(c as u8 - 'a' as u8 + 10)
    } else if 'A' <= c && c <= 'F' {
        Some(c as u8 - 'A' as u8 + 10)
    } else {
        None
    }
}

fn byte_of_pair_exec(a: char, b: char) -> (r: Option<u8>)
    ensures
        r == byte_of_pair(a, b),
{
    if a == '+' {
        hex_val_exec(b)
    } else {
        match (hex_val_exec(a), hex_val_exec(b)) {
            (Some(x), Some(y)) => Some(x * 16 + y),
            _ => None,
        }
    }
}

/// The color written by trimmed text `RRGGBB` or `#RRGGBB`.
pub open spec fn rgb_of_text(s: Seq<char>) -> Option<(u8, u8, u8)> {
    let t = without_hash(s);
    if t.len() != 6 {
        None
    } else {
        match (byte_of_pair(t[0], t[1]), byte_of_pair(t[2], t[3]), byte_of_pair(t[4], t[5])) {
            (Some(r), Some(g), Some(b)) => Some((r, g, b)),
            _ => None,
        }
    }
}

/// Reads a color from trimmed text `RRGGBB` or `#RRGGBB`.
pub fn parse_hex_rgb_trimmed(s: &str) -> (r: Result<(u8, u8, u8), ColorError>)
    ensures
        without_hash(s@).len() != 6 <==> r matches Err(ColorError::InvalidLength { .. }),
        r matches Err(ColorError::InvalidLength { text }) ==> text@ == without_hash(s@),
        without_hash(s@).len() == 6 ==> match r {
            Ok(c) => rgb_of_text(s@) == Some(c),
            Err(ColorError::InvalidHex { text }) => rgb_of_text(s@) is None && text@ == without_hash(
                s@,
            ),
            _ => false,
        },
{
    let n = s.unicode_len();
    let start: usize = if n > 0 && s.get_char(0) == '#' { 1 } else { 0 };
    let t = s.substring_char(start, n);
    assert(t@ =~= without_hash(s@));
    if n - start != 6 {
        return Err(ColorError::InvalidLength { text: String::from_str(t) });
    }
    let r = byte_of_pair_exec(t.get_char(0), t.get_char(1));
    let g = byte_of_pair_exec(t.get_char(2), t.get_char(3));
    let b = byte_of_pair_exec(t.get_char(4), t.get_char(5));
    match (r, g, b) {
        (Some(r), Some(g), Some(b)) => Ok((r, g, b)),
        _ => Err(ColorError::InvalidHex { text: String::from_str(t) }),
    }
}

/// Reads a color from text `RRGGBB` or `#RRGGBB`, ignoring surrounding white
/// space.
pub fn parse_hex_rgb(s: &str) -> (r: Result<(u8, u8, u8), ColorError>)
    ensures
        without_hash(trim_of(s@)).len() != 6 <==> r matches Err(ColorError::InvalidLength { .. }),
        without_hash(trim_of(s@)).len() == 6 ==> match r {
            Ok(c) => rgb_of_text(trim_of(s@)) == Some(c),
            Err(ColorError::InvalidHex { .. }) => rgb_of_text(trim_of(s@)) is None,
            _ => false,
        },
{
    parse_hex_rgb_trimmed(trim(s))
}

/// Blends each pixel over a solid background color with the alpha of its
/// mask value, binarised at `threshold` where one is given.
pub fn composite_over_bg(img: &RgbBuffer, mask: &GrayBuffer, threshold: Option<u8>, bgcolor: &str) -> (r:
    Result<RgbBuffer, ColorError>)
    requires
        img.wf(),
        mask.wf(),
        mask.width == img.width,
        mask.height == img.height,
    ensures
        rgb_of_text(trim_of(bgcolor@)) is None <==> r is Err,
        rgb_of_text(trim_of(bgcolor@)) matches Some(bg) ==> r matches Ok(out) && out.wf()
            && out.width == img.width && out.height == img.height && forall|i: int|
            #![trigger mask.data@[i]]
            0 <= i < img.width * img.height ==> {
                let a = thresholded(mask.data@[i], threshold);
                &&& out.data@[3 * i] == blend(img.data@[3 * i], bg.0, a)
                &&& out.data@[3 * i + 1] == blend(img.data@[3 * i + 1], bg.1, a)
                &&& out.data@[3 * i + 2] == blend(img.data@[3 * i + 2], bg.2, a)
            },
{
    let (br, bgc, bb) = parse_hex_rgb(bgcolor)?;
    let npx = mask.data.len();
    let ilen = img.data.len();
    let mut out: Vec<u8> = Vec::new();
    let mut i: usize = 0;
    while i < npx
        invariant
            ilen == img.data@.len(),
            img.wf(),
            mask.wf(),
            mask.width == img.width,
            mask.height == img.height,
            npx == img.width * img.height,
            img.data@.len() == 3 * npx,
            out@.len() == 3 * i,
            i <= npx,
            forall|j: int|
                #![trigger mask.data@[j]]
                0 <= j < i ==> {
                    let a = thresholded(mask.data@[j], threshold);
                    &&& out@[3 * j] == blend(img.data@[3 * j], br, a)
                    &&& out@[3 * j + 1] == blend(img.data@[3 * j + 1], bgc, a)
                    &&& out@[3 * j + 2] == blend(img.data@[3 * j + 2], bb, a)
                },
        decreases npx - i,
    {
        let a = threshold_value(mask.data[i], threshold);
        let ghost prev = out@;
        out.push(blend_exec(img.data[3 * i], br, a));
        out.push(blend_exec(img.data[3 * i + 1], bgc, a));
        out.push(blend_exec(img.data[3 * i + 2], bb, a));
        assert forall|j: int|
            #![trigger mask.data@[j]]
            0 <= j < i + 1 implies {
                let a = thresholded(mask.data@[j], threshold);
                &&& out@[3 * j] == blend(img.data@[3 * j], br, a)
                &&& out@[3 * j + 1] == blend(img.data@[3 * j + 1], bgc, a)
                &&& out@[3 * j + 2] == blend(img.data@[3 * j + 2], bb, a)
            } by {
            if j < i {
                assert(out@[3 * j] == prev[3 * j]);
                assert(out@[3 * j + 1] == prev[3 * j + 1]);
                assert(out@[3 * j + 2] == prev[3 * j + 2]);
            }
        }
        i = i + 1;
    }
    Ok(RgbBuffer { width: img.width, height: img.height, data: out })
}

} // verus!
