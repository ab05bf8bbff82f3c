use vstd::prelude::*;

use crate::event::{MouseButton, MouseButtonState, PointerEvent};
use crate::icon::{check_rgba, rgba_check, BadIcon};

verus! {

// ---------------------------------------------------------------------------
// Icons
// ---------------------------------------------------------------------------

/// An RGBA icon for the X11 tray.
pub struct PlatformIcon {
    rgba: Vec<u8>,
    width: i32,
    height: i32,
}

/// What an X11 icon is: its bytes and its dimensions.
pub struct IconModel {
    pub rgba: Seq<u8>,
    pub width: i32,
    pub height: i32,
}

impl View for PlatformIcon {
    type V = IconModel;

    closed spec fn view(&self) -> IconModel {
        IconModel { rgba: self.rgba@, width: self.width, height: self.height }
    }
}

impl Clone for PlatformIcon {
    fn clone(&self) -> (r: Self)
        ensures
            r@ == self@,
    {
        proof {
            use_type_invariant(self);
        }
        let rgba = self.rgba.clone();
        assert(rgba@ =~= self.rgba@);
        PlatformIcon { rgba, width: self.width, height: self.height }
    }
}

impl PlatformIcon {
    /// The buffer holds whole pixels.
    #[verifier::type_invariant]
    spec fn whole_pixels(self) -> bool {
        self.rgba@.len() % 4 == 0
    }

    /// Checks the buffer against the dimensions and keeps it.
    pub fn from_rgba(rgba: Vec<u8>, width: u32, height: u32) -> (r: Result<Self, BadIcon>)
        requires
            width * height <= u32::MAX,
        ensures
            r is Ok <==> rgba_check(rgba@.len() as usize, width, height) is Ok,
            r matches Err(e) ==> rgba_check(rgba@.len() as usize, width, height) == Err::<(), BadIcon>(e),
            r matches Ok(icon) ==> icon@ == (IconModel {
                rgba: rgba@,
                width: width as i32,
                height: height as i32,
            }),
    {
        match check_rgba(rgba.len(), width, height) {
            Err(e) => Err(e),
            Ok(()) => Ok(PlatformIcon { rgba, width: width as i32, height: height as i32 }),
        }
    }

    /// The icon's RGBA bytes.
    pub fn rgba(&self) -> (r: &[u8])
        ensures
            r@ == self@.rgba,
            r@.len() % 4 == 0,
    {
        proof {
            use_type_invariant(self);
        }
        self.rgba.as_slice()
    }

    /// The icon's width in pixels.
    pub fn width(&self) -> (r: i32)
        ensures
            r == self@.width,
    {
        self.width
    }

    /// The icon's height in pixels.
    pub fn height(&self) -> (r: i32)
        ensures
            r == self@.height,
    {
        self.height
    }
}

/// A colour channel scaled by alpha `a`, as the X server's opaque pixels
/// need it.
pub open spec fn premultiply(c: u8, a: u8) -> u8 {
    (c as int * a as int / 255) as u8
}

/// Premultiplying never brightens a channel; full alpha keeps it and zero
/// alpha clears it.
pub proof fn lemma_premultiply(c: u8, a: u8)
    ensures
        premultiply(c, a) as int == c as int * a as int / 255,
        premultiply(c, a) <= c,
        a == 255 ==> premultiply(c, a) == c,
        a == 0 ==> premultiply(c, a) == 0,
{
    assert(c as int * a as int <= c as int * 255) by (nonlinear_arith)
        requires
            a <= 255,
            c >= 0,
    ;
    assert(c as int * a as int / 255 <= c as int) by (nonlinear_arith)
        requires
            c as int * a as int <= c as int * 255,
            c >= 0,
            a >= 0,
    ;
}

/// Turns RGBA pixels into the BGRX pixels of an X11 image, scaling each
/// colour channel by the pixel's alpha and zeroing the unused byte.
pub fn rgba_to_bgrx(rgba: &[u8]) -> (r: Vec<u8>)
    requires
        rgba@.len() % 4 == 0,
    ensures
        r@.len() == rgba@.len(),
        forall|p: int|
            0 <= p < rgba@.len() / 4 ==> {
                let a = rgba@[4 * p + 3];
                &&& #[trigger] r@[4 * p] == premultiply(rgba@[4 * p + 2], a)
                &&& r@[4 * p + 1] == premultiply(rgba@[4 * p + 1], a)
                &&& r@[4 * p + 2] == premultiply(rgba@[4 * p], a)
                &&& r@[4 * p + 3] == 0
            },
{
    let n: usize = rgba.len();
    let mut bgrx: Vec<u8> = Vec::with_capacity(n);
    let mut i: usize = 0;
    while i < n
        invariant
            n == rgba@.len(),
            n % 4 == 0,
            i % 4 == 0,
            i <= n,
            bgrx@.len() == i,
            forall|p: int|
                0 <= p < i / 4 ==> {
                    let a = rgba@[4 * p + 3];
                    &&& #[trigger] bgrx@[4 * p] == premultiply(rgba@[4 * p + 2], a)
                    &&& bgrx@[4 * p + 1] == premultiply(rgba@[4 * p + 1], a)
                    &&& bgrx@[4 * p + 2] == premultiply(rgba@[4 * p], a)
                    &&& bgrx@[4 * p + 3] == 0
                },
        decreases n - i,
    {
        let a: u32 = rgba[i + 3] as u32;
        let r0: u32 = rgba[i] as u32;
        let g0: u32 = rgba[i + 1] as u32;
        let b0: u32 = rgba[i + 2] as u32;
        assert(r0 * a <= 65025 && g0 * a <= 65025 && b0 * a <= 65025) by (nonlinear_arith)
            requires
                r0 <= 255,
                g0 <= 255,
                b0 <= 255,
                a <= 255,
        ;
        let r: u8 = (r0 * a / 255) as u8;
        let g: u8 = (g0 * a / 255) as u8;
        let b: u8 = (b0 * a / 255) as u8;
        let ghost before = bgrx@;
        bgrx.push(b);
        bgrx.push(g);
        bgrx.push(r);
        bgrx.push(0);
        assert forall|p: int| 0 <= p < (i + 4) / 4 implies {
            let a = rgba@[4 * p + 3];
            &&& #[trigger] bgrx@[4 * p] == premultiply(rgba@[4 * p + 2], a)
            &&& bgrx@[4 * p + 1] == premultiply(rgba@[4 * p + 1], a)
            &&& bgrx@[4 * p + 2] == premultiply(rgba@[4 * p], a)
            &&& bgrx@[4 * p + 3] == 0
        } by {
            if p < i / 4 {
                assert(before[4 * p] == premultiply(rgba@[4 * p + 2], rgba@[4 * p + 3]));
                assert(bgrx@[4 * p] == before[4 * p]);
                assert(bgrx@[4 * p + 1] == before[4 * p + 1]);
                assert(bgrx@[4 * p + 2] == before[4 * p + 2]);
                assert(bgrx@[4 * p + 3] == before[4 * p + 3]);
            } else {
                assert(4 * p == i);
            }
        }
        i = i + 4;
    }
    bgrx
}

/// The smaller of two integers.
pub open spec fn min_int(a: int, b: int) -> int {
    if a <= b {
        a
    } else {
        b
    }
}

/// The source pixel that nearest-neighbour scaling from `src_w` by `src_h`
/// to `dst_w` by `dst_h` copies into destination pixel `p` (both counted
/// row by row).
pub open spec fn source_pixel(p: int, src_w: int, src_h: int, dst_w: int, dst_h: int) -> int {
    let x = p % dst_w;
    let y = p / dst_w;
    let sx = min_int(x * src_w / dst_w, src_w - 1);
    let sy = min_int(y * src_h / dst_h, src_h - 1);
    sy * src_w + sx
}

/// Whether [`scale_icon`] can resize without its arithmetic leaving `u32`
/// and with every source pixel it reads inside `len` bytes.
pub open spec fn scalable(len: int, src_w: u32, src_h: u32, dst_w: u32, dst_h: u32) -> bool {
    (src_w == dst_w && src_h == dst_h) || {
        &&& dst_w * dst_h * 4 <= u32::MAX
        &&& (dst_w > 0 && dst_h > 0) ==> {
            &&& src_w > 0
            &&& src_h > 0
            &&& src_w * src_h * 4 <= u32::MAX
            &&& src_w * src_h * 4 <= len
            &&& (dst_w - 1) * src_w <= u32::MAX
            &&& (dst_h - 1) * src_h <= u32::MAX
        }
    }
}

proof fn lemma_pixel_position(y: int, x: int, w: int, h: int)
    requires
        0 <= y < h,
        0 <= x < w,
    ensures
        (y * w + x) % w == x,
        (y * w + x) / w == y,
        y * w + x < w * h,
        y * w + x + 1 <= w * h,
{
    vstd::arithmetic::div_mod::lemma_fundamental_div_mod_converse(y * w + x, w, y, x);
    assert(y * w + x < w * h) by (nonlinear_arith)
        requires
            0 <= y < h,
            0 <= x < w,
    ;
}

proof fn lemma_source_in_bounds(sx: int, sy: int, sw: int, sh: int)
    requires
        0 <= sx < sw,
        0 <= sy < sh,
    ensures
        0 <= sy * sw + sx < sw * sh,
{
    assert(0 <= sy * sw + sx < sw * sh) by (nonlinear_arith)
        requires
            0 <= sx < sw,
            0 <= sy < sh,
    ;
}

proof fn lemma_scaled_coordinate(x: int, sw: int, dw: int)
    requires
        0 <= x < dw,
        sw > 0,
    ensures
        0 <= x * sw / dw < sw,
{
    assert(x * sw < dw * sw) by (nonlinear_arith)
        requires
            0 <= x < dw,
            sw > 0,
    ;
    assert(0 <= x * sw) by (nonlinear_arith)
        requires
            0 <= x,
            sw > 0,
    ;
    vstd::arithmetic::div_mod::lemma_multiply_divide_lt(x * sw, dw, sw);
    vstd::arithmetic::div_mod::lemma_div_pos_is_pos(x * sw, dw);
}

fn copy_bytes(s: &[u8]) -> (r: Vec<u8>)
    ensures
        r@ == s@,
{
    let mut r: Vec<u8> = Vec::with_capacity(s.len());
    let mut i: usize = 0;
    while i < s.len()
        invariant
            i <= s@.len(),
            r@ == s@.subrange(0, i as int),
        decreases s@.len() - i,
    {
        r.push(s[i]);
        i = i + 1;
    }
    assert(r@ =~= s@);
    r
}

/// Resizes an RGBA image by nearest-neighbour sampling. An image already of
/// the wanted size is copied as it is.
pub fn scale_icon(rgba: &[u8], src_w: u32, src_h: u32, dst_w: u32, dst_h: u32) -> (r: Vec<u8>)
    requires
        scalable(rgba@.len() as int, src_w, src_h, dst_w, dst_h),
    ensures
        src_w == dst_w && src_h == dst_h ==> r@ == rgba@,
        !(src_w == dst_w && src_h == dst_h) ==> {
            &&& r@.len() == dst_w * dst_h * 4
            &&& forall|p: int, c: int|
                0 <= p < dst_w * dst_h && 0 <= c < 4 ==> #[trigger] r@[4 * p + c] == rgba@[4
                    * source_pixel(p, src_w as int, src_h as int, dst_w as int, dst_h as int) + c]
            &&& forall|x: int, y: int, c: int|
                0 <= x < dst_w && 0 <= y < dst_h && 0 <= c < 4 ==> #[trigger] r@[4 * (y * dst_w + x)
                    + c] == rgba@[4 * ((if y * src_h / (dst_h as int) <= src_h - 1 {
                    y * src_h / (dst_h as int)
                } else {
                    src_h - 1
                }) * src_w + (if x * src_w / (dst_w as int) <= src_w - 1 {
                    x * src_w / (dst_w as int)
                } else {
                    src_w - 1
                })) + c]
        },
{
    if src_w == dst_w && src_h == dst_h {
        return copy_bytes(rgba);
    }
    let ghost sw = src_w as int;
    let ghost sh = src_h as int;
    let ghost dw = dst_w as int;
    let ghost dh = dst_h as int;
    let mut result: Vec<u8> = Vec::new();
    let mut y: u32 = 0;
    assert(0 * dst_w == 0);
    while y < dst_h
        invariant
            !(src_w == dst_w && src_h == dst_h),
            scalable(rgba@.len() as int, src_w, src_h, dst_w, dst_h),
            y <= dst_h,
            sw == src_w,
            sh == src_h,
            dw == dst_w,
            dh == dst_h,
            result@.len() == (y * dst_w) * 4,
            forall|p: int, c: int|
                0 <= p < y * dst_w && 0 <= c < 4 ==> #[trigger] result@[4 * p + c] == rgba@[4
                    * source_pixel(p, sw, sh, dw, dh) + c],
        decreases dst_h - y,
    {
        let mut x: u32 = 0;
        while x < dst_w
            invariant
                !(src_w == dst_w && src_h == dst_h),
                scalable(rgba@.len() as int, src_w, src_h, dst_w, dst_h),
                y < dst_h,
                x <= dst_w,
                sw == src_w,
                sh == src_h,
                dw == dst_w,
                dh == dst_h,
                result@.len() == (y * dst_w + x) * 4,
                forall|p: int, c: int|
                    0 <= p < y * dst_w + x && 0 <= c < 4 ==> #[trigger] result@[4 * p + c]
                        == rgba@[4 * source_pixel(p, sw, sh, dw, dh) + c],
            decreases dst_w - x,
        {
            let ghost p = y * dst_w + x;
            proof {
                lemma_pixel_position(y as int, x as int, dw, dh);
                lemma_scaled_coordinate(x as int, sw, dw);
                lemma_scaled_coordinate(y as int, sh, dh);
                assert(x * src_w <= (dst_w - 1) * src_w) by (nonlinear_arith)
                    requires
                        x <= dst_w - 1,
                ;
                assert(y * src_h <= (dst_h - 1) * src_h) by (nonlinear_arith)
                    requires
                        y <= dst_h - 1,
                ;
            }
            let scaled_x: u32 = x * src_w / dst_w;
            let scaled_y: u32 = y * src_h / dst_h;
            let src_x: u32 = if scaled_x <= src_w - 1 {
                scaled_x
            } else {
                src_w - 1
            };
            let src_y: u32 = if scaled_y <= src_h - 1 {
                scaled_y
            } else {
                src_h - 1
            };
            proof {
                lemma_source_in_bounds(src_x as int, src_y as int, sw, sh);
                assert(source_pixel(p, sw, sh, dw, dh) == src_y * src_w + src_x);
            }
            let src_idx: usize = ((src_y * src_w + src_x) * 4) as usize;
            let ghost before = result@;
            result.push(rgba[src_idx]);
            result.push(rgba[src_idx + 1]);
            result.push(rgba[src_idx + 2]);
            result.push(rgba[src_idx + 3]);
            assert forall|q: int, c: int|
                0 <= q < p + 1 && 0 <= c < 4 implies #[trigger] result@[4 * q + c] == rgba@[4
                    * source_pixel(q, sw, sh, dw, dh) + c] by {
                if q < p {
                    assert(result@[4 * q + c] == before[4 * q + c]);
                }
            }
            x = x + 1;
        }
        proof {
            assert((y + 1) * dst_w == y * dst_w + dst_w) by (nonlinear_arith);
        }
        y = y + 1;
    }
    assert(dst_h * dst_w == dst_w * dst_h) by (nonlinear_arith);
    assert forall|x: int, y: int, c: int|
        0 <= x < dst_w && 0 <= y < dst_h && 0 <= c < 4 implies #[trigger] result@[4 * (y * dst_w
            + x) + c] == rgba@[4 * ((if y * src_h / (dst_h as int) <= src_h - 1 {
            y * src_h / (dst_h as int)
        } else {
            src_h - 1
        }) * src_w + (if x * src_w / (dst_w as int) <= src_w - 1 {
            x * src_w / (dst_w as int)
        } else {
            src_w - 1
        })) + c] by {
        lemma_pixel_position(y, x, dw, dh);
        let p = y * dst_w + x;
        assert(result@[4 * p + c] == rgba@[4 * source_pixel(p, sw, sh, dw, dh) + c]);
    }
    result
}

/// The row and column that nearest-neighbour scaling samples for a
/// destination coordinate: `v * src / dst`, kept below `src`.
pub open spec fn sampled(v: int, src: int, dst: int) -> int {
    if v * src / dst <= src - 1 {
        v * src / dst
    } else {
        src - 1
    }
}

/// Scaling keeps the order of rows and of columns: a lower destination row
/// (or column further left) samples a source row (column) no lower (no
/// further right); the first samples the first; when scaling down, the last
/// samples one of the last `src / dst + 1` source rows (columns); and every
/// sampled row and column lies inside the source.
pub proof fn lemma_scaling_keeps_order(a: int, b: int, src: int, dst: int)
    requires
        0 <= a <= b < dst,
        src > 0,
        dst > 0,
    ensures
        sampled(a, src, dst) <= sampled(b, src, dst),
        0 <= sampled(a, src, dst) < src,
        sampled(0, src, dst) == 0,
        sampled(dst - 1, src, dst) == (dst - 1) * src / dst,
        dst <= src ==> sampled(dst - 1, src, dst) >= src - src / dst - 1,
{
    vstd::arithmetic::mul::lemma_mul_inequality(a, b, src);
    vstd::arithmetic::div_mod::lemma_div_is_ordered(a * src, b * src, dst);
    lemma_scaled_coordinate(a, src, dst);
    lemma_scaled_coordinate(b, src, dst);
    lemma_scaled_coordinate(dst - 1, src, dst);
    assert(0 * src == 0);
    if dst <= src {
        assert((dst - 1) * src == dst * src - src) by (nonlinear_arith);
        vstd::arithmetic::div_mod::lemma_fundamental_div_mod(dst * src - src, dst);
        vstd::arithmetic::div_mod::lemma_fundamental_div_mod(src, dst);
        assert(dst * src / dst == src) by {
            vstd::arithmetic::div_mod::lemma_div_multiples_vanish(src, dst);
        }
        assert((dst * src - src) / dst >= src - src / dst - 1) by (nonlinear_arith)
            requires
                dst > 0,
                src > 0,
                dst * src - src == dst * ((dst * src - src) / dst) + (dst * src - src) % dst,
                src == dst * (src / dst) + src % dst,
                0 <= (dst * src - src) % dst < dst,
                0 <= src % dst < dst,
        ;
    }
}

/// The X11 image of an icon drawn into a `win_w` by `win_h` window: scaled
/// to the window, then turned into premultiplied BGRX.
#[verifier::spinoff_prover]
#[verifier::rlimit(30)]
pub fn icon_image(rgba: &[u8], width: u32, height: u32, win_w: u32, win_h: u32) -> (r: Vec<u8>)
    requires
        rgba@.len() % 4 == 0,
        scalable(rgba@.len() as int, width, height, win_w, win_h),
    ensures
        width == win_w && height == win_h ==> r@.len() == rgba@.len(),
        !(width == win_w && height == win_h) ==> r@.len() == win_w * win_h * 4,
        forall|p: int|
            0 <= p < r@.len() / 4 ==> {
                let i = if width == win_w && height == win_h {
                    p
                } else {
                    source_pixel(p, width as int, height as int, win_w as int, win_h as int)
                };
                let a = rgba@[4 * i + 3];
                &&& #[trigger] r@[4 * p] == premultiply(rgba@[4 * i + 2], a)
                &&& r@[4 * p + 1] == premultiply(rgba@[4 * i + 1], a)
                &&& r@[4 * p + 2] == premultiply(rgba@[4 * i], a)
                &&& r@[4 * p + 3] == 0
            },
{
    let scaled = scale_icon(rgba, width, height, win_w, win_h);
    proof {
        if !(width == win_w && height == win_h) {
            assert(scaled@.len() % 4 == 0);
        }
    }
    let out = rgba_to_bgrx(scaled.as_slice());
    proof {
        assert forall|p: int| 0 <= p < out@.len() / 4 implies {
            let i = if width == win_w && height == win_h {
                p
            } else {
                source_pixel(p, width as int, height as int, win_w as int, win_h as int)
            };
            let a = rgba@[4 * i + 3];
            &&& #[trigger] out@[4 * p] == premultiply(rgba@[4 * i + 2], a)
            &&& out@[4 * p + 1] == premultiply(rgba@[4 * i + 1], a)
            &&& out@[4 * p + 2] == premultiply(rgba@[4 * i], a)
            &&& out@[4 * p + 3] == 0
        } by {
            assert(out@[4 * p] == premultiply(scaled@[4 * p + 2], scaled@[4 * p + 3]));
            if !(width == win_w && height == win_h) {
                assert(scaled@[4 * p + 0] == rgba@[4 * source_pixel(
                    p,
                    width as int,
                    height as int,
                    win_w as int,
                    win_h as int,
                ) + 0]);
                assert(scaled@[4 * p + 1] == rgba@[4 * source_pixel(
                    p,
                    width as int,
                    height as int,
                    win_w as int,
                    win_h as int,
                ) + 1]);
                assert(scaled@[4 * p + 2] == rgba@[4 * source_pixel(
                    p,
                    width as int,
                    height as int,
                    win_w as int,
                    win_h as int,
                ) + 2]);
                assert(scaled@[4 * p + 3] == rgba@[4 * source_pixel(
                    p,
                    width as int,
                    height as int,
                    win_w as int,
                    win_h as int,
                ) + 3]);
            }
        }
    }
    out
}

// ---------------------------------------------------------------------------
// Pointer events
// ---------------------------------------------------------------------------

/// The X11 pointer events that a tray icon window listens to.
#[derive(Debug, Clone, Copy, PartialEq, Eq, Structural)]
pub enum X11PointerKind {
    ButtonPress,
    ButtonRelease,
    EnterNotify,
    LeaveNotify,
    MotionNotify,
}

/// The mouse button that an X11 button number names: 1 is the left, 2 the
/// middle and 3 the right button; any other number counts as the left one.
pub open spec fn button_of_detail(detail: u8) -> MouseButton {
    if detail == 2 {
        MouseButton::Middle
    } else if detail == 3 {
        MouseButton::Right
    } else {
        MouseButton::Left
    }
}

/// Maps an X11 button number to a mouse button.
pub fn button_from_detail(detail: u8) -> (r: MouseButton)
    ensures
        r == button_of_detail(detail),
{
    match detail {
        1 => MouseButton::Left,
        2 => MouseButton::Middle,
        3 => MouseButton::Right,
        _ => MouseButton::Left,
    }
}

/// What a pointer event on window `event_window` means for the tray icon
/// whose window is `icon_window`: nothing unless it happened on the icon.
pub open spec fn pointer_event_spec(
    kind: X11PointerKind,
    detail: u8,
    event_window: u32,
    icon_window: u32,
) -> Option<PointerEvent> {
    if event_window != icon_window {
        None
    } else {
        Some(
            match kind {
                X11PointerKind::ButtonPress => PointerEvent::Click {
                    button: button_of_detail(detail),
                    button_state: MouseButtonState::Down,
                },
                X11PointerKind::ButtonRelease => PointerEvent::Click {
                    button: button_of_detail(detail),
                    button_state: MouseButtonState::Up,
                },
                X11PointerKind::EnterNotify => PointerEvent::Enter,
                X11PointerKind::LeaveNotify => PointerEvent::Leave,
                X11PointerKind::MotionNotify => PointerEvent::Move,
            },
        )
    }
}

/// Pressing and releasing one X11 button on the icon name the same button,
/// the one that the button number stands for: 1 the left, 2 the middle and
/// 3 the right button, any other number the left one. Enter, leave and
/// motion carry no button, and events on other windows mean nothing.
pub proof fn lemma_x11_buttons(detail: u8, window: u32, other: u32)
    requires
        other != window,
    ensures
        ({
            let button = if detail == 3 {
                MouseButton::Right
            } else if detail == 2 {
                MouseButton::Middle
            } else {
                MouseButton::Left
            };
            &&& pointer_event_spec(X11PointerKind::ButtonPress, detail, window, window) == Some(
                PointerEvent::Click { button, button_state: MouseButtonState::Down },
            )
            &&& pointer_event_spec(X11PointerKind::ButtonRelease, detail, window, window) == Some(
                PointerEvent::Click { button, button_state: MouseButtonState::Up },
            )
        }),
        pointer_event_spec(X11PointerKind::EnterNotify, detail, window, window) == Some(PointerEvent::Enter),
        pointer_event_spec(X11PointerKind::LeaveNotify, detail, window, window) == Some(PointerEvent::Leave),
        pointer_event_spec(X11PointerKind::MotionNotify, detail, window, window) == Some(PointerEvent::Move),
        pointer_event_spec(X11PointerKind::ButtonPress, detail, other, window) is None,
        pointer_event_spec(X11PointerKind::ButtonRelease, detail, other, window) is None,
{
}

/// What a single pointer event on window `event_window` means for the tray
/// icon whose window is `icon_window`, without regard to earlier presses:
/// nothing unless it happened on the icon. [`ClickTracker::on_event`] adds
/// double clicks.
pub fn pointer_event(kind: X11PointerKind, detail: u8, event_window: u32, icon_window: u32) -> (r:
    Option<PointerEvent>)
    ensures
        r == pointer_event_spec(kind, detail, event_window, icon_window),
{
    if event_window != icon_window {
        return None;
    }
    match kind {
        X11PointerKind::ButtonPress => Some(
            PointerEvent::Click {
                button: button_from_detail(detail),
                button_state: MouseButtonState::Down,
            },
        ),
        X11PointerKind::ButtonRelease => Some(
            PointerEvent::Click {
                button: button_from_detail(detail),
                button_state: MouseButtonState::Up,
            },
        ),
        X11PointerKind::EnterNotify => Some(PointerEvent::Enter),
        X11PointerKind::LeaveNotify => Some(PointerEvent::Leave),
        X11PointerKind::MotionNotify => Some(PointerEvent::Move),
    }
}

/// The double-click interval, in milliseconds, for a backend that has none
/// from the desktop: the usual desktop default.
pub const DOUBLE_CLICK_MS: u32 = 500;

/// The milliseconds from X11 server time `earlier` to `later`; server time
/// wraps around after `u32::MAX`.
pub open spec fn elapsed_ms(earlier: u32, later: u32) -> int {
    (later as int - earlier as int) % 0x1_0000_0000
}

/// The double-click interval, and the last button press on the icon that
/// can still start a double click: its X11 button number and server time.
#[derive(Debug, Clone, Copy)]
pub struct ClickTracker {
    /// The longest time, in milliseconds, from one press of a button to the
    /// next that makes the second press a double click.
    pub interval_ms: u32,
    pub last_press: Option<(u8, u32)>,
}

impl ClickTracker {
    /// No press seen yet; double clicks within `interval_ms`.
    pub fn new(interval_ms: u32) -> (r: Self)
        ensures
            r.interval_ms == interval_ms,
            r.last_press is None,
    {
        ClickTracker { interval_ms, last_press: None }
    }

    /// Whether a press of `detail` at `time` completes a double click that
    /// the last press began.
    pub open spec fn completes_double(self, detail: u8, time: u32) -> bool {
        match self.last_press {
            Some((d, t)) => d == detail && elapsed_ms(t, time) <= self.interval_ms,
            None => false,
        }
    }

    /// What a pointer event on window `event_window` at server time `time`
    /// means for the tray icon whose window is `icon_window`. A press of the
    /// same button within the interval of the last press is a double
    /// click, as on the other platforms, and starts no new double click;
    /// any other press is a click that may start one.
    pub fn on_event(
        &mut self,
        kind: X11PointerKind,
        detail: u8,
        time: u32,
        event_window: u32,
        icon_window: u32,
    ) -> (r: Option<PointerEvent>)
        ensures
            (event_window != icon_window || kind != X11PointerKind::ButtonPress) ==> {
                &&& *final(self) == *old(self)
                &&& r == pointer_event_spec(kind, detail, event_window, icon_window)
            },
            (event_window == icon_window && kind == X11PointerKind::ButtonPress) ==> if old(
                self,
            ).completes_double(detail, time) {
                &&& r == Some(PointerEvent::DoubleClick { button: button_of_detail(detail) })
                &&& *final(self) == (ClickTracker { last_press: None, ..*old(self) })
            } else {
                &&& r == Some(
                    PointerEvent::Click {
                        button: button_of_detail(detail),
                        button_state: MouseButtonState::Down,
                    },
                )
                &&& *final(self) == (ClickTracker {
                    last_press: Some((detail, time)),
                    ..*old(self)
                })
            },
    {
        if event_window != icon_window || kind != X11PointerKind::ButtonPress {
            return pointer_event(kind, detail, event_window, icon_window);
        }
        let double = match self.last_press {
            Some((d, t)) => d == detail && time.wrapping_sub(t) <= self.interval_ms,
            None => false,
        };
        if double {
            self.last_press = None;
            Some(PointerEvent::DoubleClick { button: button_from_detail(detail) })
        } else {
            self.last_press = Some((detail, time));
            Some(
                PointerEvent::Click {
                    button: button_from_detail(detail),
                    button_state: MouseButtonState::Down,
                },
            )
        }
    }
}

/// Two presses of one button on the icon within the interval make a double
/// click: the first press, whatever came before it, leaves a tracker that
/// the second completes. The double click starts no new one, so a third
/// press is a plain click.
pub proof fn lemma_double_click(t: ClickTracker, detail: u8, first: u32, second: u32, third: u32)
    requires
        elapsed_ms(first, second) <= t.interval_ms,
    ensures
        (ClickTracker { last_press: Some((detail, first)), ..t }).completes_double(detail, second),
        !(ClickTracker { last_press: None, ..t }).completes_double(detail, third),
        forall|other: u8|
            other != detail ==> !(#[trigger] (ClickTracker {
                last_press: Some((detail, first)),
                ..t
            }).completes_double(other, second)),
{
}

/// Server time runs forward: the milliseconds from one time to a later one
/// are their difference, also across the wrap of `u32`; so a press later
/// than the interval after the last one is no double click.
pub proof fn lemma_elapsed(t: ClickTracker, detail: u8, earlier: u32, later: u32)
    ensures
        earlier <= later ==> elapsed_ms(earlier, later) == later - earlier,
        later < earlier ==> elapsed_ms(earlier, later) == later as int + 0x1_0000_0000 - earlier,
        (earlier <= later && later - earlier > t.interval_ms) ==> !(ClickTracker {
            last_press: Some((detail, earlier)),
            ..t
        }).completes_double(detail, later),
{
}

// ---------------------------------------------------------------------------
// Visuals
// ---------------------------------------------------------------------------

/// The X11 visual class of true-colour visuals.
pub const TRUE_COLOR: u8 = 4;

/// A visual that the screen offers.
#[derive(Debug, Clone, Copy)]
pub struct VisualInfo {
    pub visual_id: u32,
    pub class: u8,
}

/// The visuals that the screen offers at one depth.
#[derive(Debug)]
pub struct DepthInfo {
    pub depth: u8,
    pub visuals: Vec<VisualInfo>,
}

/// The first true-colour visual of a list.
pub open spec fn first_true_color(vs: Seq<VisualInfo>) -> Option<u32>
    decreases vs.len(),
{
    if vs.len() == 0 {
        None
    } else if vs[0].class == TRUE_COLOR {
        Some(vs[0].visual_id)
    } else {
        first_true_color(vs.subrange(1, vs.len() as int))
    }
}

/// The first true-colour visual of depth 32: one that can show a
/// translucent icon.
pub open spec fn argb_visual(ds: Seq<DepthInfo>) -> Option<u32>
    decreases ds.len(),
{
    if ds.len() == 0 {
        None
    } else if ds[0].depth == 32 && first_true_color(ds[0].visuals@) is Some {
        first_true_color(ds[0].visuals@)
    } else {
        argb_visual(ds.subrange(1, ds.len() as int))
    }
}

/// The visual and depth for the icon window: a 32-bit true-colour visual
/// where the screen has one, else the root window's; the visual that the
/// tray asks for, if it asks, replaces the visual but not the depth.
pub open spec fn icon_visual(
    root_visual: u32,
    root_depth: u8,
    allowed: Seq<DepthInfo>,
    tray_visual: Option<u32>,
) -> (u32, u8) {
    let (visual, depth) = match argb_visual(allowed) {
        Some(v) => (v, 32u8),
        None => (root_visual, root_depth),
    };
    match tray_visual {
        Some(v) => (v, depth),
        None => (visual, depth),
    }
}

/// The first true-colour visual of a list is a true-colour visual of the
/// list, and none before it is one; there is none only when no visual of
/// the list is true-colour.
pub proof fn lemma_first_true_color(vs: Seq<VisualInfo>)
    ensures
        first_true_color(vs) is None <==> forall|j: int| 0 <= j < vs.len() ==> #[trigger] vs[j].class != 4,
        first_true_color(vs) is Some ==> exists|j: int|
            0 <= j < vs.len() && #[trigger] vs[j].class == 4 && vs[j].visual_id == first_true_color(
                vs,
            )->0 && forall|i: int| 0 <= i < j ==> vs[i].class != 4,
    decreases vs.len(),
{
    if vs.len() > 0 {
        let rest = vs.subrange(1, vs.len() as int);
        lemma_first_true_color(rest);
        if vs[0].class == 4 {
            assert(vs[0].class == 4);
        } else {
            if first_true_color(rest) is Some {
                let j = choose|j: int|
                    0 <= j < rest.len() && #[trigger] rest[j].class == 4 && rest[j].visual_id
                        == first_true_color(rest)->0 && forall|i: int| 0 <= i < j ==> rest[i].class != 4;
                assert(vs[j + 1] == rest[j]);
                assert forall|i: int| 0 <= i < j + 1 implies vs[i].class != 4 by {
                    if i > 0 {
                        assert(vs[i] == rest[i - 1]);
                    }
                }
            } else {
                assert forall|j: int| 0 <= j < vs.len() implies #[trigger] vs[j].class != 4 by {
                    if j > 0 {
                        assert(vs[j] == rest[j - 1]);
                    }
                }
            }
        }
        if forall|j: int| 0 <= j < vs.len() ==> #[trigger] vs[j].class != 4 {
            assert forall|j: int| 0 <= j < rest.len() implies #[trigger] rest[j].class != 4 by {
                assert(rest[j] == vs[j + 1]);
            }
            assert(vs[0].class != 4);
        }
    }
}

/// The icon window gets depth 32 and a true-colour visual of depth 32
/// exactly when the screen offers one, and keeps the root window's depth
/// otherwise; the visual the tray asks for, if any, is used.
pub proof fn lemma_icon_visual(
    root_visual: u32,
    root_depth: u8,
    ds: Seq<DepthInfo>,
    tray_visual: Option<u32>,
)
    ensures
        ({
            let offered = exists|i: int, j: int|
                0 <= i < ds.len() && ds[i].depth == 32 && 0 <= j < ds[i].visuals@.len()
                    && #[trigger] ds[i].visuals@[j].class == 4;
            let (visual, depth) = icon_visual(root_visual, root_depth, ds, tray_visual);
            &&& offered ==> depth == 32
            &&& !offered ==> depth == root_depth && (tray_visual is None ==> visual == root_visual)
            &&& tray_visual matches Some(v) ==> visual == v
            &&& (offered && tray_visual is None) ==> exists|i: int, j: int|
                0 <= i < ds.len() && ds[i].depth == 32 && 0 <= j < ds[i].visuals@.len()
                    && #[trigger] ds[i].visuals@[j].class == 4 && ds[i].visuals@[j].visual_id
                    == visual
        }),
{
    lemma_argb_visual(ds);
}

proof fn lemma_argb_visual(ds: Seq<DepthInfo>)
    ensures
        argb_visual(ds) is Some <==> exists|i: int, j: int|
            0 <= i < ds.len() && ds[i].depth == 32 && 0 <= j < ds[i].visuals@.len()
                && #[trigger] ds[i].visuals@[j].class == 4,
        argb_visual(ds) is Some ==> exists|i: int, j: int|
            0 <= i < ds.len() && ds[i].depth == 32 && 0 <= j < ds[i].visuals@.len()
                && #[trigger] ds[i].visuals@[j].class == 4 && ds[i].visuals@[j].visual_id
                == argb_visual(ds)->0,
    decreases ds.len(),
{
    if ds.len() > 0 {
        let rest = ds.subrange(1, ds.len() as int);
        lemma_argb_visual(rest);
        lemma_first_true_color(ds[0].visuals@);
        if ds[0].depth == 32 && first_true_color(ds[0].visuals@) is Some {
            let j = choose|j: int|
                0 <= j < ds[0].visuals@.len() && #[trigger] ds[0].visuals@[j].class == 4
                    && ds[0].visuals@[j].visual_id == first_true_color(ds[0].visuals@)->0
                    && forall|i: int| 0 <= i < j ==> ds[0].visuals@[i].class != 4;
            assert(ds[0].visuals@[j].class == 4);
        } else {
            if argb_visual(rest) is Some {
                let (i, j) = choose|i: int, j: int|
                    0 <= i < rest.len() && rest[i].depth == 32 && 0 <= j < rest[i].visuals@.len()
                        && #[trigger] rest[i].visuals@[j].class == 4 && rest[i].visuals@[j].visual_id
                        == argb_visual(rest)->0;
                assert(ds[i + 1] == rest[i]);
                assert(ds[i + 1].visuals@[j].class == 4);
            }
            if exists|i: int, j: int|
                0 <= i < ds.len() && ds[i].depth == 32 && 0 <= j < ds[i].visuals@.len()
                    && #[trigger] ds[i].visuals@[j].class == 4 {
                let (i, j) = choose|i: int, j: int|
                    0 <= i < ds.len() && ds[i].depth == 32 && 0 <= j < ds[i].visuals@.len()
                        && #[trigger] ds[i].visuals@[j].class == 4;
                if i == 0 {
                    assert(ds[0].visuals@[j].class == 4);
                } else {
                    assert(ds[i] == rest[i - 1]);
                    assert(rest[i - 1].visuals@[j].class == 4);
                }
            }
        }
    }
}

fn find_true_color(vs: &[VisualInfo]) -> (r: Option<u32>)
    ensures
        r == first_true_color(vs@),
{
    let mut i: usize = 0;
    assert(vs@.subrange(0, vs@.len() as int) =~= vs@);
    while i < vs.len()
        invariant
            i <= vs@.len(),
            first_true_color(vs@) == first_true_color(vs@.subrange(i as int, vs@.len() as int)),
        decreases vs@.len() - i,
    {
        let ghost rest = vs@.subrange(i as int, vs@.len() as int);
        assert(rest.subrange(1, rest.len() as int) =~= vs@.subrange(i + 1, vs@.len() as int));
        if vs[i].class == TRUE_COLOR {
            return Some(vs[i].visual_id);
        }
        i = i + 1;
    }
    None
}

fn find_argb_visual(allowed: &[DepthInfo]) -> (r: Option<u32>)
    ensures
        r == argb_visual(allowed@),
{
    let mut i: usize = 0;
    assert(allowed@.subrange(0, allowed@.len() as int) =~= allowed@);
    while i < allowed.len()
        invariant
            i <= allowed@.len(),
            argb_visual(allowed@) == argb_visual(allowed@.subrange(i as int, allowed@.len() as int)),
        decreases allowed@.len() - i,
    {
        let ghost rest = allowed@.subrange(i as int, allowed@.len() as int);
        assert(rest.subrange(1, rest.len() as int) =~= allowed@.subrange(i + 1, allowed@.len() as int));
        if allowed[i].depth == 32 {
            if let Some(v) = find_true_color(allowed[i].visuals.as_slice()) {
                return Some(v);
            }
        }
        i = i + 1;
    }
    None
}

/// Chooses the visual and depth of the icon window.
pub fn choose_visual(
    root_visual: u32,
    root_depth: u8,
    allowed: &[DepthInfo],
    tray_visual: Option<u32>,
) -> (r: (u32, u8))
    ensures
        r == icon_visual(root_visual, root_depth, allowed@, tray_visual),
{
    let (visual, depth) = match find_argb_visual(allowed) {
        Some(v) => (v, 32u8),
        None => (root_visual, root_depth),
    };
    match tray_visual {
        Some(v) => (v, depth),
        None => (visual, depth),
    }
}

} // verus!
