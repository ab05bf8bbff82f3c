use vstd::prelude::*;

use crate::event::{MouseButton, MouseButtonState, PointerEvent};
use crate::icon::{check_rgba, rgba_check, BadIcon, PIXEL_SIZE};

verus! {

// ---------------------------------------------------------------------------
// Wide strings
// ---------------------------------------------------------------------------

/// The UTF-16 code units of one character.
pub open spec fn utf16_units(c: char) -> Seq<u16> {
    let v = c as u32;
    if v < 0x10000 {
        seq![v as u16]
    } else {
        let w = v - 0x10000;
        seq![(0xD800 + w / 0x400) as u16, (0xDC00 + w % 0x400) as u16]
    }
}

/// The UTF-16 code units of a string.
pub open spec fn utf16(s: Seq<char>) -> Seq<u16>
    decreases s.len(),
{
    if s.len() == 0 {
        Seq::empty()
    } else {
        utf16(s.subrange(0, s.len() - 1)) + utf16_units(s[s.len() - 1])
    }
}

/// A string as the NUL-terminated UTF-16 that the wide Win32 calls take.
pub open spec fn wide(s: Seq<char>) -> Seq<u16> {
    utf16(s).push(0)
}

/// A string of characters from the Basic Multilingual Plane encodes as one
/// UTF-16 unit per character, each the character's code point.
pub proof fn lemma_utf16_bmp(s: Seq<char>)
    requires
        forall|i: int| 0 <= i < s.len() ==> (#[trigger] s[i] as u32) < 0x10000,
    ensures
        utf16(s).len() == s.len(),
        forall|i: int| 0 <= i < s.len() ==> #[trigger] utf16(s)[i] == s[i] as u32 as u16,
    decreases s.len(),
{
    if s.len() > 0 {
        let prefix = s.subrange(0, s.len() - 1);
        assert forall|i: int| 0 <= i < prefix.len() implies (#[trigger] prefix[i] as u32) < 0x10000 by {
            assert(prefix[i] == s[i]);
        }
        lemma_utf16_bmp(prefix);
        assert((s[s.len() - 1] as u32) < 0x10000);
        assert forall|i: int| 0 <= i < s.len() implies #[trigger] utf16(s)[i] == s[i] as u32 as u16 by {
            if i < s.len() - 1 {
                assert(prefix[i] == s[i]);
            }
        }
    }
}

/// Whether a UTF-16 unit is the first half of a surrogate pair.
pub open spec fn is_high_surrogate(u: u16) -> bool {
    0xD800 <= u <= 0xDBFF
}

/// Whether a UTF-16 unit is the second half of a surrogate pair.
pub open spec fn is_low_surrogate(u: u16) -> bool {
    0xDC00 <= u <= 0xDFFF
}

/// The code points of UTF-16 code units, read from the end: a surrogate
/// pair makes one code point, any other unit is its own code point.
pub open spec fn utf16_decode(units: Seq<u16>) -> Seq<u32>
    decreases units.len(),
{
    let n = units.len() as int;
    if n == 0 {
        Seq::empty()
    } else if n >= 2 && is_low_surrogate(units[n - 1]) && is_high_surrogate(units[n - 2]) {
        utf16_decode(units.subrange(0, n - 2)).push(
            (0x10000 + (units[n - 2] - 0xD800) * 0x400 + (units[n - 1] - 0xDC00)) as u32,
        )
    } else {
        utf16_decode(units.subrange(0, n - 1)).push(units[n - 1] as u32)
    }
}

/// The code points of a string.
pub open spec fn code_points(s: Seq<char>) -> Seq<u32> {
    s.map_values(|c: char| c as u32)
}

proof fn lemma_units_of_scalar(c: char)
    requires
        vstd::utf8::is_scalar(c as u32),
    ensures
        (c as u32) < 0x10000 ==> utf16_units(c) == seq![(c as u32) as u16] && !is_low_surrogate(
            (c as u32) as u16,
        ) && ((c as u32) as u16) as u32 == c as u32,
        (c as u32) >= 0x10000 ==> {
            let u = utf16_units(c);
            &&& u.len() == 2
            &&& is_high_surrogate(u[0])
            &&& is_low_surrogate(u[1])
            &&& (0x10000 + (u[0] - 0xD800) * 0x400 + (u[1] - 0xDC00)) == c as u32
        },
{
    let v = c as u32;
    if v >= 0x10000 {
        let w = v - 0x10000;
        assert(0 <= w <= 0xFFFFF);
        assert(w / 0x400 <= 0x3FF);
        assert(0 <= w % 0x400 < 0x400);
        assert(w == (w / 0x400) * 0x400 + w % 0x400);
    }
}

/// Decoding the UTF-16 of a string gives back its code points.
pub proof fn lemma_utf16_roundtrip(s: Seq<char>)
    requires
        forall|i: int| 0 <= i < s.len() ==> vstd::utf8::is_scalar(#[trigger] s[i] as u32),
    ensures
        utf16_decode(utf16(s)) == code_points(s),
    decreases s.len(),
{
    if s.len() == 0 {
        assert(code_points(s) =~= Seq::<u32>::empty());
    } else {
        let n = s.len() as int;
        let prefix = s.subrange(0, n - 1);
        let c = s[n - 1];
        assert forall|i: int| 0 <= i < prefix.len() implies vstd::utf8::is_scalar(
            #[trigger] prefix[i] as u32,
        ) by {
            assert(prefix[i] == s[i]);
        }
        lemma_utf16_roundtrip(prefix);
        lemma_units_of_scalar(c);
        let p = utf16(prefix);
        let u = utf16_units(c);
        let all = p + u;
        assert(utf16(s) == all);
        assert(code_points(s) =~= code_points(prefix).push(c as u32));
        if (c as u32) < 0x10000 {
            assert(all.subrange(0, all.len() - 1) =~= p);
            assert(all[all.len() - 1] == u[0]);
        } else {
            assert(all.subrange(0, all.len() - 2) =~= p);
            assert(all[all.len() - 1] == u[1]);
            assert(all[all.len() - 2] == u[0]);
        }
    }
}

/// A string without NUL characters has exactly one zero unit in its wide
/// form: the terminator at the end.
pub proof fn lemma_wide_single_nul(s: Seq<char>)
    requires
        forall|i: int|
            0 <= i < s.len() ==> vstd::utf8::is_scalar(#[trigger] s[i] as u32) && s[i] as u32 != 0,
    ensures
        wide(s).len() == utf16(s).len() + 1,
        wide(s)[wide(s).len() - 1] == 0,
        forall|j: int| 0 <= j < utf16(s).len() ==> #[trigger] wide(s)[j] != 0,
    decreases s.len(),
{
    if s.len() > 0 {
        let n = s.len() as int;
        let prefix = s.subrange(0, n - 1);
        let c = s[n - 1];
        assert forall|i: int| 0 <= i < prefix.len() implies vstd::utf8::is_scalar(
            #[trigger] prefix[i] as u32,
        ) && prefix[i] as u32 != 0 by {
            assert(prefix[i] == s[i]);
        }
        lemma_wide_single_nul(prefix);
        lemma_units_of_scalar(c);
        let p = utf16(prefix);
        let u = utf16_units(c);
        assert(utf16(s) == p + u);
        assert forall|j: int| 0 <= j < utf16(s).len() implies #[trigger] wide(s)[j] != 0 by {
            assert(wide(s)[j] == utf16(s)[j]);
            if j < p.len() {
                assert(wide(prefix)[j] == p[j]);
                assert(wide(prefix)[j] != 0);
            } else {
                assert(utf16(s)[j] == u[j - p.len()]);
            }
        }
    }
}

/// Encodes a string as NUL-terminated UTF-16.
pub fn encode_wide(s: &str) -> (r: Vec<u16>)
    ensures
        r@ == wide(s@),
{
    let mut out: Vec<u16> = Vec::new();
    for c in it: s.chars()
        invariant
            it.seq() == s@,
            out@ == utf16(s@.subrange(0, it.index() as int)),
    {
        let ghost k = it.index();
        let v: u32 = c as u32;
        if v < 0x10000 {
            out.push(v as u16);
        } else {
            let w: u32 = v - 0x10000;
            out.push((0xD800 + w / 0x400) as u16);
            out.push((0xDC00 + w % 0x400) as u16);
        }
        proof {
            let prefix = s@.subrange(0, k + 1);
            assert(prefix.subrange(0, k as int) =~= s@.subrange(0, k as int));
            assert(prefix[k as int] == c);
            assert(out@ =~= utf16(s@.subrange(0, k as int)) + utf16_units(c));
        }
    }
    assert(s@.subrange(0, s@.len() as int) =~= s@);
    out.push(0);
    out
}

/// The number of UTF-16 code units in a tray tooltip buffer.
pub const TIP_LEN: usize = 128;

/// The tooltip buffer that holds `s`: its NUL-terminated UTF-16, cut off
/// after [`TIP_LEN`] units, then padded with zeros.
pub open spec fn tip_units(s: Seq<char>) -> Seq<u16> {
    Seq::new(
        TIP_LEN as nat,
        |i: int|
            if i < wide(s).len() {
                wide(s)[i]
            } else {
                0u16
            },
    )
}

/// Fills a tray tooltip buffer with `tooltip`, as much of it as fits.
pub fn tip_buffer(tooltip: &str) -> (r: Vec<u16>)
    ensures
        r@ == tip_units(tooltip@),
{
    let tip = encode_wide(tooltip);
    let n: usize = if tip.len() < TIP_LEN {
        tip.len()
    } else {
        TIP_LEN
    };
    let mut buf: Vec<u16> = Vec::new();
    let mut i: usize = 0;
    while i < TIP_LEN
        invariant
            i <= TIP_LEN,
            n <= TIP_LEN,
            n == (if tip@.len() < TIP_LEN { tip@.len() } else { TIP_LEN as nat }),
            tip@ == wide(tooltip@),
            buf@.len() == i,
            forall|j: int| 0 <= j < i ==> #[trigger] buf@[j] == tip_units(tooltip@)[j],
        decreases TIP_LEN - i,
    {
        if i < n {
            buf.push(tip[i]);
        } else {
            buf.push(0);
        }
        i = i + 1;
    }
    assert(buf@ =~= tip_units(tooltip@));
    buf
}

// ---------------------------------------------------------------------------
// Icons
// ---------------------------------------------------------------------------

/// One RGBA pixel.
pub struct Pixel {
    pub r: u8,
    pub g: u8,
    pub b: u8,
    pub a: u8,
}

/// A pixel with its red and blue channels exchanged.
pub open spec fn swapped(p: Pixel) -> Pixel {
    Pixel { r: p.b, g: p.g, b: p.r, a: p.a }
}

impl Pixel {
    /// Turns an RGBA pixel into the BGRA order of a Windows bitmap.
    pub fn convert_to_bgra(&mut self)
        ensures
            *final(self) == swapped(*old(self)),
    {
        let r: u8 = self.r;
        self.r = self.b;
        self.b = r;
    }
}

/// Converting twice gives the pixel back.
pub proof fn lemma_bgra_involution(p: Pixel)
    ensures
        swapped(swapped(p)) == p,
{
}

/// An RGBA icon whose byte count matches its dimensions.
pub struct RgbaIcon {
    rgba: Vec<u8>,
    width: u32,
    height: u32,
}

/// What an [`RgbaIcon`] is: its bytes and its dimensions.
pub struct RgbaModel {
    pub rgba: Seq<u8>,
    pub width: u32,
    pub height: u32,
}

impl View for RgbaIcon {
    type V = RgbaModel;

    closed spec fn view(&self) -> RgbaModel {
        RgbaModel { rgba: self.rgba@, width: self.width, height: self.height }
    }
}

/// The two bitmaps of a Windows icon.
pub struct IconBitmaps {
    /// One byte per pixel: the pixel's alpha plus one, wrapping.
    pub and_mask: Vec<u8>,
    /// The pixels in BGRA order.
    pub bgra: Vec<u8>,
    pub width: u32,
    pub height: u32,
}

/// The AND-mask byte of a pixel with alpha `a`: `a - 255`, wrapping.
pub open spec fn and_mask_byte(a: u8) -> u8 {
    ((a as int + 1) % 256) as u8
}

/// The AND-mask byte of a pixel is its alpha minus 255, wrapping: an opaque
/// pixel gives 0 and a transparent one gives 1.
pub proof fn lemma_and_mask_byte(a: u8)
    ensures
        (and_mask_byte(a) as int + 255) % 256 == a as int,
        and_mask_byte(255) == 0,
        and_mask_byte(0) == 1,
{
}

impl RgbaIcon {
    /// The buffer holds whole pixels.
    #[verifier::type_invariant]
    spec fn whole_pixels(self) -> bool {
        self.rgba@.len() % 4 == 0
    }

    /// Checks the buffer against the dimensions and keeps it.
    pub fn from_rgba(rgba: Vec<u8>, width: u32, height: u32) -> (r: Result<Self, BadIcon>)
        requires
            width * height <= u32::MAX,
        ensures
            r is Ok <==> rgba_check(rgba@.len() as usize, width, height) is Ok,
            r matches Err(e) ==> rgba_check(rgba@.len() as usize, width, height) == Err::<(), BadIcon>(e),
            r matches Ok(icon) ==> icon@ == (RgbaModel { rgba: rgba@, width, height }),
    {
        match check_rgba(rgba.len(), width, height) {
            Err(e) => Err(e),
            Ok(()) => Ok(RgbaIcon { rgba, width, height }),
        }
    }

    /// Splits the icon into the AND mask and the BGRA colour bitmap that
    /// `CreateIcon` takes.
    pub fn into_bitmaps(self) -> (r: IconBitmaps)
        ensures
            r.width == self@.width,
            r.height == self@.height,
            r.and_mask@.len() == self@.rgba.len() / 4,
            r.bgra@.len() == self@.rgba.len(),
            forall|p: int|
                0 <= p < self@.rgba.len() / 4 ==> {
                    &&& #[trigger] r.and_mask@[p] == and_mask_byte(self@.rgba[4 * p + 3])
                    &&& r.bgra@[4 * p] == self@.rgba[4 * p + 2]
                    &&& r.bgra@[4 * p + 1] == self@.rgba[4 * p + 1]
                    &&& r.bgra@[4 * p + 2] == self@.rgba[4 * p]
                    &&& r.bgra@[4 * p + 3] == self@.rgba[4 * p + 3]
                },
    {
        proof {
            use_type_invariant(&self);
        }
        let ghost src = self.rgba@;
        let width: u32 = self.width;
        let height: u32 = self.height;
        let mut rgba = self.rgba;
        let byte_count: usize = rgba.len();
        let pixel_count: usize = byte_count / PIXEL_SIZE;
        let mut and_mask: Vec<u8> = Vec::new();
        let mut p: usize = 0;
        while p < pixel_count
            invariant
                pixel_count == src.len() / 4,
                src.len() == byte_count,
                src.len() % 4 == 0,
                p <= pixel_count,
                rgba@.len() == src.len(),
                and_mask@.len() == p,
                forall|q: int|
                    0 <= q < p ==> {
                        &&& #[trigger] and_mask@[q] == and_mask_byte(src[4 * q + 3])
                        &&& rgba@[4 * q] == src[4 * q + 2]
                        &&& rgba@[4 * q + 1] == src[4 * q + 1]
                        &&& rgba@[4 * q + 2] == src[4 * q]
                        &&& rgba@[4 * q + 3] == src[4 * q + 3]
                    },
                forall|k: int| 4 * p <= k < src.len() ==> #[trigger] rgba@[k] == src[k],
            decreases pixel_count - p,
        {
            assert(p * 4 + 3 < src.len());
            let base: usize = p * 4;
            let ghost before = rgba@;
            let ghost mask_before = and_mask@;
            let mut pixel = Pixel {
                r: rgba[base],
                g: rgba[base + 1],
                b: rgba[base + 2],
                a: rgba[base + 3],
            };
            and_mask.push(pixel.a.wrapping_sub(u8::MAX));
            pixel.convert_to_bgra();
            rgba.set(base, pixel.r);
            rgba.set(base + 1, pixel.g);
            rgba.set(base + 2, pixel.b);
            rgba.set(base + 3, pixel.a);
            assert(rgba@[4 * p] == src[4 * p + 2]);
            assert(rgba@[4 * p + 1] == src[4 * p + 1]);
            assert(rgba@[4 * p + 2] == src[4 * p]);
            assert(rgba@[4 * p + 3] == src[4 * p + 3]);
            assert(and_mask@[p as int] == and_mask_byte(src[4 * p + 3]));
            assert forall|q: int| 0 <= q < p implies {
                &&& #[trigger] and_mask@[q] == and_mask_byte(src[4 * q + 3])
                &&& rgba@[4 * q] == src[4 * q + 2]
                &&& rgba@[4 * q + 1] == src[4 * q + 1]
                &&& rgba@[4 * q + 2] == src[4 * q]
                &&& rgba@[4 * q + 3] == src[4 * q + 3]
            } by {
                assert(mask_before[q] == and_mask_byte(src[4 * q + 3]));
                assert(rgba@[4 * q] == before[4 * q]);
                assert(rgba@[4 * q + 1] == before[4 * q + 1]);
                assert(rgba@[4 * q + 2] == before[4 * q + 2]);
                assert(rgba@[4 * q + 3] == before[4 * q + 3]);
            }
            p = p + 1;
        }
        IconBitmaps { and_mask, bgra: rgba, width, height }
    }
}

// ---------------------------------------------------------------------------
// Menu and notification flags
// ---------------------------------------------------------------------------

pub const MF_STRING: u32 = 0x0000;
pub const MF_GRAYED: u32 = 0x0001;
pub const MF_CHECKED: u32 = 0x0008;
pub const MF_POPUP: u32 = 0x0010;
pub const MF_SEPARATOR: u32 = 0x0800;

pub const NIF_MESSAGE: u32 = 0x0001;
pub const NIF_ICON: u32 = 0x0002;
pub const NIF_TIP: u32 = 0x0004;

/// The `AppendMenuW` flags of a text or checkbox item: a string item,
/// checked when ticked, grayed when disabled.
pub fn item_flags(ticked: bool, enabled: bool) -> (r: u32)
    ensures
        r == (MF_STRING | (if ticked { MF_CHECKED } else { 0 }) | (if enabled {
            0
        } else {
            MF_GRAYED
        })),
{
    let checked: u32 = if ticked {
        MF_CHECKED
    } else {
        0
    };
    let grayed: u32 = if enabled {
        0
    } else {
        MF_GRAYED
    };
    MF_STRING | checked | grayed
}

/// The `AppendMenuW` flags of a submenu item, grayed when disabled.
pub fn submenu_flags(enabled: bool) -> (r: u32)
    ensures
        r == (MF_POPUP | (if enabled { 0 } else { MF_GRAYED })),
{
    MF_POPUP | if enabled {
        0
    } else {
        MF_GRAYED
    }
}

/// The `NOTIFYICONDATAW` flags for registering a tray icon: it always
/// reports pointer messages, and sets the icon and the tooltip when it has
/// them.
pub fn notify_flags(has_icon: bool, has_tip: bool) -> (r: u32)
    ensures
        r == (NIF_MESSAGE | (if has_icon { NIF_ICON } else { 0 }) | (if has_tip {
            NIF_TIP
        } else {
            0
        })),
{
    let icon: u32 = if has_icon {
        NIF_ICON
    } else {
        0
    };
    let tip: u32 = if has_tip {
        NIF_TIP
    } else {
        0
    };
    NIF_MESSAGE | icon | tip
}

// ---------------------------------------------------------------------------
// Pointer messages
// ---------------------------------------------------------------------------

pub const WM_MOUSEMOVE: u32 = 0x0200;
pub const WM_LBUTTONDOWN: u32 = 0x0201;
pub const WM_LBUTTONUP: u32 = 0x0202;
pub const WM_LBUTTONDBLCLK: u32 = 0x0203;
pub const WM_RBUTTONDOWN: u32 = 0x0204;
pub const WM_RBUTTONUP: u32 = 0x0205;
pub const WM_RBUTTONDBLCLK: u32 = 0x0206;
pub const WM_MBUTTONDOWN: u32 = 0x0207;
pub const WM_MBUTTONUP: u32 = 0x0208;
pub const WM_MBUTTONDBLCLK: u32 = 0x0209;

/// A pointer message that a tray icon's notification carries.
#[derive(Debug, Clone, Copy, PartialEq, Eq, Structural)]
pub enum MouseMessage {
    /// A press, release or double click.
    Button(PointerEvent),
    /// The pointer moved over the icon.
    Move,
}

/// What the mouse message `msg` means for a tray icon.
pub open spec fn mouse_message_spec(msg: u32) -> Option<MouseMessage> {
    if msg == WM_LBUTTONDOWN {
        Some(MouseMessage::Button(PointerEvent::Click { button: MouseButton::Left, button_state: MouseButtonState::Down }))
    } else if msg == WM_RBUTTONDOWN {
        Some(MouseMessage::Button(PointerEvent::Click { button: MouseButton::Right, button_state: MouseButtonState::Down }))
    } else if msg == WM_MBUTTONDOWN {
        Some(MouseMessage::Button(PointerEvent::Click { button: MouseButton::Middle, button_state: MouseButtonState::Down }))
    } else if msg == WM_LBUTTONUP {
        Some(MouseMessage::Button(PointerEvent::Click { button: MouseButton::Left, button_state: MouseButtonState::Up }))
    } else if msg == WM_RBUTTONUP {
        Some(MouseMessage::Button(PointerEvent::Click { button: MouseButton::Right, button_state: MouseButtonState::Up }))
    } else if msg == WM_MBUTTONUP {
        Some(MouseMessage::Button(PointerEvent::Click { button: MouseButton::Middle, button_state: MouseButtonState::Up }))
    } else if msg == WM_LBUTTONDBLCLK {
        Some(MouseMessage::Button(PointerEvent::DoubleClick { button: MouseButton::Left }))
    } else if msg == WM_RBUTTONDBLCLK {
        Some(MouseMessage::Button(PointerEvent::DoubleClick { button: MouseButton::Right }))
    } else if msg == WM_MBUTTONDBLCLK {
        Some(MouseMessage::Button(PointerEvent::DoubleClick { button: MouseButton::Middle }))
    } else if msg == WM_MOUSEMOVE {
        Some(MouseMessage::Move)
    } else {
        None
    }
}

/// Each Win32 mouse message names its own button (L, R, M) and its own kind
/// (button down, button up, double click), by the message numbers of the
/// Win32 headers; every other message is no pointer event.
pub proof fn lemma_mouse_messages(msg: u32)
    ensures
        mouse_message_spec(0x0200) == Some(MouseMessage::Move),
        mouse_message_spec(0x0201) == Some(MouseMessage::Button(PointerEvent::Click { button: MouseButton::Left, button_state: MouseButtonState::Down })),
        mouse_message_spec(0x0202) == Some(MouseMessage::Button(PointerEvent::Click { button: MouseButton::Left, button_state: MouseButtonState::Up })),
        mouse_message_spec(0x0203) == Some(MouseMessage::Button(PointerEvent::DoubleClick { button: MouseButton::Left })),
        mouse_message_spec(0x0204) == Some(MouseMessage::Button(PointerEvent::Click { button: MouseButton::Right, button_state: MouseButtonState::Down })),
        mouse_message_spec(0x0205) == Some(MouseMessage::Button(PointerEvent::Click { button: MouseButton::Right, button_state: MouseButtonState::Up })),
        mouse_message_spec(0x0206) == Some(MouseMessage::Button(PointerEvent::DoubleClick { button: MouseButton::Right })),
        mouse_message_spec(0x0207) == Some(MouseMessage::Button(PointerEvent::Click { button: MouseButton::Middle, button_state: MouseButtonState::Down })),
        mouse_message_spec(0x0208) == Some(MouseMessage::Button(PointerEvent::Click { button: MouseButton::Middle, button_state: MouseButtonState::Up })),
        mouse_message_spec(0x0209) == Some(MouseMessage::Button(PointerEvent::DoubleClick { button: MouseButton::Middle })),
        (msg < 0x0200 || msg > 0x0209) ==> mouse_message_spec(msg) is None,
{
}

/// Decodes the mouse message of a tray notification; `None` for any other
/// message.
pub fn mouse_message(msg: u32) -> (r: Option<MouseMessage>)
    ensures
        r == mouse_message_spec(msg),
{
    if msg == WM_LBUTTONDOWN {
        Some(MouseMessage::Button(PointerEvent::Click { button: MouseButton::Left, button_state: MouseButtonState::Down }))
    } else if msg == WM_RBUTTONDOWN {
        Some(MouseMessage::Button(PointerEvent::Click { button: MouseButton::Right, button_state: MouseButtonState::Down }))
    } else if msg == WM_MBUTTONDOWN {
        Some(MouseMessage::Button(PointerEvent::Click { button: MouseButton::Middle, button_state: MouseButtonState::Down }))
    } else if msg == WM_LBUTTONUP {
        Some(MouseMessage::Button(PointerEvent::Click { button: MouseButton::Left, button_state: MouseButtonState::Up }))
    } else if msg == WM_RBUTTONUP {
        Some(MouseMessage::Button(PointerEvent::Click { button: MouseButton::Right, button_state: MouseButtonState::Up }))
    } else if msg == WM_MBUTTONUP {
        Some(MouseMessage::Button(PointerEvent::Click { button: MouseButton::Middle, button_state: MouseButtonState::Up }))
    } else if msg == WM_LBUTTONDBLCLK {
        Some(MouseMessage::Button(PointerEvent::DoubleClick { button: MouseButton::Left }))
    } else if msg == WM_RBUTTONDBLCLK {
        Some(MouseMessage::Button(PointerEvent::DoubleClick { button: MouseButton::Right }))
    } else if msg == WM_MBUTTONDBLCLK {
        Some(MouseMessage::Button(PointerEvent::DoubleClick { button: MouseButton::Middle }))
    } else if msg == WM_MOUSEMOVE {
        Some(MouseMessage::Move)
    } else {
        None
    }
}

// ---------------------------------------------------------------------------
// Hover tracking
// ---------------------------------------------------------------------------

/// The bounds of the tray icon on screen; `right` and `bottom` are exclusive.
#[derive(Debug, Clone, Copy, PartialEq, Eq, Structural)]
pub struct IconRect {
    pub left: i32,
    pub top: i32,
    pub right: i32,
    pub bottom: i32,
}

/// `hi - lo` saturated to the range of `i32`.
pub open spec fn saturating_diff(lo: i32, hi: i32) -> i32 {
    let d = hi as int - lo as int;
    if d > i32::MAX {
        i32::MAX
    } else if d < i32::MIN {
        i32::MIN
    } else {
        d as i32
    }
}

/// The length from `lo` to `hi` as the tray reports it: the saturated
/// difference taken as unsigned, so a reversed span wraps around.
pub fn extent(lo: i32, hi: i32) -> (r: u32)
    ensures
        r == saturating_diff(lo, hi) as u32,
{
    let d: i64 = hi as i64 - lo as i64;
    let s: i32 = if d > i32::MAX as i64 {
        i32::MAX
    } else if d < i32::MIN as i64 {
        i32::MIN
    } else {
        d as i32
    };
    s as u32
}

/// The extent from `lo` to `hi` is their difference whenever that fits an
/// `i32` and is not negative; a reversed span wraps to a large number.
pub proof fn lemma_extent(lo: i32, hi: i32)
    ensures
        (lo <= hi && hi as int - lo as int <= i32::MAX) ==> saturating_diff(lo, hi) as u32 as int
            == hi as int - lo as int,
        saturating_diff(lo, lo) == 0,
{
}

impl IconRect {
    /// Whether the point lies inside the rectangle.
    pub open spec fn holds(&self, x: i32, y: i32) -> bool {
        self.left <= x < self.right && self.top <= y < self.bottom
    }

    /// Whether the point lies inside the rectangle.
    pub fn contains(&self, x: i32, y: i32) -> (r: bool)
        ensures
            r == self.holds(x, y),
            r == (self.left <= x && x < self.right && self.top <= y && y < self.bottom),
    {
        self.left <= x && x < self.right && self.top <= y && y < self.bottom
    }

    /// The width of the rectangle, as [`extent`] gives it.
    pub fn width(&self) -> (r: u32)
        ensures
            r == saturating_diff(self.left, self.right) as u32,
    {
        extent(self.left, self.right)
    }

    /// The height of the rectangle, as [`extent`] gives it.
    pub fn height(&self) -> (r: u32)
        ensures
            r == saturating_diff(self.top, self.bottom) as u32,
    {
        extent(self.top, self.bottom)
    }
}

/// A point lies in an icon's rectangle exactly when it is neither left of
/// it, right of it, above it nor below it: `left` and `top` are inside,
/// `right` and `bottom` outside. So a pointer that leaves the icon on any
/// side, upwards off a bottom taskbar too, is outside.
pub proof fn lemma_rect_sides(rect: IconRect, x: i32, y: i32)
    ensures
        x < rect.left ==> !rect.holds(x, y),
        x >= rect.right ==> !rect.holds(x, y),
        y < rect.top ==> !rect.holds(x, y),
        y >= rect.bottom ==> !rect.holds(x, y),
        (rect.left <= x && x < rect.right && rect.top <= y && y < rect.bottom) ==> rect.holds(x, y),
        rect.holds(rect.left, rect.top) <==> (rect.left < rect.right && rect.top < rect.bottom),
{
}

/// What a pointer move over the icon amounts to.
#[derive(Debug, Clone, Copy, PartialEq, Eq, Structural)]
pub enum MoveOutcome {
    /// The pointer entered the icon: report `Enter` and arm the leave timer.
    Entered,
    /// The pointer moved to a new place: report `Move` and arm the leave timer.
    Moved,
    /// The pointer is where it was last seen: report nothing.
    Still,
}

/// Whether the pointer is over the icon, where it was last seen moving, and
/// where it was last seen over the icon.
///
/// Windows tells a tray icon when the pointer moves over it, but not when it
/// leaves; a timer armed when the pointer enters and on each move checks the
/// cursor against the icon's bounds and reports the leave.
#[derive(Debug, Clone, Copy)]
pub struct HoverTracker {
    pub entered: bool,
    /// The position of the last move reported, cleared by each timer tick,
    /// so that only a move to a new place is reported.
    pub last_position: Option<(i32, i32)>,
    /// Where the pointer was last seen over the icon while it is over the
    /// icon; the position that a `Leave` reports.
    pub leave_position: Option<(i32, i32)>,
}

impl HoverTracker {
    /// The tracker after a move over the icon to `position`.
    pub open spec fn moved_to(self, position: (i32, i32)) -> HoverTracker {
        if !self.entered {
            HoverTracker {
                entered: true,
                last_position: self.last_position,
                leave_position: Some(position),
            }
        } else {
            HoverTracker {
                entered: true,
                last_position: Some(position),
                leave_position: Some(position),
            }
        }
    }

    /// What a move over the icon to `position` reports.
    pub open spec fn move_outcome(self, position: (i32, i32)) -> MoveOutcome {
        if !self.entered {
            MoveOutcome::Entered
        } else if self.last_position == Some(position) {
            MoveOutcome::Still
        } else {
            MoveOutcome::Moved
        }
    }

    /// The tracker after a tick of the leave timer.
    pub open spec fn ticked(self) -> HoverTracker {
        HoverTracker { last_position: None, ..self }
    }

    /// The tracker after the cursor was found at `cursor` with the icon at
    /// `rect`.
    pub open spec fn checked(self, cursor: (i32, i32), rect: IconRect) -> HoverTracker {
        if rect.holds(cursor.0, cursor.1) {
            self
        } else {
            HoverTracker { entered: false, leave_position: None, ..self }
        }
    }

    /// No pointer over the icon.
    pub fn new() -> (r: Self)
        ensures
            !r.entered,
            r.last_position is None,
            r.leave_position is None,
    {
        HoverTracker { entered: false, last_position: None, leave_position: None }
    }

    /// The pointer moved over the icon to `position`. Entering reports
    /// `Enter` and leaves the last move as it was, so the next move is
    /// reported unless it repeats that move; a move is reported unless it
    /// repeats the last one. Either way the pointer is now seen at
    /// `position`.
    pub fn on_mouse_move(&mut self, position: (i32, i32)) -> (r: MoveOutcome)
        ensures
            r == old(self).move_outcome(position),
            *final(self) == old(self).moved_to(position),
    {
        if !self.entered {
            self.entered = true;
            self.leave_position = Some(position);
            return MoveOutcome::Entered;
        }
        let moved = match self.last_position {
            Some(last) => last.0 != position.0 || last.1 != position.1,
            None => true,
        };
        self.last_position = Some(position);
        self.leave_position = Some(position);
        if moved {
            MoveOutcome::Moved
        } else {
            MoveOutcome::Still
        }
    }

    /// The leave timer fired: forgets the last move, and gives where the
    /// pointer was last seen over the icon, if it is still counted as over
    /// it. With a position, the backend checks the cursor with
    /// [`on_cursor_checked`](Self::on_cursor_checked).
    pub fn on_leave_timer(&mut self) -> (r: Option<(i32, i32)>)
        ensures
            r == old(self).leave_position,
            *final(self) == old(self).ticked(),
    {
        self.last_position = None;
        self.leave_position
    }

    /// The cursor is at `cursor` and the icon covers `rect`. Returns whether
    /// the pointer left: then the backend stops the timer and reports `Leave`,
    /// and the pointer is no longer over the icon. While the cursor stays over
    /// the icon nothing changes, so a later tick checks again.
    pub fn on_cursor_checked(&mut self, cursor: (i32, i32), rect: IconRect) -> (r: bool)
        ensures
            r == !rect.holds(cursor.0, cursor.1),
            r == (cursor.0 < rect.left || cursor.0 >= rect.right || cursor.1 < rect.top || cursor.1
                >= rect.bottom),
            *final(self) == old(self).checked(cursor, rect),
    {
        if !rect.contains(cursor.0, cursor.1) {
            self.entered = false;
            self.leave_position = None;
            true
        } else {
            false
        }
    }
}

/// A leave follows every enter. Once a move has entered the icon at
/// `position`, every timer tick gives a position to check, and checks with
/// the cursor over the icon change nothing, so the ticks go on until one
/// finds the cursor outside; that check reports the leave, and the next move
/// over the icon is an `Enter` again.
pub proof fn lemma_leave_follows_enter(
    t: HoverTracker,
    position: (i32, i32),
    inside: (i32, i32),
    outside: (i32, i32),
    next: (i32, i32),
    rect: IconRect,
)
    requires
        !t.entered,
        rect.holds(inside.0, inside.1),
        !rect.holds(outside.0, outside.1),
    ensures
        t.move_outcome(position) == MoveOutcome::Entered,
        ({
            let e = t.moved_to(position).ticked();
            &&& e.leave_position is Some
            &&& e.checked(inside, rect) == e
            &&& e.ticked() == e
            &&& !e.checked(outside, rect).entered
            &&& e.checked(outside, rect).move_outcome(next) == MoveOutcome::Entered
        }),
{
}

/// The first move after entering is reported unless it repeats the last
/// move reported before; a move to a new place after any tick is reported.
pub proof fn lemma_move_after_enter(t: HoverTracker, position: (i32, i32), next: (i32, i32))
    requires
        !t.entered,
        t.last_position != Some(next),
    ensures
        t.moved_to(position).move_outcome(next) == MoveOutcome::Moved,
        t.moved_to(position).ticked().move_outcome(next) == MoveOutcome::Moved,
{
}

} // verus!
