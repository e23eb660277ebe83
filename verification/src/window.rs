use vstd::prelude::*;

use crate::settings::{WindowPlacement, WindowPlacementView, opt_placement_view};
use crate::codex::Platform;
use crate::text::{chars_of, has_char, occurs_at, starts_with_exec};

verus! {

/// Characters with which `cmd.exe` chains or pipes commands, escapes, or redirects, so
/// that a URL holding one could run another command through `cmd /C start`.
pub open spec fn is_cmd_metachar(c: char) -> bool {
    c == '&' || c == '|' || c == '^' || c == '<' || c == '>'
}

/// A URL that may be handed to the system browser: `https://` or `http://`, with no line
/// break and no double quote that could break out of the shell command, and, on Windows,
/// where it goes through `cmd /C start`, no `cmd.exe` metacharacter.
pub open spec fn is_safe_external_url(url: Seq<char>, platform: Platform) -> bool {
    &&& occurs_at(url, "https://"@, 0) || occurs_at(url, "http://"@, 0)
    &&& !url.contains('\n')
    &&& !url.contains('\r')
    &&& !url.contains('"')
    &&& platform == Platform::Windows ==> forall|i: int|
        0 <= i < url.len() ==> !is_cmd_metachar(#[trigger] url[i])
}

/// Whether `url` holds a `cmd.exe` metacharacter.
fn has_cmd_metachar(url: &str) -> (b: bool)
    ensures
        b == exists|i: int| 0 <= i < url@.len() && is_cmd_metachar(#[trigger] url@[i]),
{
    let chars = chars_of(url);
    let mut i: usize = 0;
    while i < chars.len()
        invariant
            i <= chars.len(),
            chars@ == url@,
            forall|j: int| 0 <= j < i ==> !is_cmd_metachar(#[trigger] url@[j]),
        decreases chars.len() - i,
    {
        let c = chars[i];
        if c == '&' || c == '|' || c == '^' || c == '<' || c == '>' {
            assert(is_cmd_metachar(url@[i as int]));
            return true;
        }
        i = i + 1;
    }
    false
}

/// Checks a URL before it is opened on `platform`: `UNSAFE_URL` unless it is safe.
pub fn check_external_url(url: &str, platform: Platform) -> (r: Result<(), String>)
    ensures
        r is Ok <==> is_safe_external_url(url@, platform),
        r matches Err(e) ==> e@ == "UNSAFE_URL"@,
{
    if !(starts_with_exec(url, "https://") || starts_with_exec(url, "http://")) {
        return Err("UNSAFE_URL".to_owned());
    }
    if has_char(url, '\n') || has_char(url, '\r') || has_char(url, '"') {
        return Err("UNSAFE_URL".to_owned());
    }
    if platform == Platform::Windows && has_cmd_metachar(url) {
        return Err("UNSAFE_URL".to_owned());
    }
    Ok(())
}

/// Law: an `http://` or `https://` URL without a line break, carriage return or double
/// quote is safe on every platform where, on Windows, it also holds none of `& | ^ < >`;
/// any other character (such as `?`, `=` or `%` in a query string) never makes it unsafe.
/// On Windows, a URL holding one of `& | ^ < >` is unsafe.
pub proof fn law_safe_url_characters(url: Seq<char>, platform: Platform)
    ensures
        (occurs_at(url, "https://"@, 0) || occurs_at(url, "http://"@, 0)) && (forall|i: int|
            0 <= i < url.len() ==> #[trigger] url[i] != '\n' && url[i] != '\r' && url[i] != '"'
                && (platform == Platform::Windows ==> url[i] != '&' && url[i] != '|' && url[i]
                != '^' && url[i] != '<' && url[i] != '>')) ==> is_safe_external_url(url, platform),
        platform == Platform::Windows && (exists|i: int|
            0 <= i < url.len() && (#[trigger] url[i] == '&' || url[i] == '|' || url[i] == '^'
                || url[i] == '<' || url[i] == '>')) ==> !is_safe_external_url(url, platform),
        !(occurs_at(url, "https://"@, 0) || occurs_at(url, "http://"@, 0))
            ==> !is_safe_external_url(url, platform),
{
    if (forall|i: int|
        0 <= i < url.len() ==> #[trigger] url[i] != '\n' && url[i] != '\r' && url[i] != '"'
            && (platform == Platform::Windows ==> url[i] != '&' && url[i] != '|' && url[i] != '^'
            && url[i] != '<' && url[i] != '>')) {
        assert(!url.contains('\n'));
        assert(!url.contains('\r'));
        assert(!url.contains('"'));
    }
}

/// The login page URL of an `account/login/start` reply, or `AUTH_URL_MISSING`.
pub fn login_url(auth_url: Option<&str>) -> (r: Result<String, String>)
    ensures
        auth_url matches Some(u) ==> (r matches Ok(s) && s@ == u@),
        auth_url is None ==> (r matches Err(e) && e@ == "AUTH_URL_MISSING"@),
{
    match auth_url {
        Some(u) => Ok(u.to_owned()),
        None => Err("AUTH_URL_MISSING".to_owned()),
    }
}

/// `v` held to the range of `i32`.
pub open spec fn saturate_i32(v: int) -> int {
    if v > i32::MAX {
        i32::MAX as int
    } else if v < i32::MIN {
        i32::MIN as int
    } else {
        v
    }
}

/// The `i32` with the same bits as `v`.
pub open spec fn u32_bits_as_i32(v: u32) -> int {
    if v <= 0x7fff_ffff {
        v as int
    } else {
        v - 0x1_0000_0000
    }
}

/// `v` held to `lo..=hi`.
pub open spec fn clamp(v: int, lo: int, hi: int) -> int {
    if v < lo {
        lo
    } else if v > hi {
        hi
    } else {
        v
    }
}

/// Where a window whose top-left corner is at `pos` and whose extent is `size` goes so that
/// it stays inside a work area starting at `start` with extent `extent` (one axis): at most
/// `start + extent - size`, at least `start`, both sums saturating.
pub open spec fn clamp_axis(pos: i32, size: u32, start: i32, extent: u32) -> int {
    let max = saturate_i32(saturate_i32(start + u32_bits_as_i32(extent)) - u32_bits_as_i32(size));
    let hi = if max > start {
        max
    } else {
        start as int
    };
    clamp(pos as int, start as int, hi)
}

/// `a + b` held to the range of `i32`.
fn saturating_add_i32(a: i32, b: i32) -> (r: i32)
    ensures
        r == saturate_i32(a + b),
{
    let s = a as i64 + b as i64;
    if s > i32::MAX as i64 {
        i32::MAX
    } else if s < i32::MIN as i64 {
        i32::MIN
    } else {
        s as i32
    }
}

/// `a - b` held to the range of `i32`.
fn saturating_sub_i32(a: i32, b: i32) -> (r: i32)
    ensures
        r == saturate_i32(a - b),
{
    let s = a as i64 - b as i64;
    if s > i32::MAX as i64 {
        i32::MAX
    } else if s < i32::MIN as i64 {
        i32::MIN
    } else {
        s as i32
    }
}

/// The `i32` with the same bits as `v`.
fn u32_bits_to_i32(v: u32) -> (r: i32)
    ensures
        r == u32_bits_as_i32(v),
{
    if v <= 0x7fff_ffff {
        v as i32
    } else {
        (v as i64 - 0x1_0000_0000i64) as i32
    }
}

/// One axis of [`clamp_into_work_area`].
fn clamp_axis_exec(pos: i32, size: u32, start: i32, extent: u32) -> (r: i32)
    ensures
        r == clamp_axis(pos, size, start, extent),
{
    let max = saturating_sub_i32(
        saturating_add_i32(start, u32_bits_to_i32(extent)),
        u32_bits_to_i32(size),
    );
    let hi = if max > start {
        max
    } else {
        start
    };
    if pos < start {
        start
    } else if pos > hi {
        hi
    } else {
        pos
    }
}

/// After a resize: the position that keeps a window at `(x, y)` of `width` by `height`
/// inside the monitor's work area, where it has to move; `None` where it stays.
pub fn clamp_into_work_area(
    x: i32,
    y: i32,
    width: u32,
    height: u32,
    area_x: i32,
    area_y: i32,
    area_width: u32,
    area_height: u32,
) -> (r: Option<(i32, i32)>)
    ensures
        ({
            let nx = clamp_axis(x, width, area_x, area_width);
            let ny = clamp_axis(y, height, area_y, area_height);
            if nx == x && ny == y {
                r is None
            } else {
                r == Some((nx as i32, ny as i32))
            }
        }),
{
    let nx = clamp_axis_exec(x, width, area_x, area_width);
    let ny = clamp_axis_exec(y, height, area_y, area_height);
    if nx != x || ny != y {
        Some((nx, ny))
    } else {
        None
    }
}

/// Law: where the window fits into the work area and the area lies within the `i32`
/// range, the clamped position keeps the whole window inside the area.
pub proof fn law_clamped_window_inside_area(pos: i32, size: u32, start: i32, extent: u32)
    requires
        size <= extent <= i32::MAX,
        start + extent <= i32::MAX,
    ensures
        start <= clamp_axis(pos, size, start, extent),
        clamp_axis(pos, size, start, extent) + size <= start + extent,
{
}

/// Law: a window already inside the work area stays where it is.
pub proof fn law_window_inside_area_stays(pos: i32, size: u32, start: i32, extent: u32)
    requires
        size <= extent <= i32::MAX,
        start + extent <= i32::MAX,
        start <= pos,
        pos + size <= start + extent,
    ensures
        clamp_axis(pos, size, start, extent) == pos,
{
}

/// The placement remembered when the window moves to `(x, y)`.
pub fn moved_placement(x: i32, y: i32) -> (p: WindowPlacement)
    ensures
        p@ == (WindowPlacementView { monitor_id: None, x: x, y: y }),
{
    WindowPlacement { monitor_id: None, x, y }
}

/// The placement saved when the window closes: the last remembered one, or else the
/// window's current position where it is known.
pub fn placement_to_save(last: Option<WindowPlacement>, current: Option<(i32, i32)>) -> (r:
    Option<WindowPlacement>)
    ensures
        opt_placement_view(r) == match last {
            Some(p) => Some(p@),
            None => match current {
                Some(c) => Some(WindowPlacementView { monitor_id: None, x: c.0, y: c.1 }),
                None => None,
            },
        },
{
    match last {
        Some(p) => Some(p),
        None => match current {
            Some((x, y)) => Some(moved_placement(x, y)),
            None => None,
        },
    }
}

} // verus!
