//! Icon images: the pixel conversion applied to an icon drawn by Windows,
//! and where an extracted icon is cached.
use vstd::prelude::*;

use crate::scanner::{icon_cache_file_name, icon_hash};
use crate::text::hex_minimal;
use crate::utils::{joined_path, path_join};

verus! {

/// Some whole pixel of the buffer has a non-zero alpha byte.
pub open spec fn has_alpha(buf: Seq<u8>) -> bool {
    exists|p: int| 0 <= p < buf.len() / 4 && #[trigger] buf[4 * p + 3] != 0
}

/// The byte at `i` after conversion: blue and red swapped in every whole
/// pixel, alpha made opaque when no pixel has any, trailing bytes kept.
pub open spec fn rgba_byte(buf: Seq<u8>, i: int) -> u8 {
    if i >= buf.len() / 4 * 4 {
        buf[i]
    } else if i % 4 == 0 {
        buf[i + 2]
    } else if i % 4 == 2 {
        buf[i - 2]
    } else if i % 4 == 3 && !has_alpha(buf) {
        255
    } else {
        buf[i]
    }
}

/// Converts a top-down BGRA buffer to RGBA: swaps blue and red in every
/// pixel, and, when no pixel has a non-zero alpha (icons without an alpha
/// channel), makes every pixel opaque.
pub fn bgra_to_rgba(buf: Vec<u8>) -> (out: Vec<u8>)
    ensures
        out@.len() == buf@.len(),
        forall|i: int| 0 <= i < buf@.len() ==> #[trigger] out@[i] == rgba_byte(buf@, i),
        forall|p: int|
            0 <= p < buf@.len() / 4 ==> {
                &&& #[trigger] channel(out@, p, 0) == channel(buf@, p, 2)
                &&& channel(out@, p, 1) == channel(buf@, p, 1)
                &&& channel(out@, p, 2) == channel(buf@, p, 0)
                &&& channel(out@, p, 3) == (if exists|q: int|
                    0 <= q < buf@.len() / 4 && #[trigger] channel(buf@, q, 3) != 0 {
                    channel(buf@, p, 3)
                } else {
                    255u8
                })
            },
        forall|i: int| buf@.len() / 4 * 4 <= i < buf@.len() ==> #[trigger] out@[i] == buf@[i],
{
    let n = buf.len();
    let pixels = n / 4;
    assert(4 * pixels <= n) by (nonlinear_arith)
        requires
            pixels == n / 4,
    ;
    let mut alpha = false;
    let mut p: usize = 0;
    while p < pixels
        invariant
            n == buf@.len(),
            pixels == buf@.len() / 4,
            4 * pixels <= buf@.len(),
            p <= pixels,
            alpha == exists|q: int| 0 <= q < p && #[trigger] buf@[4 * q + 3] != 0,
        decreases pixels - p,
    {
        if buf[4 * p + 3] != 0 {
            alpha = true;
        }
        p = p + 1;
    }
    let mut out = buf;
    let ghost orig = out@;
    let mut p: usize = 0;
    while p < pixels
        invariant
            n == orig.len(),
            pixels == orig.len() / 4,
            4 * pixels <= orig.len(),
            out@.len() == orig.len(),
            p <= pixels,
            alpha == has_alpha(orig),
            forall|i: int| 0 <= i < 4 * p ==> #[trigger] out@[i] == rgba_byte(orig, i),
            forall|i: int| 4 * p <= i < orig.len() ==> #[trigger] out@[i] == orig[i],
        decreases pixels - p,
    {
        let b = out[4 * p];
        let r = out[4 * p + 2];
        out.set(4 * p, r);
        out.set(4 * p + 2, b);
        if !alpha {
            out.set(4 * p + 3, 255);
        }
        p = p + 1;
        assert forall|i: int| 0 <= i < 4 * p implies #[trigger] out@[i] == rgba_byte(orig, i) by {
            if i >= 4 * (p - 1) {
                assert(i < pixels * 4);
                assert(i % 4 == i - 4 * (p - 1));
            }
        }
    }
    proof {
        assert(out@ =~= rgba(orig));
        assert(orig == buf@);
        conversion_is_pixelwise(orig);
        assert forall|p: int| 0 <= p < orig.len() / 4 implies #[trigger] channel(out@, p, 3)
            == channel(rgba(orig), p, 3) && channel(out@, p, 0) == channel(rgba(orig), p, 0)
            && channel(out@, p, 1) == channel(rgba(orig), p, 1) && channel(out@, p, 2) == channel(
            rgba(orig),
            p,
            2,
        ) by {}
    }
    out
}

/// The converted buffer.
pub open spec fn rgba(buf: Seq<u8>) -> Seq<u8> {
    Seq::new(buf.len(), |i: int| rgba_byte(buf, i))
}

/// When some pixel has alpha, converting twice gives back the buffer: the
/// swap of blue and red undoes itself and the alpha bytes are kept.
pub proof fn converting_twice_restores(buf: Seq<u8>)
    requires
        has_alpha(buf),
    ensures
        rgba(rgba(buf)) == buf,
{
    let c = rgba(buf);
    let p = choose|p: int| 0 <= p < buf.len() / 4 && #[trigger] buf[4 * p + 3] != 0;
    assert(c[4 * p + 3] == buf[4 * p + 3]);
    assert(has_alpha(c));
    assert forall|i: int| 0 <= i < buf.len() implies #[trigger] rgba(c)[i] == buf[i] by {
        if i < buf.len() / 4 * 4 {
            if i % 4 == 0 {
                assert((i + 2) % 4 == 2);
                assert(i + 2 < buf.len() / 4 * 4);
            } else if i % 4 == 2 {
                assert((i - 2) % 4 == 0);
            }
        }
    }
    assert(rgba(c) =~= buf);
}

/// Byte `c` of pixel `p` of a buffer of four-byte pixels.
pub open spec fn channel(s: Seq<u8>, p: int, c: int) -> u8 {
    s[4 * p + c]
}

/// Pixel by pixel, conversion swaps the first and third bytes and keeps the
/// second; it keeps each pixel's alpha byte when any pixel of the buffer has
/// a non-zero alpha, and makes every alpha byte 255 only when all of them are
/// zero; bytes after the last whole pixel stay as they are.
pub proof fn conversion_is_pixelwise(buf: Seq<u8>)
    ensures
        rgba(buf).len() == buf.len(),
        forall|p: int|
            0 <= p < buf.len() / 4 ==> {
                &&& #[trigger] channel(rgba(buf), p, 0) == channel(buf, p, 2)
                &&& channel(rgba(buf), p, 1) == channel(buf, p, 1)
                &&& channel(rgba(buf), p, 2) == channel(buf, p, 0)
                &&& channel(rgba(buf), p, 3) == (if exists|q: int|
                    0 <= q < buf.len() / 4 && #[trigger] channel(buf, q, 3) != 0 {
                    channel(buf, p, 3)
                } else {
                    255u8
                })
            },
        forall|i: int| buf.len() / 4 * 4 <= i < buf.len() ==> #[trigger] rgba(buf)[i] == buf[i],
{
    assert forall|p: int| 0 <= p < buf.len() / 4 implies {
        &&& #[trigger] channel(rgba(buf), p, 0) == channel(buf, p, 2)
        &&& channel(rgba(buf), p, 1) == channel(buf, p, 1)
        &&& channel(rgba(buf), p, 2) == channel(buf, p, 0)
        &&& channel(rgba(buf), p, 3) == (if exists|q: int|
            0 <= q < buf.len() / 4 && #[trigger] channel(buf, q, 3) != 0 {
            channel(buf, p, 3)
        } else {
            255u8
        })
    } by {
        assert(4 * p + 3 < buf.len() / 4 * 4);
        assert((4 * p) % 4 == 0);
        assert((4 * p + 1) % 4 == 1);
        assert((4 * p + 2) % 4 == 2);
        assert((4 * p + 3) % 4 == 3);
        if exists|q: int| 0 <= q < buf.len() / 4 && #[trigger] channel(buf, q, 3) != 0 {
            let q = choose|q: int| 0 <= q < buf.len() / 4 && #[trigger] channel(buf, q, 3) != 0;
            assert(buf[4 * q + 3] != 0);
            assert(has_alpha(buf));
        } else {
            assert forall|q: int| 0 <= q < buf.len() / 4 implies #[trigger] buf[4 * q + 3] == 0 by {
                assert(channel(buf, q, 3) == buf[4 * q + 3]);
            }
            assert(!has_alpha(buf));
        }
    }
}

/// The cached image of the icon `index` in the file at `path`: the hashed
/// file name in `PopMax\icons` under the local application-data folder.
pub open spec fn icon_cache_location(local_app_data: Seq<char>, path: Seq<char>, index: i32) -> Seq<char> {
    joined_path(
        joined_path(joined_path(local_app_data, "PopMax"@), "icons"@),
        hex_minimal(icon_hash(path, index) as nat) + ".png"@,
    )
}

/// Where the icon `index` of the file at `path` is cached, when the local
/// application-data folder is known.
pub fn icon_cache_path(local_app_data: Option<&str>, path: &str, index: i32) -> (r: Option<String>)
    ensures
        match local_app_data {
            Some(d) => r matches Some(p) && p@ == icon_cache_location(d@, path@, index),
            None => r is None,
        },
{
    match local_app_data {
        Some(d) => {
            let app = path_join(d, "PopMax");
            let icons = path_join(app.as_str(), "icons");
            let name = icon_cache_file_name(path, index);
            Some(path_join(icons.as_str(), name.as_str()))
        },
        None => None,
    }
}

} // verus!
