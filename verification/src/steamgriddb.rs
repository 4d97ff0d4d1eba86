//! SteamGridDB artwork: picking a file extension for downloaded art, the mime
//! type of a cached file, and the image type Steam is given.

use vstd::prelude::*;
use crate::text::{chars_of, eq_ci, eq_ci_exec, eq_exec, index_of, index_of_exec, rindex_of, rindex_of_exec, slice_vec};

verus! {

/// One downloaded art asset: its bytes and mime type.
pub struct ArtBytes {
    pub bytes: Vec<u8>,
    pub mime: String,
}

/// The extension for an image mime type Spool writes art in.
pub open spec fn spec_mime_to_ext(mime: Seq<char>) -> Option<Seq<char>> {
    if mime == "image/png"@ {
        Some("png"@)
    } else if mime == "image/jpeg"@ {
        Some("jpg"@)
    } else if mime == "image/webp"@ {
        Some("webp"@)
    } else {
        None
    }
}

/// The view of an optional static string.
pub open spec fn opt_str(o: Option<&str>) -> Option<Seq<char>> {
    match o {
        Some(s) => Some(s@),
        None => None,
    }
}

/// The extension for a mime type: `png`, `jpg` or `webp`; `None` for any
/// other type.
pub fn mime_to_ext(mime: &str) -> (r: Option<&'static str>)
    ensures
        opt_str(r) == spec_mime_to_ext(mime@),
{
    let m = chars_of(mime);
    if eq_exec(&m, &chars_of("image/png")) {
        Some("png")
    } else if eq_exec(&m, &chars_of("image/jpeg")) {
        Some("jpg")
    } else if eq_exec(&m, &chars_of("image/webp")) {
        Some("webp")
    } else {
        None
    }
}

/// The part of a URL before its first `?`.
pub open spec fn url_path(url: Seq<char>) -> Seq<char> {
    match index_of(url, '?') {
        Some(k) => url.subrange(0, k),
        None => url,
    }
}

/// The part of `s` after its last `.` (all of `s` without one).
pub open spec fn after_last_dot(s: Seq<char>) -> Seq<char> {
    match rindex_of(s, '.') {
        Some(k) => s.subrange(k + 1, s.len() as int),
        None => s,
    }
}

/// The extension sniffed from a URL's path, ignoring case: `png`, `jpg` (for
/// `jpg` and `jpeg`) or `webp`. Comparing with ASCII case folding agrees with
/// lower-casing first, since no other character lower-cases into these
/// letters.
pub open spec fn spec_url_ext(url: Seq<char>) -> Option<Seq<char>> {
    let ext = after_last_dot(url_path(url));
    if eq_ci(ext, "png"@) {
        Some("png"@)
    } else if eq_ci(ext, "jpg"@) || eq_ci(ext, "jpeg"@) {
        Some("jpg"@)
    } else if eq_ci(ext, "webp"@) {
        Some("webp"@)
    } else {
        None
    }
}

/// Best-effort extension sniff from a URL (see [`spec_url_ext`]).
pub fn url_ext(url: &str) -> (r: Option<&'static str>)
    ensures
        opt_str(r) == spec_url_ext(url@),
{
    let u = chars_of(url);
    let path = match index_of_exec(&u, '?') {
        Some(k) => {
            proof {
                crate::text::lemma_find_from(u@, seq!['?'], 0);
            }
            slice_vec(&u, 0, k)
        },
        None => slice_vec(&u, 0, u.len()),
    };
    assert(path@ =~= url_path(u@));
    let ext = match rindex_of_exec(&path, '.') {
        Some(k) => slice_vec(&path, k + 1, path.len()),
        None => slice_vec(&path, 0, path.len()),
    };
    assert(ext@ =~= after_last_dot(path@));
    if eq_ci_exec(&ext, &chars_of("png")) {
        Some("png")
    } else if eq_ci_exec(&ext, &chars_of("jpg")) || eq_ci_exec(&ext, &chars_of("jpeg")) {
        Some("jpg")
    } else if eq_ci_exec(&ext, &chars_of("webp")) {
        Some("webp")
    } else {
        None
    }
}

} // verus!

verus! {

/// `Path::extension` of a plain file name: the text after its last `.`, unless
/// that dot is the name's first character or there is none.
pub open spec fn extension(name: Seq<char>) -> Option<Seq<char>> {
    match rindex_of(name, '.') {
        None => None,
        Some(k) => if k == 0 {
            None
        } else {
            Some(name.subrange(k + 1, name.len() as int))
        },
    }
}

/// The mime type of a cached cover, from its file name's extension:
/// `image/jpeg` for `jpg`/`jpeg`, `image/webp` for `webp`, `image/png` for
/// anything else.
pub fn mime_from_file_name(name: &str) -> (r: &'static str)
    ensures
        r@ == match extension(name@) {
            Some(e) => if e == "jpg"@ || e == "jpeg"@ {
                "image/jpeg"@
            } else if e == "webp"@ {
                "image/webp"@
            } else {
                "image/png"@
            },
            None => "image/png"@,
        },
{
    let n = chars_of(name);
    match rindex_of_exec(&n, '.') {
        None => "image/png",
        Some(k) => if k == 0 {
            "image/png"
        } else {
            let len = n.len();
            let e = slice_vec(&n, k + 1, len);
            if eq_exec(&e, &chars_of("jpg")) || eq_exec(&e, &chars_of("jpeg")) {
                "image/jpeg"
            } else if eq_exec(&e, &chars_of("webp")) {
                "image/webp"
            } else {
                "image/png"
            }
        },
    }
}

/// Steam's image type for art of a mime type that needs no conversion:
/// `jpeg` when the type names JPEG, else `png`. WebP art is converted to PNG
/// first (by the image decoder, outside this library).
pub fn steam_image_type(mime: &str) -> (r: &'static str)
    ensures
        r@ == (if crate::text::contains(mime@, "jpeg"@) || crate::text::contains(mime@, "jpg"@) {
            "jpeg"@
        } else {
            "png"@
        }),
{
    let m = chars_of(mime);
    if crate::text::contains_exec(&m, &chars_of("jpeg")) || crate::text::contains_exec(&m, &chars_of("jpg")) {
        "jpeg"
    } else {
        "png"
    }
}

/// Whether art of this mime type must be converted (WebP, which Steam does
/// not take).
pub fn needs_png_conversion(mime: &str) -> (r: bool)
    ensures
        r == crate::text::contains(mime@, "webp"@),
{
    crate::text::contains_exec(&chars_of(mime), &chars_of("webp"))
}

} // verus!
