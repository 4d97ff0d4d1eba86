//! Artwork served to the companion plugin: which copy of a game's art to use,
//! and art re-encoded the way Steam's artwork API takes it (WebP as PNG) and
//! carried as base64 text.

use vstd::prelude::*;
use crate::steamgriddb::{needs_png_conversion, steam_image_type};
use crate::text::{chars_of, contains, eq_exec};

verus! {

/// The PNG re-encoding of an image's bytes, or `None` when the bytes do not
/// decode as an image or the PNG encoder fails. It names the result of two
/// calls made one after the other: `image::load_from_memory` (decode), then
/// `DynamicImage::write_to` with `ImageFormat::Png` (encode); the decoded
/// image in between is not seen by the library.
pub uninterp spec fn spec_png_reencode(bytes: Seq<u8>) -> Option<Seq<u8>>;

/// `image::load_from_memory`, then `DynamicImage::write_to` with
/// `ImageFormat::Png` into an in-memory buffer.
///
/// Trusted: the PNG bytes (or the failure of either step) are named by
/// [`spec_png_reencode`]; nothing is claimed of their content.
#[verifier::external_body]
fn png_reencode(bytes: &[u8]) -> (r: Option<Vec<u8>>)
    ensures
        match r {
            Some(png) => spec_png_reencode(bytes@) == Some(png@),
            None => spec_png_reencode(bytes@) is None,
        },
{
    let img = image::load_from_memory(bytes).ok()?;
    let mut out = std::io::Cursor::new(Vec::new());
    img.write_to(&mut out, image::ImageFormat::Png).ok()?;
    Some(out.into_inner())
}

/// The character of a 6-bit value in the standard base64 alphabet:
/// `A`–`Z`, `a`–`z`, `0`–`9`, `+`, `/`.
pub open spec fn b64_char(v: int) -> char {
    if v < 26 {
        (65 + v) as char
    } else if v < 52 {
        (97 + (v - 26)) as char
    } else if v < 62 {
        (48 + (v - 52)) as char
    } else if v == 62 {
        '+'
    } else {
        '/'
    }
}

/// The standard, padded base64 text of `bytes`: each group of three bytes
/// becomes four characters of six bits each; a final group of one or two
/// bytes is padded with `=`.
pub open spec fn spec_base64(b: Seq<u8>) -> Seq<char>
    decreases b.len(),
{
    if b.len() == 0 {
        Seq::empty()
    } else {
        let x0 = b[0] as int;
        let x1 = if b.len() > 1 { b[1] as int } else { 0 };
        let x2 = if b.len() > 2 { b[2] as int } else { 0 };
        let c0 = b64_char(x0 / 4);
        let c1 = b64_char((x0 % 4) * 16 + x1 / 16);
        let c2 = b64_char((x1 % 16) * 4 + x2 / 64);
        let c3 = b64_char(x2 % 64);
        if b.len() == 1 {
            seq![c0, c1, '=', '=']
        } else if b.len() == 2 {
            seq![c0, c1, c2, '=']
        } else {
            seq![c0, c1, c2, c3] + spec_base64(b.skip(3))
        }
    }
}

/// `base64::engine::general_purpose::STANDARD.encode`.
///
/// Trusted: the text is the standard padded encoding [`spec_base64`], as the
/// crate documents for its `STANDARD` engine.
#[verifier::external_body]
fn base64_standard(bytes: &[u8]) -> (r: String)
    ensures
        r@ == spec_base64(bytes@),
{
    base64::Engine::encode(&base64::engine::general_purpose::STANDARD, bytes)
}

/// Steam's image type for art that passes unchanged.
pub open spec fn spec_steam_image_type(mime: Seq<char>) -> Seq<char> {
    if contains(mime, "jpeg"@) || contains(mime, "jpg"@) {
        "jpeg"@
    } else {
        "png"@
    }
}

/// Art as Steam takes it, given the PNG re-encoding of its bytes
/// (`converted`, consulted only for WebP art): WebP art becomes its PNG
/// re-encoding, or `None` when it has none; other art keeps its bytes, with
/// its Steam image type.
pub fn art_for_steam(mime: &str, bytes: Vec<u8>, converted: Option<Vec<u8>>) -> (r: Option<(&'static str, Vec<u8>)>)
    ensures
        contains(mime@, "webp"@) ==> match converted {
            Some(png) => r matches Some(p) && p.0@ == "png"@ && p.1@ == png@,
            None => r is None,
        },
        !contains(mime@, "webp"@) ==> (r matches Some(p) && p.0@ == spec_steam_image_type(mime@)
            && p.1@ == bytes@),
{
    if needs_png_conversion(mime) {
        match converted {
            Some(png) => Some(("png", png)),
            None => None,
        }
    } else {
        Some((steam_image_type(mime), bytes))
    }
}

/// Art as Steam takes it: WebP art re-encoded as PNG (`None` when that
/// fails), other art unchanged with its Steam image type.
pub fn transcode_webp_to_png(mime: &str, bytes: Vec<u8>) -> (r: Option<(&'static str, Vec<u8>)>)
    ensures
        contains(mime@, "webp"@) ==> match spec_png_reencode(bytes@) {
            Some(png) => r matches Some(p) && p.0@ == "png"@ && p.1@ == png,
            None => r is None,
        },
        !contains(mime@, "webp"@) ==> (r matches Some(p) && p.0@ == spec_steam_image_type(mime@)
            && p.1@ == bytes@),
{
    let converted = if needs_png_conversion(mime) {
        png_reencode(bytes.as_slice())
    } else {
        None
    };
    art_for_steam(mime, bytes, converted)
}

/// Art as Steam takes it, falling back to the bytes as they are: WebP art
/// with a PNG re-encoding (`converted`) becomes that PNG; any other art, and
/// WebP art without one, keeps its bytes with its Steam image type.
pub fn art_for_steam_or_raw(mime: &str, bytes: Vec<u8>, converted: Option<Vec<u8>>) -> (r: (&'static str, Vec<u8>))
    ensures
        (contains(mime@, "webp"@) && converted is Some) ==> r.0@ == "png"@ && r.1@ == converted->0@,
        !(contains(mime@, "webp"@) && converted is Some) ==> r.0@ == spec_steam_image_type(mime@)
            && r.1@ == bytes@,
{
    if needs_png_conversion(mime) {
        if let Some(png) = converted {
            return ("png", png);
        }
    }
    (steam_image_type(mime), bytes)
}

/// Art as Steam takes it: WebP art re-encoded as PNG when that succeeds;
/// otherwise the bytes as they are, with their Steam image type.
pub fn transcode_webp_or_pass(mime: &str, bytes: Vec<u8>) -> (r: (&'static str, Vec<u8>))
    ensures
        (contains(mime@, "webp"@) && spec_png_reencode(bytes@) is Some) ==> r.0@ == "png"@ && r.1@
            == spec_png_reencode(bytes@)->0,
        !(contains(mime@, "webp"@) && spec_png_reencode(bytes@) is Some) ==> r.0@ == spec_steam_image_type(
            mime@,
        ) && r.1@ == bytes@,
{
    let converted = if needs_png_conversion(mime) {
        png_reencode(bytes.as_slice())
    } else {
        None
    };
    art_for_steam_or_raw(mime, bytes, converted)
}

/// The art payload the plugin receives: Steam's image type and the bytes as
/// standard base64.
pub fn art_payload(image_type: &str, bytes: &Vec<u8>) -> (r: (String, String))
    ensures
        r.0@ == image_type@,
        r.1@ == spec_base64(bytes@),
{
    (crate::text::string_of(&chars_of(image_type)), base64_standard(bytes.as_slice()))
}

/// Which on-disk copy of a game's art serves a requested kind.
pub enum LocalArt {
    /// The portrait cover (`capsule`).
    Cover,
    /// The hero banner (`hero`).
    Hero,
    /// No copy on disk: the art is resolved online.
    Online,
}

/// The on-disk copy for an art kind: the cover for `capsule`, the hero for
/// `hero`, none for any other kind.
pub fn local_art_for(kind: &str) -> (r: LocalArt)
    ensures
        kind@ == "capsule"@ ==> r is Cover,
        kind@ == "hero"@ ==> r is Hero,
        kind@ != "capsule"@ && kind@ != "hero"@ ==> r is Online,
{
    let k = chars_of(kind);
    proof {
        reveal_strlit("capsule");
        reveal_strlit("hero");
        assert("hero"@.len() != "capsule"@.len());
    }
    if eq_exec(&k, &chars_of("capsule")) {
        LocalArt::Cover
    } else if eq_exec(&k, &chars_of("hero")) {
        LocalArt::Hero
    } else {
        LocalArt::Online
    }
}

/// The SteamGridDB kind for a requested art kind: the wide `header` capsule
/// is a landscape `grid`; other kinds keep their name.
pub fn sgdb_kind(kind: &str) -> (r: &str)
    ensures
        kind@ == "header"@ ==> r@ == "grid"@,
        kind@ != "header"@ ==> r@ == kind@,
{
    if eq_exec(&chars_of(kind), &chars_of("header")) {
        "grid"
    } else {
        kind
    }
}

/// SteamGridDB may be asked: it is enabled and has an API key.
pub fn sgdb_usable(enabled: bool, api_key: &str) -> (r: bool)
    ensures
        r == (enabled && api_key@.len() > 0),
{
    enabled && chars_of(api_key).len() > 0
}

} // verus!
