//! Official Steam library artwork from the public Steam CDN, addressed by app
//! id alone.

use vstd::prelude::*;
use crate::steam::{decimal, decimal_exec};
use crate::text::{chars_of, concat, concat3, string_of};

verus! {

/// The CDN root of per-app artwork.
pub open spec fn cdn_root() -> Seq<char> {
    "https://cdn.cloudflare.steamstatic.com/steam/apps"@
}

/// A Steam asset Spool can pull from the CDN.
#[derive(Debug, Clone, Copy, PartialEq, Eq, Structural)]
pub enum Asset {
    /// Portrait capsule, the library tile.
    Cover,
    /// Landscape hero banner.
    Hero,
    /// Wide store capsule, Steam's landscape grid tile.
    WideGrid,
    /// Transparent logo.
    Logo,
}

/// The CDN file name of an asset under `apps/<appid>/`.
pub open spec fn spec_filename(a: Asset) -> Seq<char> {
    match a {
        Asset::Cover => "library_600x900_2x.jpg"@,
        Asset::Hero => "library_hero.jpg"@,
        Asset::WideGrid => "header.jpg"@,
        Asset::Logo => "logo.png"@,
    }
}

impl Asset {
    /// The CDN file name of this asset.
    pub fn filename(self) -> (r: &'static str)
        ensures
            r@ == spec_filename(self),
    {
        match self {
            Asset::Cover => "library_600x900_2x.jpg",
            Asset::Hero => "library_hero.jpg",
            Asset::WideGrid => "header.jpg",
            Asset::Logo => "logo.png",
        }
    }

    /// The file extension for writing the bytes to disk: `png` for the logo,
    /// `jpg` for everything else.
    pub fn ext(self) -> (r: &'static str)
        ensures
            r@ == (if self == Asset::Logo {
                "png"@
            } else {
                "jpg"@
            }),
    {
        match self {
            Asset::Logo => "png",
            _ => "jpg",
        }
    }
}

/// The URL of an app's asset: `<cdn>/<appid>/<file name>`.
pub fn url(steam_id: u64, asset: Asset) -> (r: String)
    ensures
        r@ == cdn_root() + "/"@ + decimal(steam_id as nat) + "/"@ + spec_filename(asset),
{
    let head = concat3(
        &chars_of("https://cdn.cloudflare.steamstatic.com/steam/apps"),
        &chars_of("/"),
        &decimal_exec(steam_id),
    );
    string_of(&concat3(&head, &chars_of("/"), &chars_of(asset.filename())))
}

/// What an HTTP status of the CDN means for an asset.
#[derive(Debug, Clone, Copy, PartialEq, Eq, Structural)]
pub enum CdnAnswer {
    /// 200: the body is the asset.
    Found,
    /// 404 or 403: Steam has no such asset for this app.
    Missing,
    /// Any other status is a failure.
    Failed,
}

/// Classify the CDN's HTTP status.
pub fn cdn_answer(status: u16) -> (r: CdnAnswer)
    ensures
        r == (if status == 200 {
            CdnAnswer::Found
        } else if status == 404 || status == 403 {
            CdnAnswer::Missing
        } else {
            CdnAnswer::Failed
        }),
{
    if status == 200 {
        CdnAnswer::Found
    } else if status == 404 || status == 403 {
        CdnAnswer::Missing
    } else {
        CdnAnswer::Failed
    }
}

} // verus!
