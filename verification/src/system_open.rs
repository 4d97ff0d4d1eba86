//! Checking a URL before it is handed to the desktop's opener.

use vstd::prelude::*;
use crate::error::AppError;
use crate::text::{chars_of, concat, concat3, string_of, trim, trim_exec, eq_exec};

verus! {

/// What the `url` crate makes of a text: its scheme, host and serialisation,
/// or the parse error's message.
pub uninterp spec fn spec_url_parse(s: Seq<char>) -> Result<(Seq<char>, Option<Seq<char>>, Seq<char>), Seq<char>>;

/// `url::Url::parse`, read out as (scheme, `host_str`, serialisation).
///
/// Trusted: what the parser accepts and how it normalises are named by
/// [`spec_url_parse`], including the error's message; nothing more is claimed.
#[verifier::external_body]
fn parse_url(s: &str) -> (r: Result<(String, Option<String>, String), String>)
    ensures
        match r {
            Ok((scheme, host, ser)) => spec_url_parse(s@) == Ok::<
                (Seq<char>, Option<Seq<char>>, Seq<char>),
                Seq<char>,
            >((scheme@, crate::rclone::opt_view(host), ser@)),
            Err(e) => spec_url_parse(s@) == Err::<(Seq<char>, Option<Seq<char>>, Seq<char>), Seq<char>>(e@),
        },
{
    match url::Url::parse(s) {
        Ok(u) => Ok((u.scheme().to_string(), u.host_str().map(|h| h.to_string()), u.as_str().to_string())),
        Err(e) => Err(e.to_string()),
    }
}

/// The outcome of checking a URL: the normalised URL to open, or the message
/// of the refusal.
pub open spec fn spec_validate_url(raw: Seq<char>) -> Result<Seq<char>, Seq<char>> {
    let t = trim(raw);
    if t.len() > 0 && t[0] == '-' {
        Err("refusing to open URL that could be read as a flag: "@ + t)
    } else {
        match spec_url_parse(t) {
            Err(e) => Err("not a valid URL: "@ + t + " ("@ + e + ")"@),
            Ok((scheme, host, ser)) => if scheme != "http"@ && scheme != "https"@ {
                Err("refusing to open non-web URL scheme: "@ + scheme)
            } else {
                match host {
                    Some(h) => if h.len() > 0 {
                        Ok(ser)
                    } else {
                        Err("URL has no host: "@ + t)
                    },
                    None => Err("URL has no host: "@ + t),
                }
            },
        }
    }
}

/// The view of a validation result.
pub open spec fn result_view(r: Result<String, AppError>) -> Result<Seq<char>, Seq<char>> {
    match r {
        Ok(s) => Ok(s@),
        Err(AppError::Other(m)) => Err(m@),
        Err(AppError::LockPoisoned) => Err(Seq::empty()),
    }
}

/// Check that `raw` is an ordinary web URL and return its normalised form:
/// surrounding whitespace is trimmed, a leading `-` is refused (it could be
/// read as an option by the opener), and the parsed URL must have scheme
/// `http` or `https` and a nonempty host.
pub fn validate_external_url(raw: &str) -> (r: Result<String, AppError>)
    ensures
        result_view(r) == spec_validate_url(raw@),
        r is Err ==> r matches Err(AppError::Other(_)),
{
    let t = trim_exec(&chars_of(raw));
    if t.len() > 0 && t[0] == '-' {
        let m = concat(&chars_of("refusing to open URL that could be read as a flag: "), &t);
        return Err(AppError::Other(string_of(&m)));
    }
    let ts = string_of(&t);
    match parse_url(ts.as_str()) {
        Err(e) => {
            let m = concat3(&chars_of("not a valid URL: "), &t, &chars_of(" ("));
            let m = concat3(&m, &chars_of(e.as_str()), &chars_of(")"));
            Err(AppError::Other(string_of(&m)))
        },
        Ok((scheme, host, ser)) => {
            let sc = chars_of(scheme.as_str());
            if !eq_exec(&sc, &chars_of("http")) && !eq_exec(&sc, &chars_of("https")) {
                let m = concat(&chars_of("refusing to open non-web URL scheme: "), &sc);
                return Err(AppError::Other(string_of(&m)));
            }
            let has_host = match &host {
                Some(h) => !h.as_str().is_empty(),
                None => false,
            };
            if has_host {
                Ok(ser)
            } else {
                let m = concat(&chars_of("URL has no host: "), &t);
                Err(AppError::Other(string_of(&m)))
            }
        },
    }
}

} // verus!
