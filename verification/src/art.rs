//! Cover-art decisions: what a track's art URL asks of the art manager,
//! and the content-addressed cache path of a remote URL.

use vstd::prelude::*;
use vstd::string::StringSliceAdditionalSpecFns;
use crate::text::{spec_starts_with, starts_with_str};

verus! {

/// The hexadecimal SHA-1 digest of a byte string, as the sha1 crate and
/// lower-case hex formatting produce it: forty hex digits determined by
/// the bytes alone.
pub uninterp spec fn sha1_hex_of(bytes: Seq<u8>) -> Seq<char>;

/// Relies on the sha1 crate (`Sha1::digest`) and lower-case `{:x}`
/// formatting: the 20-byte SHA-1 digest of the input, rendered as 40 hex
/// digits, a function of the input bytes alone.
#[verifier::external_body]
fn sha1_hex(s: &str) -> (r: String)
    ensures
        r@ == sha1_hex_of(s.spec_bytes()),
        r@.len() == 40,
{
    let digest = <sha1::Sha1 as sha1::Digest>::digest(s.as_bytes());
    format!("{:x}", digest)
}

/// The cache file a remote art URL maps to: the URL's SHA-1 digest as a
/// `.jpg` under the cache directory.
pub open spec fn spec_art_cache_target(cache_dir: Seq<char>, url: Seq<u8>) -> Seq<char> {
    cache_dir + seq!['/'] + sha1_hex_of(url) + ".jpg"@
}

/// The cache path of a remote art URL.
pub fn art_cache_target(cache_dir: &str, url: &str) -> (r: String)
    ensures
        r@ == spec_art_cache_target(cache_dir@, url.spec_bytes()),
{
    let mut out = String::from_str(cache_dir);
    out.push('/');
    let h = sha1_hex(url);
    out.append(h.as_str());
    out.append(".jpg");
    proof {
        assert(out@ =~= spec_art_cache_target(cache_dir@, url.spec_bytes()));
    }
    out
}

/// What the art manager is to do for one art URL.
pub enum ArtPlan {
    /// Art handling is off: keep the current cover as it stands.
    KeepCurrent,
    /// A `file://` URL: materialise this local file if it exists, else
    /// fall back to the default image.
    TryLocal(String),
    /// A remote URL with downloads enabled: fetch into this cache path if
    /// absent, then materialise it if present, else fall back.
    TryRemote(String),
    /// Anything else: materialise the default image.
    UseDefault,
}

/// The mathematical view of an art plan.
pub enum ArtPlanV {
    KeepCurrent,
    TryLocal(Seq<char>),
    TryRemote(Seq<char>),
    UseDefault,
}

impl View for ArtPlan {
    type V = ArtPlanV;

    open spec fn view(&self) -> ArtPlanV {
        match self {
            ArtPlan::KeepCurrent => ArtPlanV::KeepCurrent,
            ArtPlan::TryLocal(p) => ArtPlanV::TryLocal(p@),
            ArtPlan::TryRemote(p) => ArtPlanV::TryRemote(p@),
            ArtPlan::UseDefault => ArtPlanV::UseDefault,
        }
    }
}

/// The plan for one art URL: nothing when art is disabled; the stripped
/// local path for a `file://` URL; the cache target for an `http://` or
/// `https://` URL when downloads are enabled; the default image
/// otherwise.
pub open spec fn spec_art_plan(
    enabled: bool,
    download_http: bool,
    cache_dir: Seq<char>,
    url: Seq<char>,
    url_bytes: Seq<u8>,
) -> ArtPlanV {
    if !enabled {
        ArtPlanV::KeepCurrent
    } else if spec_starts_with(url, "file://"@) {
        ArtPlanV::TryLocal(url.skip(7))
    } else if (spec_starts_with(url, "http://"@) || spec_starts_with(url, "https://"@))
        && download_http {
        ArtPlanV::TryRemote(spec_art_cache_target(cache_dir, url_bytes))
    } else {
        ArtPlanV::UseDefault
    }
}

/// Decide what the art manager does for one art URL.
pub fn art_plan(enabled: bool, download_http: bool, cache_dir: &str, url: &str) -> (r: ArtPlan)
    ensures
        r@ == spec_art_plan(enabled, download_http, cache_dir@, url@, url.spec_bytes()),
{
    if !enabled {
        return ArtPlan::KeepCurrent;
    }
    if starts_with_str(url, "file://") {
        let len = url.unicode_len();
        proof {
            reveal_strlit("file://");
        }
        let local = url.substring_char(7, len);
        proof {
            assert(local@ =~= url@.skip(7));
        }
        return ArtPlan::TryLocal(String::from_str(local));
    }
    if (starts_with_str(url, "http://") || starts_with_str(url, "https://")) && download_http {
        return ArtPlan::TryRemote(art_cache_target(cache_dir, url));
    }
    ArtPlan::UseDefault
}

} // verus!
