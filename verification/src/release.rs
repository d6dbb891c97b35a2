//! The latest release as the GitHub API describes it, and where its
//! assets are downloaded from.
use vstd::prelude::*;

use crate::text::{
    chars_of, decimal_digits, decimal_of, push_chars, push_str, same_text, string_from_chars,
};

verus! {

/// The version of this build, compared with the latest release's tag.
pub const CURRENT_VERSION: &'static str = "0.2.0";

/// The GitHub API endpoint for the latest release.
pub const API_URL: &'static str = "https://api.github.com/repos/avalgott/gaming-crosshair/releases/latest";

/// Base URL of the release downloads; one directory per tag.
pub const DL_BASE: &'static str = "https://github.com/avalgott/gaming-crosshair/releases/download";

/// File name of the release binary.
pub const BINARY_NAME: &'static str = "crosshair";

/// File name of the checksum sidecar that every installable release ships.
pub const SIDECAR_NAME: &'static str = "crosshair.sha256";

/// The fields of the API's release document that the updater reads.
pub struct ReleaseInfo {
    /// `tag_name`, when it is a string.
    pub tag_name: Option<String>,
    /// `assets`, when it is an array: for each asset its `name`, when that is a string.
    pub assets: Option<Vec<Option<String>>>,
}

/// How the API request itself failed.
pub enum ApiFailure {
    /// The API answered with this HTTP error status.
    Status(u16),
    /// The API could not be reached; the transport error's text.
    Transport(String),
}

/// Why the latest release could not be determined.
#[derive(Debug)]
pub enum FetchError {
    /// HTTP 403 or 429: the unauthenticated rate limit was reached.
    RateLimited,
    /// Another HTTP error status from the API.
    Http(u16),
    /// The API could not be reached; the transport error's text.
    Unreachable(String),
    /// The response is not a JSON document; the parser's text.
    InvalidResponse(String),
    /// The release has no non-empty `tag_name`.
    NoTag,
    /// The release ships no checksum sidecar; its tag.
    NoChecksum(String),
}

/// Whether some asset of the release is named like the checksum sidecar.
pub open spec fn has_sidecar(assets: Option<Seq<Option<String>>>) -> bool {
    match assets {
        None => false,
        Some(a) => exists|i: int|
            0 <= i < a.len() && (#[trigger] a[i] matches Some(n) && n@ == SIDECAR_NAME@),
    }
}

/// A release ships its sidecar when any of its assets, wherever it stands
/// in the list, is named `crosshair.sha256`.
pub proof fn law_sidecar_found_anywhere(assets: Seq<Option<String>>, i: int)
    requires
        0 <= i < assets.len(),
        assets[i] matches Some(n) && n@ == SIDECAR_NAME@,
    ensures
        has_sidecar(Some(assets)),
{
}

/// A release none of whose assets is named `crosshair.sha256`, or with no
/// asset list at all, does not ship the sidecar.
pub proof fn law_no_sidecar_without_that_asset(assets: Seq<Option<String>>)
    requires
        forall|i: int|
            0 <= i < assets.len() ==> !(#[trigger] assets[i] matches Some(n) && n@ == SIDECAR_NAME@),
    ensures
        !has_sidecar(Some(assets)),
        !has_sidecar(None),
{
}

/// The error that a failed API request stands for.
pub fn api_error(f: ApiFailure) -> (e: FetchError)
    ensures
        match f {
            ApiFailure::Status(code) => if code == 403 || code == 429 {
                e is RateLimited
            } else {
                e == FetchError::Http(code)
            },
            ApiFailure::Transport(t) => e == FetchError::Unreachable(t),
        },
{
    match f {
        ApiFailure::Status(code) => if code == 403 || code == 429 {
            FetchError::RateLimited
        } else {
            FetchError::Http(code)
        },
        ApiFailure::Transport(t) => FetchError::Unreachable(t),
    }
}

/// The tag of the latest release, plus a promise that it ships a checksum
/// sidecar (a release without one cannot be verified and is refused).
pub fn release_tag(info: ReleaseInfo) -> (r: Result<String, FetchError>)
    ensures
        match info.tag_name {
            Some(t) if t@.len() > 0 => if has_sidecar(
                match info.assets {
                    Some(a) => Some(a@),
                    None => None,
                },
            ) {
                r matches Ok(u) && u@ == t@
            } else {
                r matches Err(FetchError::NoChecksum(u)) && u@ == t@
            },
            _ => r matches Err(FetchError::NoTag),
        },
{
    let tag = match info.tag_name {
        Some(t) => t,
        None => {
            return Err(FetchError::NoTag);
        },
    };
    if tag.as_str().is_empty() {
        return Err(FetchError::NoTag);
    }
    let found = match &info.assets {
        None => false,
        Some(a) => {
            let mut found = false;
            let mut i: usize = 0;
            while i < a.len()
                invariant
                    i <= a@.len(),
                    found == exists|k: int|
                        0 <= k < i && (#[trigger] a@[k] matches Some(n) && n@ == SIDECAR_NAME@),
                decreases a@.len() - i,
            {
                let hit = match &a[i] {
                    Some(n) => same_text(n.as_str(), SIDECAR_NAME),
                    None => false,
                };
                if hit {
                    found = true;
                }
                i = i + 1;
            }
            found
        },
    };
    if found {
        Ok(tag)
    } else {
        Err(FetchError::NoChecksum(tag))
    }
}

/// `base/name`.
pub open spec fn url_join(base: Seq<char>, name: Seq<char>) -> Seq<char> {
    base + seq!['/'] + name
}

/// The download directory of the release `tag`: under `override_base`
/// when a mirror is configured, else under the GitHub downloads.
pub fn download_base(override_base: Option<&str>, tag: &str) -> (url: String)
    ensures
        url@ == url_join(
            match override_base {
                Some(b) => b@,
                None => DL_BASE@,
            },
            tag@,
        ),
{
    let mut out: Vec<char> = Vec::new();
    match override_base {
        Some(b) => push_str(&mut out, b),
        None => push_str(&mut out, DL_BASE),
    }
    out.push('/');
    push_str(&mut out, tag);
    string_from_chars(&out)
}

/// The URL of the asset `name` in the download directory `base`.
pub fn asset_url(base: &str, name: &str) -> (url: String)
    ensures
        url@ == url_join(base@, name@),
{
    let mut out = chars_of(base);
    out.push('/');
    let n = chars_of(name);
    push_chars(&mut out, &n);
    string_from_chars(&out)
}

/// The API endpoint: a mirror's when one is configured, else GitHub's.
pub fn api_url(override_url: Option<String>) -> (url: String)
    ensures
        url@ == match override_url {
            Some(u) => u@,
            None => API_URL@,
        },
{
    match override_url {
        Some(u) => u,
        None => API_URL.to_owned(),
    }
}

/// `prefix` followed by the decimal digits of `pid`.
fn numbered(prefix: &str, pid: u32) -> (name: String)
    ensures
        name@ == prefix@ + decimal_digits(pid as nat),
{
    let mut out = chars_of(prefix);
    let digits = decimal_of(pid as u64);
    push_chars(&mut out, &digits);
    string_from_chars(&out)
}

/// Prefixes of the files an update puts next to the binary, each followed by the updater's pid.
pub const TEMP_PREFIX: &'static str = ".crosshair.new.";

pub const BACKUP_PREFIX: &'static str = ".crosshair.old.";

pub const PROBE_PREFIX: &'static str = ".crosshair.probe.";

/// Name of the verified download before it replaces the binary.
pub fn temp_file_name(pid: u32) -> (name: String)
    ensures
        name@ == TEMP_PREFIX@ + decimal_digits(pid as nat),
{
    numbered(TEMP_PREFIX, pid)
}

/// Name of the hard link that keeps the old binary for a rollback.
pub fn backup_file_name(pid: u32) -> (name: String)
    ensures
        name@ == BACKUP_PREFIX@ + decimal_digits(pid as nat),
{
    numbered(BACKUP_PREFIX, pid)
}

/// Name of the file that probes whether the binary's directory is writable.
pub fn probe_file_name(pid: u32) -> (name: String)
    ensures
        name@ == PROBE_PREFIX@ + decimal_digits(pid as nat),
{
    numbered(PROBE_PREFIX, pid)
}

/// The page of the release `tag`, that the panel's update link opens.
pub const RELEASE_PAGE_BASE: &'static str = "https://github.com/avalgott/gaming-crosshair/releases/tag";

/// The web page of the release `tag`.
pub fn release_page(tag: &str) -> (url: String)
    ensures
        url@ == url_join(RELEASE_PAGE_BASE@, tag@),
{
    asset_url(RELEASE_PAGE_BASE, tag)
}

} // verus!
