use crosshair::checksum::{parse_sha256, verify_binary, ChecksumError};
use crosshair::release::{
    api_error, api_url, asset_url, backup_file_name, download_base, probe_file_name, release_tag,
    temp_file_name, ApiFailure, FetchError, ReleaseInfo, API_URL,
};

const ABC_DIGEST: &str = "ba7816bf8f01cfea414140de5dae2223b00361a396177a9cb410ff61f20015ad";

fn abc_bytes() -> [u8; 32] {
    [
        0xba, 0x78, 0x16, 0xbf, 0x8f, 0x01, 0xcf, 0xea, 0x41, 0x41, 0x40, 0xde, 0x5d, 0xae, 0x22,
        0x23, 0xb0, 0x03, 0x61, 0xa3, 0x96, 0x17, 0x7a, 0x9c, 0xb4, 0x10, 0xff, 0x61, 0xf2, 0x00,
        0x15, 0xad,
    ]
}

#[test]
fn sidecar_with_file_name_parses() {
    let sidecar = format!("{ABC_DIGEST}  crosshair\n");
    assert_eq!(parse_sha256(&sidecar).unwrap(), abc_bytes());
}

#[test]
fn sidecar_uppercase_and_leading_space_parse() {
    let sidecar = format!("\n\t {}", ABC_DIGEST.to_uppercase());
    assert_eq!(parse_sha256(&sidecar).unwrap(), abc_bytes());
}

#[test]
fn sidecar_digit_pairs_are_hex_digits_only() {
    // A sign is no hex digit: "+f" is not a byte.
    let mut text = String::from("+f");
    text.push_str(&"00".repeat(31));
    assert_eq!(parse_sha256(&text), Err(ChecksumError::Malformed));
    assert_eq!(parse_sha256(&"+a".repeat(32)), Err(ChecksumError::Malformed));
}

#[test]
fn malformed_sidecars_are_rejected() {
    assert_eq!(parse_sha256(""), Err(ChecksumError::Malformed));
    assert_eq!(parse_sha256("   "), Err(ChecksumError::Malformed));
    assert_eq!(parse_sha256(&ABC_DIGEST[..62]), Err(ChecksumError::Malformed));
    let long = format!("{ABC_DIGEST}00");
    assert_eq!(parse_sha256(&long), Err(ChecksumError::Malformed));
    let bad = format!("g{}", &ABC_DIGEST[1..]);
    assert_eq!(parse_sha256(&bad), Err(ChecksumError::Malformed));
    let minus = format!("-f{}", &ABC_DIGEST[2..]);
    assert_eq!(parse_sha256(&minus), Err(ChecksumError::Malformed));
    let accented = format!("é{}", &ABC_DIGEST[1..]);
    assert_eq!(parse_sha256(&accented), Err(ChecksumError::Malformed));
}

#[test]
fn binary_matching_its_sidecar_verifies() {
    let sidecar = format!("{ABC_DIGEST}  crosshair\n");
    assert_eq!(verify_binary(b"abc", &sidecar), Ok(()));
}

#[test]
fn binary_not_matching_its_sidecar_is_rejected() {
    let sidecar = format!("{ABC_DIGEST}  crosshair\n");
    assert_eq!(verify_binary(b"abd", &sidecar), Err(ChecksumError::Mismatch));
    assert_eq!(verify_binary(b"abc", "nonsense"), Err(ChecksumError::Malformed));
}

fn info(tag: Option<&str>, assets: Option<Vec<Option<&str>>>) -> ReleaseInfo {
    ReleaseInfo {
        tag_name: tag.map(String::from),
        assets: assets.map(|a| a.into_iter().map(|n| n.map(String::from)).collect()),
    }
}

#[test]
fn release_with_sidecar_gives_its_tag() {
    let r = release_tag(info(
        Some("v0.3.0"),
        Some(vec![Some("crosshair"), None, Some("crosshair.sha256")]),
    ));
    assert_eq!(r.unwrap(), "v0.3.0");
}

#[test]
fn release_without_sidecar_is_refused() {
    match release_tag(info(Some("v0.3.0"), Some(vec![Some("crosshair")]))) {
        Err(FetchError::NoChecksum(t)) => assert_eq!(t, "v0.3.0"),
        other => panic!("unexpected {other:?}"),
    }
    match release_tag(info(Some("v0.3.0"), None)) {
        Err(FetchError::NoChecksum(t)) => assert_eq!(t, "v0.3.0"),
        other => panic!("unexpected {other:?}"),
    }
}

#[test]
fn release_without_tag_is_refused() {
    assert!(matches!(
        release_tag(info(None, Some(vec![Some("crosshair.sha256")]))),
        Err(FetchError::NoTag)
    ));
    assert!(matches!(
        release_tag(info(Some(""), Some(vec![Some("crosshair.sha256")]))),
        Err(FetchError::NoTag)
    ));
}

#[test]
fn api_errors_map_to_fetch_errors() {
    assert!(matches!(api_error(ApiFailure::Status(403)), FetchError::RateLimited));
    assert!(matches!(api_error(ApiFailure::Status(429)), FetchError::RateLimited));
    assert!(matches!(api_error(ApiFailure::Status(404)), FetchError::Http(404)));
    match api_error(ApiFailure::Transport("dns".to_string())) {
        FetchError::Unreachable(t) => assert_eq!(t, "dns"),
        other => panic!("unexpected {other:?}"),
    }
}

#[test]
fn download_urls() {
    let base = download_base(None, "v0.3.0");
    assert_eq!(
        base,
        "https://github.com/avalgott/gaming-crosshair/releases/download/v0.3.0"
    );
    assert_eq!(
        download_base(Some("http://mirror"), "v1"),
        "http://mirror/v1"
    );
    assert_eq!(asset_url("http://mirror/v1", "crosshair.sha256"), "http://mirror/v1/crosshair.sha256");
    assert_eq!(api_url(None), API_URL);
    assert_eq!(api_url(Some("http://x/api".to_string())), "http://x/api");
}

#[test]
fn update_file_names() {
    assert_eq!(temp_file_name(4321), ".crosshair.new.4321");
    assert_eq!(backup_file_name(7), ".crosshair.old.7");
    assert_eq!(probe_file_name(0), ".crosshair.probe.0");
}
