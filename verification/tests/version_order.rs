use crosshair::update::version_cmp;
use std::cmp::Ordering;

#[test]
fn numeric_not_lexicographic() {
    assert_eq!(version_cmp("0.10.0", "0.9.0").unwrap(), Ordering::Greater);
    assert_eq!(version_cmp("0.9.0", "0.10.0").unwrap(), Ordering::Less);
}

#[test]
fn missing_components_read_as_zero() {
    assert_eq!(version_cmp("1.2", "1.2.0").unwrap(), Ordering::Equal);
    assert_eq!(version_cmp("v1", "1.0.0").unwrap(), Ordering::Equal);
    assert_eq!(version_cmp("V1.2.3", "1.2.3").unwrap(), Ordering::Equal);
}

#[test]
fn prerelease_is_older_than_release() {
    assert_eq!(version_cmp("1.2.0-rc1", "1.2.0").unwrap(), Ordering::Less);
    assert_eq!(version_cmp("1.2.0", "1.2.0-rc1").unwrap(), Ordering::Greater);
    assert_eq!(
        version_cmp("1.2.0-rc1", "1.2.0-rc2").unwrap(),
        Ordering::Equal
    );
}

#[test]
fn plain_ordering() {
    assert_eq!(version_cmp("0.2.0", "0.3.0").unwrap(), Ordering::Less);
    assert_eq!(version_cmp("0.3.0", "0.2.0").unwrap(), Ordering::Greater);
    assert_eq!(version_cmp("0.2.0", "0.2.0").unwrap(), Ordering::Equal);
}

#[test]
fn rejects_garbage() {
    assert!(version_cmp("garbage", "1.0.0").is_err());
    assert!(version_cmp("1..0", "1.0.0").is_err());
}
