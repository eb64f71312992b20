//! Settings of the mirror.
use xvenue::s3_mirror::S3Mirror;

fn set(s: &str) -> Option<String> {
    Some(s.to_string())
}

#[test]
fn from_env_unset_returns_none() {
    assert!(S3Mirror::from_settings(&None, &None).is_none());
}

#[test]
fn from_env_partial_returns_none() {
    assert!(S3Mirror::from_settings(&set("debot-dashboard"), &None).is_none());
    assert!(S3Mirror::from_settings(&None, &set("debot/status/frankfurt")).is_none());
}

#[test]
fn from_env_strips_trailing_slash_in_prefix() {
    let mirror = S3Mirror::from_settings(&set("debot-dashboard"), &set("debot/status/frankfurt/"))
        .expect("present");
    assert_eq!(mirror.bucket, "debot-dashboard");
    assert_eq!(mirror.key_prefix, "debot/status/frankfurt");
    assert_eq!(mirror.key_of("status.json"), "debot/status/frankfurt/status.json");
}

#[test]
fn from_env_treats_whitespace_as_unset() {
    assert!(S3Mirror::from_settings(&set("   "), &set("debot/status/frankfurt")).is_none());
    assert!(S3Mirror::from_settings(&set("debot"), &set(" // ")).is_none());
}

#[test]
fn blanks_around_settings_are_dropped() {
    let mirror = S3Mirror::from_settings(&set("\u{a0} b \n"), &set("\ta//")).unwrap();
    assert_eq!(mirror.bucket, "b");
    assert_eq!(mirror.key_prefix, "a");
}
