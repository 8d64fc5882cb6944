//! Usage reports.
use rtk::telemetry::{
    accept_salt, generate_device_hash, hash_device, install_method_from_path, make_salt,
    random_salt, should_ping, to_hex, PING_INTERVAL_SECS,
};

#[test]
fn test_device_hash_is_stable() {
    let h1 = generate_device_hash(&"ab".repeat(32), "user");
    let h2 = generate_device_hash(&"ab".repeat(32), "user");
    assert_eq!(h1, h2);
    assert_eq!(h1.len(), 64);
}

#[test]
fn test_device_hash_is_valid_hex() {
    let hash = generate_device_hash(&"ab".repeat(32), "user");
    assert!(hash.chars().all(|c| c.is_ascii_hexdigit()));
}

#[test]
fn test_salt_is_persisted() {
    let s1 = random_salt("fallback");
    let s2 = accept_salt(&s1).expect("a stored salt is read back");
    assert_eq!(s1, s2);
    assert_eq!(s1.len(), 64);
    assert!(s1.chars().all(|c| c.is_ascii_hexdigit()));
}

#[test]
fn test_random_salt_uniqueness() {
    let s1 = random_salt("fallback");
    let s2 = random_salt("fallback");
    assert_ne!(s1, s2);
    assert_eq!(s1.len(), 64);
    assert_eq!(s2.len(), 64);
}

#[test]
fn test_install_method_unix_paths() {
    assert_eq!(
        install_method_from_path("/opt/homebrew/Cellar/rtk/0.28.0/bin/rtk"),
        "homebrew"
    );
    assert_eq!(
        install_method_from_path("/usr/local/homebrew/bin/rtk"),
        "homebrew"
    );
    assert_eq!(
        install_method_from_path("/home/user/.cargo/bin/rtk"),
        "cargo"
    );
    assert_eq!(
        install_method_from_path("/home/user/.local/bin/rtk"),
        "script"
    );
    assert_eq!(
        install_method_from_path("/nix/store/abc123-rtk/bin/rtk"),
        "nix"
    );
    assert_eq!(install_method_from_path("/usr/bin/rtk"), "other");
}

#[test]
fn test_install_method_windows_paths() {
    assert_eq!(
        install_method_from_path("C:\\Users\\user\\.cargo\\bin\\rtk.exe"),
        "cargo"
    );
    assert_eq!(
        install_method_from_path("C:\\Users\\user\\.local\\bin\\rtk.exe"),
        "script"
    );
    assert_eq!(
        install_method_from_path("C:\\Program Files\\rtk\\rtk.exe"),
        "other"
    );
}

#[test]
fn hash_of_a_device_is_the_digest_of_its_parts() {
    assert_ne!(hash_device("a", "b", "c"), hash_device("a", "b", "d"));
    assert_ne!(hash_device("a", "b", "c"), hash_device("b", "b", "c"));
    assert_ne!(hash_device("a", "b", "c"), hash_device("a", "c", "c"));
    assert_eq!(
        make_salt(None, "abc"),
        "ba7816bf8f01cfea414140de5dae2223b00361a396177a9cb410ff61f20015ad"
    );
    assert_eq!(
        make_salt(None, ""),
        "e3b0c44298fc1c149afbf4c8996fb92427ae41e4649b934ca495991b7852b855"
    );
    assert_eq!(hash_device("s", "h", "u"), make_salt(None, "s:h:u"));
}

#[test]
fn bytes_are_written_in_lower_case_hex() {
    assert_eq!(to_hex(&[]), "");
    assert_eq!(to_hex(&[0x00, 0x0f, 0xa0, 0xff]), "000fa0ff");
}

#[test]
fn a_salt_of_random_bytes_is_their_hex() {
    assert_eq!(make_salt(Some(vec![0xab; 32]), "unused"), "ab".repeat(32));
}

#[test]
fn only_salts_are_accepted() {
    let salt = "0123456789abcdefABCDEF0123456789".repeat(2);
    assert_eq!(accept_salt(&salt), Some(salt.clone()));
    assert_eq!(accept_salt(&format!("  {}\n", salt)), Some(salt.clone()));
    assert_eq!(accept_salt(&salt[1..]), None);
    assert_eq!(accept_salt(&format!("{}0", salt)), None);
    assert_eq!(accept_salt(&"g".repeat(64)), None);
    assert_eq!(accept_salt(""), None);
}

#[test]
fn a_report_is_due_once_in_the_interval() {
    assert!(should_ping(true, "", None, None));
    assert!(should_ping(true, "0", Some(true), None));
    assert!(!should_ping(false, "", None, None));
    assert!(!should_ping(true, "1", None, None));
    assert!(!should_ping(true, "", Some(false), None));
    assert!(!should_ping(true, "", None, Some(PING_INTERVAL_SECS - 1)));
    assert!(should_ping(true, "", None, Some(PING_INTERVAL_SECS)));
    assert_eq!(PING_INTERVAL_SECS, 23 * 3600);
}
