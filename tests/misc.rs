use wicrs_server::config::{AuthConfig, AuthConfigs, Config};
use wicrs_server::error::Error;
use wicrs_server::permission::{ChannelPermission, HubPermission};
use wicrs_server::signing::{
    cached_key_path, check_signature_time, fingerprint_hex, fingerprint_matches, key_lookup_url,
};
use wicrs_server::{check_name_validity, fresh_id, is_valid_name, new_id};
use std::collections::HashMap;

#[test]
fn name_validity() {
    assert!(is_valid_name(""));
    assert!(is_valid_name(&"a".repeat(128)));
    assert!(!is_valid_name(&"a".repeat(129)));
    // 64 two-byte characters are 128 bytes; one more is too many.
    assert!(is_valid_name(&"é".repeat(64)));
    assert!(!is_valid_name(&"é".repeat(65)));
    assert_eq!(check_name_validity("ok"), Ok(()));
    assert_eq!(check_name_validity(&"a".repeat(129)), Err(Error::InvalidName));
}

#[test]
fn status_codes() {
    assert_eq!(Error::InvalidName.status_code(), 400);
    assert_eq!(Error::TooBig.status_code(), 400);
    assert_eq!(Error::Muted.status_code(), 403);
    assert_eq!(Error::MissingHubPermission(HubPermission::Ban).status_code(), 403);
    assert_eq!(Error::MissingChannelPermission(ChannelPermission::All).status_code(), 403);
    assert_eq!(Error::NotInHub.status_code(), 404);
    assert_eq!(Error::ChannelNotFound.status_code(), 404);
    assert_eq!(Error::NotTyping.status_code(), 409);
    assert_eq!(Error::Io.status_code(), 500);
    assert_eq!(Error::Other("x".to_string()).status_code(), 500);
}

#[test]
fn fingerprints_and_key_locations() {
    let fp: Vec<u8> = (0u8..20).map(|i| i * 13).collect();
    let hex = fingerprint_hex(&fp).unwrap();
    assert_eq!(hex, "000D1A2734414E5B6875828F9CA9B6C3D0DDEAF7");
    assert_eq!(fingerprint_hex(&[1, 2, 3]), Err(Error::InvalidFingerprint));
    assert!(fingerprint_matches(&hex, &fp));
    assert!(!fingerprint_matches("000d1a2734414e5b6875828f9ca9b6c3d0ddeaf7", &fp));
    assert!(!fingerprint_matches(&hex, &fp[..19]));
    assert_eq!(
        key_lookup_url("https://keys.example", "AB12"),
        "https://keys.example/pks/lookup?op=get&options=mr&search=AB12"
    );
    assert_eq!(cached_key_path("AB12"), "data/user_public_keys/AB12.asc");
}

#[test]
fn signature_time_window() {
    assert_eq!(check_signature_time(110, 100), Ok(()));
    assert_eq!(check_signature_time(50, 100), Ok(()));
    assert_eq!(check_signature_time(111, 100), Err(Error::InvalidMessage));
    assert_eq!(check_signature_time(0, i64::MAX), Err(Error::UnexpectedServerArg));
}

#[test]
fn fresh_ids_avoid_taken_keys() {
    let mut taken: HashMap<u128, ()> = HashMap::new();
    for _ in 0..50 {
        let id = fresh_id(&taken);
        assert!(!taken.contains_key(&id));
        taken.insert(id, ());
    }
    assert_ne!(new_id(), new_id());
}

#[test]
fn config_values() {
    let config = Config {
        auth_services: AuthConfigs {
            github: Some(AuthConfig {
                enabled: true,
                client_id: "id".to_string(),
                client_secret: "SECRET-REDACTED".to_string(),
            }),
        },
        address: "127.0.0.1:8080".to_string(),
        show_version: false,
        ws_hb_interval: 1000,
        ws_client_timeout: 10000,
        tantivy_commit_threshold: 10,
    };
    let copy = config.clone();
    assert_eq!(copy.address, "127.0.0.1:8080");
    assert!(copy.auth_services.github.unwrap().enabled);
}
