use bution::cluster::NodeRole;
use bution::hub::download::PathStyle;
use bution::storage::{AppPaths, Settings, SettingsError, Timestamp, TrustedPeer};

fn peer(id: u128, key: &str) -> TrustedPeer {
    TrustedPeer { id, name: "worker".into(), public_key: key.into(), paired_at: Timestamp { seconds: 1, nanos: 0 } }
}

#[test]
fn trust_store_replaces_rotated_peer_key() {
    let mut settings = Settings::fresh();
    let id = uuid::Uuid::new_v4().as_u128();
    for key in ["old", "new"] {
        settings.trust(peer(id, key));
    }
    assert_eq!(settings.trusted_peers.len(), 1);
    assert_eq!(settings.trusted_peer(id).unwrap().public_key, "new");
}

#[test]
fn trusting_one_peer_keeps_the_others() {
    let mut settings = Settings::fresh();
    settings.trust(peer(1, "a"));
    settings.trust(peer(2, "b"));
    settings.trust(peer(1, "c"));
    assert_eq!(settings.trusted_peer(2).unwrap().public_key, "b");
    assert_eq!(settings.trusted_peer(1).unwrap().public_key, "c");
    assert!(settings.trusted_peer(3).is_none());
}

#[test]
fn fresh_settings_use_the_documented_defaults() {
    let settings = Settings::fresh();
    assert_eq!(settings.role, NodeRole::Automatic);
    assert_eq!(settings.control_port, 31750);
    assert_eq!(settings.rpc_port, 50052);
    assert!(settings.trusted_peers.is_empty());
    assert_ne!(settings.node_id, 0);
    assert!(settings.validate_loaded().is_ok());
    assert!(!settings.node_name.trim().is_empty());
    assert_eq!(Settings::name_for_host(Some("  ".into())), "BUTION Node");
    assert_eq!(Settings::name_for_host(None), "BUTION Node");
    assert_eq!(Settings::name_for_host(Some("honor".into())), "honor");
}

#[test]
fn nil_node_id_is_refused() {
    let mut settings = Settings::fresh();
    settings.node_id = 0;
    assert_eq!(settings.validate_loaded(), Err(SettingsError::NilNodeId));
}

#[test]
fn application_files_live_in_the_data_directory() {
    let paths = AppPaths::in_directories("/home/a/.local/share/bution".to_string(), "/home/a/.cache/bution".to_string(), PathStyle::Unix);
    assert_eq!(paths.settings_file, "/home/a/.local/share/bution/settings.toml");
    assert_eq!(paths.identity_file, "/home/a/.local/share/bution/identity.key");
    assert_eq!(paths.noise_identity_file, "/home/a/.local/share/bution/noise-identity.key");
    assert_eq!(paths.models_dir, "/home/a/.local/share/bution/models");
    assert_eq!(paths.cache_dir, "/home/a/.cache/bution");
    let trailing = AppPaths::in_directories("data/".to_string(), String::new(), PathStyle::Unix);
    assert_eq!(trailing.settings_file, "data/settings.toml");
}

#[test]
fn windows_application_files_are_joined_with_backslash() {
    let paths = AppPaths::in_directories("C:\\Users\\a\\AppData\\Local\\BUTION".to_string(), "C:\\cache".to_string(), PathStyle::Windows);
    assert_eq!(paths.settings_file, "C:\\Users\\a\\AppData\\Local\\BUTION\\settings.toml");
    assert_eq!(paths.models_dir, "C:\\Users\\a\\AppData\\Local\\BUTION\\models");
    let trailing = AppPaths::in_directories("D:\\data\\".to_string(), String::new(), PathStyle::Windows);
    assert_eq!(trailing.identity_file, "D:\\data\\identity.key");
    let drive = AppPaths::in_directories("D:".to_string(), String::new(), PathStyle::Windows);
    assert_eq!(drive.settings_file, "D:settings.toml");
}
