use repo_server_rs::config::{Config, ConfigEnv, ConfigError};
use repo_server_rs::version::{AddressError, PortError};

#[test]
fn test_config_default() {
    let config = Config::default();
    assert!(!config.core_server.is_empty());
    assert!(!config.cred_dir.is_empty());
    assert!(config.port > 0);
    assert!(config.timeout > 0);
    assert!(config.num_req_worker_threads > 0);
}

#[test]
fn test_config_normalize() {
    let mut config = Config::default();
    config.globus_collection_path = Some("/test/path/".to_string());
    config.cred_dir = "/test/cred".to_string();

    config.normalize();

    assert_eq!(config.globus_collection_path, Some("/test/path".to_string()));
    assert_eq!(config.cred_dir, "/test/cred/");
}

#[test]
fn test_config_validation() {
    let mut config = Config::default();
    assert!(config.validate().is_ok());

    // Test invalid core server
    config.core_server = "invalid".to_string();
    assert!(config.validate().is_err());

    // Test invalid port
    config.core_server = "tcp://localhost:9999".to_string();
    config.port = 0;
    assert!(config.validate().is_err());

    // Test invalid timeout
    config.port = 9999;
    config.timeout = 0;
    assert!(config.validate().is_err());

    // Test invalid worker threads
    config.timeout = 5000;
    config.num_req_worker_threads = 0;
    assert!(config.validate().is_err());
}

#[test]
fn config_default_values() {
    let config = Config::default();
    assert_eq!(config.core_server, "tcp://datafed-core:7512");
    assert_eq!(config.cred_dir, "/opt/datafed/keys/");
    assert_eq!(config.port, 9000);
    assert_eq!(config.timeout, 5000);
    assert_eq!(config.num_req_worker_threads, 4);
    assert_eq!(config.globus_collection_path, Some("/mnt/datafed-repo".to_string()));
}

#[test]
fn config_normalize_keeps_root_and_slashes() {
    let mut config = Config::default();
    config.globus_collection_path = Some("///".to_string());
    config.cred_dir = "/keys/".to_string();
    config.normalize();
    assert_eq!(config.globus_collection_path, Some("/".to_string()));
    assert_eq!(config.cred_dir, "/keys/");

    let mut again = config.clone();
    again.normalize();
    assert_eq!(again.globus_collection_path, config.globus_collection_path);
    assert_eq!(again.cred_dir, config.cred_dir);
}

#[test]
fn config_validation_errors() {
    let mut config = Config::default();
    config.core_server = "udp://host:1".to_string();
    assert_eq!(config.validate(), Err(ConfigError::InvalidCoreServer(AddressError::UnsupportedScheme)));
    config.core_server = "tcp://host".to_string();
    assert_eq!(config.validate(), Err(ConfigError::InvalidCoreServer(AddressError::NoPort)));
    config.core_server = "tcp://host:70000".to_string();
    assert_eq!(config.validate(), Err(ConfigError::InvalidCoreServer(AddressError::InvalidPort(PortError::TooLarge))));
    config.core_server = "tcp://host:1".to_string();
    config.port = 0;
    assert_eq!(config.validate(), Err(ConfigError::InvalidPort));
    config.port = 1;
    config.timeout = 0;
    assert_eq!(config.validate(), Err(ConfigError::InvalidTimeout));
    config.timeout = 1;
    config.num_req_worker_threads = 0;
    assert_eq!(config.validate(), Err(ConfigError::NoWorkerThreads));
}

#[test]
fn config_env_overrides() {
    let mut config = Config::default();
    let env = ConfigEnv {
        core_address: Some("core.example:7512".to_string()),
        keys_dir: Some("/keys".to_string()),
        port: Some("+8080".to_string()),
        timeout: Some("not-a-number".to_string()),
        worker_threads: Some("16".to_string()),
        collection_root: Some("/data/".to_string()),
    };
    config.load_from_env(&env);
    assert_eq!(config.core_server, "tcp://core.example:7512");
    assert_eq!(config.cred_dir, "/keys");
    assert_eq!(config.port, 8080);
    assert_eq!(config.timeout, 5000);
    assert_eq!(config.num_req_worker_threads, 16);
    assert_eq!(config.globus_collection_path, Some("/data/".to_string()));

    let env2 = ConfigEnv {
        core_address: Some("tcp://other:1".to_string()),
        keys_dir: None,
        port: Some("70000".to_string()),
        timeout: Some("-1".to_string()),
        worker_threads: None,
        collection_root: None,
    };
    config.load_from_env(&env2);
    assert_eq!(config.core_server, "tcp://other:1");
    assert_eq!(config.port, 8080);
    assert_eq!(config.timeout, 5000);
}

#[test]
fn config_key_paths_and_contents() {
    let config = Config::default();
    assert_eq!(config.core_public_key_path(), "/opt/datafed/keys/datafed-core-key.pub");
    assert_eq!(config.repo_public_key_path(), "/opt/datafed/keys/datafed-repo-key.pub");
    assert_eq!(config.repo_private_key_path(), "/opt/datafed/keys/datafed-repo-key.priv");
    assert_eq!(Config::key_from_file_contents("  abc=\n\t"), "abc=");
    assert_eq!(Config::key_from_file_contents("\u{3000}k e y\u{2029}"), "k e y");
    assert_eq!(Config::key_from_file_contents(" \n "), "");
}

#[test]
fn config_generated_keys_are_base64() {
    let config = Config::default();
    match config.generate_keys() {
        Ok((public_key, secret_key)) => {
            assert_eq!(public_key.len(), 44);
            assert_eq!(secret_key.len(), 44);
            assert!(public_key.ends_with('='));
            assert_ne!(public_key, secret_key);
        }
        Err(e) => assert_eq!(e, "Failed to initialize sodiumoxide"),
    }
}

#[test]
fn config_generated_public_key_belongs_to_secret_key() {
    let config = Config::default();
    match config.generate_keys() {
        Ok((public_key, secret_key)) => {
            let pk = base64::decode(&public_key).unwrap();
            let sk = base64::decode(&secret_key).unwrap();
            let secret = sodiumoxide::crypto::box_::SecretKey::from_slice(&sk).unwrap();
            assert_eq!(secret.public_key().0.to_vec(), pk);
        }
        Err(e) => assert_eq!(e, "Failed to initialize sodiumoxide"),
    }
}
