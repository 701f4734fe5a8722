use dojo_torii::config::{
    dojo_metadata_from_workspace, ConfigError, Deployment, DeploymentConfig, Deployments, DeserializationError,
    EnvironmentConfig, FieldElement, Migrator, ProcessEnvironment, SignerSource, WorldConfig,
};

fn table(text: &str) -> toml::Value {
    text.parse::<toml::Value>().unwrap()
}

fn felt(last: u8) -> FieldElement {
    let mut bytes = [0u8; 32];
    bytes[31] = last;
    FieldElement { bytes }
}

fn no_process() -> ProcessEnvironment {
    ProcessEnvironment {
        private_key: None,
        keystore_path: None,
        keystore_password: None,
        account_address: None,
    }
}

fn empty_config() -> EnvironmentConfig {
    EnvironmentConfig {
        rpc: None,
        private_key: None,
        account_address: None,
        keystore_path: None,
        keystore_password: None,
    }
}

#[test]
fn world_address_is_read_as_a_field_element() {
    let meta = table("world_address = \"0x1\"");
    assert_eq!(WorldConfig::from_workspace(Some(&meta)), Ok(WorldConfig { address: Some(felt(1)) }));
    let meta = table("world_address = \"ff\"");
    assert_eq!(
        WorldConfig::from_workspace(Some(&meta)),
        Ok(WorldConfig { address: Some(felt(255)) })
    );
    let meta = table("world_address = \"0x0102\"");
    let mut bytes = [0u8; 32];
    bytes[30] = 1;
    bytes[31] = 2;
    assert_eq!(
        WorldConfig::from_workspace(Some(&meta)),
        Ok(WorldConfig { address: Some(FieldElement { bytes }) })
    );
}

#[test]
fn world_without_address() {
    assert_eq!(WorldConfig::from_workspace(None), Ok(WorldConfig { address: None }));
    let meta = table("other = 1");
    assert_eq!(WorldConfig::from_workspace(Some(&meta)), Ok(WorldConfig { address: None }));
    let meta = table("world_address = 17");
    assert_eq!(WorldConfig::from_workspace(Some(&meta)), Ok(WorldConfig { address: None }));
    let not_a_table = toml::Value::String("world_address".to_string());
    assert_eq!(WorldConfig::from_workspace(Some(&not_a_table)), Ok(WorldConfig { address: None }));
}

#[test]
fn world_address_that_is_no_field_element() {
    for bad in ["0xzz", "hello", &"f".repeat(64), &"1".repeat(65)] {
        let meta = table(&format!("world_address = \"{}\"", bad));
        assert_eq!(
            WorldConfig::from_workspace(Some(&meta)),
            Err(DeserializationError::ParsingFieldElement)
        );
    }
}

#[test]
fn environment_without_env_table_is_empty() {
    assert_eq!(EnvironmentConfig::from_workspace("dev", None, &no_process()), Ok(empty_config()));
    let meta = table("world_address = \"0x1\"");
    let process = ProcessEnvironment {
        private_key: Some("0x5".to_string()),
        keystore_path: Some("/keys".to_string()),
        keystore_password: Some("secret".to_string()),
        account_address: Some("not hex".to_string()),
    };
    assert_eq!(EnvironmentConfig::from_workspace("dev", Some(&meta), &process), Ok(empty_config()));
}

#[test]
fn environment_from_the_default_table() {
    let meta = table(
        "[env]\nrpc_url = \"http://localhost:5050\"\nprivate_key = \"0x2\"\n\
         account_address = \"0x3\"\nkeystore_path = \"/keys\"\nkeystore_password = \"pw\"\n",
    );
    let config = EnvironmentConfig::from_workspace("dev", Some(&meta), &no_process()).unwrap();
    assert_eq!(
        config,
        EnvironmentConfig {
            rpc: Some("http://localhost:5050/".to_string()),
            private_key: Some(felt(2)),
            account_address: Some(felt(3)),
            keystore_path: Some("/keys".to_string()),
            keystore_password: Some("pw".to_string()),
        }
    );
}

#[test]
fn profile_table_replaces_the_default_table() {
    let meta = table(
        "[env]\nrpc_url = \"http://localhost:5050\"\nprivate_key = \"0x2\"\n\
         [env.prod]\nrpc_url = \"https://example.org/rpc\"\n",
    );
    let config = EnvironmentConfig::from_workspace("prod", Some(&meta), &no_process()).unwrap();
    assert_eq!(config.rpc, Some("https://example.org/rpc".to_string()));
    assert_eq!(config.private_key, None);
    let config = EnvironmentConfig::from_workspace("dev", Some(&meta), &no_process()).unwrap();
    assert_eq!(config.rpc, Some("http://localhost:5050/".to_string()));
    assert_eq!(config.private_key, Some(felt(2)));
}

#[test]
fn process_environment_fills_what_the_table_lacks() {
    let meta = table("[env]\nprivate_key = \"0x2\"\n");
    let process = ProcessEnvironment {
        private_key: Some("0x7".to_string()),
        keystore_path: Some("/keys".to_string()),
        keystore_password: Some("pw".to_string()),
        account_address: Some("0x9".to_string()),
    };
    let config = EnvironmentConfig::from_workspace("dev", Some(&meta), &process).unwrap();
    assert_eq!(
        config,
        EnvironmentConfig {
            rpc: None,
            private_key: Some(felt(2)),
            account_address: Some(felt(9)),
            keystore_path: Some("/keys".to_string()),
            keystore_password: Some("pw".to_string()),
        }
    );
}

#[test]
fn environment_errors_in_reading_order() {
    let meta = table("[env]\nrpc_url = \"not a url\"\nprivate_key = \"0xzz\"\n");
    assert_eq!(
        EnvironmentConfig::from_workspace("dev", Some(&meta), &no_process()),
        Err(DeserializationError::ParsingUrl)
    );
    let meta = table("[env]\nrpc_url = \"http://a.b\"\nprivate_key = \"0xzz\"\n");
    assert_eq!(
        EnvironmentConfig::from_workspace("dev", Some(&meta), &no_process()),
        Err(DeserializationError::ParsingFieldElement)
    );
    let meta = table("[env]\nprivate_key = \"0x1\"\n");
    let process = ProcessEnvironment {
        private_key: None,
        keystore_path: None,
        keystore_password: None,
        account_address: Some("nope".to_string()),
    };
    assert_eq!(
        EnvironmentConfig::from_workspace("dev", Some(&meta), &process),
        Err(DeserializationError::ParsingFieldElement)
    );
}

#[test]
fn error_messages() {
    assert_eq!(DeserializationError::ParsingFieldElement.message(), "parsing field element");
    assert_eq!(DeserializationError::ParsingUrl.message(), "parsing url");
    assert_eq!(
        ConfigError::MissingKeystorePassword.message(),
        "Missing `keystore_password` in the environment config"
    );
    assert_eq!(
        ConfigError::MissingSigner.message(),
        "Missing `private_key` or `keystore_path` in the environment config"
    );
    assert_eq!(ConfigError::MissingRpcUrl.message(), "Missing `rpc_url` in the environment config");
    assert_eq!(
        ConfigError::MissingAccountAddress.message(),
        "Missing `account_address` in the environment config"
    );
}

#[test]
fn signer_prefers_the_private_key() {
    let mut config = empty_config();
    assert_eq!(config.signer(), Err(ConfigError::MissingSigner));
    config.keystore_password = Some("pw".to_string());
    assert_eq!(config.signer(), Err(ConfigError::MissingSigner));
    config.keystore_path = Some("/keys".to_string());
    assert_eq!(
        config.signer(),
        Ok(SignerSource::Keystore { path: "/keys".to_string(), password: "pw".to_string() })
    );
    config.keystore_password = None;
    assert_eq!(config.signer(), Err(ConfigError::MissingKeystorePassword));
    config.private_key = Some(felt(4));
    assert_eq!(config.signer(), Ok(SignerSource::PrivateKey(felt(4))));
}

#[test]
fn provider_and_account_address() {
    let mut config = empty_config();
    assert_eq!(config.provider(), Err(ConfigError::MissingRpcUrl));
    assert_eq!(config.account_address(), Err(ConfigError::MissingAccountAddress));
    config.rpc = Some("http://localhost:5050/".to_string());
    config.account_address = Some(felt(3));
    assert_eq!(config.provider(), Ok("http://localhost:5050/".to_string()));
    assert_eq!(config.account_address(), Ok(felt(3)));
}

#[test]
fn migrator_needs_signer_account_and_endpoint_in_this_order() {
    let mut config = empty_config();
    assert_eq!(config.migrator(), Err(ConfigError::MissingSigner));
    config.keystore_path = Some("/keys".to_string());
    assert_eq!(config.migrator(), Err(ConfigError::MissingKeystorePassword));
    config.private_key = Some(felt(4));
    assert_eq!(config.migrator(), Err(ConfigError::MissingAccountAddress));
    config.account_address = Some(felt(3));
    assert_eq!(config.migrator(), Err(ConfigError::MissingRpcUrl));
    config.rpc = Some("http://localhost:5050/".to_string());
    assert_eq!(
        config.migrator(),
        Ok(Migrator {
            signer: SignerSource::PrivateKey(felt(4)),
            account_address: felt(3),
            rpc: "http://localhost:5050/".to_string(),
        })
    );
}

#[test]
fn deployment_records() {
    let deployments = Deployments {
        testnet: Some(Deployment { rpc: Some("http://t".to_string()) }),
        mainnet: None,
    };
    assert_eq!(deployments.testnet.as_ref().unwrap().rpc.as_deref(), Some("http://t"));
    assert!(deployments.mainnet.is_none());
    let config = DeploymentConfig { rpc: None };
    assert!(config.rpc.is_none());
}

#[test]
fn defaults_hold_nothing() {
    assert_eq!(WorldConfig::default(), WorldConfig { address: None });
    assert_eq!(EnvironmentConfig::default(), empty_config());
    assert_eq!(Deployments::default(), Deployments { testnet: None, mainnet: None });
    assert_eq!(Deployment::default(), Deployment { rpc: None });
}

#[test]
fn profile_member_that_is_no_table_holds_no_settings() {
    let meta = table("[env]\nprod = \"https://example.org\"\nprivate_key = \"0x2\"\n");
    let process = ProcessEnvironment {
        private_key: Some("0x7".to_string()),
        keystore_path: None,
        keystore_password: None,
        account_address: None,
    };
    let config = EnvironmentConfig::from_workspace("prod", Some(&meta), &process).unwrap();
    assert_eq!(config.private_key, Some(felt(7)));
    assert_eq!(config.rpc, None);
}

#[test]
fn dojo_metadata_of_a_manifest() {
    let manifest = table(
        "[package]\nname = \"game\"\n[tool.dojo]\nworld_address = \"0x1\"\n[tool.other]\nx = 1\n",
    );
    let metadata = dojo_metadata_from_workspace(&manifest).unwrap();
    assert_eq!(metadata.get("world_address").and_then(|v| v.as_str()), Some("0x1"));
    assert_eq!(WorldConfig::from_workspace(Some(metadata)), Ok(WorldConfig { address: Some(felt(1)) }));
    assert!(dojo_metadata_from_workspace(&table("[package]\nname = \"game\"\n")).is_none());
    assert!(dojo_metadata_from_workspace(&table("[tool.other]\nx = 1\n")).is_none());
    assert!(dojo_metadata_from_workspace(&table("tool = 3\n")).is_none());
}
