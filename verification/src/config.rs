//! World and environment settings, read from a project's `dojo` metadata.
//!
//! The metadata is the `[tool.dojo]` table of a project manifest. Reading the
//! manifest file and the process environment is left to the caller, who hands
//! in the parsed manifest and the values of the environment variables.

use vstd::prelude::*;

verus! {

/// `toml::Value`: a value of a TOML document. Nothing is known of its
/// inside; what it holds is named by `toml_member` and `toml_text`.
#[verifier::external_type_specification]
#[verifier::external_body]
pub struct ExTomlValue(toml::Value);

/// The member of the table `value` under `key`; `None` where `value` is no
/// table or has no such member.
pub uninterp spec fn toml_member(value: toml::Value, key: Seq<char>) -> Option<toml::Value>;

/// The text that `value` holds; `None` where `value` is no string.
pub uninterp spec fn toml_text(value: toml::Value) -> Option<Seq<char>>;

/// The field element that `hex` denotes, as 32 bytes with the most
/// significant first; `None` where `hex` denotes none.
pub uninterp spec fn felt_of_hex(hex: Seq<char>) -> Option<Seq<u8>>;

/// The absolute URL that `input` denotes, in its serialized form; `None`
/// where `input` denotes none.
pub uninterp spec fn url_of(input: Seq<char>) -> Option<Seq<char>>;

/// `toml::Value::get` with a string index: the member under `key` of a table.
#[verifier::external_body]
fn toml_get<'a>(value: &'a toml::Value, key: &str) -> (member: Option<&'a toml::Value>)
    ensures
        match member {
            Some(m) => toml_member(*value, key@) == Some(*m),
            None => toml_member(*value, key@) is None,
        },
{
    value.get(key)
}

/// `toml::Value::as_str`: the text of a string value.
#[verifier::external_body]
fn toml_as_str<'a>(value: &'a toml::Value) -> (text: Option<&'a str>)
    ensures
        match text {
            Some(t) => toml_text(*value) == Some(t@),
            None => toml_text(*value) is None,
        },
{
    value.as_str()
}

/// `FieldElement::from_hex_be`, the element handed out as its big-endian
/// bytes (`to_bytes_be`); `None` where the function rejects the text. The
/// result depends on the text alone.
#[verifier::external_body]
fn felt_from_hex(hex: &str) -> (bytes: Option<[u8; 32]>)
    ensures
        match bytes {
            Some(b) => felt_of_hex(hex@) == Some(b@),
            None => felt_of_hex(hex@) is None,
        },
{
    match starknet::core::types::FieldElement::from_hex_be(hex) {
        Ok(felt) => Some(felt.to_bytes_be()),
        Err(_) => None,
    }
}

/// `Url::parse`, the URL handed out in its serialized form; `None` where the
/// function rejects the text. The result depends on the text alone.
#[verifier::external_body]
fn url_parse(input: &str) -> (url: Option<String>)
    ensures
        match url {
            Some(u) => url_of(input@) == Some(u@),
            None => url_of(input@) is None,
        },
{
    match url::Url::parse(input) {
        Ok(url) => Some(String::from(url)),
        Err(_) => None,
    }
}

/// Why a setting could not be read.
#[derive(Clone, Copy, Debug, PartialEq, Eq, Structural)]
pub enum DeserializationError {
    /// A setting that should hold a field element holds none.
    ParsingFieldElement,
    /// A setting that should hold a URL holds none.
    ParsingUrl,
}

impl DeserializationError {
    /// The error in words.
    pub fn message(&self) -> (r: &'static str)
        ensures
            r@ == match self {
                DeserializationError::ParsingFieldElement => "parsing field element"@,
                DeserializationError::ParsingUrl => "parsing url"@,
            },
    {
        match self {
            DeserializationError::ParsingFieldElement => "parsing field element",
            DeserializationError::ParsingUrl => "parsing url",
        }
    }
}

/// An element of the prime field, as 32 bytes with the most significant first.
#[derive(Clone, Copy, Debug, PartialEq, Eq)]
pub struct FieldElement {
    pub bytes: [u8; 32],
}

/// Where a deployment is reached.
pub struct DeploymentConfig {
    pub rpc: Option<String>,
}

/// The deployments of a project, by network.
#[derive(Clone, Debug, PartialEq, Eq)]
pub struct Deployments {
    pub testnet: Option<Deployment>,
    pub mainnet: Option<Deployment>,
}

impl Default for Deployments {
    /// No deployment on either network.
    fn default() -> (r: Self)
        ensures
            r.testnet is None,
            r.mainnet is None,
    {
        Deployments { testnet: None, mainnet: None }
    }
}

/// One deployment.
#[derive(Clone, Debug, PartialEq, Eq)]
pub struct Deployment {
    pub rpc: Option<String>,
}

impl Default for Deployment {
    /// A deployment without an endpoint.
    fn default() -> (r: Self)
        ensures
            r.rpc is None,
    {
        Deployment { rpc: None }
    }
}

/// The text of the member `key` of the table `table`, where the table has
/// such a member and it is a string.
pub open spec fn setting(table: toml::Value, key: Seq<char>) -> Option<Seq<char>> {
    match toml_member(table, key) {
        Some(member) => toml_text(member),
        None => None,
    }
}

/// The setting `key` of `table`, or `fallback` where the table has none.
pub open spec fn setting_or(table: toml::Value, key: Seq<char>, fallback: Option<Seq<char>>)
    -> Option<Seq<char>> {
    match setting(table, key) {
        Some(text) => Some(text),
        None => fallback,
    }
}

/// The `dojo` table among the tool metadata of a manifest: the member `dojo`
/// of the manifest's member `tool`.
pub open spec fn dojo_metadata(manifest: toml::Value) -> Option<toml::Value> {
    match toml_member(manifest, "tool"@) {
        Some(tool) => toml_member(tool, "dojo"@),
        None => None,
    }
}

/// The `dojo` table among the tool metadata of a project manifest, if the
/// manifest has one.
pub fn dojo_metadata_from_workspace<'a>(manifest: &'a toml::Value) -> (r: Option<&'a toml::Value>)
    ensures
        match r {
            Some(table) => dojo_metadata(*manifest) == Some(*table),
            None => dojo_metadata(*manifest) is None,
        },
{
    match toml_get(manifest, "tool") {
        Some(tool) => toml_get(tool, "dojo"),
        None => None,
    }
}

/// The text under `world_address` in the metadata, if any.
pub open spec fn world_address_text(metadata: Option<toml::Value>) -> Option<Seq<char>> {
    match metadata {
        Some(table) => setting(table, "world_address"@),
        None => None,
    }
}

/// The table that holds the settings of the environment `profile`: the member
/// `profile` of the metadata's `env` table where there is one, else the `env`
/// table itself; none where the metadata has no `env`.
pub open spec fn environment_table(metadata: Option<toml::Value>, profile: Seq<char>) -> Option<
    toml::Value,
> {
    match metadata {
        None => None,
        Some(table) => match toml_member(table, "env"@) {
            None => None,
            Some(env) => match toml_member(env, profile) {
                Some(of_profile) => Some(of_profile),
                None => Some(env),
            },
        },
    }
}

fn read_setting(table: &toml::Value, key: &str) -> (r: Option<String>)
    ensures
        r.deep_view() == setting(*table, key@),
{
    match toml_get(table, key) {
        None => None,
        Some(member) => match toml_as_str(member) {
            None => None,
            Some(text) => Some(text.to_owned()),
        },
    }
}

fn read_setting_or(table: &toml::Value, key: &str, fallback: &Option<String>) -> (r: Option<String>)
    ensures
        r.deep_view() == setting_or(*table, key@, fallback.deep_view()),
{
    match read_setting(table, key) {
        Some(text) => Some(text),
        None => match fallback {
            Some(text) => Some(text.clone()),
            None => None,
        },
    }
}

fn read_felt(text: &Option<String>) -> (r: Result<Option<FieldElement>, DeserializationError>)
    ensures
        match text.deep_view() {
            None => r == Ok::<_, DeserializationError>(None::<FieldElement>),
            Some(hex) => match felt_of_hex(hex) {
                Some(bytes) => r matches Ok(Some(felt)) && felt.bytes@ == bytes,
                None => r == Err::<Option<FieldElement>, _>(
                    DeserializationError::ParsingFieldElement,
                ),
            },
        },
{
    match text {
        None => Ok(None),
        Some(hex) => match felt_from_hex(hex.as_str()) {
            Some(bytes) => Ok(Some(FieldElement { bytes })),
            None => Err(DeserializationError::ParsingFieldElement),
        },
    }
}

/// The settings of a world.
#[derive(Clone, Copy, Debug, PartialEq, Eq)]
pub struct WorldConfig {
    /// Address of the world contract.
    pub address: Option<FieldElement>,
}

impl Default for WorldConfig {
    /// Settings without an address.
    fn default() -> (r: Self)
        ensures
            r.address is None,
    {
        WorldConfig { address: None }
    }
}

impl WorldConfig {
    /// The world settings in a project's `dojo` metadata.
    ///
    /// The address is read from the string under `world_address`. Metadata
    /// without such a string gives settings without an address; a string that
    /// denotes no field element is an error.
    pub fn from_workspace(dojo_metadata: Option<&toml::Value>) -> (r: Result<
        WorldConfig,
        DeserializationError,
    >)
        ensures
            match world_address_text(
                match dojo_metadata {
                    Some(table) => Some(*table),
                    None => None,
                },
            ) {
                None => r matches Ok(config) && config.address is None,
                Some(hex) => match felt_of_hex(hex) {
                    Some(bytes) => r matches Ok(config) && config.address matches Some(felt)
                        && felt.bytes@ == bytes,
                    None => r == Err::<WorldConfig, _>(DeserializationError::ParsingFieldElement),
                },
            },
    {
        let text = match dojo_metadata {
            Some(table) => read_setting(table, "world_address"),
            None => None,
        };
        match read_felt(&text) {
            Ok(address) => Ok(WorldConfig { address }),
            Err(e) => Err(e),
        }
    }
}

/// What the process environment holds for the settings that may come from
/// it: the values of `DOJO_PRIVATE_KEY`, `DOJO_KEYSTORE_PATH`,
/// `DOJO_KEYSTORE_PASSWORD` and `DOJO_ACCOUNT_ADDRESS`, where they are set.
#[derive(Debug, PartialEq, Eq)]
pub struct ProcessEnvironment {
    pub private_key: Option<String>,
    pub keystore_path: Option<String>,
    pub keystore_password: Option<String>,
    pub account_address: Option<String>,
}

/// What a [`ProcessEnvironment`] holds, as mathematics.
pub struct ProcessEnvironmentView {
    pub private_key: Option<Seq<char>>,
    pub keystore_path: Option<Seq<char>>,
    pub keystore_password: Option<Seq<char>>,
    pub account_address: Option<Seq<char>>,
}

impl DeepView for ProcessEnvironment {
    type V = ProcessEnvironmentView;

    open spec fn deep_view(&self) -> ProcessEnvironmentView {
        ProcessEnvironmentView {
            private_key: self.private_key.deep_view(),
            keystore_path: self.keystore_path.deep_view(),
            keystore_password: self.keystore_password.deep_view(),
            account_address: self.account_address.deep_view(),
        }
    }
}

/// The settings of one environment: where the chain is reached and how
/// transactions are signed.
#[derive(Clone, Debug, PartialEq, Eq)]
pub struct EnvironmentConfig {
    /// The RPC endpoint, as a serialized URL.
    pub rpc: Option<String>,
    /// The private key to sign with.
    pub private_key: Option<FieldElement>,
    /// The address of the account that sends.
    pub account_address: Option<FieldElement>,
    /// Path of a keystore that holds the private key.
    pub keystore_path: Option<String>,
    /// Password of the keystore.
    pub keystore_password: Option<String>,
}

impl Default for EnvironmentConfig {
    /// Settings with nothing set.
    fn default() -> (r: Self)
        ensures
            r.deep_view() == absent_settings(),
    {
        EnvironmentConfig {
            rpc: None,
            private_key: None,
            account_address: None,
            keystore_path: None,
            keystore_password: None,
        }
    }
}

/// Settings with nothing set.
pub open spec fn absent_settings() -> EnvironmentConfigView {
    EnvironmentConfigView {
        rpc: None,
        private_key: None,
        account_address: None,
        keystore_path: None,
        keystore_password: None,
    }
}

/// What an [`EnvironmentConfig`] holds, as mathematics.
pub struct EnvironmentConfigView {
    pub rpc: Option<Seq<char>>,
    pub private_key: Option<Seq<u8>>,
    pub account_address: Option<Seq<u8>>,
    pub keystore_path: Option<Seq<char>>,
    pub keystore_password: Option<Seq<char>>,
}

/// The bytes of the element, if there is one.
pub open spec fn felt_view(felt: Option<FieldElement>) -> Option<Seq<u8>> {
    match felt {
        Some(f) => Some(f.bytes@),
        None => None,
    }
}

impl DeepView for EnvironmentConfig {
    type V = EnvironmentConfigView;

    open spec fn deep_view(&self) -> EnvironmentConfigView {
        EnvironmentConfigView {
            rpc: self.rpc.deep_view(),
            private_key: felt_view(self.private_key),
            account_address: felt_view(self.account_address),
            keystore_path: self.keystore_path.deep_view(),
            keystore_password: self.keystore_password.deep_view(),
        }
    }
}

/// The field element that an optional text denotes: none for no text, an
/// error for a text that denotes none.
pub open spec fn felt_setting(text: Option<Seq<char>>) -> Result<
    Option<Seq<u8>>,
    DeserializationError,
> {
    match text {
        None => Ok(None),
        Some(hex) => match felt_of_hex(hex) {
            Some(bytes) => Ok(Some(bytes)),
            None => Err(DeserializationError::ParsingFieldElement),
        },
    }
}

/// The URL that an optional text denotes: none for no text, an error for a
/// text that denotes none.
pub open spec fn url_setting(text: Option<Seq<char>>) -> Result<
    Option<Seq<char>>,
    DeserializationError,
> {
    match text {
        None => Ok(None),
        Some(input) => match url_of(input) {
            Some(url) => Ok(Some(url)),
            None => Err(DeserializationError::ParsingUrl),
        },
    }
}

/// The settings of the environment `profile`.
///
/// Without an `env` table in the metadata every setting is absent. Otherwise
/// `rpc_url` comes from the table; `private_key`, `keystore_path`,
/// `keystore_password` and `account_address` come from the table or, where
/// the table has none, from the process environment. The URL is read first,
/// then the private key, then the account address; the first that cannot be
/// read decides the error.
pub open spec fn environment_config_of(
    metadata: Option<toml::Value>,
    profile: Seq<char>,
    process: ProcessEnvironmentView,
) -> Result<EnvironmentConfigView, DeserializationError> {
    match environment_table(metadata, profile) {
        None => Ok(absent_settings()),
        Some(env) => {
            let rpc = url_setting(setting(env, "rpc_url"@));
            let private_key = felt_setting(
                setting_or(env, "private_key"@, process.private_key),
            );
            let account_address = felt_setting(
                setting_or(env, "account_address"@, process.account_address),
            );
            if rpc is Err {
                Err(rpc->Err_0)
            } else if private_key is Err {
                Err(private_key->Err_0)
            } else if account_address is Err {
                Err(account_address->Err_0)
            } else {
                Ok(
                    EnvironmentConfigView {
                        rpc: rpc->Ok_0,
                        private_key: private_key->Ok_0,
                        account_address: account_address->Ok_0,
                        keystore_path: setting_or(env, "keystore_path"@, process.keystore_path),
                        keystore_password: setting_or(
                            env,
                            "keystore_password"@,
                            process.keystore_password,
                        ),
                    },
                )
            }
        },
    }
}

/// How transactions are signed.
#[derive(Debug, PartialEq, Eq)]
pub enum SignerSource {
    /// With this private key.
    PrivateKey(FieldElement),
    /// With the key in the keystore at `path`, opened with `password`.
    Keystore { path: String, password: String },
}

/// A setting that is needed and absent.
#[derive(Clone, Copy, Debug, PartialEq, Eq, Structural)]
pub enum ConfigError {
    /// A keystore is named, its password is not.
    MissingKeystorePassword,
    /// Neither a private key nor a keystore is named.
    MissingSigner,
    /// No RPC endpoint is named.
    MissingRpcUrl,
    /// No account address is named.
    MissingAccountAddress,
}

impl ConfigError {
    /// The error in words.
    pub fn message(&self) -> (r: &'static str)
        ensures
            r@ == match self {
                ConfigError::MissingKeystorePassword =>
                    "Missing `keystore_password` in the environment config"@,
                ConfigError::MissingSigner =>
                    "Missing `private_key` or `keystore_path` in the environment config"@,
                ConfigError::MissingRpcUrl => "Missing `rpc_url` in the environment config"@,
                ConfigError::MissingAccountAddress =>
                    "Missing `account_address` in the environment config"@,
            },
    {
        match self {
            ConfigError::MissingKeystorePassword =>
                "Missing `keystore_password` in the environment config",
            ConfigError::MissingSigner =>
                "Missing `private_key` or `keystore_path` in the environment config",
            ConfigError::MissingRpcUrl => "Missing `rpc_url` in the environment config",
            ConfigError::MissingAccountAddress =>
                "Missing `account_address` in the environment config",
        }
    }
}

/// All that is needed to send transactions: who signs, from which account,
/// through which endpoint.
#[derive(Debug, PartialEq, Eq)]
pub struct Migrator {
    pub signer: SignerSource,
    pub account_address: FieldElement,
    pub rpc: String,
}

impl EnvironmentConfig {
    /// The settings of the environment `profile` in a project's `dojo`
    /// metadata, completed from the process environment.
    pub fn from_workspace(
        profile: &str,
        dojo_metadata: Option<&toml::Value>,
        process: &ProcessEnvironment,
    ) -> (r: Result<EnvironmentConfig, DeserializationError>)
        ensures
            ({
                let expected = environment_config_of(
                    match dojo_metadata {
                        Some(table) => Some(*table),
                        None => None,
                    },
                    profile@,
                    process.deep_view(),
                );
                match r {
                    Ok(config) => expected == Ok::<_, DeserializationError>(config.deep_view()),
                    Err(e) => expected == Err::<EnvironmentConfigView, _>(e),
                }
            }),
    {
        let mut config = EnvironmentConfig::default();
        let table = match dojo_metadata {
            None => {
                return Ok(config);
            },
            Some(table) => table,
        };
        let env = match toml_get(table, "env") {
            None => {
                return Ok(config);
            },
            Some(env) => match toml_get(env, profile) {
                Some(of_profile) => of_profile,
                None => env,
            },
        };
        if let Some(rpc) = read_setting(env, "rpc_url") {
            match url_parse(rpc.as_str()) {
                Some(url) => {
                    config.rpc = Some(url);
                },
                None => {
                    return Err(DeserializationError::ParsingUrl);
                },
            }
        }
        let private_key = read_setting_or(env, "private_key", &process.private_key);
        match read_felt(&private_key) {
            Ok(felt) => {
                config.private_key = felt;
            },
            Err(e) => {
                return Err(e);
            },
        }
        config.keystore_path = read_setting_or(env, "keystore_path", &process.keystore_path);
        config.keystore_password =
        read_setting_or(env, "keystore_password", &process.keystore_password);
        let account_address = read_setting_or(env, "account_address", &process.account_address);
        match read_felt(&account_address) {
            Ok(felt) => {
                config.account_address = felt;
            },
            Err(e) => {
                return Err(e);
            },
        }
        Ok(config)
    }

    /// How transactions are signed: with the private key where one is set;
    /// else with the keystore, which needs its password; else not at all.
    pub fn signer(&self) -> (r: Result<SignerSource, ConfigError>)
        ensures
            match (self.private_key, self.keystore_path, self.keystore_password) {
                (Some(key), _, _) => r == Ok::<_, ConfigError>(SignerSource::PrivateKey(key)),
                (None, Some(path), Some(password)) => r matches Ok(
                    SignerSource::Keystore { path: p, password: w },
                ) && p@ == path@ && w@ == password@,
                (None, Some(_), None) => r == Err::<SignerSource, _>(
                    ConfigError::MissingKeystorePassword,
                ),
                (None, None, _) => r == Err::<SignerSource, _>(ConfigError::MissingSigner),
            },
    {
        if let Some(key) = &self.private_key {
            Ok(SignerSource::PrivateKey(*key))
        } else if let Some(path) = &self.keystore_path {
            match &self.keystore_password {
                Some(password) => Ok(
                    SignerSource::Keystore { path: path.clone(), password: password.clone() },
                ),
                None => Err(ConfigError::MissingKeystorePassword),
            }
        } else {
            Err(ConfigError::MissingSigner)
        }
    }

    /// The RPC endpoint through which the chain is reached.
    pub fn provider(&self) -> (r: Result<String, ConfigError>)
        ensures
            match self.rpc {
                Some(url) => r matches Ok(u) && u@ == url@,
                None => r == Err::<String, _>(ConfigError::MissingRpcUrl),
            },
    {
        match &self.rpc {
            Some(url) => Ok(url.clone()),
            None => Err(ConfigError::MissingRpcUrl),
        }
    }

    /// The address of the account that sends.
    pub fn account_address(&self) -> (r: Result<FieldElement, ConfigError>)
        ensures
            match self.account_address {
                Some(address) => r == Ok::<_, ConfigError>(address),
                None => r == Err::<FieldElement, _>(ConfigError::MissingAccountAddress),
            },
    {
        match self.account_address {
            Some(address) => Ok(address),
            None => Err(ConfigError::MissingAccountAddress),
        }
    }

    /// The first setting that sending transactions needs and that is absent:
    /// the signer is looked for first, then the account address, then the
    /// endpoint.
    pub open spec fn missing(&self) -> Option<ConfigError> {
        if self.private_key is None && self.keystore_path is None {
            Some(ConfigError::MissingSigner)
        } else if self.private_key is None && self.keystore_password is None {
            Some(ConfigError::MissingKeystorePassword)
        } else if self.account_address is None {
            Some(ConfigError::MissingAccountAddress)
        } else if self.rpc is None {
            Some(ConfigError::MissingRpcUrl)
        } else {
            None
        }
    }

    /// All that is needed to send transactions. The signer is looked for
    /// first, then the account address, then the endpoint; the first that is
    /// missing decides the error.
    pub fn migrator(&self) -> (r: Result<Migrator, ConfigError>)
        ensures
            match r {
                Ok(m) => {
                    &&& self.missing() is None
                    &&& match self.private_key {
                        Some(key) => m.signer == SignerSource::PrivateKey(key),
                        None => m.signer matches SignerSource::Keystore { path, password }
                            && path@ == self.keystore_path->0@ && password@
                            == self.keystore_password->0@,
                    }
                    &&& self.account_address == Some(m.account_address)
                    &&& m.rpc@ == self.rpc->0@
                },
                Err(e) => self.missing() == Some(e),
            },
    {
        let signer = match self.signer() {
            Ok(signer) => signer,
            Err(e) => {
                return Err(e);
            },
        };
        let account_address = match self.account_address() {
            Ok(address) => address,
            Err(e) => {
                return Err(e);
            },
        };
        let rpc = match self.provider() {
            Ok(rpc) => rpc,
            Err(e) => {
                return Err(e);
            },
        };
        Ok(Migrator { signer, account_address, rpc })
    }
}

} // verus!
