//! The private model configuration and its validation. Callers must never
//! log a decrypted configuration.
use vstd::prelude::*;
use crate::json::{Json, JsonV, text_eq, str_of};
use crate::codec::{parse_json_bytes, parsed_json};
use crate::text::{all_white, first_visible_is, has_control, scan_text, white_space, control_char,
    is_white_space, is_control_char};

verus! {

/// The provider entry written into both clients.
pub const PROVIDER: &'static str = "hotschmoe-local";

/// The model used when a configuration names none.
pub const DEFAULT_MODEL: &'static str = "hotschmoe-dd";

/// The decrypted model configuration.
#[derive(Clone, Debug)]
pub struct ModelConfig {
    pub endpoint: String,
    pub api_key: String,
    pub model_id: String,
}

/// Why a configuration or a client document was refused. No variant carries
/// any part of the input, so no message can echo a secret.
#[derive(PartialEq, Eq, Structural, Clone, Copy, Debug)]
pub enum ConfigError {
    InvalidEndpoint,
    EndpointNotAllowed,
    InvalidApiKey,
    InvalidModelId,
    NotAModelConfiguration,
    DocumentNotObject,
    FieldNotObject,
    ModelsNotArray,
    ModelEntryWithoutId,
    DuplicateModelIds,
    LegacyDatabase,
    MalformedJson,
    MalformedYaml,
    SerializationFailed,
    TooManyBackups,
}

pub open spec fn config_message(e: ConfigError) -> Seq<char> {
    match e {
        ConfigError::InvalidEndpoint => "Invalid model endpoint"@,
        ConfigError::EndpointNotAllowed =>
            "Model endpoint must be an HTTPS origin or HTTPS /v1 base URL, without credentials, query, or fragment"@,
        ConfigError::InvalidApiKey => "Invalid model API key"@,
        ConfigError::InvalidModelId => "Invalid model identifier"@,
        ConfigError::NotAModelConfiguration =>
            "Decrypted configuration is not a valid model configuration"@,
        ConfigError::DocumentNotObject => "Existing configuration must contain an object"@,
        ConfigError::FieldNotObject => "Existing configuration field must contain an object"@,
        ConfigError::ModelsNotArray => "Existing provider models must contain an array"@,
        ConfigError::ModelEntryWithoutId => "Existing model entry must contain an identifier"@,
        ConfigError::DuplicateModelIds => "Existing provider contains duplicate model identifiers"@,
        ConfigError::LegacyDatabase =>
            "Run omp once to migrate legacy database settings before configuring this installation"@,
        ConfigError::MalformedJson => "Existing JSON configuration is malformed"@,
        ConfigError::MalformedYaml => "Existing YAML configuration is malformed"@,
        ConfigError::SerializationFailed => "Cannot serialize configuration"@,
        ConfigError::TooManyBackups => "Too many existing configuration backups"@,
    }
}

impl ConfigError {
    /// The message shown for this error.
    pub fn message(&self) -> (r: &'static str)
        ensures
            r@ == config_message(*self),
    {
        match self {
            ConfigError::InvalidEndpoint => "Invalid model endpoint",
            ConfigError::EndpointNotAllowed =>
                "Model endpoint must be an HTTPS origin or HTTPS /v1 base URL, without credentials, query, or fragment",
            ConfigError::InvalidApiKey => "Invalid model API key",
            ConfigError::InvalidModelId => "Invalid model identifier",
            ConfigError::NotAModelConfiguration =>
                "Decrypted configuration is not a valid model configuration",
            ConfigError::DocumentNotObject => "Existing configuration must contain an object",
            ConfigError::FieldNotObject => "Existing configuration field must contain an object",
            ConfigError::ModelsNotArray => "Existing provider models must contain an array",
            ConfigError::ModelEntryWithoutId => "Existing model entry must contain an identifier",
            ConfigError::DuplicateModelIds =>
                "Existing provider contains duplicate model identifiers",
            ConfigError::LegacyDatabase =>
                "Run omp once to migrate legacy database settings before configuring this installation",
            ConfigError::MalformedJson => "Existing JSON configuration is malformed",
            ConfigError::MalformedYaml => "Existing YAML configuration is malformed",
            ConfigError::SerializationFailed => "Cannot serialize configuration",
            ConfigError::TooManyBackups => "Too many existing configuration backups",
        }
    }
}

/// The model identifier a configuration gets when it names none.
pub fn default_model() -> (r: String)
    ensures
        r@ == DEFAULT_MODEL@,
{
    DEFAULT_MODEL.to_owned()
}

// ---------------------------------------------------------------------------
// The endpoint URL
/// What the validation reads of a parsed endpoint URL.
pub struct UrlParts {
    pub scheme: String,
    pub has_host: bool,
    pub username: String,
    pub has_password: bool,
    pub has_query: bool,
    pub has_fragment: bool,
    pub path: String,
}

pub struct UrlPartsV {
    pub scheme: Seq<char>,
    pub has_host: bool,
    pub username: Seq<char>,
    pub has_password: bool,
    pub has_query: bool,
    pub has_fragment: bool,
    pub path: Seq<char>,
}

impl View for UrlParts {
    type V = UrlPartsV;

    open spec fn view(&self) -> UrlPartsV {
        UrlPartsV {
            scheme: self.scheme@,
            has_host: self.has_host,
            username: self.username@,
            has_password: self.has_password,
            has_query: self.has_query,
            has_fragment: self.has_fragment,
            path: self.path@,
        }
    }
}

pub open spec fn parts_view(p: Option<UrlParts>) -> Option<UrlPartsV> {
    match p {
        Some(x) => Some(x@),
        None => None,
    }
}

/// What `url::Url::parse(text)` yields, read as `UrlParts`; `None` where
/// parsing fails.
pub uninterp spec fn parsed_url(text: Seq<char>) -> Option<UrlPartsV>;

/// Parses `text` with `url::Url::parse` and reads the scheme, host, user
/// name, password, query, fragment and path. The contract claims only that
/// the result is the value of the name `parsed_url`.
#[verifier::external_body]
pub(crate) fn parse_url(text: &str) -> (r: Option<UrlParts>)
    ensures
        parts_view(r) == parsed_url(text@),
{
    let url = url::Url::parse(text).ok()?;
    Some(UrlParts {
        scheme: url.scheme().to_string(),
        has_host: url.host_str().is_some(),
        username: url.username().to_string(),
        has_password: url.password().is_some(),
        has_query: url.query().is_some(),
        has_fragment: url.fragment().is_some(),
        path: url.path().to_string(),
    })
}

/// What `url::Url::parse(text)` serializes to after `set_path(new_path)`;
/// `None` where parsing fails.
pub uninterp spec fn rebased_url(text: Seq<char>, new_path: Seq<char>) -> Option<Seq<char>>;

pub open spec fn string_option_view(r: Option<String>) -> Option<Seq<char>> {
    match r {
        Some(s) => Some(s@),
        None => None,
    }
}

/// Parses `text` with `url::Url::parse`, calls `set_path(new_path)` and
/// serializes the URL. The contract claims that the result is the value of
/// the name `rebased_url`, and that it is there exactly when `text` parses
/// (`set_path` cannot fail).
#[verifier::external_body]
pub(crate) fn rebase_url(text: &str, new_path: &str) -> (r: Option<String>)
    ensures
        string_option_view(r) == rebased_url(text@, new_path@),
        r is Some <==> parsed_url(text@) is Some,
{
    let mut url = url::Url::parse(text).ok()?;
    url.set_path(new_path);
    Some(url.to_string())
}

/// An HTTPS origin or `/v1` base, with a host and without credentials, query
/// or fragment.
pub open spec fn endpoint_allowed(p: UrlPartsV) -> bool {
    &&& p.scheme == "https"@
    &&& p.has_host
    &&& p.username.len() == 0
    &&& !p.has_password
    &&& !p.has_query
    &&& !p.has_fragment
    &&& (p.path == ""@ || p.path == "/"@ || p.path == "/v1"@ || p.path == "/v1/"@)
}

/// Not blank, not a `!` shell command once leading white space is dropped,
/// and without control characters.
pub open spec fn api_key_ok(k: Seq<char>) -> bool {
    !all_white(k) && !first_visible_is(k, '!') && !has_control(k)
}

/// A character that a model identifier may not hold.
pub open spec fn forbidden_in_model(c: char) -> bool {
    white_space(c) || control_char(c) || c == ':' || c == '*' || c == '?' || c == '>' || c == '@'
}

pub open spec fn model_id_ok(m: Seq<char>) -> bool {
    m.len() > 0 && forall|i: int| 0 <= i < m.len() ==> !forbidden_in_model(#[trigger] m[i])
}

/// The base URL written into the clients, given what parsing the endpoint
/// with the path replaced by `/v1` gave.
pub open spec fn base_url_spec(
    parts: Option<UrlPartsV>,
    rebased: Option<Seq<char>>,
    api_key: Seq<char>,
    model_id: Seq<char>,
) -> Result<Seq<char>, ConfigError> {
    match parts {
        None => Err(ConfigError::InvalidEndpoint),
        Some(p) => if !endpoint_allowed(p) {
            Err(ConfigError::EndpointNotAllowed)
        } else if !api_key_ok(api_key) {
            Err(ConfigError::InvalidApiKey)
        } else if !model_id_ok(model_id) {
            Err(ConfigError::InvalidModelId)
        } else {
            match rebased {
                Some(u) => Ok(u),
                None => Err(ConfigError::InvalidEndpoint),
            }
        },
    }
}

pub open spec fn string_result_view<E>(r: Result<String, E>) -> Result<Seq<char>, E> {
    match r {
        Ok(s) => Ok(s@),
        Err(e) => Err(e),
    }
}

pub open spec fn config_base_url(config: ModelConfig) -> Result<Seq<char>, ConfigError> {
    base_url_spec(
        parsed_url(config.endpoint@),
        rebased_url(config.endpoint@, "/v1"@),
        config.api_key@,
        config.model_id@,
    )
}

fn endpoint_parts_allowed(p: &UrlParts) -> (r: bool)
    ensures
        r == endpoint_allowed(p@),
{
    let empty_path = p.path.as_str().is_empty();
    proof {
        reveal_strlit("");
        if empty_path {
            assert(p.path@ =~= ""@);
        }
    }
    let path_ok = empty_path || text_eq(p.path.as_str(), "/") || text_eq(p.path.as_str(), "/v1")
        || text_eq(p.path.as_str(), "/v1/");
    text_eq(p.scheme.as_str(), "https") && p.has_host && p.username.as_str().is_empty()
        && !p.has_password && !p.has_query && !p.has_fragment && path_ok
}

/// Checks the API key of a configuration.
pub fn api_key_valid(key: &str) -> (r: bool)
    ensures
        r == api_key_ok(key@),
{
    let (blank, bang, control) = scan_text(key, '!');
    !blank && !bang && !control
}

/// Checks the model identifier of a configuration.
pub fn model_id_valid(model: &str) -> (r: bool)
    ensures
        r == model_id_ok(model@),
{
    let chars = crate::json::chars_of(model);
    if chars.len() == 0 {
        return false;
    }
    let mut i: usize = 0;
    while i < chars.len()
        invariant
            chars@ == model@,
            i <= chars.len(),
            forall|j: int| 0 <= j < i ==> !forbidden_in_model(#[trigger] chars@[j]),
        decreases chars.len() - i,
    {
        let c = chars[i];
        if is_white_space(c) || is_control_char(c) || c == ':' || c == '*' || c == '?' || c == '>'
            || c == '@' {
            assert(forbidden_in_model(chars@[i as int]));
            return false;
        }
        i += 1;
    }
    true
}

/// The base URL for a configuration, given what parsing its endpoint gave
/// and its serialization with the path replaced by `/v1`.
pub fn base_url_from_parts(
    parts: Option<UrlParts>,
    rebased: Option<String>,
    config: &ModelConfig,
) -> (r: Result<String, ConfigError>)
    ensures
        string_result_view(r) == base_url_spec(
            parts_view(parts),
            string_option_view(rebased),
            config.api_key@,
            config.model_id@,
        ),
{
    match parts {
        None => Err(ConfigError::InvalidEndpoint),
        Some(p) => {
            if !endpoint_parts_allowed(&p) {
                Err(ConfigError::EndpointNotAllowed)
            } else if !api_key_valid(config.api_key.as_str()) {
                Err(ConfigError::InvalidApiKey)
            } else if !model_id_valid(config.model_id.as_str()) {
                Err(ConfigError::InvalidModelId)
            } else {
                match rebased {
                    Some(u) => Ok(u),
                    None => Err(ConfigError::InvalidEndpoint),
                }
            }
        },
    }
}

/// The base URL written into the clients: the endpoint with its path set to
/// `/v1`, once the endpoint, API key and model identifier pass validation.
pub fn base_url(config: &ModelConfig) -> (r: Result<String, ConfigError>)
    ensures
        string_result_view(r) == config_base_url(*config),
{
    let parts = parse_url(config.endpoint.as_str());
    let rebased = rebase_url(config.endpoint.as_str(), "/v1");
    base_url_from_parts(parts, rebased, config)
}

/// Validates a decrypted configuration without touching client files or the
/// network.
pub fn validate(config: &ModelConfig) -> (r: Result<(), ConfigError>)
    ensures
        r is Ok <==> config_base_url(*config) is Ok,
        r matches Err(e) ==> config_base_url(*config) == Err::<Seq<char>, ConfigError>(e),
{
    match base_url(config) {
        Ok(_) => Ok(()),
        Err(e) => Err(e),
    }
}


// ---------------------------------------------------------------------------
// Reading a configuration from its JSON document
/// The configuration that a JSON document describes, as a derived
/// `Deserialize` with unknown fields denied reads it: an object with string
/// fields `endpoint` and `api_key` and optionally `model_id`, and no other
/// field; or an array of those values in field order. A missing model
/// identifier is the default one.
pub open spec fn config_from_json(v: JsonV) -> Option<(Seq<char>, Seq<char>, Seq<char>)> {
    match v {
        JsonV::Object(e) => {
            let ep = str_of(v.get("endpoint"@));
            let key = str_of(v.get("api_key"@));
            let mid = v.get("model_id"@);
            if ep is Some && key is Some && e.len() == (if mid is Some {
                3int
            } else {
                2int
            }) && (mid is None || str_of(mid) is Some) {
                Some(
                    (
                        ep->0,
                        key->0,
                        if mid is Some {
                            str_of(mid)->0
                        } else {
                            DEFAULT_MODEL@
                        },
                    ),
                )
            } else {
                None
            }
        },
        JsonV::Array(a) => if (a.len() == 2 || a.len() == 3) && str_of(Some(a[0])) is Some && str_of(
            Some(a[1]),
        ) is Some && (a.len() == 2 || str_of(Some(a[2])) is Some) {
            Some(
                (
                    str_of(Some(a[0]))->0,
                    str_of(Some(a[1]))->0,
                    if a.len() == 3 {
                        str_of(Some(a[2]))->0
                    } else {
                        DEFAULT_MODEL@
                    },
                ),
            )
        } else {
            None
        },
        _ => None,
    }
}

fn text_element(v: &Json, i: usize) -> (r: Option<String>)
    ensures
        v@ is Array && i < v@->Array_0.len() ==> (r matches Some(s) ==> str_of(
            Some(v@->Array_0[i as int]),
        ) == Some(s@)) && (r is None ==> str_of(Some(v@->Array_0[i as int])) is None),
{
    match v.element(i) {
        Some(x) => match x.as_text() {
            Some(s) => Some(s.clone()),
            None => None,
        },
        None => None,
    }
}

impl ModelConfig {
    /// Reads a configuration from its JSON document (see
    /// `config_from_json`).
    pub fn from_json(v: &Json) -> (r: Result<ModelConfig, ConfigError>)
        requires
            v@.wf(),
        ensures
            r matches Ok(c) ==> config_from_json(v@) == Some((c.endpoint@, c.api_key@, c.model_id@)),
            r matches Err(e) ==> config_from_json(v@) is None && e
                == ConfigError::NotAModelConfiguration,
    {
        let n = v.size();
        if v.is_object() {
            let endpoint = v.text_member("endpoint");
            let api_key = v.text_member("api_key");
            let has_model = v.member("model_id").is_some();
            let model = v.text_member("model_id");
            let expected: usize = if has_model {
                3
            } else {
                2
            };
            match (endpoint, api_key) {
                (Some(endpoint), Some(api_key)) => {
                    if n != expected {
                        return Err(ConfigError::NotAModelConfiguration);
                    }
                    let model_id = if has_model {
                        match model {
                            Some(m) => m,
                            None => {
                                return Err(ConfigError::NotAModelConfiguration);
                            },
                        }
                    } else {
                        default_model()
                    };
                    Ok(ModelConfig { endpoint, api_key, model_id })
                },
                _ => Err(ConfigError::NotAModelConfiguration),
            }
        } else if v.is_array() && (n == 2 || n == 3) {
            let endpoint = text_element(v, 0);
            let api_key = text_element(v, 1);
            let model = if n == 3 {
                text_element(v, 2)
            } else {
                Some(default_model())
            };
            match (endpoint, api_key, model) {
                (Some(endpoint), Some(api_key), Some(model_id)) => Ok(
                    ModelConfig { endpoint, api_key, model_id },
                ),
                _ => Err(ConfigError::NotAModelConfiguration),
            }
        } else {
            Err(ConfigError::NotAModelConfiguration)
        }
    }
}

/// Reads a decrypted configuration from its JSON document and validates it.
pub fn parse_config(v: &Json) -> (r: Result<ModelConfig, ConfigError>)
    requires
        v@.wf(),
    ensures
        config_from_json(v@) is None ==> r == Err::<ModelConfig, ConfigError>(
            ConfigError::NotAModelConfiguration,
        ),
        r matches Ok(c) ==> config_from_json(v@) == Some((c.endpoint@, c.api_key@, c.model_id@))
            && config_base_url(c) is Ok,
        config_from_json(v@) matches Some(t) ==> match base_url_spec(
            parsed_url(t.0),
            rebased_url(t.0, "/v1"@),
            t.1,
            t.2,
        ) {
            Ok(_) => r is Ok,
            Err(e) => r == Err::<ModelConfig, ConfigError>(e),
        },
{
    let c = match ModelConfig::from_json(v) {
        Ok(c) => c,
        Err(e) => {
            return Err(e);
        },
    };
    match validate(&c) {
        Ok(()) => Ok(c),
        Err(e) => Err(e),
    }
}

/// Reads a decrypted configuration from its JSON text (`serde_json`) and
/// validates it.
pub fn parse_config_bytes(bytes: &[u8]) -> (r: Result<ModelConfig, ConfigError>)
    ensures
        parsed_json(bytes@) is None ==> r == Err::<ModelConfig, ConfigError>(
            ConfigError::NotAModelConfiguration,
        ),
        parsed_json(bytes@) matches Some(v) ==> {
            &&& config_from_json(v) is None ==> r == Err::<ModelConfig, ConfigError>(
                ConfigError::NotAModelConfiguration,
            )
            &&& r matches Ok(c) ==> config_from_json(v) == Some((c.endpoint@, c.api_key@, c.model_id@))
                && config_base_url(c) is Ok
            &&& config_from_json(v) matches Some(t) ==> match base_url_spec(
                parsed_url(t.0),
                rebased_url(t.0, "/v1"@),
                t.1,
                t.2,
            ) {
                Ok(_) => r is Ok,
                Err(e) => r == Err::<ModelConfig, ConfigError>(e),
            }
        },
{
    match parse_json_bytes(bytes) {
        Some(v) => parse_config(&v),
        None => Err(ConfigError::NotAModelConfiguration),
    }
}

} // verus!
