//! What the clients' configuration files are read from and written as: the
//! parse of a file's bytes, the bytes staged for a merged document, which
//! OMP file holds a document, and the choice of a backup name.
use vstd::prelude::*;
use crate::codec::{parse_json_bytes, parse_yaml_bytes, json_pretty_bytes, yaml_bytes, parsed_json,
    parsed_yaml, json_pretty_text, yaml_text};
use crate::config::ConfigError;
use crate::documents::{OmpDocument, check_document, legacy_source};
use crate::json::{Json, JsonV};

verus! {

/// The document a configuration file's bytes hold, read as YAML or JSON.
pub open spec fn parsed_document(bytes: Seq<u8>, yaml: bool) -> Option<JsonV> {
    if yaml {
        parsed_yaml(bytes)
    } else {
        parsed_json(bytes)
    }
}

/// The error for a file that does not parse.
pub open spec fn malformed(yaml: bool) -> ConfigError {
    if yaml {
        ConfigError::MalformedYaml
    } else {
        ConfigError::MalformedJson
    }
}

/// What reading a configuration file gives: an empty object for a file
/// that does not exist, otherwise its parsed document, which must be an
/// object.
pub open spec fn read_document_spec(bytes: Option<Seq<u8>>, yaml: bool) -> Result<
    JsonV,
    ConfigError,
> {
    match bytes {
        None => Ok(JsonV::Object(seq![])),
        Some(b) => match parsed_document(b, yaml) {
            None => Err(malformed(yaml)),
            Some(v) => if v is Object {
                Ok(v)
            } else {
                Err(ConfigError::DocumentNotObject)
            },
        },
    }
}

pub open spec fn json_result_view(r: Result<Json, ConfigError>) -> Result<JsonV, ConfigError> {
    match r {
        Ok(j) => Ok(j@),
        Err(e) => Err(e),
    }
}

pub open spec fn slice_option_view(b: Option<&[u8]>) -> Option<Seq<u8>> {
    match b {
        Some(s) => Some(s@),
        None => None,
    }
}

/// Reads a configuration file's contents (`None` where the file does not
/// exist) as YAML or JSON.
pub fn read_document(bytes: Option<&[u8]>, yaml: bool) -> (r: Result<Json, ConfigError>)
    ensures
        json_result_view(r) == read_document_spec(slice_option_view(bytes), yaml),
        r matches Ok(j) ==> j@.wf(),
{
    match bytes {
        None => Ok(Json::new_object()),
        Some(b) => {
            let parsed = if yaml {
                parse_yaml_bytes(b)
            } else {
                parse_json_bytes(b)
            };
            match parsed {
                None => Err(
                    if yaml {
                        ConfigError::MalformedYaml
                    } else {
                        ConfigError::MalformedJson
                    },
                ),
                Some(v) => match check_document(&v) {
                    Ok(()) => Ok(v),
                    Err(e) => Err(e),
                },
            }
        },
    }
}

/// The bytes written for a merged document: pretty JSON with a final line
/// feed, or YAML.
pub open spec fn staged_text(doc: JsonV, yaml: bool) -> Option<Seq<u8>> {
    if yaml {
        yaml_text(doc)
    } else {
        Some(json_pretty_text(doc).push(10u8))
    }
}

/// The bytes staged for a merged document.
pub fn staged_bytes(after: &Json, yaml: bool) -> (r: Result<Vec<u8>, ConfigError>)
    ensures
        match staged_text(after@, yaml) {
            Some(t) => r matches Ok(d) && d@ == t,
            None => r == Err::<Vec<u8>, ConfigError>(ConfigError::SerializationFailed),
        },
{
    if yaml {
        match yaml_bytes(after) {
            Some(d) => Ok(d),
            None => Err(ConfigError::SerializationFailed),
        }
    } else {
        match json_pretty_bytes(after) {
            Some(d) => {
                let mut d = d;
                d.push(10u8);
                Ok(d)
            },
            None => Err(ConfigError::SerializationFailed),
        }
    }
}

// ---------------------------------------------------------------------------
// Where an OMP document lives
pub open spec fn stem_spec(document: OmpDocument) -> Seq<char> {
    match document {
        OmpDocument::Models => "models"@,
        OmpDocument::Config => "config"@,
    }
}

/// The files of one OMP document: the name written, the name read, and
/// whether what is read is YAML.
pub struct DocumentSource {
    pub target: String,
    pub source: String,
    pub yaml: bool,
}

pub struct DocumentSourceV {
    pub target: Seq<char>,
    pub source: Seq<char>,
    pub yaml: bool,
}

impl View for DocumentSource {
    type V = DocumentSourceV;

    open spec fn view(&self) -> DocumentSourceV {
        DocumentSourceV { target: self.target@, source: self.source@, yaml: self.yaml }
    }
}

/// An existing `.yml` file is used; else an existing `.yaml` file; else the
/// document goes to a new `.yml` file and is read from its older JSON file
/// (see `legacy_source`). `yaml_exists` is not consulted when the `.yml`
/// file exists, nor `agent_db_exists` when a YAML file does.
pub open spec fn omp_source_spec(
    document: OmpDocument,
    yml_exists: bool,
    yaml_exists: bool,
    agent_db_exists: bool,
) -> Result<DocumentSourceV, ConfigError> {
    let yml = stem_spec(document) + ".yml"@;
    let yaml = stem_spec(document) + ".yaml"@;
    if yml_exists {
        Ok(DocumentSourceV { target: yml, source: yml, yaml: true })
    } else if yaml_exists {
        Ok(DocumentSourceV { target: yaml, source: yaml, yaml: true })
    } else if document == OmpDocument::Config && agent_db_exists {
        Err(ConfigError::LegacyDatabase)
    } else {
        Ok(
            DocumentSourceV {
                target: yml,
                source: if document == OmpDocument::Config {
                    "settings.json"@
                } else {
                    "models.json"@
                },
                yaml: false,
            },
        )
    }
}

pub open spec fn source_result_view(r: Result<DocumentSource, ConfigError>) -> Result<
    DocumentSourceV,
    ConfigError,
> {
    match r {
        Ok(s) => Ok(s@),
        Err(e) => Err(e),
    }
}

/// Decides which files hold an OMP document.
pub fn omp_source(
    document: OmpDocument,
    yml_exists: bool,
    yaml_exists: bool,
    agent_db_exists: bool,
) -> (r: Result<DocumentSource, ConfigError>)
    ensures
        source_result_view(r) == omp_source_spec(document, yml_exists, yaml_exists, agent_db_exists),
{
    let mut yml = document.stem().to_owned();
    yml.append(".yml");
    if yml_exists {
        let source = yml.clone();
        return Ok(DocumentSource { target: yml, source, yaml: true });
    }
    if yaml_exists {
        let mut yaml = document.stem().to_owned();
        yaml.append(".yaml");
        let source = yaml.clone();
        return Ok(DocumentSource { target: yaml, source, yaml: true });
    }
    match legacy_source(document, agent_db_exists) {
        Ok(legacy) => Ok(DocumentSource { target: yml, source: legacy.to_owned(), yaml: false }),
        Err(e) => Err(e),
    }
}

// ---------------------------------------------------------------------------
// Backups
/// How many numbered backup names are tried.
pub const MAX_BACKUPS: u32 = 10000;

/// What follows a look at backup name number `n`.
#[derive(PartialEq, Eq, Structural, Clone, Copy, Debug)]
pub enum BackupStep {
    /// Write the backup under name number `n`.
    Write(u32),
    /// Look at the next name.
    Try(u32),
    /// Every name is taken.
    Exhausted,
}

/// One step of the search for a backup name: a name that is taken is never
/// written; the names are tried in order from 0, and the search stops after
/// `MAX_BACKUPS` names.
pub fn backup_step(n: u32, taken: bool) -> (r: BackupStep)
    requires
        n < MAX_BACKUPS,
    ensures
        !taken ==> r == BackupStep::Write(n),
        taken && n + 1 < MAX_BACKUPS ==> r == BackupStep::Try((n + 1) as u32),
        taken && n + 1 == MAX_BACKUPS ==> r == BackupStep::Exhausted,
{
    if !taken {
        BackupStep::Write(n)
    } else if n + 1 < MAX_BACKUPS {
        BackupStep::Try(n + 1)
    } else {
        BackupStep::Exhausted
    }
}

} // verus!
