use vstd::prelude::*;
use vstd::string::StringExecFns;
use url::Url;
use crate::json::{JsonValue, model};
use crate::positions::functions_index;
use crate::config::{
    Configuration, RawConfiguration, SchemaLoad, TypescriptSource, ValidateError, load_message,
    mk_single_validate_error, or_default, parses_as_url, read_schema, single_error,
};

verus! {

/// Relies on Url's Clone: the copy is the same URL.
pub assume_specification[ <Url as Clone>::clone ](u: &Url) -> (r: Url)
    ensures
        r == *u,
;

/// The connector over a remote function host.
pub struct TypescriptConnector;

/// Why updating the settings failed.
#[derive(Debug, PartialEq)]
pub enum UpdateConfigurationError {
    Other(String),
}

/// Why the schema could not be given.
#[derive(Debug, PartialEq)]
pub enum SchemaError {
    Other(String),
}

/// An optional feature, with nothing to configure.
#[derive(Debug, PartialEq)]
pub struct LeafCapability;

/// The optional features the connector offers.
#[derive(Debug, PartialEq)]
pub struct Capabilities {
    pub query: Option<LeafCapability>,
    pub explain: Option<LeafCapability>,
    pub mutations: Option<LeafCapability>,
    pub relationships: Option<LeafCapability>,
}

/// The protocol versions and features the connector offers.
#[derive(Debug, PartialEq)]
pub struct CapabilitiesResponse {
    pub versions: String,
    pub capabilities: Capabilities,
}

fn copy_source(s: &TypescriptSource) -> (r: TypescriptSource)
    ensures
        r == *s,
{
    match s {
        TypescriptSource::Static(t) => TypescriptSource::Static(t.clone()),
        TypescriptSource::FromUrl { url } => TypescriptSource::FromUrl { url: url.clone() },
    }
}

fn copy_text(s: &Option<String>) -> (r: Option<String>)
    ensures
        r == *s,
{
    match s {
        Some(t) => Some(t.clone()),
        None => None,
    }
}

/// The message under which an unreadable schema document is reported.
pub open spec fn schema_failure(location: Seq<char>, load: SchemaLoad) -> Seq<char> {
    "Couldn't read schema from "@ + location + ": "@ + load_message(location, load)
}

impl TypescriptConnector {
    /// Settings with nothing set.
    pub fn make_empty_configuration() -> (r: RawConfiguration)
        ensures
            r.typescript_source is None,
            r.schema_location is None,
            r.deno_deployment_url is None,
    {
        RawConfiguration::default()
    }

    /// Settings are kept as they are.
    pub fn update_configuration(config: &RawConfiguration) -> (r: Result<RawConfiguration, UpdateConfigurationError>)
        ensures
            r is Ok && r->Ok_0 == *config,
    {
        let typescript_source = match &config.typescript_source {
            Some(s) => Some(copy_source(s)),
            None => None,
        };
        Ok(
            RawConfiguration {
                typescript_source,
                schema_location: copy_text(&config.schema_location),
                deno_deployment_url: copy_text(&config.deno_deployment_url),
            },
        )
    }

    /// Checks the settings against what was read from the schema location:
    /// the schema document must have been read and the remote host's
    /// address must parse.
    pub fn validate_raw_configuration(configuration: &RawConfiguration, load: SchemaLoad) -> (r: Result<
        Configuration,
        ValidateError,
    >)
        ensures
            ({
                let location = or_default(configuration.schema_location, "/schema.json"@);
                let address = or_default(
                    configuration.deno_deployment_url,
                    "http://localhost:8000"@,
                );
                match load {
                    SchemaLoad::Parsed(doc, positions) => if parses_as_url(address) {
                        r is Ok && model(r->Ok_0.schema) == model(doc)
                            && r->Ok_0.function_argument_positions@ == functions_index(
                            positions.entries(),
                            positions.entries().len(),
                        )
                    } else {
                        r is Err && single_error(
                            r->Err_0,
                            "deno_deployment_url"@,
                            "Couldn't parse deno deployment url."@,
                        )
                    },
                    _ => r is Err && single_error(
                        r->Err_0,
                        "/schema.json"@,
                        schema_failure(location, load),
                    ),
                }
            }),
    {
        let schema_location = configuration.schema_location_or_default();
        let (schema, function_argument_positions) = match read_schema(schema_location.as_str(), load) {
            Ok(loaded) => loaded,
            Err(err) => {
                let mut m = String::from_str("Couldn't read schema from ");
                m.append(schema_location.as_str());
                m.append(": ");
                m.append(err.as_str());
                return Err(mk_single_validate_error("/schema.json", m.as_str()));
            },
        };
        let deno_deployment_url_string = configuration.deployment_url_or_default();
        let deno_deployment_url = match crate::config::parse_address(deno_deployment_url_string.as_str()) {
            Ok(u) => u,
            Err(_) => {
                return Err(
                    mk_single_validate_error(
                        "deno_deployment_url",
                        "Couldn't parse deno deployment url.",
                    ),
                );
            },
        };
        Ok(Configuration { deno_deployment_url, schema, function_argument_positions })
    }

    /// The protocol versions offered, and no optional feature.
    pub fn get_capabilities() -> (r: CapabilitiesResponse)
        ensures
            r.versions@ == "^0.1.0"@,
            r.capabilities.query is None,
            r.capabilities.explain is None,
            r.capabilities.mutations is None,
            r.capabilities.relationships is None,
    {
        CapabilitiesResponse {
            versions: String::from_str("^0.1.0"),
            capabilities: Capabilities { query: None, explain: None, mutations: None, relationships: None },
        }
    }

    /// The schema document, as it was loaded.
    pub fn get_schema(configuration: &Configuration) -> (r: Result<JsonValue, SchemaError>)
        ensures
            r is Ok && model(r->Ok_0) == model(configuration.schema),
    {
        Ok(configuration.schema.deep_copy())
    }
}

} // verus!
