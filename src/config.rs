use vstd::prelude::*;
use vstd::string::StringExecFns;
use url::Url;
use crate::json::{JsonValue, model};
use crate::positions::{
    FunctionArgumentPositions, InputFunctionArgumentPositions, functions_index,
};

verus! {

#[verifier::external_type_specification]
#[verifier::external_body]
pub struct ExUrl(Url);

#[verifier::external_type_specification]
#[verifier::external_body]
pub struct ExParseError(url::ParseError);

/// Whether the text is accepted as a URL.
pub uninterp spec fn parses_as_url(s: Seq<char>) -> bool;

/// Relies on url::Url::parse: whether the text is accepted depends on the
/// text alone.
#[verifier::external_body]
pub(crate) fn parse_address(s: &str) -> (r: Result<Url, url::ParseError>)
    ensures
        r is Ok == parses_as_url(s@),
{
    Url::parse(s)
}

/// Where the code run by the remote host comes from.
#[derive(Debug, PartialEq)]
pub enum TypescriptSource {
    Static(String),
    FromUrl { url: Url },
}

/// Settings as the user gives them, not yet checked.
#[derive(Debug, PartialEq)]
pub struct RawConfiguration {
    pub typescript_source: Option<TypescriptSource>,
    pub schema_location: Option<String>,
    pub deno_deployment_url: Option<String>,
}

impl Default for RawConfiguration {
    fn default() -> (r: RawConfiguration)
        ensures
            r.typescript_source is None,
            r.schema_location is None,
            r.deno_deployment_url is None,
    {
        RawConfiguration { typescript_source: None, schema_location: None, deno_deployment_url: None }
    }
}

pub open spec fn or_default(s: Option<String>, d: Seq<char>) -> Seq<char> {
    match s {
        Some(v) => v@,
        None => d,
    }
}

fn string_or(s: &Option<String>, d: &str) -> (r: String)
    ensures
        r@ == or_default(*s, d@),
{
    match s {
        Some(v) => v.clone(),
        None => String::from_str(d),
    }
}

impl RawConfiguration {
    /// Where the schema document is read from: the configured location, or
    /// `/schema.json`.
    pub fn schema_location_or_default(&self) -> (r: String)
        ensures
            r@ == or_default(self.schema_location, "/schema.json"@),
    {
        string_or(&self.schema_location, "/schema.json")
    }

    /// The remote host's address: the configured one, or
    /// `http://localhost:8000`.
    pub fn deployment_url_or_default(&self) -> (r: String)
        ensures
            r@ == or_default(self.deno_deployment_url, "http://localhost:8000"@),
    {
        string_or(&self.deno_deployment_url, "http://localhost:8000")
    }
}

/// What reading the schema document gave.
pub enum SchemaLoad {
    /// The file could not be read, with the reason.
    Unreadable(String),
    /// The text is not a schema document, with the reason.
    NotSchema(String),
    /// The text is not a list of argument positions, with the reason.
    NotPositions(String),
    /// Both readings succeeded.
    Parsed(JsonValue, InputFunctionArgumentPositions),
}

/// The message for a schema document that could not be loaded.
pub open spec fn load_message(path: Seq<char>, load: SchemaLoad) -> Seq<char> {
    match load {
        SchemaLoad::Unreadable(e) => "Could not open "@ + path + ": "@ + e@,
        SchemaLoad::NotSchema(e) => "functions.ts.schema.json should be valid SchemaResponse: "@ + e@,
        SchemaLoad::NotPositions(e) =>
            "functions.ts.schema.json should be valid FunctionArgumentPositions: "@ + e@,
        SchemaLoad::Parsed(..) => Seq::empty(),
    }
}

/// The schema document and the argument-position index built from it, or
/// the reason why there are none.
pub fn read_schema(path: &str, load: SchemaLoad) -> (r: Result<(JsonValue, FunctionArgumentPositions), String>)
    ensures
        match load {
            SchemaLoad::Parsed(doc, positions) => r is Ok && model(r->Ok_0.0) == model(doc)
                && r->Ok_0.1@ == functions_index(positions.entries(), positions.entries().len()),
            _ => r is Err && r->Err_0@ == load_message(path@, load),
        },
{
    match load {
        SchemaLoad::Unreadable(e) => {
            let mut m = String::from_str("Could not open ");
            m.append(path);
            m.append(": ");
            m.append(e.as_str());
            Err(m)
        },
        SchemaLoad::NotSchema(e) => {
            let mut m = String::from_str("functions.ts.schema.json should be valid SchemaResponse: ");
            m.append(e.as_str());
            Err(m)
        },
        SchemaLoad::NotPositions(e) => {
            let mut m = String::from_str(
                "functions.ts.schema.json should be valid FunctionArgumentPositions: ",
            );
            m.append(e.as_str());
            Err(m)
        },
        SchemaLoad::Parsed(doc, positions) => {
            let fixed = positions.fix();
            Ok((doc, fixed))
        },
    }
}

/// A step of the path to an invalid setting.
#[derive(Debug, PartialEq)]
pub enum KeyOrIndex {
    Key(String),
    Index(u32),
}

/// One invalid setting and why.
#[derive(Debug, PartialEq)]
pub struct InvalidRange {
    pub path: Vec<KeyOrIndex>,
    pub message: String,
}

/// Why the settings were refused.
#[derive(Debug, PartialEq)]
pub enum ValidateError {
    ValidateError(Vec<InvalidRange>),
}

/// True when `e` reports the one setting `key` with `message`.
pub open spec fn single_error(e: ValidateError, key: Seq<char>, message: Seq<char>) -> bool {
    match e {
        ValidateError::ValidateError(errs) => {
            &&& errs.len() == 1
            &&& errs[0].path.len() == 1
            &&& errs[0].path[0] is Key
            &&& errs[0].path[0]->Key_0@ == key
            &&& errs[0].message@ == message
        },
    }
}

/// An error that reports one setting.
pub fn mk_single_validate_error(key: &str, message: &str) -> (r: ValidateError)
    ensures
        single_error(r, key@, message@),
{
    let errs = vec![
        InvalidRange {
            path: vec![KeyOrIndex::Key(String::from_str(key))],
            message: String::from_str(message),
        },
    ];
    ValidateError::ValidateError(errs)
}

/// Checked settings: the remote host's address, the schema document, and
/// the argument-position index.
pub struct Configuration {
    pub deno_deployment_url: Url,
    pub schema: JsonValue,
    pub function_argument_positions: FunctionArgumentPositions,
}

} // verus!
