use vstd::prelude::*;
use vstd::string::*;
use crate::value::{Doc, StructuredValue, entries_view, well_formed};
use crate::schema::{version_of, pivot, pivot_doc, get_version};

verus! {

/// serde_json's document tree, which the decoders produce and `tree_of` converts.
#[verifier::external_type_specification]
#[verifier::external_body]
pub struct ExJsonValue(serde_json::Value);

/// The source formats, chosen by file extension.
#[derive(Clone, Copy, Debug, PartialEq, Eq, Structural)]
pub enum Format {
    Yaml,
    Json,
    Toml,
}

/// Why a source could not be read.
#[derive(Debug)]
pub enum ParseError {
    /// The content breaks the grammar of its format; the parser's own message.
    InvalidFormat(Format, String),
    /// The extension names none of the formats.
    InvalidExtension,
    /// A version 2 document holds no translation.
    EmptySchema,
}

/// The document that serde_yaml reads from a text, if it reads one.
pub uninterp spec fn yaml_doc(s: Seq<char>) -> Option<Doc>;

/// The document that serde_json reads from a text, if it reads one.
pub uninterp spec fn json_doc(s: Seq<char>) -> Option<Doc>;

/// The document that toml reads from a text, if it reads one.
pub uninterp spec fn toml_doc(s: Seq<char>) -> Option<Doc>;

/// serde_json's tree turned into the library's, node for node: a number keeps its
/// display text and its `as_u64` value.
#[verifier::external_body]
fn tree_of(v: serde_json::Value) -> StructuredValue {
    match v {
        serde_json::Value::Null => StructuredValue::Null,
        serde_json::Value::Bool(b) => StructuredValue::Bool(b),
        serde_json::Value::Number(n) => StructuredValue::Number(n.to_string(), n.as_u64()),
        serde_json::Value::String(s) => StructuredValue::Str(s),
        serde_json::Value::Array(a) => StructuredValue::Array(a.into_iter().map(tree_of).collect()),
        serde_json::Value::Object(m) => StructuredValue::Object(m.into_iter().map(|(k, x)| (k, tree_of(x))).collect()),
    }
}

/// Relies on serde_yaml::from_str into serde_json::Value: the document read depends
/// on the text alone, and each of its objects is a serde_json::Map, whose keys are
/// distinct; on failure, the parser's message.
#[verifier::external_body]
fn decode_yaml(content: &str) -> (r: Result<StructuredValue, String>)
    ensures
        match r {
            Ok(v) => yaml_doc(content@) == Some(v@) && well_formed(v@),
            Err(_) => yaml_doc(content@) is None,
        },
{
    match serde_yaml::from_str::<serde_json::Value>(content) {
        Ok(v) => Ok(tree_of(v)),
        Err(e) => Err(e.to_string()),
    }
}

/// Relies on serde_json::from_str into serde_json::Value: the document read depends
/// on the text alone, and each of its objects is a serde_json::Map, whose keys are
/// distinct; on failure, the parser's message.
#[verifier::external_body]
fn decode_json(content: &str) -> (r: Result<StructuredValue, String>)
    ensures
        match r {
            Ok(v) => json_doc(content@) == Some(v@) && well_formed(v@),
            Err(_) => json_doc(content@) is None,
        },
{
    match serde_json::from_str::<serde_json::Value>(content) {
        Ok(v) => Ok(tree_of(v)),
        Err(e) => Err(e.to_string()),
    }
}

/// Relies on toml::from_str into serde_json::Value: the document read depends on
/// the text alone, and each of its objects is a serde_json::Map, whose keys are
/// distinct; on failure, the parser's message.
#[verifier::external_body]
fn decode_toml(content: &str) -> (r: Result<StructuredValue, String>)
    ensures
        match r {
            Ok(v) => toml_doc(content@) == Some(v@) && well_formed(v@),
            Err(_) => toml_doc(content@) is None,
        },
{
    match toml::from_str::<serde_json::Value>(content) {
        Ok(v) => Ok(tree_of(v)),
        Err(e) => Err(e.to_string()),
    }
}

/// The format that an extension selects.
pub open spec fn format_spec(ext: Seq<char>) -> Option<Format> {
    if ext == "yml"@ || ext == "yaml"@ {
        Some(Format::Yaml)
    } else if ext == "json"@ {
        Some(Format::Json)
    } else if ext == "toml"@ {
        Some(Format::Toml)
    } else {
        None
    }
}

/// The document read from a text in a format.
pub open spec fn decoded(f: Format, s: Seq<char>) -> Option<Doc> {
    match f {
        Format::Yaml => yaml_doc(s),
        Format::Json => json_doc(s),
        Format::Toml => toml_doc(s),
    }
}

/// The locale documents of a decoded document: for version 2 the pivoted document,
/// else the whole document under the fallback locale.
pub open spec fn normalized(d: Doc, locale: Seq<char>) -> Seq<(Seq<char>, Doc)> {
    if version_of(d) == 2 {
        pivot(seq![], d)
    } else {
        seq![(locale, d)]
    }
}

/// Whether a decoded document is a version 2 document that holds no translation.
pub open spec fn empty_schema(d: Doc) -> bool {
    version_of(d) == 2 && pivot(seq![], d).len() == 0
}

/// The locale documents that a source gives, where it gives any.
pub open spec fn parsed(content: Seq<char>, ext: Seq<char>, locale: Seq<char>) -> Option<Seq<(Seq<char>, Doc)>> {
    match format_spec(ext) {
        Some(f) => match decoded(f, content) {
            Some(d) => if empty_schema(d) {
                None
            } else {
                Some(normalized(d, locale))
            },
            None => None,
        },
        None => None,
    }
}

/// Selects the format named by a file extension.
pub fn format_of(ext: &str) -> (r: Option<Format>)
    ensures
        r == format_spec(ext@),
{
    let e = ext.to_owned();
    if e == "yml".to_owned() || e == "yaml".to_owned() {
        Some(Format::Yaml)
    } else if e == "json".to_owned() {
        Some(Format::Json)
    } else if e == "toml".to_owned() {
        Some(Format::Toml)
    } else {
        None
    }
}

/// Reads a document in the given format.
pub fn decode(content: &str, format: Format) -> (r: Result<StructuredValue, ParseError>)
    ensures
        match r {
            Ok(v) => decoded(format, content@) == Some(v@) && well_formed(v@),
            Err(e) => decoded(format, content@) is None && (e matches ParseError::InvalidFormat(
                f,
                _,
            ) && f == format),
        },
{
    let res = match format {
        Format::Yaml => decode_yaml(content),
        Format::Json => decode_json(content),
        Format::Toml => decode_toml(content),
    };
    match res {
        Ok(v) => Ok(v),
        Err(m) => Err(ParseError::InvalidFormat(format, m)),
    }
}

/// The one-locale reading of a document.
pub fn parse_file_v1(locale: &str, data: &StructuredValue) -> (r: Vec<(String, StructuredValue)>)
    ensures
        entries_view(r@) == seq![(locale@, data@)],
{
    let mut trs: Vec<(String, StructuredValue)> = Vec::new();
    trs.push((locale.to_owned(), data.duplicate()));
    assert(entries_view(trs@) =~= seq![(locale@, data@)]);
    trs
}

/// The pivoted reading of a version 2 document, or `None` where it holds no translation.
pub fn parse_file_v2(key_prefix: &str, data: &StructuredValue) -> (r: Option<Vec<(String, StructuredValue)>>)
    ensures
        match r {
            Some(t) => entries_view(t@) == pivot(key_prefix@, data@) && t@.len() > 0,
            None => pivot(key_prefix@, data@).len() == 0,
        },
{
    let trs = pivot_doc(key_prefix, data);
    if trs.len() > 0 {
        Some(trs)
    } else {
        None
    }
}

/// Splits a decoded document into one document per locale, `locale` standing for
/// the whole of a version 1 document.
pub fn normalize(doc: &StructuredValue, locale: &str) -> (r: Result<Vec<(String, StructuredValue)>, ParseError>)
    ensures
        r is Err <==> empty_schema(doc@),
        match r {
            Ok(t) => entries_view(t@) == normalized(doc@, locale@),
            Err(e) => e is EmptySchema,
        },
{
    if get_version(doc) == 2 {
        let root = String::new();
        assert(root@ =~= seq![]);
        match parse_file_v2(root.as_str(), doc) {
            Some(trs) => Ok(trs),
            None => Err(ParseError::EmptySchema),
        }
    } else {
        Ok(parse_file_v1(locale, doc))
    }
}

/// Reads a source: decodes `content` in the format that `ext` names and splits it
/// into one document per locale.
pub fn parse_file(content: &str, ext: &str, locale: &str) -> (r: Result<Vec<(String, StructuredValue)>, ParseError>)
    ensures
        r is Ok <==> parsed(content@, ext@, locale@) is Some,
        match r {
            Ok(t) => parsed(content@, ext@, locale@) == Some(entries_view(t@)),
            Err(e) => match format_spec(ext@) {
                None => e is InvalidExtension,
                Some(f) => match decoded(f, content@) {
                    None => (e matches ParseError::InvalidFormat(g, _) && g == f),
                    Some(d) => e is EmptySchema,
                },
            },
        },
{
    match format_of(ext) {
        Some(f) => match decode(content, f) {
            Ok(v) => normalize(&v, locale),
            Err(e) => Err(e),
        },
        None => Err(ParseError::InvalidExtension),
    }
}

impl ParseError {
    /// The message that reports this error.
    pub fn message(&self) -> (r: String)
        ensures
            r@ == match self {
                ParseError::InvalidFormat(Format::Yaml, m) => "Invalid YAML format, "@ + m@,
                ParseError::InvalidFormat(Format::Json, m) => "Invalid JSON format, "@ + m@,
                ParseError::InvalidFormat(Format::Toml, m) => "Invalid TOML format, "@ + m@,
                ParseError::InvalidExtension => "Invalid file extension"@,
                ParseError::EmptySchema => "Invalid locale file format, please check the version field"@,
            },
    {
        match self {
            ParseError::InvalidFormat(f, m) => {
                let mut r = match f {
                    Format::Yaml => "Invalid YAML format, ".to_owned(),
                    Format::Json => "Invalid JSON format, ".to_owned(),
                    Format::Toml => "Invalid TOML format, ".to_owned(),
                };
                r.append(m.as_str());
                r
            },
            ParseError::InvalidExtension => "Invalid file extension".to_owned(),
            ParseError::EmptySchema => "Invalid locale file format, please check the version field".to_owned(),
        }
    }
}

} // verus!
