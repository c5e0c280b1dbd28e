//! The calls into the crates this library builds on. Each function here is
//! trusted: its contract is a claim about the crate it calls, not a theorem.

use crate::uri::{UriModel, UriParts};
use crate::value::{DocModel, DocValue};
use base64::Engine;
use vstd::prelude::*;
use vstd::utf8::{decode_utf8, valid_utf8};

verus! {

/// Trusted: `serde_json::Value`, carried as an opaque value.
#[verifier::external_type_specification]
#[verifier::external_body]
pub struct ExJsonValue(serde_json::Value);

/// Trusted: `serde_yaml::Value`, carried as an opaque value.
#[verifier::external_type_specification]
#[verifier::external_body]
pub struct ExYamlValue(serde_yaml::Value);

/// The document that `serde_json::from_str` reads from a text, if it reads one.
pub uninterp spec fn json_document(text: Seq<char>) -> Option<DocModel>;

/// The document that `serde_yaml::from_str` reads from a text, if it reads one.
pub uninterp spec fn yaml_document(text: Seq<char>) -> Option<DocModel>;

/// Trusted: moves a `serde_json::Value` into a [`DocValue`], variant by variant.
#[verifier::external_body]
fn from_json(v: serde_json::Value) -> DocValue {
    match v {
        serde_json::Value::Null => DocValue::Null,
        serde_json::Value::Bool(b) => DocValue::Flag(b),
        serde_json::Value::Number(n) => DocValue::Number(n.to_string()),
        serde_json::Value::String(s) => DocValue::Text(s),
        serde_json::Value::Array(a) => DocValue::List(a.into_iter().map(from_json).collect()),
        serde_json::Value::Object(m) => DocValue::Mapping(
            m.into_iter().map(|(k, v)| (DocValue::Text(k), from_json(v))).collect(),
        ),
    }
}

/// Trusted: `serde_json::from_str::<serde_json::Value>`. The result depends on
/// the text alone; an error becomes `None`.
#[verifier::external_body]
pub(crate) fn parse_json(text: &str) -> (r: Option<DocValue>)
    ensures
        match r {
            Some(v) => json_document(text@) == Some(v@),
            None => json_document(text@) is None,
        },
{
    match serde_json::from_str::<serde_json::Value>(text) {
        Ok(v) => Some(from_json(v)),
        Err(_) => None,
    }
}

/// Trusted: moves a `serde_yaml::Value` into a [`DocValue`], variant by variant.
#[verifier::external_body]
fn from_yaml(v: serde_yaml::Value) -> DocValue {
    match v {
        serde_yaml::Value::Null => DocValue::Null,
        serde_yaml::Value::Bool(b) => DocValue::Flag(b),
        serde_yaml::Value::Number(n) => DocValue::Number(n.to_string()),
        serde_yaml::Value::String(s) => DocValue::Text(s),
        serde_yaml::Value::Sequence(a) => DocValue::List(a.into_iter().map(from_yaml).collect()),
        serde_yaml::Value::Mapping(m) => DocValue::Mapping(
            m.into_iter().map(|(k, v)| (from_yaml(k), from_yaml(v))).collect(),
        ),
        serde_yaml::Value::Tagged(t) => DocValue::Tagged(
            t.tag.to_string(),
            Box::new(from_yaml(t.value)),
        ),
    }
}

/// Trusted: `serde_yaml::from_str::<serde_yaml::Value>`. The result depends on
/// the text alone; an error becomes `None`.
#[verifier::external_body]
pub(crate) fn parse_yaml(text: &str) -> (r: Option<DocValue>)
    ensures
        match r {
            Some(v) => yaml_document(text@) == Some(v@),
            None => yaml_document(text@) is None,
        },
{
    match serde_yaml::from_str::<serde_yaml::Value>(text) {
        Ok(v) => Some(from_yaml(v)),
        Err(_) => None,
    }
}

/// The components that `url::Url::parse` finds in a text, if it accepts it.
pub uninterp spec fn uri_parts(text: Seq<char>) -> Option<UriModel>;

/// Trusted: `url::Url::parse`, then the accessors `scheme`, `username`,
/// `password`, `host_str`, `port` and `fragment`. The result depends on the
/// text alone; an error becomes `None`.
#[verifier::external_body]
pub(crate) fn parse_uri(text: &str) -> (r: Option<UriParts>)
    ensures
        match r {
            Some(parts) => uri_parts(text@) == Some(parts@),
            None => uri_parts(text@) is None,
        },
{
    match url::Url::parse(text) {
        Ok(u) => Some(UriParts {
            scheme: u.scheme().to_string(),
            username: u.username().to_string(),
            password: u.password().map(|p| p.to_string()),
            host: u.host_str().map(|h| h.to_string()),
            port: u.port(),
            fragment: u.fragment().map(|f| f.to_string()),
        }),
        Err(_) => None,
    }
}

/// The bytes that the standard base64 engine (standard alphabet, canonical
/// padding required) decodes a text to, if it accepts it.
pub uninterp spec fn base64_decoded(text: Seq<char>) -> Option<Seq<u8>>;

/// Trusted: `base64::engine::general_purpose::STANDARD.decode`. The result
/// depends on the text alone; an error becomes `None`.
#[verifier::external_body]
pub(crate) fn decode_base64(text: &str) -> (r: Option<Vec<u8>>)
    ensures
        match r {
            Some(bytes) => base64_decoded(text@) == Some(bytes@),
            None => base64_decoded(text@) is None,
        },
{
    match base64::engine::general_purpose::STANDARD.decode(text) {
        Ok(bytes) => Some(bytes),
        Err(_) => None,
    }
}

/// The text that `urlencoding::decode` makes of a percent-encoded text, if
/// the decoded bytes are UTF-8.
pub uninterp spec fn percent_decoded(text: Seq<char>) -> Option<Seq<char>>;

/// Trusted: `urlencoding::decode`. The result depends on the text alone; an
/// error becomes `None`.
#[verifier::external_body]
pub(crate) fn decode_percent(text: &str) -> (r: Option<String>)
    ensures
        match r {
            Some(decoded) => percent_decoded(text@) == Some(decoded@),
            None => percent_decoded(text@) is None,
        },
{
    match urlencoding::decode(text) {
        Ok(decoded) => Some(decoded.into_owned()),
        Err(_) => None,
    }
}

/// Trusted: std's `String::from_utf8` accepts exactly the byte sequences that
/// are valid UTF-8, and returns the text they encode.
#[verifier::external_body]
pub(crate) fn text_from_utf8(bytes: Vec<u8>) -> (r: Option<String>)
    ensures
        match r {
            Some(text) => valid_utf8(bytes@) && text@ == decode_utf8(bytes@),
            None => !valid_utf8(bytes@),
        },
{
    match String::from_utf8(bytes) {
        Ok(text) => Some(text),
        Err(_) => None,
    }
}

} // verus!
