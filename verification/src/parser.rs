//! The subscription parser: from a payload to an ordered list of proxy
//! descriptors.
//!
//! A payload that looks like base64 is decoded first. A structured document
//! with a `proxies` list is then preferred; where it gives no descriptor, the
//! payload is read line by line as share links.
//!
//! The parser reads; it does not judge. Server, port and parameters are taken
//! as an entry gives them, and whether they are fit for a handler is left to
//! the proxy runtime.

use crate::bindings::{
    base64_decoded, decode_base64, decode_percent, json_document, parse_json, parse_uri,
    parse_yaml, percent_decoded, text_from_utf8, uri_parts, yaml_document,
};
use crate::descriptor::{
    descriptors_model, endpoint_label, make_endpoint_label, params_model, protocol_of_tag,
    push_param, result_model, DescriptorModel, EntryError, Protocol, ProtocolModel,
    ProxyDescriptor,
};
use crate::probe_result::text_model;
use crate::subscription::{is_base64, is_base64_text};
use crate::text::{
    chars_of, find_from, lemma_span_until_concat, parse_u16, parsed_u16, push_text, same_text,
    span_until, text_of_range, trim_bounds, trimmed,
};
use crate::uri::{UriModel, UriParts};
use crate::value::{
    as_text, entries_model, entries_of, items_model, lookup, untagged, DocModel, DocValue,
};
use crate::vmess::{vmess_descriptor, vmess_entry};
use vstd::prelude::*;
use vstd::string::StringExecFns;
use vstd::utf8::{decode_utf8, valid_utf8};

verus! {

/// Why a payload as a whole gave nothing to probe.
#[derive(Debug, Clone, Copy, PartialEq, Eq, Structural)]
pub enum ParseError {
    /// Neither the structured document nor the lines gave a descriptor.
    NoDescriptors,
}

// ---------------------------------------------------------------------------
// Decoding
// ---------------------------------------------------------------------------
/// The text that base64 decoding makes of `text`, where `text` decodes and the
/// bytes are UTF-8.
pub open spec fn base64_text(text: Seq<char>) -> Option<Seq<char>> {
    match base64_decoded(text) {
        Some(bytes) => if valid_utf8(bytes) {
            Some(decode_utf8(bytes))
        } else {
            None
        },
        None => None,
    }
}

/// The text that the stages read: the decoded payload where the payload looks
/// like base64 and decodes to text, the payload itself otherwise.
pub open spec fn decoded_payload(raw: Seq<char>) -> Seq<char> {
    if is_base64_text(raw) {
        match base64_text(raw) {
            Some(text) => text,
            None => raw,
        }
    } else {
        raw
    }
}

/// Base64 decoding followed by UTF-8 decoding.
pub fn decode_base64_text(text: &str) -> (r: Option<String>)
    ensures
        match r {
            Some(t) => base64_text(text@) == Some(t@),
            None => base64_text(text@) is None,
        },
{
    match decode_base64(text) {
        Some(bytes) => text_from_utf8(bytes),
        None => None,
    }
}

/// Chooses the text that the stages read, given what decoding made of the
/// payload.
pub fn choose_payload(raw: &str, looks_encoded: bool, decoded: Option<String>) -> (r: String)
    ensures
        r@ == if looks_encoded {
            match decoded {
                Some(text) => text@,
                None => raw@,
            }
        } else {
            raw@
        },
{
    if looks_encoded {
        match decoded {
            Some(text) => text,
            None => String::from_str(raw),
        }
    } else {
        String::from_str(raw)
    }
}

/// The decoding stage.
pub fn decode_payload(raw: &str) -> (r: String)
    ensures
        r@ == decoded_payload(raw@),
{
    if is_base64(raw) {
        let decoded = decode_base64_text(raw);
        choose_payload(raw, true, decoded)
    } else {
        choose_payload(raw, false, None)
    }
}

// ---------------------------------------------------------------------------
// Share links of the generic form
// ---------------------------------------------------------------------------
/// The port of a protocol where a link gives none.
pub open spec fn default_port(protocol: ProtocolModel) -> u16 {
    match protocol {
        ProtocolModel::Shadowsocks => 8388,
        ProtocolModel::Trojan => 443,
        ProtocolModel::Vless => 443,
        ProtocolModel::Socks5 => 1080,
        _ => 8080,
    }
}

/// The port of a protocol where a link gives none.
pub fn default_port_of(protocol: &Protocol) -> (r: u16)
    ensures
        r == default_port(protocol@),
{
    match protocol {
        Protocol::Shadowsocks => 8388,
        Protocol::Trojan => 443,
        Protocol::Vless => 443,
        Protocol::Socks5 => 1080,
        _ => 8080,
    }
}

/// The display name of a link: its fragment, percent-decoded where that
/// decodes, or `server:port` where it has no fragment.
pub open spec fn link_name(
    fragment: Option<Seq<char>>,
    decoded_fragment: Option<Seq<char>>,
    server: Seq<char>,
    port: u16,
) -> Seq<char> {
    match fragment {
        Some(f) => match decoded_fragment {
            Some(d) => d,
            None => f,
        },
        None => endpoint_label(server, port),
    }
}

/// The credentials of a shadowsocks link: `username:password` where the link
/// has a password; else the user name decoded, where it decodes; else the
/// user name.
pub open spec fn shadowsocks_user_info(uri: UriModel, decoded_username: Option<Seq<char>>) -> Seq<
    char,
> {
    match uri.password {
        Some(p) => uri.username.push(':') + p,
        None => match decoded_username {
            Some(d) => d,
            None => uri.username,
        },
    }
}

/// Cipher and password: the credentials split at their first colon.
pub open spec fn shadowsocks_parameters(uri: UriModel, decoded_username: Option<Seq<char>>) -> Seq<
    (Seq<char>, DocModel),
> {
    let info = shadowsocks_user_info(uri, decoded_username);
    let k = span_until(info, ':') as int;
    if uri.username.len() > 0 && k < info.len() {
        seq![
            ("cipher"@, DocModel::Text(info.take(k))),
            ("password"@, DocModel::Text(info.skip(k + 1))),
        ]
    } else {
        Seq::empty()
    }
}

/// The user name is the password.
pub open spec fn trojan_parameters(uri: UriModel) -> Seq<(Seq<char>, DocModel)> {
    if uri.username.len() > 0 {
        seq![("password"@, DocModel::Text(uri.username))]
    } else {
        Seq::empty()
    }
}

/// User name and password as the link gives them.
pub open spec fn socks5_parameters(uri: UriModel) -> Seq<(Seq<char>, DocModel)> {
    if uri.username.len() > 0 {
        seq![("username"@, DocModel::Text(uri.username))] + (match uri.password {
            Some(p) => seq![("password"@, DocModel::Text(p))],
            None => Seq::empty(),
        })
    } else {
        Seq::empty()
    }
}

/// The parameters that a link of the generic form gives for its protocol.
pub open spec fn link_parameters(
    uri: UriModel,
    protocol: ProtocolModel,
    decoded_username: Option<Seq<char>>,
) -> Seq<(Seq<char>, DocModel)> {
    match protocol {
        ProtocolModel::Shadowsocks => shadowsocks_parameters(uri, decoded_username),
        ProtocolModel::Trojan => trojan_parameters(uri),
        ProtocolModel::Socks5 => socks5_parameters(uri),
        _ => Seq::empty(),
    }
}

/// The descriptor of a link of the generic form, given what decoding made of
/// its fragment and of its user name: every link with a host gives one, with
/// the host as the server and the link's port, or the default of the protocol
/// where the link gives none. Neither is examined further.
pub open spec fn link_entry(
    uri: UriModel,
    protocol: ProtocolModel,
    decoded_fragment: Option<Seq<char>>,
    decoded_username: Option<Seq<char>>,
) -> Result<DescriptorModel, EntryError> {
    match uri.host {
        None => Err(EntryError::MissingHost),
        Some(server) => {
            let port = match uri.port {
                Some(p) => p,
                None => default_port(protocol),
            };
            Ok(
                DescriptorModel {
                    display_name: link_name(uri.fragment, decoded_fragment, server, port),
                    protocol: protocol,
                    server: server,
                    port: port,
                    parameters: link_parameters(uri, protocol, decoded_username),
                },
            )
        },
    }
}

fn shadowsocks_params(uri: &UriParts, decoded_username: Option<String>) -> (r: Vec<
    (String, DocValue),
>)
    ensures
        params_model(r@) == shadowsocks_parameters(
            uri@,
            text_model(decoded_username),
        ),
{
    let mut params: Vec<(String, DocValue)> = Vec::new();
    assert(params_model(params@) =~= Seq::empty());
    if uri.username.as_str().is_empty() {
        return params;
    }
    let info: Vec<char> = match &uri.password {
        Some(p) => {
            let mut joined = chars_of(uri.username.as_str());
            joined.push(':');
            push_text(&mut joined, p.as_str());
            joined
        },
        None => match &decoded_username {
            Some(d) => chars_of(d.as_str()),
            None => chars_of(uri.username.as_str()),
        },
    };
    let k = find_from(&info, 0, ':');
    assert(info@.skip(0) =~= info@);
    if k < info.len() {
        let cipher = text_of_range(&info, 0, k);
        let password = text_of_range(&info, k + 1, info.len());
        assert(info@.subrange(0, k as int) =~= info@.take(k as int));
        assert(info@.subrange(k + 1, info@.len() as int) =~= info@.skip(k + 1));
        push_param(&mut params, "cipher", DocValue::Text(cipher));
        push_param(&mut params, "password", DocValue::Text(password));
        assert(params_model(params@) =~= seq![
            ("cipher"@, DocModel::Text(info@.take(k as int))),
            ("password"@, DocModel::Text(info@.skip(k + 1))),
        ]);
    }
    params
}

fn trojan_params(uri: &UriParts) -> (r: Vec<(String, DocValue)>)
    ensures
        params_model(r@) == trojan_parameters(uri@),
{
    let mut params: Vec<(String, DocValue)> = Vec::new();
    assert(params_model(params@) =~= Seq::empty());
    if !uri.username.as_str().is_empty() {
        push_param(&mut params, "password", DocValue::text(uri.username.as_str()));
        assert(params_model(params@) =~= trojan_parameters(uri@));
    }
    params
}

fn socks5_params(uri: &UriParts) -> (r: Vec<(String, DocValue)>)
    ensures
        params_model(r@) == socks5_parameters(uri@),
{
    let mut params: Vec<(String, DocValue)> = Vec::new();
    assert(params_model(params@) =~= Seq::empty());
    if !uri.username.as_str().is_empty() {
        push_param(&mut params, "username", DocValue::text(uri.username.as_str()));
        if let Some(p) = &uri.password {
            push_param(&mut params, "password", DocValue::text(p.as_str()));
        }
        assert(params_model(params@) =~= socks5_parameters(uri@));
    }
    params
}

/// The descriptor of a link of the generic form (every supported protocol
/// but vmess), given what percent-decoding made of its fragment and what
/// base64 decoding made of its user name.
pub fn link_descriptor(
    uri: &UriParts,
    protocol: Protocol,
    decoded_fragment: Option<String>,
    decoded_username: Option<String>,
) -> (r: Result<ProxyDescriptor, EntryError>)
    ensures
        result_model(r) == link_entry(
            uri@,
            protocol@,
            text_model(decoded_fragment),
            text_model(decoded_username),
        ),
{
    let server = match &uri.host {
        Some(h) => h.clone(),
        None => {
            return Err(EntryError::MissingHost);
        },
    };
    let port = match uri.port {
        Some(p) => p,
        None => default_port_of(&protocol),
    };
    let display_name = match &uri.fragment {
        Some(f) => match decoded_fragment {
            Some(d) => d,
            None => f.clone(),
        },
        None => make_endpoint_label(server.as_str(), port),
    };
    let params = match &protocol {
        Protocol::Shadowsocks => shadowsocks_params(uri, decoded_username),
        Protocol::Trojan => trojan_params(uri),
        Protocol::Socks5 => socks5_params(uri),
        _ => {
            let none: Vec<(String, DocValue)> = Vec::new();
            assert(params_model(none@) =~= Seq::empty());
            none
        },
    };
    Ok(ProxyDescriptor { display_name, protocol, server, port, protocol_parameters: params })
}

// ---------------------------------------------------------------------------
// One share link
// ---------------------------------------------------------------------------
/// `f` applied to the text, where there is one.
pub open spec fn option_then(
    t: Option<Seq<char>>,
    f: spec_fn(Seq<char>) -> Option<Seq<char>>,
) -> Option<Seq<char>> {
    match t {
        Some(s) => f(s),
        None => None,
    }
}

/// The descriptor that the metadata of a vmess link describes: the host part
/// is base64 of a JSON document.
pub open spec fn vmess_link_entry(uri: UriModel) -> Result<DescriptorModel, EntryError> {
    match uri.host {
        None => Err(EntryError::MissingHost),
        Some(host) => match base64_text(host) {
            None => Err(EntryError::InvalidEncoding),
            Some(text) => match json_document(text) {
                None => Err(EntryError::InvalidDocument),
                Some(doc) => vmess_entry(doc),
            },
        },
    }
}

/// The descriptor that one share link describes.
pub open spec fn uri_entry(line: Seq<char>) -> Result<DescriptorModel, EntryError> {
    match uri_parts(line) {
        None => Err(EntryError::InvalidUri),
        Some(uri) => {
            let protocol = protocol_of_tag(uri.scheme);
            match protocol {
                ProtocolModel::Other(_) => Err(EntryError::UnsupportedProtocol),
                ProtocolModel::Vmess => vmess_link_entry(uri),
                _ => link_entry(
                    uri,
                    protocol,
                    option_then(uri.fragment, |f: Seq<char>| percent_decoded(f)),
                    if protocol == ProtocolModel::Shadowsocks && uri.password is None {
                        base64_text(uri.username)
                    } else {
                        None
                    },
                ),
            }
        },
    }
}

/// Reads the metadata of a vmess link.
pub fn vmess_link_descriptor(uri: &UriParts) -> (r: Result<ProxyDescriptor, EntryError>)
    ensures
        result_model(r) == vmess_link_entry(uri@),
{
    let host = match &uri.host {
        Some(h) => h,
        None => {
            return Err(EntryError::MissingHost);
        },
    };
    let text = match decode_base64_text(host.as_str()) {
        Some(t) => t,
        None => {
            return Err(EntryError::InvalidEncoding);
        },
    };
    let doc = match parse_json(text.as_str()) {
        Some(d) => d,
        None => {
            return Err(EntryError::InvalidDocument);
        },
    };
    vmess_descriptor(&doc)
}

/// Reads one share link as a descriptor.
pub fn parse_proxy_url_to_clash_config(url: &str) -> (r: Result<ProxyDescriptor, EntryError>)
    ensures
        result_model(r) == uri_entry(url@),
{
    let uri = match parse_uri(url) {
        Some(u) => u,
        None => {
            return Err(EntryError::InvalidUri);
        },
    };
    let protocol = Protocol::from_tag(uri.scheme.as_str());
    match &protocol {
        Protocol::Other(_) => Err(EntryError::UnsupportedProtocol),
        Protocol::Vmess => vmess_link_descriptor(&uri),
        _ => {
            let decoded_fragment = match &uri.fragment {
                Some(f) => decode_percent(f.as_str()),
                None => None,
            };
            let decoded_username = match (&protocol, &uri.password) {
                (Protocol::Shadowsocks, None) => decode_base64_text(uri.username.as_str()),
                _ => None,
            };
            link_descriptor(&uri, protocol, decoded_fragment, decoded_username)
        },
    }
}

// ---------------------------------------------------------------------------
// The line stage
// ---------------------------------------------------------------------------
/// What one line contributes: nothing where it is blank, a comment, or a link
/// that gives no descriptor; its descriptor otherwise.
pub open spec fn line_entry(line: Seq<char>) -> Seq<DescriptorModel> {
    let t = trimmed(line);
    if t.len() == 0 || t.first() == '#' {
        Seq::empty()
    } else {
        match uri_entry(t) {
            Ok(d) => seq![d],
            Err(_) => Seq::empty(),
        }
    }
}

/// The descriptors of the lines of `text`, in line order.
pub open spec fn line_descriptors(text: Seq<char>) -> Seq<DescriptorModel>
    decreases text.len(),
{
    let k = span_until(text, '\n') as int;
    if k >= text.len() {
        line_entry(text)
    } else {
        line_entry(text.take(k)) + line_descriptors(text.skip(k + 1))
    }
}

/// The line stage: every line that is a share link of a supported protocol
/// gives a descriptor; blank lines, comments and failing lines are skipped.
pub fn parse_lines(text: &str) -> (r: Vec<ProxyDescriptor>)
    ensures
        descriptors_model(r@) == line_descriptors(text@),
{
    let chars = chars_of(text);
    let n: usize = chars.len();
    let mut out: Vec<ProxyDescriptor> = Vec::new();
    let mut pos: usize = 0;
    let mut done: bool = false;
    assert(chars@.skip(0) =~= chars@);
    assert(descriptors_model(out@) =~= Seq::empty());
    while !done
        invariant
            n == chars@.len(),
            chars@ == text@,
            pos <= n,
            !done ==> descriptors_model(out@) + line_descriptors(chars@.skip(pos as int))
                == line_descriptors(chars@),
            done ==> descriptors_model(out@) == line_descriptors(chars@),
        decreases n - pos + (if done { 0int } else { 1int }),
    {
        let ghost rest = chars@.skip(pos as int);
        let ghost before = descriptors_model(out@);
        let end = find_from(&chars, pos, '\n');
        let ghost line = chars@.subrange(pos as int, end as int);
        assert(line =~= rest.take(end - pos));
        assert(end == n ==> line =~= rest);
        let (a, b) = trim_bounds(&chars, pos, end);
        if a < b && chars[a] != '#' {
            let piece = text_of_range(&chars, a, b);
            assert(piece@ == trimmed(line));
            assert(piece@.first() == chars@[a as int]);
            match parse_proxy_url_to_clash_config(piece.as_str()) {
                Ok(d) => {
                    out.push(d);
                    assert(descriptors_model(out@) =~= before + line_entry(line));
                },
                Err(_) => {
                    assert(descriptors_model(out@) =~= before + line_entry(line));
                },
            }
        } else {
            assert(trimmed(line) == chars@.subrange(a as int, b as int));
            assert(a < b ==> trimmed(line).first() == chars@[a as int]);
            assert(descriptors_model(out@) =~= before + line_entry(line));
        }
        if end >= n {
            done = true;
        } else {
            assert(rest.skip(end - pos + 1) =~= chars@.skip(end + 1));
            assert(before + (line_entry(line) + line_descriptors(chars@.skip(end + 1))) =~= (before
                + line_entry(line)) + line_descriptors(chars@.skip(end + 1)));
            pos = end + 1;
        }
    }
    out
}

// ---------------------------------------------------------------------------
// The structured stage
// ---------------------------------------------------------------------------
/// The keys of a structured entry that a descriptor holds as fields.
pub open spec fn is_field_key(key: Seq<char>) -> bool {
    key == "name"@ || key == "type"@ || key == "server"@ || key == "port"@
}

/// The value that a structured entry gives for a field: that of its last
/// entry whose key is, tags aside, the text `key`.
pub open spec fn entry_field(e: Seq<(DocModel, DocModel)>, key: Seq<char>) -> Option<DocModel>
    decreases e.len(),
{
    if e.len() == 0 {
        None
    } else if as_text(e.last().0) == Some(key) {
        Some(e.last().1)
    } else {
        entry_field(e.drop_last(), key)
    }
}

/// The text that a structured entry gives for a field, if it gives a text.
pub open spec fn entry_text(e: Seq<(DocModel, DocModel)>, key: Seq<char>) -> Option<Seq<char>> {
    match entry_field(e, key) {
        Some(v) => as_text(v),
        None => None,
    }
}

/// The parameters of a structured entry: its entries under keys that are,
/// tags aside, texts other than the field keys, in their order.
pub open spec fn entry_parameters(e: Seq<(DocModel, DocModel)>) -> Seq<(Seq<char>, DocModel)>
    decreases e.len(),
{
    if e.len() == 0 {
        Seq::empty()
    } else {
        let before = entry_parameters(e.drop_last());
        match as_text(e.last().0) {
            Some(key) => if is_field_key(key) {
                before
            } else {
                before.push((key, e.last().1))
            },
            None => before,
        }
    }
}

/// The port of a structured entry: a number, tags aside, that denotes a port.
pub open spec fn entry_port(e: Seq<(DocModel, DocModel)>) -> Option<u16> {
    match entry_field(e, "port"@) {
        Some(v) => match untagged(v) {
            DocModel::Number(n) => parsed_u16(n),
            _ => None,
        },
        None => None,
    }
}

/// The descriptor that one entry of a `proxies` list describes: a mapping,
/// tags aside, with the texts `name`, `type` and `server` and the number
/// `port`; all its other entries are its parameters.
///
/// This rule is the parser's own. The proxy runtime, which builds the
/// handlers, is asked later and may refuse an entry that is accepted here; so
/// a document whose entries the runtime would all refuse is still read by the
/// structured stage, and its lines are not tried.
pub open spec fn structured_entry(v: DocModel) -> Result<DescriptorModel, EntryError> {
    match untagged(v) {
        DocModel::Mapping(e) => match entry_text(e, "name"@) {
            None => Err(EntryError::MissingName),
            Some(name) => match entry_text(e, "type"@) {
                None => Err(EntryError::MissingType),
                Some(tag) => match entry_text(e, "server"@) {
                    None => Err(EntryError::MissingServer),
                    Some(server) => match entry_port(e) {
                        None => Err(EntryError::InvalidPort),
                        Some(port) => Ok(
                            DescriptorModel {
                                display_name: name,
                                protocol: protocol_of_tag(tag),
                                server: server,
                                port: port,
                                parameters: entry_parameters(e),
                            },
                        ),
                    },
                },
            },
        },
        _ => Err(EntryError::NotAMapping),
    }
}

/// The descriptors of the entries that give one, in their order.
pub open spec fn accepted_entries(items: Seq<DocModel>) -> Seq<DescriptorModel>
    decreases items.len(),
{
    if items.len() == 0 {
        Seq::empty()
    } else {
        let before = accepted_entries(items.drop_last());
        match structured_entry(items.last()) {
            Ok(d) => before.push(d),
            Err(_) => before,
        }
    }
}

/// The `proxies` list of a document, where it has one: what the document, a
/// mapping, gives for `proxies`, where that is a list, tags aside.
pub open spec fn proxies_of(doc: DocModel) -> Seq<DocModel> {
    match lookup(entries_of(doc), "proxies"@) {
        Some(v) => match untagged(v) {
            DocModel::List(items) => items,
            _ => Seq::empty(),
        },
        None => Seq::empty(),
    }
}

/// The descriptors of the structured stage.
pub open spec fn structured_descriptors(doc: DocModel) -> Seq<DescriptorModel> {
    accepted_entries(proxies_of(doc))
}

fn is_field_key_text(key: &str) -> (r: bool)
    ensures
        r == is_field_key(key@),
{
    same_text(key, "name") || same_text(key, "type") || same_text(key, "server") || same_text(
        key,
        "port",
    )
}

/// The value of the last entry whose key is, tags aside, the text `key`.
pub fn read_entry_field<'a>(entries: &'a Vec<(DocValue, DocValue)>, key: &str) -> (r: Option<
    &'a DocValue,
>)
    ensures
        match r {
            Some(v) => entry_field(entries_model(entries@), key@) == Some(v@),
            None => entry_field(entries_model(entries@), key@) is None,
        },
{
    let ghost all = entries_model(entries@);
    let mut i: usize = entries.len();
    assert(all.take(i as int) =~= all);
    while i > 0
        invariant
            i <= entries@.len(),
            all == entries_model(entries@),
            entry_field(all, key@) == entry_field(all.take(i as int), key@),
        decreases i,
    {
        assert(all.take(i as int).last() == (entries@[i - 1].0@, entries@[i - 1].1@));
        assert(all.take(i as int).drop_last() =~= all.take(i - 1));
        let hit = match entries[i - 1].0.as_text() {
            Some(k) => same_text(k.as_str(), key),
            None => false,
        };
        if hit {
            return Some(&entries[i - 1].1);
        }
        i = i - 1;
    }
    None
}

fn read_entry_text<'a>(entries: &'a Vec<(DocValue, DocValue)>, key: &str) -> (r: Option<
    &'a String,
>)
    ensures
        match r {
            Some(t) => entry_text(entries_model(entries@), key@) == Some(t@),
            None => entry_text(entries_model(entries@), key@) is None,
        },
{
    match read_entry_field(entries, key) {
        Some(v) => v.as_text(),
        None => None,
    }
}

fn read_entry_parameters(entries: &Vec<(DocValue, DocValue)>) -> (r: Vec<(String, DocValue)>)
    ensures
        params_model(r@) == entry_parameters(entries_model(entries@)),
{
    let ghost all = entries_model(entries@);
    let mut params: Vec<(String, DocValue)> = Vec::new();
    let mut i: usize = 0;
    assert(params_model(params@) =~= entry_parameters(all.take(0)));
    while i < entries.len()
        invariant
            i <= entries@.len(),
            all == entries_model(entries@),
            params_model(params@) == entry_parameters(all.take(i as int)),
        decreases entries@.len() - i,
    {
        assert(all.take(i + 1).drop_last() =~= all.take(i as int));
        assert(all.take(i + 1).last() == (entries@[i as int].0@, entries@[i as int].1@));
        match entries[i].0.as_text() {
            Some(key) => {
                if !is_field_key_text(key.as_str()) {
                    push_param(&mut params, key.as_str(), entries[i].1.duplicate());
                }
            },
            None => {},
        }
        i = i + 1;
    }
    assert(all.take(i as int) =~= all);
    params
}

/// Reads one entry of a `proxies` list as a descriptor.
pub fn parse_clash_proxy_from_yaml(value: &DocValue) -> (r: Result<ProxyDescriptor, EntryError>)
    ensures
        result_model(r) == structured_entry(value@),
{
    let entries = match value.untag() {
        DocValue::Mapping(entries) => entries,
        _ => {
            return Err(EntryError::NotAMapping);
        },
    };
    assert(untagged(value@) == DocModel::Mapping(entries_model(entries@))) by {
        assert(untagged(value@)->Mapping_0 =~= entries_model(entries@));
    }
    let display_name = match read_entry_text(entries, "name") {
        Some(name) => name.clone(),
        None => {
            return Err(EntryError::MissingName);
        },
    };
    let protocol = match read_entry_text(entries, "type") {
        Some(tag) => Protocol::from_tag(tag.as_str()),
        None => {
            return Err(EntryError::MissingType);
        },
    };
    let server = match read_entry_text(entries, "server") {
        Some(server) => server.clone(),
        None => {
            return Err(EntryError::MissingServer);
        },
    };
    let port = match read_entry_field(entries, "port") {
        Some(v) => match v.untag() {
            DocValue::Number(n) => {
                let digits = chars_of(n.as_str());
                match parse_u16(&digits) {
                    Some(p) => p,
                    None => {
                        return Err(EntryError::InvalidPort);
                    },
                }
            },
            _ => {
                return Err(EntryError::InvalidPort);
            },
        },
        None => {
            return Err(EntryError::InvalidPort);
        },
    };
    let params = read_entry_parameters(entries);
    Ok(ProxyDescriptor { display_name, protocol, server, port, protocol_parameters: params })
}

/// The structured stage: the entries of the document's `proxies` list that
/// give a descriptor, in their order. Entries that fail are skipped one by one.
pub fn parse_structured(doc: &DocValue) -> (r: Vec<ProxyDescriptor>)
    ensures
        descriptors_model(r@) == structured_descriptors(doc@),
{
    let mut out: Vec<ProxyDescriptor> = Vec::new();
    assert(descriptors_model(out@) =~= Seq::empty());
    let items = match doc.get("proxies") {
        Some(v) => match v.untag() {
            DocValue::List(items) => items,
            _ => {
                return out;
            },
        },
        None => {
            return out;
        },
    };
    let ghost all = items_model(items@);
    assert(proxies_of(doc@) =~= all);
    let mut i: usize = 0;
    assert(all.take(0) =~= Seq::empty());
    while i < items.len()
        invariant
            i <= items@.len(),
            all == items_model(items@),
            descriptors_model(out@) == accepted_entries(all.take(i as int)),
        decreases items@.len() - i,
    {
        assert(all.take(i + 1).drop_last() =~= all.take(i as int));
        assert(all.take(i + 1).last() == items@[i as int]@);
        let ghost before = descriptors_model(out@);
        match parse_clash_proxy_from_yaml(&items[i]) {
            Ok(d) => {
                out.push(d);
                assert(descriptors_model(out@) =~= before.push(d@));
            },
            Err(_) => {},
        }
        i = i + 1;
    }
    assert(all.take(i as int) =~= all);
    out
}

// ---------------------------------------------------------------------------
// The whole parser
// ---------------------------------------------------------------------------
/// The descriptors of a text, given the document it holds (if it is one): those
/// of the structured stage where there are any, those of the lines otherwise.
pub open spec fn staged_descriptors(document: Option<DocModel>, text: Seq<char>) -> Seq<
    DescriptorModel,
> {
    let structured = match document {
        Some(doc) => structured_descriptors(doc),
        None => Seq::empty(),
    };
    if structured.len() > 0 {
        structured
    } else {
        line_descriptors(text)
    }
}

/// The descriptors of an already decoded text.
pub open spec fn text_descriptors(text: Seq<char>) -> Seq<DescriptorModel> {
    staged_descriptors(yaml_document(text), text)
}

/// The descriptors of a subscription payload.
pub open spec fn subscription_descriptors(raw: Seq<char>) -> Seq<DescriptorModel> {
    text_descriptors(decoded_payload(raw))
}

/// Runs the two stages on a decoded text, given the document that the text
/// holds, if it is one.
pub fn parse_stages(document: Option<DocValue>, text: &str) -> (r: Vec<ProxyDescriptor>)
    ensures
        descriptors_model(r@) == staged_descriptors(
            match document {
                Some(doc) => Some(doc@),
                None => None,
            },
            text@,
        ),
{
    match &document {
        Some(doc) => {
            let structured = parse_structured(doc);
            if structured.len() > 0 {
                return structured;
            }
        },
        None => {},
    }
    parse_lines(text)
}

/// The descriptors of a text that needs no decoding, in their order of
/// appearance; none where neither stage gives any.
pub fn parse_text(text: &str) -> (r: Vec<ProxyDescriptor>)
    ensures
        descriptors_model(r@) == text_descriptors(text@),
{
    let document = parse_yaml(text);
    parse_stages(document, text)
}

/// The descriptors of a subscription payload, in their order of appearance;
/// none where the payload gives none.
pub fn parse_payload(content: &str) -> (r: Vec<ProxyDescriptor>)
    ensures
        descriptors_model(r@) == subscription_descriptors(content@),
{
    let decoded = decode_payload(content);
    parse_text(decoded.as_str())
}

/// Parses a subscription payload into its descriptors, in their order of
/// appearance. Entries that fail are skipped; the payload as a whole fails
/// exactly where it gives no descriptor at all.
pub fn parse_clash_subscription(content: &str) -> (r: Result<Vec<ProxyDescriptor>, ParseError>)
    ensures
        match r {
            Ok(list) => list@.len() > 0 && descriptors_model(list@) == subscription_descriptors(
                content@,
            ),
            Err(ParseError::NoDescriptors) => subscription_descriptors(content@).len() == 0,
        },
{
    let found = parse_payload(content);
    if found.len() == 0 {
        Err(ParseError::NoDescriptors)
    } else {
        Ok(found)
    }
}

// ---------------------------------------------------------------------------
// Laws
// ---------------------------------------------------------------------------
/// Where the decoded payload is a document whose `proxies` list gives at
/// least one descriptor, the structured stage alone decides the result: the
/// lines of the payload have no part in it.
pub proof fn lemma_structured_stage_decides(raw: Seq<char>, doc: DocModel)
    requires
        yaml_document(decoded_payload(raw)) == Some(doc),
        structured_descriptors(doc).len() > 0,
    ensures
        subscription_descriptors(raw) == structured_descriptors(doc),
{
}

/// The structured stage skips exactly the entries that give no descriptor:
/// appending an entry appends its descriptor, or nothing where it fails.
pub proof fn lemma_structured_stage_skips_failures(items: Seq<DocModel>, entry: DocModel)
    ensures
        structured_entry(entry) is Err ==> accepted_entries(items.push(entry)) == accepted_entries(
            items,
        ),
        structured_entry(entry) matches Ok(d) ==> accepted_entries(items.push(entry))
            == accepted_entries(items).push(d),
{
    assert(items.push(entry).drop_last() =~= items);
}

/// Lines are read one by one, in their order: the descriptors of two texts
/// joined by a line feed are those of the first followed by those of the
/// second. No line has a part in what another gives.
pub proof fn lemma_lines_are_independent(a: Seq<char>, b: Seq<char>)
    ensures
        line_descriptors(a.push('\n') + b) == line_descriptors(a) + line_descriptors(b),
    decreases a.len(),
{
    let joined = a.push('\n') + b;
    let k = span_until(a, '\n') as int;
    lemma_span_until_concat(a, seq!['\n'] + b, '\n');
    assert(joined =~= a + (seq!['\n'] + b));
    assert(span_until(seq!['\n'] + b, '\n') == 0);
    assert(span_until(joined, '\n') == k);
    if k >= a.len() {
        assert(joined.take(k) =~= a);
        assert(joined.skip(k + 1) =~= b);
    } else {
        let rest = a.skip(k + 1);
        assert(joined.take(k) =~= a.take(k));
        assert(joined.skip(k + 1) =~= rest.push('\n') + b);
        lemma_lines_are_independent(rest, b);
        assert(line_entry(a.take(k)) + (line_descriptors(rest) + line_descriptors(b)) =~= (
            line_entry(a.take(k)) + line_descriptors(rest)) + line_descriptors(b));
    }
}

/// A payload that looks like base64 but does not decode to text is read as
/// it stands: the result is that of the payload taken as plain text.
pub proof fn lemma_undecodable_payload_is_plain_text(raw: Seq<char>)
    requires
        is_base64_text(raw),
        base64_text(raw) is None,
    ensures
        subscription_descriptors(raw) == text_descriptors(raw),
{
}

/// A payload that does not look like base64 is read as it stands.
pub proof fn lemma_plain_payload_is_not_decoded(raw: Seq<char>)
    requires
        !is_base64_text(raw),
    ensures
        subscription_descriptors(raw) == text_descriptors(raw),
{
}

} // verus!
