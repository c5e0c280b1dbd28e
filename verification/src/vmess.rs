//! From the metadata document of a vmess share link to a proxy descriptor.

use crate::descriptor::{
    endpoint_label, make_endpoint_label, params_model, push_param, result_model,
    DescriptorModel, EntryError, Protocol, ProtocolModel, ProxyDescriptor,
};
use crate::text::{chars_of, decimal_digits, parse_u16, parsed_u16, same_text};
use crate::value::{entries_model, entries_of, items_model, lookup_text, DocModel, DocValue};
use vstd::prelude::*;
use vstd::string::StringExecFns;

verus! {

/// The number that the text under `key` denotes, or `default` where there is
/// no such text or it denotes none.
pub open spec fn u16_field(e: Seq<(DocModel, DocModel)>, key: Seq<char>, default: u16) -> u16 {
    match lookup_text(e, key) {
        Some(t) => match parsed_u16(t) {
            Some(n) => n,
            None => default,
        },
        None => default,
    }
}

/// The text under `key`, where there is one and it is not empty.
pub open spec fn non_empty_text(e: Seq<(DocModel, DocModel)>, key: Seq<char>) -> Option<
    Seq<char>,
> {
    match lookup_text(e, key) {
        Some(t) => if t.len() > 0 {
            Some(t)
        } else {
            None
        },
        None => None,
    }
}

/// One entry of an options block, where `value` is present.
pub open spec fn option_entry(key: Seq<char>, value: Option<DocModel>) -> Seq<
    (DocModel, DocModel),
> {
    match value {
        Some(v) => seq![(DocModel::Text(key), v)],
        None => Seq::empty(),
    }
}

/// A text as a document value, where there is one.
pub open spec fn text_value(t: Option<Seq<char>>) -> Option<DocModel> {
    match t {
        Some(s) => Some(DocModel::Text(s)),
        None => None,
    }
}

/// Options of the websocket transport: the path, and the host as a header.
pub open spec fn ws_options(e: Seq<(DocModel, DocModel)>) -> Seq<(DocModel, DocModel)> {
    option_entry("path"@, text_value(non_empty_text(e, "path"@))) + option_entry(
        "headers"@,
        match non_empty_text(e, "host"@) {
            Some(h) => Some(DocModel::Mapping(seq![(DocModel::Text("Host"@), DocModel::Text(h))])),
            None => None,
        },
    )
}

/// Options of the gRPC transport: the path as the service name.
pub open spec fn grpc_options(e: Seq<(DocModel, DocModel)>) -> Seq<(DocModel, DocModel)> {
    option_entry("grpc-service-name"@, text_value(non_empty_text(e, "path"@)))
}

/// Options of the HTTP/2 transport: the path, and the host as a list of one.
pub open spec fn h2_options(e: Seq<(DocModel, DocModel)>) -> Seq<(DocModel, DocModel)> {
    option_entry("path"@, text_value(non_empty_text(e, "path"@))) + option_entry(
        "host"@,
        match non_empty_text(e, "host"@) {
            Some(h) => Some(DocModel::List(seq![DocModel::Text(h)])),
            None => None,
        },
    )
}

/// An options block is a parameter only where it holds an option.
pub open spec fn options_block(key: Seq<char>, options: Seq<(DocModel, DocModel)>) -> Seq<
    (Seq<char>, DocModel),
> {
    if options.len() > 0 {
        seq![(key, DocModel::Mapping(options))]
    } else {
        Seq::empty()
    }
}

/// The credential and the legacy alter id.
pub open spec fn vmess_identity(e: Seq<(DocModel, DocModel)>) -> Seq<(Seq<char>, DocModel)> {
    (match lookup_text(e, "id"@) {
        Some(id) => seq![("uuid"@, DocModel::Text(id))],
        None => Seq::empty(),
    }).push(("alterId"@, DocModel::Number(decimal_digits(u16_field(e, "aid"@, 0) as nat))))
}

/// The cipher, unless it is left to negotiation.
pub open spec fn vmess_cipher(e: Seq<(DocModel, DocModel)>) -> Seq<(Seq<char>, DocModel)> {
    match lookup_text(e, "scy"@) {
        Some(scy) => if scy != "auto"@ {
            seq![("cipher"@, DocModel::Text(scy))]
        } else {
            Seq::empty()
        },
        None => Seq::empty(),
    }
}

/// The transport and its options; nothing for plain TCP.
pub open spec fn vmess_transport(e: Seq<(DocModel, DocModel)>) -> Seq<(Seq<char>, DocModel)> {
    match lookup_text(e, "net"@) {
        Some(net) => if net != "tcp"@ {
            seq![("network"@, DocModel::Text(net))] + (if net == "ws"@ {
                options_block("ws-opts"@, ws_options(e))
            } else if net == "grpc"@ {
                options_block("grpc-opts"@, grpc_options(e))
            } else if net == "h2"@ {
                options_block("h2-opts"@, h2_options(e))
            } else {
                Seq::empty()
            })
        } else {
            Seq::empty()
        },
        None => Seq::empty(),
    }
}

/// TLS, where the document asks for it: enabled, with the server name if one
/// is given, and without certificate verification.
pub open spec fn vmess_tls(e: Seq<(DocModel, DocModel)>) -> Seq<(Seq<char>, DocModel)> {
    if lookup_text(e, "tls"@) == Some("tls"@) {
        seq![("tls"@, DocModel::Flag(true))] + (match non_empty_text(e, "sni"@) {
            Some(sni) => seq![("servername"@, DocModel::Text(sni))],
            None => Seq::empty(),
        }) + seq![("skip-cert-verify"@, DocModel::Flag(true))]
    } else {
        Seq::empty()
    }
}

/// All parameters of a vmess descriptor, in their order.
pub open spec fn vmess_parameters(e: Seq<(DocModel, DocModel)>) -> Seq<(Seq<char>, DocModel)> {
    vmess_identity(e) + vmess_cipher(e) + vmess_transport(e) + vmess_tls(e)
}

/// The descriptor that the metadata document of a vmess link describes: the
/// server under `add`, the port under `port` (10086 where it is not a text
/// that denotes a port), the name under `ps` (or `server:port`). Every
/// document with a server gives one; server and port are not examined
/// further.
pub open spec fn vmess_entry(doc: DocModel) -> Result<DescriptorModel, EntryError> {
    let e = entries_of(doc);
    match lookup_text(e, "add"@) {
        None => Err(EntryError::MissingServer),
        Some(server) => {
            let port = u16_field(e, "port"@, 10086);
            Ok(
                DescriptorModel {
                    display_name: match lookup_text(e, "ps"@) {
                        Some(ps) => ps,
                        None => endpoint_label(server, port),
                    },
                    protocol: ProtocolModel::Vmess,
                    server: server,
                    port: port,
                    parameters: vmess_parameters(e),
                },
            )
        },
    }
}

/// The number under `key`, or `default`.
pub fn read_u16_field(doc: &DocValue, key: &str, default: u16) -> (r: u16)
    ensures
        r == u16_field(entries_of(doc@), key@, default),
{
    match doc.get_text(key) {
        Some(t) => {
            let chars = chars_of(t.as_str());
            match parse_u16(&chars) {
                Some(n) => n,
                None => default,
            }
        },
        None => default,
    }
}

/// The text under `key`, where there is one and it is not empty.
pub fn read_non_empty_text<'a>(doc: &'a DocValue, key: &str) -> (r: Option<&'a String>)
    ensures
        match r {
            Some(t) => non_empty_text(entries_of(doc@), key@) == Some(t@),
            None => non_empty_text(entries_of(doc@), key@) is None,
        },
{
    match doc.get_text(key) {
        Some(t) => if t.as_str().is_empty() {
            None
        } else {
            Some(t)
        },
        None => None,
    }
}

/// Appends the option `key` with the value `value`.
pub fn push_option(options: &mut Vec<(DocValue, DocValue)>, key: &str, value: DocValue)
    ensures
        entries_model(final(options)@) == entries_model(old(options)@).push(
            (DocModel::Text(key@), value@),
        ),
{
    options.push((DocValue::text(key), value));
    assert(entries_model(options@) =~= entries_model(old(options)@).push(
        (DocModel::Text(key@), value@),
    ));
}

fn read_ws_options(doc: &DocValue) -> (r: Vec<(DocValue, DocValue)>)
    ensures
        entries_model(r@) == ws_options(entries_of(doc@)),
{
    let mut options: Vec<(DocValue, DocValue)> = Vec::new();
    assert(entries_model(options@) =~= Seq::empty());
    if let Some(path) = read_non_empty_text(doc, "path") {
        push_option(&mut options, "path", DocValue::text(path.as_str()));
    }
    if let Some(host) = read_non_empty_text(doc, "host") {
        let mut headers: Vec<(DocValue, DocValue)> = Vec::new();
        assert(entries_model(headers@) =~= Seq::empty());
        push_option(&mut headers, "Host", DocValue::text(host.as_str()));
        assert(entries_model(headers@) =~= seq![(DocModel::Text("Host"@), DocModel::Text(host@))]);
        push_option(&mut options, "headers", DocValue::mapping_of(headers));
    }
    assert(entries_model(options@) =~= ws_options(entries_of(doc@)));
    options
}

fn read_grpc_options(doc: &DocValue) -> (r: Vec<(DocValue, DocValue)>)
    ensures
        entries_model(r@) == grpc_options(entries_of(doc@)),
{
    let mut options: Vec<(DocValue, DocValue)> = Vec::new();
    assert(entries_model(options@) =~= Seq::empty());
    if let Some(path) = read_non_empty_text(doc, "path") {
        push_option(&mut options, "grpc-service-name", DocValue::text(path.as_str()));
    }
    assert(entries_model(options@) =~= grpc_options(entries_of(doc@)));
    options
}

fn read_h2_options(doc: &DocValue) -> (r: Vec<(DocValue, DocValue)>)
    ensures
        entries_model(r@) == h2_options(entries_of(doc@)),
{
    let mut options: Vec<(DocValue, DocValue)> = Vec::new();
    assert(entries_model(options@) =~= Seq::empty());
    if let Some(path) = read_non_empty_text(doc, "path") {
        push_option(&mut options, "path", DocValue::text(path.as_str()));
    }
    if let Some(host) = read_non_empty_text(doc, "host") {
        let mut hosts: Vec<DocValue> = Vec::new();
        hosts.push(DocValue::text(host.as_str()));
        assert(items_model(hosts@) =~= seq![DocModel::Text(host@)]);
        push_option(&mut options, "host", DocValue::list_of(hosts));
    }
    assert(entries_model(options@) =~= h2_options(entries_of(doc@)));
    options
}

fn push_options_block(
    params: &mut Vec<(String, DocValue)>,
    key: &str,
    options: Vec<(DocValue, DocValue)>,
)
    ensures
        params_model(final(params)@) == params_model(old(params)@) + options_block(
            key@,
            entries_model(options@),
        ),
{
    if options.len() > 0 {
        let ghost model = entries_model(options@);
        push_param(params, key, DocValue::mapping_of(options));
        assert(params_model(params@) =~= params_model(old(params)@) + options_block(key@, model));
    } else {
        assert(params_model(params@) =~= params_model(old(params)@) + options_block(
            key@,
            entries_model(options@),
        ));
    }
}

fn push_identity(params: &mut Vec<(String, DocValue)>, doc: &DocValue)
    ensures
        params_model(final(params)@) == params_model(old(params)@) + vmess_identity(
            entries_of(doc@),
        ),
{
    if let Some(id) = doc.get_text("id") {
        push_param(params, "uuid", DocValue::text(id.as_str()));
    }
    let alter_id = read_u16_field(doc, "aid", 0);
    push_param(params, "alterId", DocValue::number(alter_id as u64));
    assert(params_model(params@) =~= params_model(old(params)@) + vmess_identity(
        entries_of(doc@),
    ));
}

fn push_cipher(params: &mut Vec<(String, DocValue)>, doc: &DocValue)
    ensures
        params_model(final(params)@) == params_model(old(params)@) + vmess_cipher(
            entries_of(doc@),
        ),
{
    if let Some(scy) = doc.get_text("scy") {
        if !same_text(scy.as_str(), "auto") {
            push_param(params, "cipher", DocValue::text(scy.as_str()));
        }
    }
    assert(params_model(params@) =~= params_model(old(params)@) + vmess_cipher(
        entries_of(doc@),
    ));
}

fn push_transport(params: &mut Vec<(String, DocValue)>, doc: &DocValue)
    ensures
        params_model(final(params)@) == params_model(old(params)@) + vmess_transport(
            entries_of(doc@),
        ),
{
    if let Some(net) = doc.get_text("net") {
        if !same_text(net.as_str(), "tcp") {
            push_param(params, "network", DocValue::text(net.as_str()));
            if same_text(net.as_str(), "ws") {
                push_options_block(params, "ws-opts", read_ws_options(doc));
            } else if same_text(net.as_str(), "grpc") {
                push_options_block(params, "grpc-opts", read_grpc_options(doc));
            } else if same_text(net.as_str(), "h2") {
                push_options_block(params, "h2-opts", read_h2_options(doc));
            }
        }
    }
    assert(params_model(params@) =~= params_model(old(params)@) + vmess_transport(
        entries_of(doc@),
    ));
}

fn push_tls(params: &mut Vec<(String, DocValue)>, doc: &DocValue)
    ensures
        params_model(final(params)@) == params_model(old(params)@) + vmess_tls(entries_of(doc@)),
{
    if let Some(tls) = doc.get_text("tls") {
        if same_text(tls.as_str(), "tls") {
            push_param(params, "tls", DocValue::Flag(true));
            if let Some(sni) = read_non_empty_text(doc, "sni") {
                push_param(params, "servername", DocValue::text(sni.as_str()));
            }
            push_param(params, "skip-cert-verify", DocValue::Flag(true));
        }
    }
    assert(params_model(params@) =~= params_model(old(params)@) + vmess_tls(entries_of(doc@)));
}

/// The descriptor that the metadata document of a vmess link describes.
pub fn vmess_descriptor(doc: &DocValue) -> (r: Result<ProxyDescriptor, EntryError>)
    ensures
        result_model(r) == vmess_entry(doc@),
{
    let server = match doc.get_text("add") {
        Some(add) => add.clone(),
        None => {
            return Err(EntryError::MissingServer);
        },
    };
    let port = read_u16_field(doc, "port", 10086);
    let display_name = match doc.get_text("ps") {
        Some(ps) => ps.clone(),
        None => make_endpoint_label(server.as_str(), port),
    };
    let mut params: Vec<(String, DocValue)> = Vec::new();
    assert(params_model(params@) =~= Seq::empty());
    push_identity(&mut params, doc);
    push_cipher(&mut params, doc);
    push_transport(&mut params, doc);
    push_tls(&mut params, doc);
    assert(params_model(params@) =~= vmess_parameters(entries_of(doc@)));
    Ok(
        ProxyDescriptor {
            display_name,
            protocol: Protocol::Vmess,
            server,
            port,
            protocol_parameters: params,
        },
    )
}

} // verus!
