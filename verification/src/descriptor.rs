//! The normalized description of one proxy endpoint.

use crate::text::{chars_of, decimal_digits, push_decimal, same_text, text_of};
use crate::value::{DocModel, DocValue};
use vstd::prelude::*;
use vstd::string::StringExecFns;

verus! {

/// The protocol that a proxy speaks.
#[derive(Debug, Clone, PartialEq, Eq)]
pub enum Protocol {
    Shadowsocks,
    Trojan,
    Vless,
    Vmess,
    Socks5,
    /// Any other protocol, by its tag.
    Other(String),
}

/// The mathematical model of a [`Protocol`].
pub enum ProtocolModel {
    Shadowsocks,
    Trojan,
    Vless,
    Vmess,
    Socks5,
    Other(Seq<char>),
}

impl View for Protocol {
    type V = ProtocolModel;

    open spec fn view(&self) -> ProtocolModel {
        match self {
            Protocol::Shadowsocks => ProtocolModel::Shadowsocks,
            Protocol::Trojan => ProtocolModel::Trojan,
            Protocol::Vless => ProtocolModel::Vless,
            Protocol::Vmess => ProtocolModel::Vmess,
            Protocol::Socks5 => ProtocolModel::Socks5,
            Protocol::Other(tag) => ProtocolModel::Other(tag@),
        }
    }
}

/// The protocol that a tag (a URI scheme, or the `type` of a structured
/// entry) names.
pub open spec fn protocol_of_tag(tag: Seq<char>) -> ProtocolModel {
    if tag == "ss"@ {
        ProtocolModel::Shadowsocks
    } else if tag == "trojan"@ {
        ProtocolModel::Trojan
    } else if tag == "vless"@ {
        ProtocolModel::Vless
    } else if tag == "vmess"@ {
        ProtocolModel::Vmess
    } else if tag == "socks5"@ {
        ProtocolModel::Socks5
    } else {
        ProtocolModel::Other(tag)
    }
}

/// The tag of a protocol.
pub open spec fn tag_of(protocol: ProtocolModel) -> Seq<char> {
    match protocol {
        ProtocolModel::Shadowsocks => "ss"@,
        ProtocolModel::Trojan => "trojan"@,
        ProtocolModel::Vless => "vless"@,
        ProtocolModel::Vmess => "vmess"@,
        ProtocolModel::Socks5 => "socks5"@,
        ProtocolModel::Other(tag) => tag,
    }
}

/// A protocol is the one that its tag names (but a protocol kept by a tag
/// that names one of the five known protocols).
pub proof fn lemma_tag_names_its_protocol(protocol: ProtocolModel)
    requires
        protocol matches ProtocolModel::Other(tag) ==> protocol_of_tag(tag) is Other,
    ensures
        protocol_of_tag(tag_of(protocol)) == protocol,
{
    reveal_strlit("ss");
    reveal_strlit("trojan");
    reveal_strlit("vless");
    reveal_strlit("vmess");
    reveal_strlit("socks5");
    assert("ss"@.len() == 2 && "trojan"@.len() == 6 && "vless"@.len() == 5 && "vmess"@.len() == 5
        && "socks5"@.len() == 6);
    assert("vless"@[1] != "vmess"@[1]);
    assert("trojan"@[0] != "socks5"@[0]);
    match protocol {
        ProtocolModel::Shadowsocks => {},
        ProtocolModel::Trojan => {
            assert("trojan"@ != "ss"@);
        },
        ProtocolModel::Vless => {
            assert("vless"@ != "ss"@ && "vless"@ != "trojan"@);
        },
        ProtocolModel::Vmess => {
            assert("vmess"@ != "ss"@ && "vmess"@ != "trojan"@ && "vmess"@ != "vless"@);
        },
        ProtocolModel::Socks5 => {
            assert("socks5"@ != "ss"@ && "socks5"@ != "trojan"@ && "socks5"@ != "vless"@
                && "socks5"@ != "vmess"@);
        },
        ProtocolModel::Other(tag) => {},
    }
}

impl Protocol {
    /// The protocol that `tag` names.
    pub fn from_tag(tag: &str) -> (r: Protocol)
        ensures
            r@ == protocol_of_tag(tag@),
    {
        if same_text(tag, "ss") {
            Protocol::Shadowsocks
        } else if same_text(tag, "trojan") {
            Protocol::Trojan
        } else if same_text(tag, "vless") {
            Protocol::Vless
        } else if same_text(tag, "vmess") {
            Protocol::Vmess
        } else if same_text(tag, "socks5") {
            Protocol::Socks5
        } else {
            Protocol::Other(String::from_str(tag))
        }
    }

    /// The tag of this protocol.
    pub fn tag(&self) -> (r: String)
        ensures
            r@ == tag_of(self@),
    {
        match self {
            Protocol::Shadowsocks => String::from_str("ss"),
            Protocol::Trojan => String::from_str("trojan"),
            Protocol::Vless => String::from_str("vless"),
            Protocol::Vmess => String::from_str("vmess"),
            Protocol::Socks5 => String::from_str("socks5"),
            Protocol::Other(tag) => tag.clone(),
        }
    }
}

/// One parsed proxy entry. The parameters are protocol-specific and keep the
/// order in which they were found.
///
/// The parser takes server, port and parameters as the entry gives them.
/// Whether they are fit for use ([`ProxyDescriptor::wf`], and the parameters
/// that the protocol needs) is for the proxy runtime to say when it builds a
/// handler; [`check_descriptor`] tests the part that this library knows.
#[derive(Debug, PartialEq, Eq)]
pub struct ProxyDescriptor {
    pub display_name: String,
    pub protocol: Protocol,
    pub server: String,
    pub port: u16,
    pub protocol_parameters: Vec<(String, DocValue)>,
}

/// The mathematical model of a [`ProxyDescriptor`].
pub struct DescriptorModel {
    pub display_name: Seq<char>,
    pub protocol: ProtocolModel,
    pub server: Seq<char>,
    pub port: u16,
    pub parameters: Seq<(Seq<char>, DocModel)>,
}

impl DescriptorModel {
    /// What a descriptor has to meet before a handler is built from it: the
    /// server is named and the port is between 1 and 65535.
    pub open spec fn wf(self) -> bool {
        self.server.len() > 0 && self.port >= 1
    }
}

/// The models of a list of parameters.
pub open spec fn params_model(params: Seq<(String, DocValue)>) -> Seq<(Seq<char>, DocModel)> {
    Seq::new(params.len(), |i: int| (params[i].0@, params[i].1@))
}

impl View for ProxyDescriptor {
    type V = DescriptorModel;

    open spec fn view(&self) -> DescriptorModel {
        DescriptorModel {
            display_name: self.display_name@,
            protocol: self.protocol@,
            server: self.server@,
            port: self.port,
            parameters: params_model(self.protocol_parameters@),
        }
    }
}

impl ProxyDescriptor {
    /// The server is named and the port is between 1 and 65535.
    pub open spec fn wf(&self) -> bool {
        self@.wf()
    }
}

/// The models of a list of descriptors.
pub open spec fn descriptors_model(list: Seq<ProxyDescriptor>) -> Seq<DescriptorModel> {
    Seq::new(list.len(), |i: int| list[i]@)
}

/// The first descriptor with the display name `name`, if there is one.
pub open spec fn first_named(descriptors: Seq<DescriptorModel>, name: Seq<char>) -> Option<
    DescriptorModel,
>
    decreases descriptors.len(),
{
    if descriptors.len() == 0 {
        None
    } else if descriptors.first().display_name == name {
        Some(descriptors.first())
    } else {
        first_named(descriptors.drop_first(), name)
    }
}

/// The endpoint of a handler, found by its name: server and port of the
/// first descriptor with this display name.
pub fn endpoint_for(descriptors: &Vec<ProxyDescriptor>, name: &str) -> (r: Option<(String, u16)>)
    ensures
        match r {
            Some((server, port)) => first_named(descriptors_model(descriptors@), name@) matches Some(
                d,
            ) && d.server == server@ && d.port == port,
            None => first_named(descriptors_model(descriptors@), name@) is None,
        },
{
    let ghost all = descriptors_model(descriptors@);
    let mut i: usize = 0;
    assert(all.skip(0) =~= all);
    while i < descriptors.len()
        invariant
            i <= descriptors@.len(),
            all == descriptors_model(descriptors@),
            first_named(all, name@) == first_named(all.skip(i as int), name@),
        decreases descriptors@.len() - i,
    {
        assert(all.skip(i as int).first() == descriptors@[i as int]@);
        assert(all.skip(i as int).drop_first() =~= all.skip(i + 1));
        if same_text(descriptors[i].display_name.as_str(), name) {
            return Some((descriptors[i].server.clone(), descriptors[i].port));
        }
        i = i + 1;
    }
    None
}

/// The value of the first parameter named `key`, if there is one.
pub open spec fn parameter(params: Seq<(Seq<char>, DocModel)>, key: Seq<char>) -> Option<
    DocModel,
>
    decreases params.len(),
{
    if params.len() == 0 {
        None
    } else if params.first().0 == key {
        Some(params.first().1)
    } else {
        parameter(params.drop_first(), key)
    }
}

impl ProxyDescriptor {
    /// The value of the first parameter named `key`, if there is one.
    pub fn parameter(&self, key: &str) -> (r: Option<&DocValue>)
        ensures
            match r {
                Some(v) => parameter(self@.parameters, key@) == Some(v@),
                None => parameter(self@.parameters, key@) is None,
            },
    {
        let mut i: usize = 0;
        assert(self@.parameters.skip(0) =~= self@.parameters);
        while i < self.protocol_parameters.len()
            invariant
                i <= self.protocol_parameters@.len(),
                parameter(self@.parameters, key@) == parameter(
                    self@.parameters.skip(i as int),
                    key@,
                ),
            decreases self.protocol_parameters@.len() - i,
        {
            let ghost rest = self@.parameters.skip(i as int);
            assert(rest.first() == (
                self.protocol_parameters@[i as int].0@,
                self.protocol_parameters@[i as int].1@,
            ));
            assert(rest.drop_first() =~= self@.parameters.skip(i + 1));
            if same_text(self.protocol_parameters[i].0.as_str(), key) {
                return Some(&self.protocol_parameters[i].1);
            }
            i = i + 1;
        }
        None
    }
}

/// Why one subscription entry did not become a descriptor.
#[derive(Debug, Clone, Copy, PartialEq, Eq, Structural)]
pub enum EntryError {
    /// The line is not a URI.
    InvalidUri,
    /// The scheme names no supported protocol.
    UnsupportedProtocol,
    /// The URI has no host part.
    MissingHost,
    /// The metadata of a vmess link is not base64 of UTF-8 text.
    InvalidEncoding,
    /// The metadata of a vmess link is not a JSON document.
    InvalidDocument,
    /// No server is given; for [`check_descriptor`], an empty one.
    MissingServer,
    /// A structured entry gives no number that denotes a port; for
    /// [`check_descriptor`], the port is 0.
    InvalidPort,
    /// A structured entry is not a mapping.
    NotAMapping,
    /// A structured entry has no `name`.
    MissingName,
    /// A structured entry has no `type`.
    MissingType,
}

/// The model of what reading one entry gave.
pub open spec fn result_model(r: Result<ProxyDescriptor, EntryError>) -> Result<
    DescriptorModel,
    EntryError,
> {
    match r {
        Ok(d) => Ok(d@),
        Err(e) => Err(e),
    }
}

/// A descriptor is fit for use where its server is named and its port is not
/// 0. The parser does not ask this of what it reads.
pub open spec fn checked(d: DescriptorModel) -> Result<DescriptorModel, EntryError> {
    if d.server.len() == 0 {
        Err(EntryError::MissingServer)
    } else if d.port == 0 {
        Err(EntryError::InvalidPort)
    } else {
        Ok(d)
    }
}

/// The name of an endpoint that has no other: `server:port`.
pub open spec fn endpoint_label(server: Seq<char>, port: u16) -> Seq<char> {
    server.push(':') + decimal_digits(port as nat)
}

/// The name `server:port`.
pub fn make_endpoint_label(server: &str, port: u16) -> (r: String)
    ensures
        r@ == endpoint_label(server@, port),
{
    let mut chars = chars_of(server);
    chars.push(':');
    push_decimal(&mut chars, port as u64);
    text_of(&chars)
}

/// Appends the parameter `key` with the value `value`.
pub fn push_param(params: &mut Vec<(String, DocValue)>, key: &str, value: DocValue)
    ensures
        params_model(final(params)@) == params_model(old(params)@).push((key@, value@)),
{
    params.push((String::from_str(key), value));
    assert(params_model(params@) =~= params_model(old(params)@).push((key@, value@)));
}

/// Accepts a descriptor whose server is named and whose port is not 0, for a
/// caller that wants to know before it hands the descriptor on.
pub fn check_descriptor(d: ProxyDescriptor) -> (r: Result<ProxyDescriptor, EntryError>)
    ensures
        result_model(r) == checked(d@),
        r matches Ok(accepted) ==> accepted.wf(),
{
    if d.server.as_str().is_empty() {
        Err(EntryError::MissingServer)
    } else if d.port == 0 {
        Err(EntryError::InvalidPort)
    } else {
        Ok(d)
    }
}

} // verus!
