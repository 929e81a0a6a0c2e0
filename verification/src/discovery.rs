//! Peers found through mDNS and the records they publish.
use vstd::prelude::*;

use crate::addresses::{ip_text, ip_text_spec};
use crate::network::IpAddress;
use crate::security::{hex32, lex_le, lex_less_or_equal, uuid_text, uuid_text_spec};
use crate::text::{append_chars, chars_of, decimal, decimal_string, parse_u64, parse_u64_spec, string_from_chars};
use crate::PROTOCOL_VERSION;

verus! {

/// The mDNS service type under which nodes publish themselves.
pub const SERVICE_TYPE: &'static str = "_bution._tcp.local.";

/// What this node publishes about itself.
#[derive(Debug, PartialEq, Eq)]
pub struct DiscoveryAdvertisement {
    pub id: u128,
    pub name: String,
    pub public_key: String,
    pub role: String,
    pub backend: String,
    pub control_port: u16,
}

/// A peer resolved on the local network.
#[derive(Debug, PartialEq, Eq)]
pub struct DiscoveredNode {
    pub id: u128,
    pub name: String,
    pub public_key: String,
    pub role: String,
    pub backend: String,
    pub addresses: Vec<IpAddress>,
    pub control_port: u16,
    pub protocol_version: u16,
}

impl Clone for DiscoveredNode {
    fn clone(&self) -> (copy: Self)
        ensures
            copy.id == self.id,
            copy.name == self.name,
            copy.public_key == self.public_key,
            copy.role == self.role,
            copy.backend == self.backend,
            copy.addresses@ == self.addresses@,
            copy.control_port == self.control_port,
            copy.protocol_version == self.protocol_version,
    {
        DiscoveredNode {
            id: self.id,
            name: self.name.clone(),
            public_key: self.public_key.clone(),
            role: self.role.clone(),
            backend: self.backend.clone(),
            addresses: self.addresses.clone(),
            control_port: self.control_port,
            protocol_version: self.protocol_version,
        }
    }
}

/// What discovery reports.
#[derive(Debug)]
pub enum DiscoveryEvent {
    Found(DiscoveredNode),
    Removed { fullname: String },
}

/// The values a resolved service record holds for the properties a node
/// publishes (looked up by key, ignoring case), and its addresses.
#[derive(Debug)]
pub struct ServiceRecord {
    pub id: Option<String>,
    pub name: Option<String>,
    pub key: Option<String>,
    pub role: Option<String>,
    pub backend: Option<String>,
    pub protocol: Option<String>,
    pub control_port: Option<String>,
    pub addresses: Vec<IpAddress>,
}

/// Why a resolved record does not describe a node.
#[derive(Debug, Clone, Copy, PartialEq, Eq, Structural)]
pub enum DiscoveryError {
    MissingId,
    InvalidId,
    MissingProtocol,
    InvalidProtocol,
    MissingControlPort,
    InvalidControlPort,
    MissingName,
    MissingKey,
    MissingRole,
    MissingBackend,
}

impl DiscoveryError {
    /// The message shown for this error.
    pub fn message(&self) -> (text: &'static str)
        ensures
            text@ == (match *self {
                DiscoveryError::MissingId => "mDNS record is missing id"@,
                DiscoveryError::InvalidId => "mDNS record has an invalid node UUID"@,
                DiscoveryError::MissingProtocol => "mDNS record is missing protocol"@,
                DiscoveryError::InvalidProtocol => "mDNS record has an invalid protocol version"@,
                DiscoveryError::MissingControlPort => "mDNS record is missing control_port"@,
                DiscoveryError::InvalidControlPort => "mDNS record has an invalid control port"@,
                DiscoveryError::MissingName => "mDNS record is missing name"@,
                DiscoveryError::MissingKey => "mDNS record is missing key"@,
                DiscoveryError::MissingRole => "mDNS record is missing role"@,
                DiscoveryError::MissingBackend => "mDNS record is missing backend"@,
            }),
    {
        match self {
            DiscoveryError::MissingId => "mDNS record is missing id",
            DiscoveryError::InvalidId => "mDNS record has an invalid node UUID",
            DiscoveryError::MissingProtocol => "mDNS record is missing protocol",
            DiscoveryError::InvalidProtocol => "mDNS record has an invalid protocol version",
            DiscoveryError::MissingControlPort => "mDNS record is missing control_port",
            DiscoveryError::InvalidControlPort => "mDNS record has an invalid control port",
            DiscoveryError::MissingName => "mDNS record is missing name",
            DiscoveryError::MissingKey => "mDNS record is missing key",
            DiscoveryError::MissingRole => "mDNS record is missing role",
            DiscoveryError::MissingBackend => "mDNS record is missing backend",
        }
    }
}

/// The host name a node publishes: `bution-<32 hex digits of its id>.local.`.
pub open spec fn hostname_spec(id: u128) -> Seq<char> {
    "bution-"@ + hex32(id) + ".local."@
}

pub fn advertisement_hostname(id: u128) -> (name: String)
    ensures
        name@ == hostname_spec(id),
{
    let mut out = chars_of("bution-");
    append_chars(&mut out, &crate::security::hex_digits(id));
    append_chars(&mut out, &chars_of(".local."));
    string_from_chars(&out)
}

/// The TXT properties a node publishes, in order: id, name, key, role,
/// backend, protocol and control port.
pub open spec fn properties_spec(ad: DiscoveryAdvertisement) -> Seq<(Seq<char>, Seq<char>)> {
    seq![
        ("id"@, uuid_text_spec(ad.id)),
        ("name"@, ad.name@),
        ("key"@, ad.public_key@),
        ("role"@, ad.role@),
        ("backend"@, ad.backend@),
        ("protocol"@, decimal(PROTOCOL_VERSION as nat)),
        ("control_port"@, decimal(ad.control_port as nat)),
    ]
}

pub open spec fn pair_texts(v: Seq<(String, String)>) -> Seq<(Seq<char>, Seq<char>)> {
    v.map_values(|p: (String, String)| (p.0@, p.1@))
}

/// The TXT properties of an advertisement.
pub fn advertisement_properties(ad: &DiscoveryAdvertisement) -> (props: Vec<(String, String)>)
    ensures
        pair_texts(props@) == properties_spec(*ad),
{
    let mut props: Vec<(String, String)> = Vec::new();
    props.push(("id".to_owned(), uuid_text(ad.id)));
    props.push(("name".to_owned(), ad.name.clone()));
    props.push(("key".to_owned(), ad.public_key.clone()));
    props.push(("role".to_owned(), ad.role.clone()));
    props.push(("backend".to_owned(), ad.backend.clone()));
    props.push(("protocol".to_owned(), decimal_string(PROTOCOL_VERSION as u64)));
    props.push(("control_port".to_owned(), decimal_string(ad.control_port as u64)));
    proof {
        assert(pair_texts(props@) =~= properties_spec(*ad));
    }
    props
}

/// What `uuid::Uuid::from_str` reads from a text, as the 128-bit value.
pub uninterp spec fn uuid_parse(text: Seq<char>) -> Option<u128>;

/// `uuid::Uuid::parse_str`: the contract names the result, and states what
/// the crate documents of the hyphenated lowercase form its `Display`
/// writes: such a text reads back as the UUID it shows.
#[verifier::external_body]
fn parse_uuid(text: &str) -> (id: Option<u128>)
    ensures
        id == uuid_parse(text@),
        forall|x: u128| text@ == uuid_text_spec(x) ==> id == Some(x),
{
    uuid::Uuid::parse_str(text).ok().map(|u| u.as_u128())
}

/// What `str::parse::<u16>` returns.
pub open spec fn parse_u16_spec(s: Seq<char>) -> Option<u16> {
    match parse_u64_spec(s) {
        Some(v) => if v <= 0xffff {
            Some(v as u16)
        } else {
            None
        },
        None => None,
    }
}

fn parse_u16(s: &str) -> (r: Option<u16>)
    ensures
        r == parse_u16_spec(s@),
{
    match parse_u64(&chars_of(s)) {
        Some(v) => if v <= 0xffff {
            Some(v as u16)
        } else {
            None
        },
        None => None,
    }
}

/// Addresses are listed IPv4 first, then by their text.
pub open spec fn address_le(a: IpAddress, b: IpAddress) -> bool {
    if a is V4 && b is V6 {
        true
    } else if a is V6 && b is V4 {
        false
    } else {
        lex_le(ip_text_spec(a), ip_text_spec(b))
    }
}

/// `x` inserted after every address of `sorted` that is not after it.
pub open spec fn insert_address(sorted: Seq<IpAddress>, x: IpAddress) -> Seq<IpAddress>
    decreases sorted.len(),
{
    if sorted.len() == 0 {
        seq![x]
    } else if !address_le(sorted.last(), x) {
        insert_address(sorted.drop_last(), x).push(sorted.last())
    } else {
        sorted.push(x)
    }
}

/// A stable sort of addresses by family, then text.
pub open spec fn sorted_addresses(s: Seq<IpAddress>) -> Seq<IpAddress>
    decreases s.len(),
{
    if s.len() == 0 {
        Seq::empty()
    } else {
        insert_address(sorted_addresses(s.drop_last()), s.last())
    }
}

proof fn lemma_insert_address_at(s: Seq<IpAddress>, x: IpAddress, j: int)
    requires
        0 <= j <= s.len(),
        j == 0 || address_le(s[j - 1], x),
        forall|m: int| j <= m < s.len() ==> !address_le(#[trigger] s[m], x),
    ensures
        insert_address(s, x) == s.insert(j, x),
    decreases s.len(),
{
    if s.len() == 0 {
        assert(s.insert(j, x) =~= seq![x]);
    } else if j == s.len() {
        assert(s.insert(j, x) =~= s.push(x));
    } else {
        let t = s.drop_last();
        assert(!address_le(s[s.len() - 1], x));
        lemma_insert_address_at(t, x, j);
        assert(t.insert(j, x).push(s.last()) =~= s.insert(j, x));
    }
}

fn address_le_exec(a: IpAddress, b: IpAddress) -> (le: bool)
    ensures
        le == address_le(a, b),
{
    if a.is_ipv4() && b.is_ipv6() {
        return true;
    }
    if a.is_ipv6() && b.is_ipv4() {
        return false;
    }
    let x = ip_text(a);
    let y = ip_text(b);
    lex_less_or_equal(&chars_of(x.as_str()), &chars_of(y.as_str()))
}

/// Orders addresses IPv4 first, then by text, keeping equal ones in order.
pub fn sort_addresses(addresses: &Vec<IpAddress>) -> (out: Vec<IpAddress>)
    ensures
        out@ == sorted_addresses(addresses@),
{
    let mut out: Vec<IpAddress> = Vec::new();
    for k in 0..addresses.len()
        invariant
            out@ == sorted_addresses(addresses@.take(k as int)),
    {
        let x = addresses[k];
        let mut j = out.len();
        while j > 0 && !address_le_exec(out[j - 1], x)
            invariant
                j <= out@.len(),
                forall|m: int| j <= m < out@.len() ==> !address_le(#[trigger] out@[m], x),
            decreases j,
        {
            j -= 1;
        }
        proof {
            lemma_insert_address_at(out@, x, j as int);
            assert(addresses@.take(k + 1).drop_last() =~= addresses@.take(k as int));
        }
        out.insert(j, x);
    }
    proof {
        assert(addresses@.take(addresses@.len() as int) =~= addresses@);
    }
    out
}

/// A record holding the values an advertisement publishes.
pub open spec fn carries(record: ServiceRecord, ad: DiscoveryAdvertisement) -> bool {
    &&& record.id matches Some(t) && t@ == uuid_text_spec(ad.id)
    &&& record.name matches Some(t) && t@ == ad.name@
    &&& record.key matches Some(t) && t@ == ad.public_key@
    &&& record.role matches Some(t) && t@ == ad.role@
    &&& record.backend matches Some(t) && t@ == ad.backend@
    &&& record.protocol matches Some(t) && t@ == decimal(PROTOCOL_VERSION as nat)
    &&& record.control_port matches Some(t) && t@ == decimal(ad.control_port as nat)
}

/// The node a record describes, checking in order the id, protocol and
/// control port (present and readable), then name, key, role and backend
/// (present).
pub open spec fn parse_record_spec(record: ServiceRecord) -> Result<(u128, u16, u16), DiscoveryError> {
    match record.id {
        None => Err(DiscoveryError::MissingId),
        Some(id) => match uuid_parse(id@) {
            None => Err(DiscoveryError::InvalidId),
            Some(id) => match record.protocol {
                None => Err(DiscoveryError::MissingProtocol),
                Some(p) => match parse_u16_spec(p@) {
                    None => Err(DiscoveryError::InvalidProtocol),
                    Some(protocol) => match record.control_port {
                        None => Err(DiscoveryError::MissingControlPort),
                        Some(c) => match parse_u16_spec(c@) {
                            None => Err(DiscoveryError::InvalidControlPort),
                            Some(port) => if record.name is None {
                                Err(DiscoveryError::MissingName)
                            } else if record.key is None {
                                Err(DiscoveryError::MissingKey)
                            } else if record.role is None {
                                Err(DiscoveryError::MissingRole)
                            } else if record.backend is None {
                                Err(DiscoveryError::MissingBackend)
                            } else {
                                Ok((id, protocol, port))
                            },
                        },
                    },
                },
            },
        },
    }
}

/// Reads the node a resolved record describes, its addresses sorted
/// IPv4 first and then by text.
pub fn parse_service_record(record: ServiceRecord) -> (r: Result<DiscoveredNode, DiscoveryError>)
    ensures
        match parse_record_spec(record) {
            Err(e) => r == Err::<DiscoveredNode, DiscoveryError>(e),
            Ok((id, protocol, port)) => r matches Ok(node) && node.id == id && node.protocol_version == protocol
                && node.control_port == port && Some(node.name) == record.name && Some(node.public_key)
                == record.key && Some(node.role) == record.role && Some(node.backend) == record.backend
                && node.addresses@ == sorted_addresses(record.addresses@),
        },
        forall|ad: DiscoveryAdvertisement| #[trigger] carries(record, ad) ==> (r matches Ok(node) && node.id == ad.id
            && node.name@ == ad.name@ && node.public_key@ == ad.public_key@ && node.role@ == ad.role@
            && node.backend@ == ad.backend@ && node.protocol_version == PROTOCOL_VERSION && node.control_port
            == ad.control_port),
{
    proof {
        crate::text::lemma_decimal_parses(PROTOCOL_VERSION as nat);
        assert forall|n: u16| parse_u16_spec(#[trigger] decimal(n as nat)) == Some(n) by {
            crate::text::lemma_decimal_parses(n as nat);
        }
    }
    let id = match &record.id {
        None => return Err(DiscoveryError::MissingId),
        Some(text) => match parse_uuid(text.as_str()) {
            None => return Err(DiscoveryError::InvalidId),
            Some(id) => id,
        },
    };
    let protocol_version = match &record.protocol {
        None => return Err(DiscoveryError::MissingProtocol),
        Some(text) => match parse_u16(text.as_str()) {
            None => return Err(DiscoveryError::InvalidProtocol),
            Some(v) => v,
        },
    };
    let control_port = match &record.control_port {
        None => return Err(DiscoveryError::MissingControlPort),
        Some(text) => match parse_u16(text.as_str()) {
            None => return Err(DiscoveryError::InvalidControlPort),
            Some(v) => v,
        },
    };
    let addresses = sort_addresses(&record.addresses);
    let ServiceRecord { id: _, name, key, role, backend, protocol: _, control_port: _, addresses: _ } = record;
    let name = match name {
        None => return Err(DiscoveryError::MissingName),
        Some(v) => v,
    };
    let public_key = match key {
        None => return Err(DiscoveryError::MissingKey),
        Some(v) => v,
    };
    let role = match role {
        None => return Err(DiscoveryError::MissingRole),
        Some(v) => v,
    };
    let backend = match backend {
        None => return Err(DiscoveryError::MissingBackend),
        Some(v) => v,
    };
    Ok(DiscoveredNode { id, name, public_key, role, backend, addresses, control_port, protocol_version })
}

/// A resolved node is reported unless it is this node itself.
pub fn resolved_event(node: DiscoveredNode, local_id: u128) -> (event: Option<DiscoveryEvent>)
    ensures
        node.id == local_id <==> event is None,
        event matches Some(e) ==> e matches DiscoveryEvent::Found(n) && n == node,
{
    if node.id == local_id {
        None
    } else {
        Some(DiscoveryEvent::Found(node))
    }
}

/// A removed service is reported unless it is this node's own.
pub fn removed_event(fullname: String, own_fullname: &str) -> (event: Option<DiscoveryEvent>)
    ensures
        fullname@ == own_fullname@ <==> event is None,
        event matches Some(e) ==> e matches DiscoveryEvent::Removed { fullname: f } && f == fullname,
{
    if crate::text::same_text(fullname.as_str(), own_fullname) {
        None
    } else {
        Some(DiscoveryEvent::Removed { fullname })
    }
}

} // verus!
