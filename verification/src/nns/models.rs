//! Nostr name system claims: what a kind-34256 event says about a name.
use vstd::prelude::*;

use crate::hexcode::{all_hex_digits, hex_bytes, hex_decode, hex_encode, hex_text};
use crate::net::nostr_client::{
    event_verify_outcome, npub_from_hex, npub_outcome, verify_event, NnsEvent, RelayEvent,
};
use crate::text::{
    prefixed,
    append_chars, ascii_lowercase, chars_of, decimal_string, parse_unsigned, parse_unsigned_chars,
    str_equal, string_from_chars, to_ascii_lowercase, to_ascii_lowercase_string,
};
use crate::weburl::{
    parse_socket_addr, socket_addr_outcome, url_parse, url_parse_outcome, UrlParts,
};

verus! {

/// Why an event is not a usable claim.
#[derive(Debug, Clone, PartialEq, Eq)]
pub enum ModelError {
    MissingName,
    NameMismatch,
    MissingLocation,
    InvalidIp(String),
    MissingServers,
    InvalidServer(String),
    InvalidEndpoint(String),
    UnsupportedTransport(String),
    InvalidEndpointPriority(String),
    InvalidTlsPubkey(String),
    UnsupportedTlsAlgorithm(String),
    InvalidSignature(String),
    Bech32(String),
}

/// The message of each claim error.
pub open spec fn model_error_text(e: ModelError) -> Seq<char> {
    match e {
        ModelError::MissingName => "missing d tag"@,
        ModelError::NameMismatch => "name mismatch"@,
        ModelError::MissingLocation => "missing location tag (ip or blossom)"@,
        ModelError::InvalidIp(s) => "invalid ip value: "@ + s@,
        ModelError::MissingServers => "missing blossom servers"@,
        ModelError::InvalidServer(s) => "invalid blossom server url: "@ + s@,
        ModelError::InvalidEndpoint(s) => "invalid endpoint value: "@ + s@,
        ModelError::UnsupportedTransport(s) => "unsupported endpoint transport: "@ + s@,
        ModelError::InvalidEndpointPriority(s) => "invalid endpoint priority: "@ + s@,
        ModelError::InvalidTlsPubkey(s) => "invalid tls pubkey: "@ + s@,
        ModelError::UnsupportedTlsAlgorithm(s) => "unsupported tls algorithm: "@ + s@,
        ModelError::InvalidSignature(s) => "event signature invalid: "@ + s@,
        ModelError::Bech32(s) => "failed to convert pubkey to bech32: "@ + s@,
    }
}

impl ModelError {
    /// The error's message.
    pub fn message(&self) -> (r: String)
        ensures
            r@ == model_error_text(*self),
    {
        match self {
            ModelError::MissingName => String::from_str("missing d tag"),
            ModelError::NameMismatch => String::from_str("name mismatch"),
            ModelError::MissingLocation => String::from_str("missing location tag (ip or blossom)"),
            ModelError::InvalidIp(s) => prefixed("invalid ip value: ", s.as_str()),
            ModelError::MissingServers => String::from_str("missing blossom servers"),
            ModelError::InvalidServer(s) => prefixed("invalid blossom server url: ", s.as_str()),
            ModelError::InvalidEndpoint(s) => prefixed("invalid endpoint value: ", s.as_str()),
            ModelError::UnsupportedTransport(s) => prefixed(
                "unsupported endpoint transport: ",
                s.as_str(),
            ),
            ModelError::InvalidEndpointPriority(s) => prefixed(
                "invalid endpoint priority: ",
                s.as_str(),
            ),
            ModelError::InvalidTlsPubkey(s) => prefixed("invalid tls pubkey: ", s.as_str()),
            ModelError::UnsupportedTlsAlgorithm(s) => prefixed(
                "unsupported tls algorithm: ",
                s.as_str(),
            ),
            ModelError::InvalidSignature(s) => prefixed("event signature invalid: ", s.as_str()),
            ModelError::Bech32(s) => prefixed("failed to convert pubkey to bech32: ", s.as_str()),
        }
    }
}

/// A `ModelError` with its text as character sequences.
pub enum ModelFault {
    MissingName,
    NameMismatch,
    MissingLocation,
    InvalidIp(Seq<char>),
    MissingServers,
    InvalidServer(Seq<char>),
    InvalidEndpoint(Seq<char>),
    UnsupportedTransport(Seq<char>),
    InvalidEndpointPriority(Seq<char>),
    InvalidTlsPubkey(Seq<char>),
    UnsupportedTlsAlgorithm(Seq<char>),
    InvalidSignature(Seq<char>),
    Bech32(Seq<char>),
}

impl View for ModelError {
    type V = ModelFault;

    open spec fn view(&self) -> ModelFault {
        match self {
            ModelError::MissingName => ModelFault::MissingName,
            ModelError::NameMismatch => ModelFault::NameMismatch,
            ModelError::MissingLocation => ModelFault::MissingLocation,
            ModelError::InvalidIp(s) => ModelFault::InvalidIp(s@),
            ModelError::MissingServers => ModelFault::MissingServers,
            ModelError::InvalidServer(s) => ModelFault::InvalidServer(s@),
            ModelError::InvalidEndpoint(s) => ModelFault::InvalidEndpoint(s@),
            ModelError::UnsupportedTransport(s) => ModelFault::UnsupportedTransport(s@),
            ModelError::InvalidEndpointPriority(s) => ModelFault::InvalidEndpointPriority(s@),
            ModelError::InvalidTlsPubkey(s) => ModelFault::InvalidTlsPubkey(s@),
            ModelError::UnsupportedTlsAlgorithm(s) => ModelFault::UnsupportedTlsAlgorithm(s@),
            ModelError::InvalidSignature(s) => ModelFault::InvalidSignature(s@),
            ModelError::Bech32(s) => ModelFault::Bech32(s@),
        }
    }
}

/// What a claimed name is used for.
#[derive(Debug, Clone, PartialEq, Eq)]
pub enum ServiceKind {
    Site,
    BlossomSite,
    BlossomServer,
    Relay,
    Api,
    Other(String),
}

pub enum ServiceKindView {
    Site,
    BlossomSite,
    BlossomServer,
    Relay,
    Api,
    Other(Seq<char>),
}

impl View for ServiceKind {
    type V = ServiceKindView;

    open spec fn view(&self) -> ServiceKindView {
        match self {
            ServiceKind::Site => ServiceKindView::Site,
            ServiceKind::BlossomSite => ServiceKindView::BlossomSite,
            ServiceKind::BlossomServer => ServiceKindView::BlossomServer,
            ServiceKind::Relay => ServiceKindView::Relay,
            ServiceKind::Api => ServiceKindView::Api,
            ServiceKind::Other(s) => ServiceKindView::Other(s@),
        }
    }
}

/// The service kind a `svc` tag names (case-insensitively); unknown names are kept as they are.
pub open spec fn service_kind_from_tag(v: Seq<char>) -> ServiceKindView {
    let l = ascii_lowercase(v);
    if l == "site"@ {
        ServiceKindView::Site
    } else if l == "blossom-site"@ {
        ServiceKindView::BlossomSite
    } else if l == "blossom-server"@ {
        ServiceKindView::BlossomServer
    } else if l == "relay"@ {
        ServiceKindView::Relay
    } else if l == "api"@ {
        ServiceKindView::Api
    } else {
        ServiceKindView::Other(v)
    }
}

impl ServiceKind {
    pub fn from_tag(value: &str) -> (r: ServiceKind)
        ensures
            r@ == service_kind_from_tag(value@),
    {
        let lowered = to_ascii_lowercase_string(value);
        let l = lowered.as_str();
        if str_equal(l, "site") {
            ServiceKind::Site
        } else if str_equal(l, "blossom-site") {
            ServiceKind::BlossomSite
        } else if str_equal(l, "blossom-server") {
            ServiceKind::BlossomServer
        } else if str_equal(l, "relay") {
            ServiceKind::Relay
        } else if str_equal(l, "api") {
            ServiceKind::Api
        } else {
            ServiceKind::Other(String::from_str(value))
        }
    }
}

/// How a service endpoint is reached.
#[derive(Debug, Clone, Copy, PartialEq, Eq, Hash, Structural)]
pub enum TransportKind {
    Https,
    Wss,
}

/// The transport an `endpoint` tag names (case-insensitively).
pub open spec fn transport_from(raw: Seq<char>) -> Result<TransportKind, ModelFault> {
    let l = ascii_lowercase(raw);
    if l == "https"@ {
        Ok(TransportKind::Https)
    } else if l == "wss"@ {
        Ok(TransportKind::Wss)
    } else {
        Err(ModelFault::UnsupportedTransport(raw))
    }
}

impl TransportKind {
    pub fn from_str(raw: &str) -> (r: Result<TransportKind, ModelError>)
        ensures
            match r {
                Ok(t) => transport_from(raw@) == Ok::<TransportKind, ModelFault>(t),
                Err(e) => transport_from(raw@) == Err::<TransportKind, ModelFault>(e@),
            },
    {
        let lowered = to_ascii_lowercase_string(raw);
        if str_equal(lowered.as_str(), "https") {
            Ok(TransportKind::Https)
        } else if str_equal(lowered.as_str(), "wss") {
            Ok(TransportKind::Wss)
        } else {
            Err(ModelError::UnsupportedTransport(String::from_str(raw)))
        }
    }
}

/// An advertised endpoint for a claimed name.
#[derive(Debug, Clone, PartialEq, Eq)]
pub struct ServiceEndpoint {
    pub transport: TransportKind,
    pub socket_addr: String,
    pub priority: u8,
}

/// An endpoint as (transport, socket address text, priority).
pub type EndpointView = (TransportKind, Seq<char>, u8);

impl View for ServiceEndpoint {
    type V = EndpointView;

    open spec fn view(&self) -> EndpointView {
        (self.transport, self.socket_addr@, self.priority)
    }
}

pub open spec fn endpoints_view(v: Seq<ServiceEndpoint>) -> Seq<EndpointView> {
    Seq::new(v.len(), |i: int| v[i]@)
}

/// An endpoint from its parts: the address must parse as a socket address and the
/// priority, when given, as a `u8`; without one the priority is 0.
pub open spec fn endpoint_from(t: TransportKind, addr: Seq<char>, prio: Option<Seq<char>>) -> Result<
    EndpointView,
    ModelFault,
> {
    if socket_addr_outcome(addr) is None {
        Err(ModelFault::InvalidEndpoint(addr))
    } else {
        match prio {
            Some(raw) => match parse_unsigned(raw, 255) {
                Some(p) => Ok((t, addr, p as u8)),
                None => Err(ModelFault::InvalidEndpointPriority(raw)),
            },
            None => Ok((t, addr, 0u8)),
        }
    }
}

impl ServiceEndpoint {
    pub fn new(transport: TransportKind, socket_addr: &str, priority_raw: Option<&str>) -> (r:
        Result<ServiceEndpoint, ModelError>)
        ensures
            match r {
                Ok(ep) => endpoint_from(transport, socket_addr@, opt_str_view(priority_raw))
                    == Ok::<EndpointView, ModelFault>(ep@),
                Err(e) => endpoint_from(transport, socket_addr@, opt_str_view(priority_raw))
                    == Err::<EndpointView, ModelFault>(e@),
            },
    {
        if parse_socket_addr(socket_addr).is_none() {
            return Err(ModelError::InvalidEndpoint(String::from_str(socket_addr)));
        }
        let priority: u8 = match priority_raw {
            Some(raw) => {
                let cs = chars_of(raw);
                match parse_unsigned_chars(cs.as_slice(), 255) {
                    Some(p) => p as u8,
                    None => {
                        return Err(ModelError::InvalidEndpointPriority(String::from_str(raw)));
                    },
                }
            },
            None => 0,
        };
        Ok(ServiceEndpoint { transport, socket_addr: String::from_str(socket_addr), priority })
    }
}

pub open spec fn opt_str_view(o: Option<&str>) -> Option<Seq<char>> {
    match o {
        Some(s) => Some(s@),
        None => None,
    }
}

pub open spec fn opt_string_view(o: Option<String>) -> Option<Seq<char>> {
    match o {
        Some(s) => Some(s@),
        None => None,
    }
}

/// The key algorithm of a published TLS key.
#[derive(Debug, Clone, Copy, PartialEq, Eq, Structural)]
pub enum TlsAlgorithm {
    Ed25519,
}

/// The algorithm a `tls-alg` tag names (default `ed25519`), case-insensitively.
pub open spec fn tls_algorithm_from(value: Option<Seq<char>>) -> Result<TlsAlgorithm, ModelFault> {
    let raw = match value {
        Some(v) => v,
        None => "ed25519"@,
    };
    if ascii_lowercase(raw) == "ed25519"@ {
        Ok(TlsAlgorithm::Ed25519)
    } else {
        Err(ModelFault::UnsupportedTlsAlgorithm(raw))
    }
}

impl TlsAlgorithm {
    pub fn from_tag(value: Option<&str>) -> (r: Result<TlsAlgorithm, ModelError>)
        ensures
            match r {
                Ok(a) => tls_algorithm_from(opt_str_view(value)) == Ok::<TlsAlgorithm, ModelFault>(
                    a,
                ),
                Err(e) => tls_algorithm_from(opt_str_view(value)) == Err::<
                    TlsAlgorithm,
                    ModelFault,
                >(e@),
            },
    {
        let raw: &str = match value {
            Some(v) => v,
            None => "ed25519",
        };
        let lowered = to_ascii_lowercase_string(raw);
        if str_equal(lowered.as_str(), "ed25519") {
            Ok(TlsAlgorithm::Ed25519)
        } else {
            Err(ModelError::UnsupportedTlsAlgorithm(String::from_str(raw)))
        }
    }

    pub fn as_str(&self) -> (r: &'static str)
        ensures
            r@ == "ed25519"@,
    {
        match self {
            TlsAlgorithm::Ed25519 => "ed25519",
        }
    }
}

/// A TLS public key published with a claim.
#[derive(Debug, Clone, PartialEq, Eq)]
pub struct PublishedTlsKey {
    pub algorithm: TlsAlgorithm,
    pub spki: Vec<u8>,
}

pub type TlsKeyView = (TlsAlgorithm, Seq<u8>);

impl View for PublishedTlsKey {
    type V = TlsKeyView;

    open spec fn view(&self) -> TlsKeyView {
        (self.algorithm, self.spki@)
    }
}

/// A key from hex text: non-empty, hex digits only, an even number of them.
pub open spec fn tls_key_from(algorithm: TlsAlgorithm, hex: Seq<char>) -> Result<
    TlsKeyView,
    ModelFault,
> {
    if hex.len() == 0 || !all_hex_digits(hex) || hex.len() % 2 != 0 {
        Err(ModelFault::InvalidTlsPubkey(hex))
    } else {
        Ok((algorithm, hex_bytes(hex)))
    }
}

impl PublishedTlsKey {
    pub fn new(algorithm: TlsAlgorithm, spki_hex: &str) -> (r: Result<PublishedTlsKey, ModelError>)
        ensures
            match r {
                Ok(k) => tls_key_from(algorithm, spki_hex@) == Ok::<TlsKeyView, ModelFault>(k@),
                Err(e) => tls_key_from(algorithm, spki_hex@) == Err::<TlsKeyView, ModelFault>(e@),
            },
    {
        let cs = chars_of(spki_hex);
        if cs.len() == 0 {
            return Err(ModelError::InvalidTlsPubkey(String::from_str(spki_hex)));
        }
        match hex_decode(spki_hex) {
            Some(spki) => Ok(PublishedTlsKey { algorithm, spki }),
            None => Err(ModelError::InvalidTlsPubkey(String::from_str(spki_hex))),
        }
    }

    /// The key's bytes as lower-case hex.
    pub fn spki_hex(&self) -> (r: String)
        ensures
            r@ == hex_text(self.spki@),
    {
        hex_encode(self.spki.as_slice())
    }
}

/// Where a claimed name's content lives.
#[derive(Debug, Clone, PartialEq, Eq)]
pub enum ClaimLocation {
    /// A socket address, in its canonical text form.
    DirectIp(String),
    /// A Blossom manifest root and the servers that hold its blobs (serialized URLs).
    Blossom { root_hash: String, servers: Vec<String> },
    /// A plain URL (serialized).
    LegacyUrl(String),
}

pub enum LocationView {
    DirectIp(Seq<char>),
    Blossom { root_hash: Seq<char>, servers: Seq<Seq<char>> },
    LegacyUrl(Seq<char>),
}

impl View for ClaimLocation {
    type V = LocationView;

    open spec fn view(&self) -> LocationView {
        match self {
            ClaimLocation::DirectIp(a) => LocationView::DirectIp(a@),
            ClaimLocation::Blossom { root_hash, servers } => LocationView::Blossom {
                root_hash: root_hash@,
                servers: servers.deep_view(),
            },
            ClaimLocation::LegacyUrl(u) => LocationView::LegacyUrl(u@),
        }
    }
}

/// A claim that a Nostr key makes on a name.
#[derive(Debug, Clone, PartialEq, Eq)]
pub struct NnsClaim {
    pub name: String,
    pub service_kind: Option<ServiceKind>,
    pub location: ClaimLocation,
    pub endpoints: Vec<ServiceEndpoint>,
    pub pubkey_hex: String,
    pub pubkey_npub: String,
    pub created_at: u64,
    pub relays: Vec<String>,
    pub note: Option<String>,
    pub event_id: String,
    pub tls_key: Option<PublishedTlsKey>,
}

pub struct NnsClaimView {
    pub name: Seq<char>,
    pub service_kind: Option<ServiceKindView>,
    pub location: LocationView,
    pub endpoints: Seq<EndpointView>,
    pub pubkey_hex: Seq<char>,
    pub pubkey_npub: Seq<char>,
    pub created_at: u64,
    pub relays: Seq<Seq<char>>,
    pub note: Option<Seq<char>>,
    pub event_id: Seq<char>,
    pub tls_key: Option<TlsKeyView>,
}

impl View for NnsClaim {
    type V = NnsClaimView;

    open spec fn view(&self) -> NnsClaimView {
        NnsClaimView {
            name: self.name@,
            service_kind: match self.service_kind {
                Some(k) => Some(k@),
                None => None,
            },
            location: self.location@,
            endpoints: endpoints_view(self.endpoints@),
            pubkey_hex: self.pubkey_hex@,
            pubkey_npub: self.pubkey_npub@,
            created_at: self.created_at,
            relays: self.relays.deep_view(),
            note: opt_string_view(self.note),
            event_id: self.event_id@,
            tls_key: match self.tls_key {
                Some(k) => Some(k@),
                None => None,
            },
        }
    }
}

/// What the tags of an event say, read from first to last.
pub struct TagScanView {
    pub name: Option<Seq<char>>,
    pub ip: Option<Seq<char>>,
    pub blossom: Option<Seq<char>>,
    pub servers: Seq<Seq<char>>,
    pub note: Option<Seq<char>>,
    pub tls_pubkey: Option<Seq<char>>,
    pub tls_alg: Option<Seq<char>>,
    pub service: Option<ServiceKindView>,
    pub endpoints: Seq<EndpointView>,
    pub legacy: Option<Seq<char>>,
}

pub open spec fn empty_scan() -> TagScanView {
    TagScanView {
        name: None,
        ip: None,
        blossom: None,
        servers: Seq::empty(),
        note: None,
        tls_pubkey: None,
        tls_alg: None,
        service: None,
        endpoints: Seq::empty(),
        legacy: None,
    }
}

/// The `k`-th entry of a tag, if there is one.
pub open spec fn tag_arg(parts: Seq<Seq<char>>, k: int) -> Option<Seq<char>> {
    if 0 <= k < parts.len() {
        Some(parts[k])
    } else {
        None
    }
}

/// The `k`-th entry of a tag, or the empty text.
pub open spec fn tag_arg_or_empty(parts: Seq<Seq<char>>, k: int) -> Seq<char> {
    if 0 <= k < parts.len() {
        parts[k]
    } else {
        Seq::empty()
    }
}

/// The entries of a tag joined with commas.
pub open spec fn join_comma(parts: Seq<Seq<char>>) -> Seq<char>
    decreases parts.len(),
{
    if parts.len() == 0 {
        Seq::empty()
    } else if parts.len() == 1 {
        parts[0]
    } else {
        join_comma(parts.drop_last()) + seq![','] + parts.last()
    }
}

/// Index of the endpoint with this transport and address at or after `k`, or -1.
pub open spec fn endpoint_index(t: Seq<EndpointView>, tr: TransportKind, addr: Seq<char>, k: int) -> int
    decreases t.len() - k,
{
    if k < 0 || k >= t.len() {
        -1
    } else if t[k].0 == tr && t[k].1 == addr {
        k
    } else {
        endpoint_index(t, tr, addr, k + 1)
    }
}

/// The endpoint table after one more endpoint: a new (transport, address) is added at the
/// end; a known one keeps the lower priority (the earlier entry when they are equal).
pub open spec fn endpoint_insert(t: Seq<EndpointView>, e: EndpointView) -> Seq<EndpointView> {
    let k = endpoint_index(t, e.0, e.1, 0);
    if k < 0 {
        t.push(e)
    } else if e.2 < t[k].2 {
        t.update(k, e)
    } else {
        t
    }
}

/// What one tag adds to the scan, or the error it raises.
pub open spec fn scan_step(st: TagScanView, parts: Seq<Seq<char>>) -> Result<TagScanView, ModelFault> {
    if parts.len() == 0 {
        Ok(st)
    } else {
        let key = parts[0];
        let v = tag_arg(parts, 1);
        if key == "d"@ {
            Ok(
                match v {
                    Some(x) => TagScanView { name: Some(ascii_lowercase(x)), ..st },
                    None => st,
                },
            )
        } else if key == "ip"@ {
            Ok(
                match v {
                    Some(x) => TagScanView { ip: Some(x), ..st },
                    None => st,
                },
            )
        } else if key == "blossom"@ || key == "root"@ {
            Ok(
                match v {
                    Some(x) => TagScanView { blossom: Some(x), ..st },
                    None => st,
                },
            )
        } else if key == "server"@ {
            match v {
                Some(x) => match url_parse_outcome(x) {
                    Ok(p) => Ok(TagScanView { servers: st.servers.push(p.0), ..st }),
                    Err(_) => Err(ModelFault::InvalidServer(x)),
                },
                None => Ok(st),
            }
        } else if key == "endpoint"@ {
            let tr = tag_arg_or_empty(parts, 1);
            let so = tag_arg_or_empty(parts, 2);
            if tr.len() == 0 || so.len() == 0 {
                Err(ModelFault::InvalidEndpoint(join_comma(parts)))
            } else {
                match transport_from(tr) {
                    Err(e) => Err(e),
                    Ok(t) => match endpoint_from(t, so, tag_arg(parts, 3)) {
                        Err(e) => Err(e),
                        Ok(ep) => Ok(
                            TagScanView { endpoints: endpoint_insert(st.endpoints, ep), ..st },
                        ),
                    },
                }
            }
        } else if key == "note"@ {
            Ok(
                match v {
                    Some(x) => TagScanView { note: Some(x), ..st },
                    None => st,
                },
            )
        } else if key == "tls-pubkey"@ {
            Ok(
                match v {
                    Some(x) => TagScanView { tls_pubkey: Some(x), ..st },
                    None => st,
                },
            )
        } else if key == "tls-alg"@ {
            Ok(
                match v {
                    Some(x) => TagScanView { tls_alg: Some(x), ..st },
                    None => st,
                },
            )
        } else if key == "svc"@ {
            Ok(
                match v {
                    Some(x) => TagScanView { service: Some(service_kind_from_tag(x)), ..st },
                    None => st,
                },
            )
        } else if key == "url"@ || key == "legacy-url"@ {
            Ok(
                match v {
                    Some(x) => match url_parse_outcome(x) {
                        Ok(p) => TagScanView { legacy: Some(p.0), ..st },
                        Err(_) => st,
                    },
                    None => st,
                },
            )
        } else {
            Ok(st)
        }
    }
}

/// The scan of a list of tags, stopping at the first error.
pub open spec fn scan_tags(tags: Seq<Seq<Seq<char>>>) -> Result<TagScanView, ModelFault>
    decreases tags.len(),
{
    if tags.len() == 0 {
        Ok(empty_scan())
    } else {
        match scan_tags(tags.drop_last()) {
            Err(e) => Err(e),
            Ok(st) => scan_step(st, tags.last()),
        }
    }
}

/// The endpoints of priority `p`, in table order.
pub open spec fn with_priority(t: Seq<EndpointView>, p: int) -> Seq<EndpointView>
    decreases t.len(),
{
    if t.len() == 0 {
        Seq::empty()
    } else if t.last().2 as int == p {
        with_priority(t.drop_last(), p).push(t.last())
    } else {
        with_priority(t.drop_last(), p)
    }
}

/// The endpoints of priority at most `p`, lower priorities first, table order within one.
pub open spec fn priority_upto(t: Seq<EndpointView>, p: int) -> Seq<EndpointView>
    decreases p + 1,
{
    if p < 0 {
        Seq::empty()
    } else {
        priority_upto(t, p - 1) + with_priority(t, p)
    }
}

/// The endpoints sorted by priority (a stable sort).
pub open spec fn sort_by_priority(t: Seq<EndpointView>) -> Seq<EndpointView> {
    priority_upto(t, 255)
}

/// Index of the first HTTPS endpoint at or after `k`, or the length.
pub open spec fn first_https(t: Seq<EndpointView>, k: int) -> int
    decreases t.len() - k,
{
    if k < 0 || k >= t.len() {
        t.len() as int
    } else if t[k].0 == TransportKind::Https {
        k
    } else {
        first_https(t, k + 1)
    }
}

/// The published TLS key, if the tags carry one.
pub open spec fn scan_tls_key(st: TagScanView) -> Result<Option<TlsKeyView>, ModelFault> {
    match st.tls_pubkey {
        None => Ok(None),
        Some(hex) => match tls_algorithm_from(st.tls_alg) {
            Err(e) => Err(e),
            Ok(a) => match tls_key_from(a, hex) {
                Err(e) => Err(e),
                Ok(k) => Ok(Some(k)),
            },
        },
    }
}

/// The claim's location: a URL tag first, then a Blossom root (which needs servers),
/// then an `ip` tag, then the first HTTPS endpoint by priority.
pub open spec fn scan_location(st: TagScanView) -> Result<LocationView, ModelFault> {
    match st.legacy {
        Some(u) => Ok(LocationView::LegacyUrl(u)),
        None => match st.blossom {
            Some(h) => if st.servers.len() == 0 {
                Err(ModelFault::MissingServers)
            } else {
                Ok(LocationView::Blossom { root_hash: h, servers: st.servers })
            },
            None => match st.ip {
                Some(ip) => match socket_addr_outcome(ip) {
                    Some(a) => Ok(LocationView::DirectIp(a)),
                    None => Err(ModelFault::InvalidIp(ip)),
                },
                None => {
                    let sorted = sort_by_priority(st.endpoints);
                    let k = first_https(sorted, 0);
                    if k < sorted.len() {
                        match socket_addr_outcome(sorted[k].1) {
                            Some(a) => Ok(LocationView::DirectIp(a)),
                            None => Err(ModelFault::InvalidIp(sorted[k].1)),
                        }
                    } else {
                        Err(ModelFault::MissingLocation)
                    }
                },
            },
        },
    }
}

/// The claim an event makes on `expected` (compared case-insensitively), or why it makes none.
/// The checks come in this order: the tags one by one, the TLS key, the name, the
/// location, the event's signature, the key's bech32 form.
pub open spec fn claim_outcome(expected: Seq<char>, ev: RelayEvent) -> Result<NnsClaimView, ModelFault> {
    let e = ev.event;
    match scan_tags(e.tag_view()) {
        Err(f) => Err(f),
        Ok(st) => match scan_tls_key(st) {
            Err(f) => Err(f),
            Ok(tls) => match st.name {
                None => Err(ModelFault::MissingName),
                Some(name) => if name != ascii_lowercase(expected) {
                    Err(ModelFault::NameMismatch)
                } else {
                    match scan_location(st) {
                        Err(f) => Err(f),
                        Ok(loc) => match event_verify_outcome(
                            e.id@,
                            e.pubkey@,
                            e.created_at,
                            e.kind,
                            e.tag_view(),
                            e.content@,
                            e.sig@,
                        ) {
                            Some(msg) => Err(ModelFault::InvalidSignature(msg)),
                            None => match npub_outcome(e.pubkey@) {
                                None => Err(ModelFault::Bech32(e.pubkey@)),
                                Some(npub) => Ok(
                                    NnsClaimView {
                                        name,
                                        service_kind: st.service,
                                        location: loc,
                                        endpoints: sort_by_priority(st.endpoints),
                                        pubkey_hex: ascii_lowercase(e.pubkey@),
                                        pubkey_npub: npub,
                                        created_at: e.created_at,
                                        relays: ev.relays.deep_view(),
                                        note: st.note,
                                        event_id: ascii_lowercase(e.id@),
                                        tls_key: tls,
                                    },
                                ),
                            },
                        },
                    }
                },
            },
        },
    }
}

/// The scan state while reading the tags.
struct TagScan {
    name: Option<String>,
    ip: Option<String>,
    blossom: Option<String>,
    servers: Vec<String>,
    note: Option<String>,
    tls_pubkey: Option<String>,
    tls_alg: Option<String>,
    service: Option<ServiceKind>,
    endpoints: Vec<ServiceEndpoint>,
    legacy: Option<String>,
}

impl TagScan {
    spec fn view(&self) -> TagScanView {
        TagScanView {
            name: opt_string_view(self.name),
            ip: opt_string_view(self.ip),
            blossom: opt_string_view(self.blossom),
            servers: self.servers.deep_view(),
            note: opt_string_view(self.note),
            tls_pubkey: opt_string_view(self.tls_pubkey),
            tls_alg: opt_string_view(self.tls_alg),
            service: match self.service {
                Some(k) => Some(k@),
                None => None,
            },
            endpoints: endpoints_view(self.endpoints@),
            legacy: opt_string_view(self.legacy),
        }
    }
}

fn copy_string(s: &String) -> (r: String)
    ensures
        r@ == s@,
{
    s.clone()
}

/// Copies a list of strings.
pub fn copy_strings(v: &Vec<String>) -> (r: Vec<String>)
    ensures
        r.deep_view() == v.deep_view(),
{
    let mut r: Vec<String> = Vec::new();
    let mut i: usize = 0;
    while i < v.len()
        invariant
            i <= v@.len(),
            r@.len() == i,
            forall|k: int| 0 <= k < i ==> r@[k]@ == v@[k]@,
        decreases v@.len() - i,
    {
        r.push(copy_string(&v[i]));
        i = i + 1;
    }
    assert(r.deep_view() =~= v.deep_view());
    r
}

fn join_tag(parts: &Vec<String>) -> (r: String)
    ensures
        r@ == join_comma(parts.deep_view()),
{
    let mut out = String::new();
    let mut i: usize = 0;
    let ghost pv = parts.deep_view();
    while i < parts.len()
        invariant
            pv == parts.deep_view(),
            i <= pv.len(),
            out@ == join_comma(pv.take(i as int)),
        decreases pv.len() - i,
    {
        if i > 0 {
            let sep = chars_of(",");
            proof {
                reveal_strlit(",");
            }
            append_chars(&mut out, sep.as_slice());
        }
        out.append(parts[i].as_str());
        proof {
            let t = pv.take(i + 1);
            assert(t.drop_last() =~= pv.take(i as int));
            if i == 0 {
                assert(join_comma(pv.take(0)) =~= Seq::<char>::empty());
            }
        }
        i = i + 1;
    }
    assert(pv.take(pv.len() as int) =~= pv);
    out
}

fn endpoint_position(t: &Vec<ServiceEndpoint>, tr: TransportKind, addr: &str) -> (r: Option<
    usize,
>)
    ensures
        match r {
            Some(k) => k < t@.len() && endpoint_index(endpoints_view(t@), tr, addr@, 0) == k,
            None => endpoint_index(endpoints_view(t@), tr, addr@, 0) == -1,
        },
{
    let ghost tv = endpoints_view(t@);
    let mut k: usize = 0;
    while k < t.len()
        invariant
            tv == endpoints_view(t@),
            k <= t@.len(),
            endpoint_index(tv, tr, addr@, 0) == endpoint_index(tv, tr, addr@, k as int),
        decreases t@.len() - k,
    {
        if t[k].transport == tr && str_equal(t[k].socket_addr.as_str(), addr) {
            return Some(k);
        }
        k = k + 1;
    }
    None
}

fn insert_endpoint(t: &mut Vec<ServiceEndpoint>, e: ServiceEndpoint)
    ensures
        endpoints_view(final(t)@) == endpoint_insert(endpoints_view(old(t)@), e@),
{
    let ghost before = endpoints_view(t@);
    match endpoint_position(t, e.transport, e.socket_addr.as_str()) {
        None => {
            t.push(e);
            assert(endpoints_view(t@) =~= before.push(e@));
        },
        Some(k) => {
            if e.priority < t[k].priority {
                t.set(k, e);
                assert(endpoints_view(t@) =~= before.update(k as int, e@));
            }
        },
    }
}

impl NnsClaim {
    /// A key that identifies the claim's publisher and location.
    pub fn score_key(&self) -> (r: String)
        ensures
            r@ == score_key_text(self@),
    {
        let mut out = copy_string(&self.pubkey_hex);
        match &self.location {
            ClaimLocation::DirectIp(addr) => {
                out.append(":direct:");
                out.append(addr.as_str());
            },
            ClaimLocation::Blossom { root_hash, .. } => {
                out.append(":blossom:");
                out.append(root_hash.as_str());
            },
            ClaimLocation::LegacyUrl(url) => {
                out.append(":legacy:");
                out.append(url.as_str());
            },
        }
        out
    }

    pub fn tls_algorithm(&self) -> (r: Option<&'static str>)
        ensures
            r is Some <==> self.tls_key is Some,
            r matches Some(s) ==> s@ == "ed25519"@,
    {
        match &self.tls_key {
            Some(key) => Some(key.algorithm.as_str()),
            None => None,
        }
    }

    pub fn tls_spki_hex(&self) -> (r: Option<String>)
        ensures
            r is Some <==> self.tls_key is Some,
            r matches Some(s) ==> s@ == hex_text(self.tls_key->0.spki@),
    {
        match &self.tls_key {
            Some(key) => Some(key.spki_hex()),
            None => None,
        }
    }

    /// Reads the claim that a relay event makes on `expected_name`.
    pub fn from_event(expected_name: &str, relay_event: &RelayEvent) -> (r: Result<
        NnsClaim,
        ModelError,
    >)
        ensures
            match r {
                Ok(c) => claim_outcome(expected_name@, *relay_event) == Ok::<
                    NnsClaimView,
                    ModelFault,
                >(c@),
                Err(e) => claim_outcome(expected_name@, *relay_event) == Err::<
                    NnsClaimView,
                    ModelFault,
                >(e@),
            },
    {
        let event = &relay_event.event;
        let mut st = TagScan {
            name: None,
            ip: None,
            blossom: None,
            servers: Vec::new(),
            note: None,
            tls_pubkey: None,
            tls_alg: None,
            service: None,
            endpoints: Vec::new(),
            legacy: None,
        };
        let ghost tags = event.tag_view();
        proof {
            assert(st.servers.deep_view() =~= Seq::<Seq<char>>::empty());
            assert(endpoints_view(st.endpoints@) =~= Seq::<EndpointView>::empty());
            assert(st.view() == empty_scan());
            assert(tags.take(0) =~= Seq::<Seq<Seq<char>>>::empty());
        }
        let mut i: usize = 0;
        while i < event.tags.len()
            invariant
                tags == event.tag_view(),
                *event == relay_event.event,
                i <= tags.len(),
                scan_tags(tags.take(i as int)) == Ok::<TagScanView, ModelFault>(st.view()),
            decreases tags.len() - i,
        {
            proof {
                assert(tags.take(i + 1).drop_last() =~= tags.take(i as int));
                assert(tags.take(i + 1).last() == tags[i as int]);
            }
            match scan_tag(&mut st, &event.tags[i]) {
                Ok(()) => {},
                Err(e) => {
                    proof {
                        assert(scan_tags(tags.take(i + 1)) == Err::<TagScanView, ModelFault>(e@));
                        lemma_scan_error_sticks(tags, i as int + 1);
                        assert(scan_tags(tags) == Err::<TagScanView, ModelFault>(e@));
                    }
                    return Err(e);
                },
            }
            i = i + 1;
        }
        proof {
            assert(tags.take(tags.len() as int) =~= tags);
        }
        let tls_key = match &st.tls_pubkey {
            Some(hex) => {
                let alg = match &st.tls_alg {
                    Some(a) => TlsAlgorithm::from_tag(Some(a.as_str())),
                    None => TlsAlgorithm::from_tag(None),
                };
                let alg = match alg {
                    Ok(a) => a,
                    Err(e) => {
                        return Err(e);
                    },
                };
                match PublishedTlsKey::new(alg, hex.as_str()) {
                    Ok(k) => Some(k),
                    Err(e) => {
                        return Err(e);
                    },
                }
            },
            None => None,
        };
        let name = match &st.name {
            Some(n) => copy_string(n),
            None => {
                return Err(ModelError::MissingName);
            },
        };
        let expected_lower = to_ascii_lowercase_string(expected_name);
        if !str_equal(name.as_str(), expected_lower.as_str()) {
            return Err(ModelError::NameMismatch);
        }
        let sorted = sort_endpoints(&st.endpoints);
        let location = match scan_location_exec(&st, &sorted) {
            Ok(l) => l,
            Err(e) => {
                return Err(e);
            },
        };
        match verify_event(event) {
            Ok(()) => {},
            Err(msg) => {
                return Err(ModelError::InvalidSignature(msg));
            },
        }
        let pubkey_npub = match npub_from_hex(event.pubkey.as_str()) {
            Some(n) => n,
            None => {
                return Err(ModelError::Bech32(copy_string(&event.pubkey)));
            },
        };
        let pubkey_hex = to_ascii_lowercase_string(event.pubkey.as_str());
        let event_id = to_ascii_lowercase_string(event.id.as_str());
        let note = match &st.note {
            Some(n) => Some(copy_string(n)),
            None => None,
        };
        let service_kind = match &st.service {
            Some(k) => Some(copy_service_kind(k)),
            None => None,
        };
        let claim = NnsClaim {
            name,
            service_kind,
            location,
            endpoints: sorted,
            pubkey_hex,
            pubkey_npub,
            created_at: event.created_at,
            relays: copy_strings(&relay_event.relays),
            note,
            event_id,
            tls_key,
        };
        Ok(claim)
    }
}

/// The text of a claim's score key: publisher, location kind and location.
pub open spec fn score_key_text(c: NnsClaimView) -> Seq<char> {
    match c.location {
        LocationView::DirectIp(a) => c.pubkey_hex + ":direct:"@ + a,
        LocationView::Blossom { root_hash, .. } => c.pubkey_hex + ":blossom:"@ + root_hash,
        LocationView::LegacyUrl(u) => c.pubkey_hex + ":legacy:"@ + u,
    }
}

fn copy_service_kind(k: &ServiceKind) -> (r: ServiceKind)
    ensures
        r@ == k@,
{
    match k {
        ServiceKind::Site => ServiceKind::Site,
        ServiceKind::BlossomSite => ServiceKind::BlossomSite,
        ServiceKind::BlossomServer => ServiceKind::BlossomServer,
        ServiceKind::Relay => ServiceKind::Relay,
        ServiceKind::Api => ServiceKind::Api,
        ServiceKind::Other(s) => ServiceKind::Other(copy_string(s)),
    }
}

proof fn lemma_scan_error_sticks(tags: Seq<Seq<Seq<char>>>, n: int)
    requires
        0 <= n <= tags.len(),
        scan_tags(tags.take(n)) is Err,
    ensures
        scan_tags(tags) == scan_tags(tags.take(n)),
    decreases tags.len() - n,
{
    if n < tags.len() {
        assert(tags.take(n + 1).drop_last() =~= tags.take(n));
        lemma_scan_error_sticks(tags, n + 1);
    } else {
        assert(tags.take(n) =~= tags);
    }
}

/// Applies one tag to the scan state.
fn scan_tag(st: &mut TagScan, parts: &Vec<String>) -> (r: Result<(), ModelError>)
    ensures
        match r {
            Ok(()) => scan_step(old(st).view(), parts.deep_view()) == Ok::<
                TagScanView,
                ModelFault,
            >(final(st).view()),
            Err(e) => scan_step(old(st).view(), parts.deep_view()) == Err::<
                TagScanView,
                ModelFault,
            >(e@),
        },
{
    let ghost pv = parts.deep_view();
    if parts.len() == 0 {
        return Ok(());
    }
    let key = parts[0].as_str();
    let has_value = parts.len() > 1;
    if str_equal(key, "d") {
        if has_value {
            st.name = Some(to_ascii_lowercase_string(parts[1].as_str()));
        }
        Ok(())
    } else if str_equal(key, "ip") {
        if has_value {
            st.ip = Some(copy_string(&parts[1]));
        }
        Ok(())
    } else if str_equal(key, "blossom") || str_equal(key, "root") {
        if has_value {
            st.blossom = Some(copy_string(&parts[1]));
        }
        Ok(())
    } else if str_equal(key, "server") {
        if has_value {
            match url_parse(parts[1].as_str()) {
                Ok(u) => {
                    let ghost before = st.servers.deep_view();
                    st.servers.push(u.href);
                    assert(st.servers.deep_view() =~= before.push(u.href@));
                },
                Err(_) => {
                    return Err(ModelError::InvalidServer(copy_string(&parts[1])));
                },
            }
        }
        Ok(())
    } else if str_equal(key, "endpoint") {
        let empty = String::new();
        let tr: &str = if parts.len() > 1 {
            parts[1].as_str()
        } else {
            empty.as_str()
        };
        let so: &str = if parts.len() > 2 {
            parts[2].as_str()
        } else {
            empty.as_str()
        };
        let pr: Option<&str> = if parts.len() > 3 {
            Some(parts[3].as_str())
        } else {
            None
        };
        assert(tr@ == tag_arg_or_empty(pv, 1));
        assert(so@ == tag_arg_or_empty(pv, 2));
        assert(opt_str_view(pr) == tag_arg(pv, 3));
        if tr.is_empty() || so.is_empty() {
            return Err(ModelError::InvalidEndpoint(join_tag(parts)));
        }
        let transport = match TransportKind::from_str(tr) {
            Ok(t) => t,
            Err(e) => {
                return Err(e);
            },
        };
        let endpoint = match ServiceEndpoint::new(transport, so, pr) {
            Ok(ep) => ep,
            Err(e) => {
                return Err(e);
            },
        };
        insert_endpoint(&mut st.endpoints, endpoint);
        Ok(())
    } else if str_equal(key, "note") {
        if has_value {
            st.note = Some(copy_string(&parts[1]));
        }
        Ok(())
    } else if str_equal(key, "tls-pubkey") {
        if has_value {
            st.tls_pubkey = Some(copy_string(&parts[1]));
        }
        Ok(())
    } else if str_equal(key, "tls-alg") {
        if has_value {
            st.tls_alg = Some(copy_string(&parts[1]));
        }
        Ok(())
    } else if str_equal(key, "svc") {
        if has_value {
            st.service = Some(ServiceKind::from_tag(parts[1].as_str()));
        }
        Ok(())
    } else if str_equal(key, "url") || str_equal(key, "legacy-url") {
        if has_value {
            match url_parse(parts[1].as_str()) {
                Ok(u) => {
                    st.legacy = Some(u.href);
                },
                Err(_) => {},
            }
        }
        Ok(())
    } else {
        Ok(())
    }
}

/// The endpoints in priority order (stable).
fn sort_endpoints(t: &Vec<ServiceEndpoint>) -> (r: Vec<ServiceEndpoint>)
    ensures
        endpoints_view(r@) == sort_by_priority(endpoints_view(t@)),
{
    let ghost tv = endpoints_view(t@);
    let mut out: Vec<ServiceEndpoint> = Vec::new();
    let mut p: u16 = 0;
    proof {
        assert(endpoints_view(out@) =~= priority_upto(tv, -1));
    }
    while p < 256
        invariant
            tv == endpoints_view(t@),
            p <= 256,
            endpoints_view(out@) == priority_upto(tv, p - 1),
        decreases 256 - p,
    {
        let ghost base = endpoints_view(out@);
        let mut j: usize = 0;
        proof {
            assert(tv.take(0) =~= Seq::<EndpointView>::empty());
            assert(endpoints_view(out@) =~= base + with_priority(tv.take(0), p as int));
        }
        while j < t.len()
            invariant
                tv == endpoints_view(t@),
                p < 256,
                j <= t@.len(),
                endpoints_view(out@) == base + with_priority(tv.take(j as int), p as int),
            decreases t@.len() - j,
        {
            proof {
                assert(tv.take(j + 1).drop_last() =~= tv.take(j as int));
                assert(tv.take(j + 1).last() == tv[j as int]);
            }
            if t[j].priority as u16 == p {
                let e = ServiceEndpoint {
                    transport: t[j].transport,
                    socket_addr: copy_string(&t[j].socket_addr),
                    priority: t[j].priority,
                };
                let ghost prev = endpoints_view(out@);
                out.push(e);
                assert(endpoints_view(out@) =~= prev.push(e@));
            }
            j = j + 1;
        }
        proof {
            assert(tv.take(t@.len() as int) =~= tv);
        }
        p = p + 1;
    }
    out
}

fn first_https_position(sorted: &Vec<ServiceEndpoint>) -> (r: usize)
    ensures
        r == first_https(endpoints_view(sorted@), 0),
{
    let ghost sv = endpoints_view(sorted@);
    let mut k: usize = 0;
    while k < sorted.len()
        invariant
            sv == endpoints_view(sorted@),
            k <= sv.len(),
            first_https(sv, 0) == first_https(sv, k as int),
        decreases sv.len() - k,
    {
        if sorted[k].transport == TransportKind::Https {
            return k;
        }
        k = k + 1;
    }
    k
}

fn scan_location_exec(st: &TagScan, sorted: &Vec<ServiceEndpoint>) -> (r: Result<
    ClaimLocation,
    ModelError,
>)
    requires
        endpoints_view(sorted@) == sort_by_priority(st.view().endpoints),
    ensures
        match r {
            Ok(l) => scan_location(st.view()) == Ok::<LocationView, ModelFault>(l@),
            Err(e) => scan_location(st.view()) == Err::<LocationView, ModelFault>(e@),
        },
{
    if let Some(u) = &st.legacy {
        return Ok(ClaimLocation::LegacyUrl(copy_string(u)));
    }
    if let Some(h) = &st.blossom {
        if st.servers.len() == 0 {
            return Err(ModelError::MissingServers);
        }
        return Ok(ClaimLocation::Blossom { root_hash: copy_string(h), servers: copy_strings(&st.servers) });
    }
    if let Some(ip) = &st.ip {
        return match parse_socket_addr(ip.as_str()) {
            Some(a) => Ok(ClaimLocation::DirectIp(a)),
            None => Err(ModelError::InvalidIp(copy_string(ip))),
        };
    }
    let k = first_https_position(sorted);
    if k < sorted.len() {
        match parse_socket_addr(sorted[k].socket_addr.as_str()) {
            Some(a) => Ok(ClaimLocation::DirectIp(a)),
            None => Err(ModelError::InvalidIp(copy_string(&sorted[k].socket_addr))),
        }
    } else {
        Err(ModelError::MissingLocation)
    }
}

/// Claims for one name: the best one and the others, best first.
#[derive(Debug, Clone, PartialEq, Eq)]
pub struct ResolvedClaims {
    pub primary: NnsClaim,
    pub alternates: Vec<NnsClaim>,
}

/// A key rebuilt from its own hex text (`PublishedTlsKey::new(alg, &key.spki_hex())`) is
/// the same key.
pub proof fn lemma_tls_key_hex_roundtrip(k: TlsKeyView)
    requires
        k.1.len() > 0,
    ensures
        tls_key_from(k.0, hex_text(k.1)) == Ok::<TlsKeyView, ModelFault>(k),
{
    crate::hexcode::lemma_hex_roundtrip(k.1);
}

proof fn lemma_with_priority(t: Seq<EndpointView>, p: int)
    ensures
        forall|j: int|
            0 <= j < with_priority(t, p).len() ==> t.contains(#[trigger] with_priority(t, p)[j])
                && with_priority(t, p)[j].2 as int == p,
        forall|i: int| 0 <= i < t.len() && t[i].2 as int == p ==> with_priority(t, p).contains(#[trigger] t[i]),
    decreases t.len(),
{
    if t.len() > 0 {
        let d = t.drop_last();
        lemma_with_priority(d, p);
        let w = with_priority(d, p);
        assert forall|j: int| 0 <= j < with_priority(t, p).len() implies t.contains(#[trigger] with_priority(t, p)[j])
            && with_priority(t, p)[j].2 as int == p by {
            if j < w.len() {
                assert(with_priority(t, p)[j] == w[j]);
                let k = choose|k: int| 0 <= k < d.len() && d[k] == w[j];
                assert(t[k] == d[k]);
            } else {
                assert(t[t.len() - 1] == t.last());
            }
        }
        assert forall|i: int| 0 <= i < t.len() && t[i].2 as int == p implies with_priority(t, p).contains(#[trigger] t[i]) by {
            if i < d.len() {
                assert(d[i] == t[i]);
                let k = choose|k: int| 0 <= k < w.len() && w[k] == d[i];
                assert(with_priority(t, p)[k] == w[k]);
            } else {
                assert(with_priority(t, p)[w.len() as int] == t[i]);
            }
        }
    }
}

proof fn lemma_priority_upto(t: Seq<EndpointView>, p: int)
    ensures
        forall|j: int|
            0 <= j < priority_upto(t, p).len() ==> t.contains(#[trigger] priority_upto(t, p)[j])
                && priority_upto(t, p)[j].2 as int <= p,
        forall|i: int| 0 <= i < t.len() && t[i].2 as int <= p ==> priority_upto(t, p).contains(#[trigger] t[i]),
        forall|i: int, j: int|
            0 <= i < j < priority_upto(t, p).len() ==> (#[trigger] priority_upto(t, p)[i]).2
                <= (#[trigger] priority_upto(t, p)[j]).2,
    decreases p + 1,
{
    if p >= 0 {
        lemma_priority_upto(t, p - 1);
        lemma_with_priority(t, p);
        let a = priority_upto(t, p - 1);
        let w = with_priority(t, p);
        let u = priority_upto(t, p);
        assert(u == a + w);
        assert forall|j: int| 0 <= j < u.len() implies t.contains(#[trigger] u[j]) && u[j].2 as int <= p by {
            if j < a.len() {
                assert(u[j] == a[j]);
            } else {
                assert(u[j] == w[j - a.len()]);
            }
        }
        assert forall|i: int| 0 <= i < t.len() && t[i].2 as int <= p implies u.contains(#[trigger] t[i]) by {
            if t[i].2 as int == p {
                let k = choose|k: int| 0 <= k < w.len() && w[k] == t[i];
                assert(u[a.len() + k] == w[k]);
            } else {
                let k = choose|k: int| 0 <= k < a.len() && a[k] == t[i];
                assert(u[k] == a[k]);
            }
        }
        assert forall|i: int, j: int| 0 <= i < j < u.len() implies (#[trigger] u[i]).2 <= (#[trigger] u[j]).2 by {
            if j < a.len() {
                assert(u[i] == a[i] && u[j] == a[j]);
                assert(a[i].2 <= a[j].2);
            } else if i < a.len() {
                assert(u[i] == a[i] && u[j] == w[j - a.len()]);
                assert(a[i].2 as int <= p - 1);
                assert(w[j - a.len()].2 as int == p);
            } else {
                assert(u[i] == w[i - a.len()] && u[j] == w[j - a.len()]);
            }
        }
    }
}

proof fn lemma_first_https(t: Seq<EndpointView>, k: int)
    requires
        0 <= k <= t.len(),
    ensures
        k <= first_https(t, k) <= t.len(),
        first_https(t, k) < t.len() ==> t[first_https(t, k)].0 == TransportKind::Https,
        forall|i: int| k <= i < first_https(t, k) ==> (#[trigger] t[i]).0 != TransportKind::Https,
    decreases t.len() - k,
{
    if k < t.len() && t[k].0 != TransportKind::Https {
        lemma_first_https(t, k + 1);
    }
}

/// A claim without a URL, Blossom or `ip` tag is located at an HTTPS endpoint of the
/// lowest priority number among its HTTPS endpoints (an address that does not parse is
/// refused as such); without any HTTPS endpoint it has no location.
pub proof fn lemma_location_best_https(st: TagScanView)
    requires
        st.legacy is None,
        st.blossom is None,
        st.ip is None,
    ensures
        (forall|i: int| 0 <= i < st.endpoints.len() ==> (#[trigger] st.endpoints[i]).0
            != TransportKind::Https) ==> scan_location(st) == Err::<LocationView, ModelFault>(
            ModelFault::MissingLocation,
        ),
        (exists|i: int| 0 <= i < st.endpoints.len() && (#[trigger] st.endpoints[i]).0
            == TransportKind::Https) ==> exists|e: EndpointView|
            #![trigger st.endpoints.contains(e)]
            st.endpoints.contains(e) && e.0 == TransportKind::Https && (forall|f: EndpointView|
                st.endpoints.contains(f) && f.0 == TransportKind::Https ==> e.2 <= f.2)
                && scan_location(st) == match socket_addr_outcome(e.1) {
                Some(a) => Ok::<LocationView, ModelFault>(LocationView::DirectIp(a)),
                None => Err(ModelFault::InvalidIp(e.1)),
            },
{
    let t = st.endpoints;
    let sorted = sort_by_priority(t);
    lemma_priority_upto(t, 255);
    lemma_first_https(sorted, 0);
    let k = first_https(sorted, 0);
    if k < sorted.len() {
        let e = sorted[k];
        assert(t.contains(e));
        assert forall|f: EndpointView| t.contains(f) && f.0 == TransportKind::Https implies e.2 <= f.2 by {
            let i = choose|i: int| 0 <= i < t.len() && t[i] == f;
            assert(t[i].2 as int <= 255);
            assert(sorted.contains(t[i]));
            let j = choose|j: int| 0 <= j < sorted.len() && sorted[j] == t[i];
            if j < k {
                assert(sorted[j].0 != TransportKind::Https);
            } else if j > k {
                assert(sorted[k].2 <= sorted[j].2);
            }
        }
        assert(st.endpoints.contains(e));
    } else {
        assert forall|i: int| 0 <= i < t.len() implies (#[trigger] t[i]).0 != TransportKind::Https by {
            assert(t[i].2 as int <= 255);
            assert(sorted.contains(t[i]));
            let j = choose|j: int| 0 <= j < sorted.len() && sorted[j] == t[i];
            assert(sorted[j].0 != TransportKind::Https);
        }
    }
}

} // verus!
