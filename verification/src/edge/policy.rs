//! HTTP request policy enforcement: host/method/header allowlists and security
//! headers. Filtering applied before a request reaches the handler.
use http::HeaderMap;

use vstd::prelude::*;
use vstd::utf8::encode_utf8;

use super::ascii::{before, is_visible, lower, part_before, to_lower, trim_end, visible, without_trailing};
use super::headers::{
    add_header, first_value, header_count, header_fields, header_lengths, header_value, is_field_name,
    is_field_value, lemma_ascii_bytes, lemma_known_names, roomy_fields,
};
use crate::address::IpAddr;
use crate::limits::at_least_one;
use crate::peer_rate::DEFAULT_PEER_RATE_LIMIT_TABLE_CAPACITY;
use crate::text::{same_bytes, same_text};

verus! {

/// A header that responses get unless they have one of that name. Its view is
/// the name with the value.
#[derive(Debug)]
pub struct SecurityHeader {
    name: String,
    value: Vec<u8>,
}

impl View for SecurityHeader {
    type V = (Seq<u8>, Seq<u8>);

    closed spec fn view(&self) -> (Seq<u8>, Seq<u8>) {
        (encode_utf8(self.name@), self.value@)
    }
}

impl SecurityHeader {
    pub fn name(&self) -> (name: &str)
        ensures
            encode_utf8(name@) == self@.0,
    {
        self.name.as_str()
    }

    pub fn value(&self) -> (value: &[u8])
        ensures
            value@ == self@.1,
    {
        self.value.as_slice()
    }
}

/// Whether every header has the name and the value of a field.
pub open spec fn valid_headers(headers: Seq<(Seq<u8>, Seq<u8>)>) -> bool {
    forall|i: int|
        0 <= i < headers.len() ==> is_field_name((#[trigger] headers[i]).0) && is_field_value(
            headers[i].1,
        )
}

/// The part of a request that the policy looks at besides its headers.
#[derive(Debug)]
pub struct HttpRequestHead {
    pub method: String,
    /// The path with the query, where the target has them.
    pub path_and_query: Option<String>,
    pub path: String,
}

/// What a policy demands of requests.
pub struct PolicyRules {
    pub hosts: Option<Seq<Seq<u8>>>,
    pub methods: Option<Seq<Seq<char>>>,
    pub max_uri_len: Option<usize>,
    pub max_header_count: Option<usize>,
    pub max_header_bytes: Option<usize>,
    pub max_requests_per_peer_per_second: Option<usize>,
    pub peer_rate_limit_table_capacity: usize,
    pub trusted_proxies: Option<Seq<IpAddr>>,
    pub security_headers: Seq<(Seq<u8>, Seq<u8>)>,
}

/// What is demanded of requests, and what is added to responses.
#[derive(Debug)]
pub struct NacelleHttpPolicy {
    allowed_hosts: Option<Vec<Vec<u8>>>,
    allowed_methods: Option<Vec<String>>,
    max_uri_len: Option<usize>,
    max_header_count: Option<usize>,
    max_header_bytes: Option<usize>,
    max_requests_per_peer_per_second: Option<usize>,
    peer_rate_limit_table_capacity: usize,
    trusted_proxy_ips: Option<Vec<IpAddr>>,
    security_headers: Vec<SecurityHeader>,
}

/// Byte strings by their views.
pub open spec fn byte_texts(texts: Seq<Vec<u8>>) -> Seq<Seq<u8>> {
    texts.map_values(|text: Vec<u8>| text@)
}

/// Texts by their views.
pub open spec fn char_texts(texts: Seq<String>) -> Seq<Seq<char>> {
    texts.map_values(|text: String| text@)
}

/// Headers by their views.
pub open spec fn header_views(headers: Seq<SecurityHeader>) -> Seq<(Seq<u8>, Seq<u8>)> {
    headers.map_values(|header: SecurityHeader| header@)
}

impl View for NacelleHttpPolicy {
    type V = PolicyRules;

    closed spec fn view(&self) -> PolicyRules {
        PolicyRules {
            hosts: match self.allowed_hosts {
                Some(hosts) => Some(byte_texts(hosts@)),
                None => None,
            },
            methods: match self.allowed_methods {
                Some(methods) => Some(char_texts(methods@)),
                None => None,
            },
            max_uri_len: self.max_uri_len,
            max_header_count: self.max_header_count,
            max_header_bytes: self.max_header_bytes,
            max_requests_per_peer_per_second: self.max_requests_per_peer_per_second,
            peer_rate_limit_table_capacity: self.peer_rate_limit_table_capacity,
            trusted_proxies: match self.trusted_proxy_ips {
                Some(ips) => Some(ips@),
                None => None,
            },
            security_headers: header_views(self.security_headers@),
        }
    }
}

/// A host as it is compared: without trailing dots, in lower case.
pub open spec fn folded_host(host: Seq<u8>) -> Seq<u8> {
    lower(trim_end(host, 46, 46))
}

/// The length of the target as the policy counts it.
pub open spec fn target_len(head: HttpRequestHead) -> nat {
    match head.path_and_query {
        Some(target) => encode_utf8(target@).len(),
        None => encode_utf8(head.path@).len(),
    }
}

/// The bytes of all names and values.
pub open spec fn total_header_bytes(fields: Seq<(Seq<u8>, Seq<u8>)>) -> nat
    decreases fields.len(),
{
    if fields.len() == 0 {
        0
    } else {
        total_header_bytes(fields.drop_last()) + fields.last().0.len() + fields.last().1.len()
    }
}

/// Whether the request names an allowed host, with or without a port.
pub open spec fn host_is_allowed(hosts: Seq<Seq<u8>>, fields: Seq<(Seq<u8>, Seq<u8>)>) -> bool {
    match first_value(fields, encode_utf8("host"@)) {
        Some(value) => visible(value) && (hosts.contains(folded_host(value)) || hosts.contains(
            before(folded_host(value), 58),
        )),
        None => false,
    }
}

/// Why a request is rejected, with the status that it is answered with.
#[derive(Debug, Clone, Copy)]
pub struct HttpRejection {
    pub status: u16,
    pub reason: &'static str,
}

impl PolicyRules {
    /// Why the policy rejects a request, if it does. The rules are asked in
    /// order: the target, the method, the number of headers, their bytes, the host.
    pub open spec fn verdict(
        self,
        head: HttpRequestHead,
        fields: Seq<(Seq<u8>, Seq<u8>)>,
    ) -> Option<HttpRejection> {
        if self.max_uri_len is Some && target_len(head) > self.max_uri_len->0 {
            Some(HttpRejection { status: 414, reason: "uri_too_long" })
        } else if self.methods is Some && !self.methods->0.contains(head.method@) {
            Some(HttpRejection { status: 405, reason: "method_not_allowed" })
        } else if self.max_header_count is Some && fields.len() > self.max_header_count->0 {
            Some(HttpRejection { status: 431, reason: "header_count" })
        } else if self.max_header_bytes is Some && total_header_bytes(fields)
            > self.max_header_bytes->0 {
            Some(HttpRejection { status: 431, reason: "header_bytes" })
        } else if self.hosts is Some && !host_is_allowed(self.hosts->0, fields) {
            Some(HttpRejection { status: 421, reason: "host" })
        } else {
            None
        }
    }
}

/// Fields with the headers that are missing among them, added in order.
pub open spec fn with_missing(
    fields: Seq<(Seq<u8>, Seq<u8>)>,
    headers: Seq<(Seq<u8>, Seq<u8>)>,
) -> Seq<(Seq<u8>, Seq<u8>)>
    decreases headers.len(),
{
    if headers.len() == 0 {
        fields
    } else {
        let earlier = with_missing(fields, headers.drop_last());
        if first_value(earlier, headers.last().0) is None {
            earlier.push(headers.last())
        } else {
            earlier
        }
    }
}

impl Default for NacelleHttpPolicy {
    fn default() -> (policy: Self)
        ensures
            policy.wf(),
            policy@ == no_rules(),
    {
        let policy = Self {
            allowed_hosts: None,
            allowed_methods: None,
            max_uri_len: None,
            max_header_count: None,
            max_header_bytes: None,
            max_requests_per_peer_per_second: None,
            peer_rate_limit_table_capacity: DEFAULT_PEER_RATE_LIMIT_TABLE_CAPACITY,
            trusted_proxy_ips: None,
            security_headers: Vec::new(),
        };
        assert(policy@.security_headers =~= Seq::empty());
        policy
    }
}

/// A policy that demands nothing and adds nothing.
pub open spec fn no_rules() -> PolicyRules {
    PolicyRules {
        hosts: None,
        methods: None,
        max_uri_len: None,
        max_header_count: None,
        max_header_bytes: None,
        max_requests_per_peer_per_second: None,
        peer_rate_limit_table_capacity: DEFAULT_PEER_RATE_LIMIT_TABLE_CAPACITY,
        trusted_proxies: None,
        security_headers: Seq::empty(),
    }
}

impl NacelleHttpPolicy {
    /// Every added header has the name and the value of a field.
    pub open spec fn wf(&self) -> bool {
        valid_headers(self@.security_headers)
    }

    pub fn new() -> (policy: Self)
        ensures
            policy.wf(),
            policy@ == no_rules(),
    {
        Self::default()
    }

    /// Admits only these hosts, compared without case and trailing dots.
    pub fn with_allowed_hosts(self, hosts: Vec<String>) -> (policy: Self)
        requires
            self.wf(),
        ensures
            policy.wf(),
            policy@.hosts is Some,
            policy@.hosts->0.len() == hosts@.len(),
            forall|i: int|
                0 <= i < hosts@.len() ==> #[trigger] policy@.hosts->0[i] == folded_host(
                    encode_utf8(hosts@[i]@),
                ),
            policy@ == (PolicyRules { hosts: policy@.hosts, ..self@ }),
    {
        let mut folded: Vec<Vec<u8>> = Vec::new();
        let mut index: usize = 0;
        while index < hosts.len()
            invariant
                index <= hosts.len(),
                folded.len() == index,
                forall|i: int|
                    0 <= i < index ==> (#[trigger] folded@[i])@ == folded_host(
                        encode_utf8(hosts@[i]@),
                    ),
            decreases hosts.len() - index,
        {
            folded.push(to_lower(without_trailing(hosts[index].as_str().as_bytes(), 46, 46)));
            index += 1;
        }
        Self { allowed_hosts: Some(folded), ..self }
    }

    /// Admits only these methods.
    pub fn with_allowed_methods(self, methods: Vec<String>) -> (policy: Self)
        requires
            self.wf(),
        ensures
            policy.wf(),
            policy@ == (PolicyRules { methods: Some(char_texts(methods@)), ..self@ }),
    {
        Self { allowed_methods: Some(methods), ..self }
    }

    pub fn with_max_uri_len(self, max: usize) -> (policy: Self)
        requires
            self.wf(),
        ensures
            policy.wf(),
            policy@ == (PolicyRules { max_uri_len: Some(max), ..self@ }),
    {
        Self { max_uri_len: Some(max), ..self }
    }

    pub fn with_max_header_count(self, max: usize) -> (policy: Self)
        requires
            self.wf(),
        ensures
            policy.wf(),
            policy@ == (PolicyRules { max_header_count: Some(max), ..self@ }),
    {
        Self { max_header_count: Some(max), ..self }
    }

    pub fn with_max_header_bytes(self, max: usize) -> (policy: Self)
        requires
            self.wf(),
        ensures
            policy.wf(),
            policy@ == (PolicyRules { max_header_bytes: Some(max), ..self@ }),
    {
        Self { max_header_bytes: Some(max), ..self }
    }

    pub fn with_max_requests_per_peer_per_second(self, max: usize) -> (policy: Self)
        requires
            self.wf(),
        ensures
            policy.wf(),
            policy@ == (PolicyRules {
                max_requests_per_peer_per_second: Some(at_least_one(max)),
                ..self@
            }),
    {
        let max: usize = if max == 0 {
            1
        } else {
            max
        };
        Self { max_requests_per_peer_per_second: Some(max), ..self }
    }

    /// Set the maximum number of peers tracked by the request rate limiter.
    pub fn with_peer_rate_limit_table_capacity(self, capacity: usize) -> (policy: Self)
        requires
            self.wf(),
        ensures
            policy.wf(),
            policy@ == (PolicyRules {
                peer_rate_limit_table_capacity: at_least_one(capacity),
                ..self@
            }),
    {
        let capacity: usize = if capacity == 0 {
            1
        } else {
            capacity
        };
        Self { peer_rate_limit_table_capacity: capacity, ..self }
    }

    /// Believes what these peers say of whom they forward for.
    pub fn with_trusted_proxy_ips(self, ips: Vec<IpAddr>) -> (policy: Self)
        requires
            self.wf(),
        ensures
            policy.wf(),
            policy@ == (PolicyRules { trusted_proxies: Some(ips@), ..self@ }),
    {
        Self { trusted_proxy_ips: Some(ips), ..self }
    }

    /// Adds a header to responses that have none of its name.
    pub fn with_security_header(self, name: &str, value: &[u8]) -> (policy: Self)
        requires
            self.wf(),
            is_field_name(encode_utf8(name@)),
            is_field_value(value@),
        ensures
            policy.wf(),
            policy@ == (PolicyRules {
                security_headers: self@.security_headers.push((encode_utf8(name@), value@)),
                ..self@
            }),
    {
        let mut copy: Vec<u8> = Vec::new();
        copy.extend_from_slice(value);
        assert(copy@ =~= value@);
        let header = SecurityHeader { name: name.to_owned(), value: copy };
        let mut security_headers = self.security_headers;
        let ghost earlier = header_views(security_headers@);
        security_headers.push(header);
        assert(header_views(security_headers@) =~= earlier.push((encode_utf8(name@), value@)));
        Self { security_headers, ..self }
    }

    /// Adds the headers that keep browsers from guessing types, framing, sending
    /// referrers and loading across origins.
    pub fn with_default_security_headers(self) -> (policy: Self)
        requires
            self.wf(),
        ensures
            policy.wf(),
            policy@ == (PolicyRules {
                security_headers: self@.security_headers + seq![
                    (encode_utf8("x-content-type-options"@), encode_utf8("nosniff"@)),
                    (encode_utf8("x-frame-options"@), encode_utf8("deny"@)),
                    (encode_utf8("referrer-policy"@), encode_utf8("no-referrer"@)),
                    (encode_utf8("cross-origin-resource-policy"@), encode_utf8("same-origin"@)),
                ],
                ..self@
            }),
    {
        proof {
            lemma_default_headers();
        }
        let policy = self.with_security_header(
            "x-content-type-options",
            "nosniff".as_bytes(),
        ).with_security_header("x-frame-options", "deny".as_bytes()).with_security_header(
            "referrer-policy",
            "no-referrer".as_bytes(),
        ).with_security_header("cross-origin-resource-policy", "same-origin".as_bytes());
        proof {
            assert(policy@.security_headers =~= self@.security_headers + seq![
                (encode_utf8("x-content-type-options"@), encode_utf8("nosniff"@)),
                (encode_utf8("x-frame-options"@), encode_utf8("deny"@)),
                (encode_utf8("referrer-policy"@), encode_utf8("no-referrer"@)),
                (encode_utf8("cross-origin-resource-policy"@), encode_utf8("same-origin"@)),
            ]);
        }
        policy
    }

    /// Adds a strict transport security header.
    pub fn with_strict_transport_security(self, value: &[u8]) -> (policy: Self)
        requires
            self.wf(),
            is_field_value(value@),
        ensures
            policy.wf(),
            policy@ == (PolicyRules {
                security_headers: self@.security_headers.push(
                    (encode_utf8("strict-transport-security"@), value@),
                ),
                ..self@
            }),
    {
        proof {
            reveal_strlit("strict-transport-security");
            lemma_ascii_bytes("strict-transport-security"@);
        }
        self.with_security_header("strict-transport-security", value)
    }

    /// The most requests of one peer in a second.
    pub fn max_requests_per_peer_per_second(&self) -> (max: Option<usize>)
        ensures
            max == self@.max_requests_per_peer_per_second,
    {
        self.max_requests_per_peer_per_second
    }

    /// The most peers that the request rate limiter tracks.
    pub fn peer_rate_limit_table_capacity(&self) -> (capacity: usize)
        ensures
            capacity == self@.peer_rate_limit_table_capacity,
    {
        self.peer_rate_limit_table_capacity
    }

    /// The headers that the policy adds to responses that lack them.
    pub fn security_headers(&self) -> (headers: &Vec<SecurityHeader>)
        ensures
            header_views(headers@) == self@.security_headers,
    {
        &self.security_headers
    }

    /// How many headers the policy adds to responses that lack them.
    pub fn security_header_count(&self) -> (count: usize)
        ensures
            count == self@.security_headers.len(),
    {
        self.security_headers.len()
    }

    /// Whether what `peer` says of whom it forwards for is believed.
    pub fn trusts(&self, peer: IpAddr) -> (trusted: bool)
        ensures
            trusted == (self@.trusted_proxies is Some && self@.trusted_proxies->0.contains(peer)),
    {
        let ips = match &self.trusted_proxy_ips {
            Some(ips) => ips,
            None => {
                return false;
            },
        };
        let mut index: usize = 0;
        while index < ips.len()
            invariant
                index <= ips.len(),
                self@.trusted_proxies == Some(ips@),
                forall|i: int| 0 <= i < index ==> ips@[i] != peer,
            decreases ips.len() - index,
        {
            if ips[index] == peer {
                assert(ips@[index as int] == peer);
                return true;
            }
            index += 1;
        }
        false
    }

    fn method_allowed(&self, method: &str) -> (allowed: bool)
        ensures
            allowed == (self@.methods is Some ==> self@.methods->0.contains(method@)),
    {
        let methods = match &self.allowed_methods {
            Some(methods) => methods,
            None => {
                return true;
            },
        };
        let mut index: usize = 0;
        while index < methods.len()
            invariant
                index <= methods.len(),
                self@.methods == Some(char_texts(methods@)),
                forall|i: int| 0 <= i < index ==> (#[trigger] methods@[i])@ != method@,
            decreases methods.len() - index,
        {
            if same_text(methods[index].as_str(), method) {
                assert(char_texts(methods@)[index as int] == method@);
                return true;
            }
            index += 1;
        }
        false
    }

    fn host_allowed(&self, headers: &HeaderMap) -> (allowed: bool)
        ensures
            allowed == (self@.hosts is Some ==> host_is_allowed(
                self@.hosts->0,
                header_fields(*headers),
            )),
    {
        let hosts = match &self.allowed_hosts {
            Some(hosts) => hosts,
            None => {
                return true;
            },
        };
        proof {
            lemma_known_names();
        }
        let value = match header_value(headers, "host") {
            Some(value) => value,
            None => {
                return false;
            },
        };
        if !is_visible(value) {
            return false;
        }
        let host = to_lower(without_trailing(value, 46, 46));
        let host_without_port = part_before(host.as_slice(), 58);
        let mut index: usize = 0;
        while index < hosts.len()
            invariant
                index <= hosts.len(),
                self@.hosts == Some(byte_texts(hosts@)),
                first_value(header_fields(*headers), encode_utf8("host"@)) == Some(value@),
                visible(value@),
                host@ == folded_host(value@),
                host_without_port@ == before(host@, 58),
                forall|i: int|
                    0 <= i < index ==> (#[trigger] hosts@[i])@ != host@ && hosts@[i]@
                        != host_without_port@,
            decreases hosts.len() - index,
        {
            let allowed = hosts[index].as_slice();
            if same_bytes(allowed, host.as_slice()) || same_bytes(allowed, host_without_port) {
                assert(byte_texts(hosts@)[index as int] == allowed@);
                return true;
            }
            index += 1;
        }
        proof {
            let texts = byte_texts(hosts@);
            assert(!texts.contains(host@) && !texts.contains(host_without_port@)) by {
                assert(forall|i: int|
                    0 <= i < texts.len() ==> texts[i] != host@ && texts[i] != host_without_port@);
            }
        }
        false
    }

    /// Why the policy rejects a request, if it does.
    pub fn validate_http_policy(&self, head: &HttpRequestHead, headers: &HeaderMap) -> (rejection: Option<
        HttpRejection,
    >)
        ensures
            rejection == self@.verdict(*head, header_fields(*headers)),
    {
        if let Some(max_uri_len) = self.max_uri_len {
            let len: usize = match &head.path_and_query {
                Some(target) => target.as_str().as_bytes().len(),
                None => head.path.as_str().as_bytes().len(),
            };
            if len > max_uri_len {
                return Some(HttpRejection { status: 414, reason: "uri_too_long" });
            }
        }
        if !self.method_allowed(head.method.as_str()) {
            return Some(HttpRejection { status: 405, reason: "method_not_allowed" });
        }
        if let Some(max_header_count) = self.max_header_count {
            if header_count(headers) > max_header_count {
                return Some(HttpRejection { status: 431, reason: "header_count" });
            }
        }
        if let Some(max_header_bytes) = self.max_header_bytes {
            if header_bytes_exceed(headers, max_header_bytes) {
                return Some(HttpRejection { status: 431, reason: "header_bytes" });
            }
        }
        if !self.host_allowed(headers) {
            return Some(HttpRejection { status: 421, reason: "host" });
        }
        None
    }

    /// Adds the policy's headers to those that lack them.
    pub fn apply_security_headers(&self, headers: &mut HeaderMap)
        requires
            self.wf(),
            header_fields(*old(headers)).len() + self@.security_headers.len() <= roomy_fields(),
        ensures
            header_fields(*final(headers)) == with_missing(
                header_fields(*old(headers)),
                self@.security_headers,
            ),
    {
        let ghost fields = header_fields(*headers);
        let ghost added = self@.security_headers;
        let mut index: usize = 0;
        assert(added.take(0) =~= Seq::empty());
        while index < self.security_headers.len()
            invariant
                index <= self.security_headers.len(),
                added == self@.security_headers,
                valid_headers(added),
                fields.len() + added.len() <= roomy_fields(),
                header_fields(*headers) == with_missing(fields, added.take(index as int)),
                header_fields(*headers).len() <= fields.len() + index,
            decreases self.security_headers.len() - index,
        {
            let header = &self.security_headers[index];
            proof {
                let next = added.take(index + 1);
                assert(next.drop_last() =~= added.take(index as int));
                assert(added[index as int] == header@);
            }
            if header_value(headers, header.name.as_str()).is_none() {
                add_header(headers, header.name.as_str(), header.value.as_slice());
            }
            index += 1;
        }
        assert(added.take(added.len() as int) =~= added);
    }
}

/// Whether names and values together have more than `max` bytes.
fn header_bytes_exceed(headers: &HeaderMap, max: usize) -> (exceed: bool)
    ensures
        exceed == (total_header_bytes(header_fields(*headers)) > max),
{
    let lengths = header_lengths(headers);
    let ghost fields = header_fields(*headers);
    let mut total: usize = 0;
    let mut index: usize = 0;
    assert(fields.take(0) =~= Seq::empty());
    while index < lengths.len()
        invariant
            index <= lengths.len(),
            fields == header_fields(*headers),
            lengths.len() == fields.len(),
            forall|i: int|
                0 <= i < lengths@.len() ==> (#[trigger] lengths@[i]).0 == fields[i].0.len()
                    && lengths@[i].1 == fields[i].1.len(),
            total == total_header_bytes(fields.take(index as int)),
        decreases lengths.len() - index,
    {
        let (name_len, value_len): (usize, usize) = lengths[index];
        proof {
            let next = fields.take(index + 1);
            assert(next.drop_last() =~= fields.take(index as int));
            lemma_total_grows(fields, index + 1);
        }
        total = match total.checked_add(name_len) {
            Some(sum) => sum,
            None => {
                return true;
            },
        };
        total = match total.checked_add(value_len) {
            Some(sum) => sum,
            None => {
                return true;
            },
        };
        index += 1;
    }
    assert(fields.take(fields.len() as int) =~= fields);
    total > max
}

/// The bytes of some fields are no more than those of all.
proof fn lemma_total_grows(fields: Seq<(Seq<u8>, Seq<u8>)>, count: int)
    requires
        0 <= count <= fields.len(),
    ensures
        total_header_bytes(fields.take(count)) <= total_header_bytes(fields),
    decreases fields.len() - count,
{
    if count < fields.len() {
        lemma_total_grows(fields, count + 1);
        assert(fields.take(count + 1).drop_last() =~= fields.take(count));
    } else {
        assert(fields.take(count) =~= fields);
    }
}

proof fn lemma_default_headers()
    ensures
        is_field_name(encode_utf8("x-content-type-options"@)),
        is_field_value(encode_utf8("nosniff"@)),
        is_field_name(encode_utf8("x-frame-options"@)),
        is_field_value(encode_utf8("deny"@)),
        is_field_name(encode_utf8("referrer-policy"@)),
        is_field_value(encode_utf8("no-referrer"@)),
        is_field_name(encode_utf8("cross-origin-resource-policy"@)),
        is_field_value(encode_utf8("same-origin"@)),
{
    reveal_strlit("x-content-type-options");
    lemma_ascii_bytes("x-content-type-options"@);
    reveal_strlit("nosniff");
    lemma_ascii_bytes("nosniff"@);
    reveal_strlit("x-frame-options");
    lemma_ascii_bytes("x-frame-options"@);
    reveal_strlit("deny");
    lemma_ascii_bytes("deny"@);
    reveal_strlit("referrer-policy");
    lemma_ascii_bytes("referrer-policy"@);
    reveal_strlit("no-referrer");
    lemma_ascii_bytes("no-referrer"@);
    reveal_strlit("cross-origin-resource-policy");
    lemma_ascii_bytes("cross-origin-resource-policy"@);
    reveal_strlit("same-origin");
    lemma_ascii_bytes("same-origin"@);
}

/// A response keeps every field that it has, and has every header of the policy
/// afterwards.
pub proof fn law_security_headers_are_present(
    fields: Seq<(Seq<u8>, Seq<u8>)>,
    headers: Seq<(Seq<u8>, Seq<u8>)>,
)
    ensures
        fields.is_prefix_of(with_missing(fields, headers)),
        forall|i: int|
            0 <= i < headers.len() ==> first_value(
                with_missing(fields, headers),
                (#[trigger] headers[i]).0,
            ) is Some,
        forall|name: Seq<u8>|
            first_value(fields, name) is Some ==> #[trigger] first_value(
                with_missing(fields, headers),
                name,
            ) == first_value(fields, name),
    decreases headers.len(),
{
    if headers.len() > 0 {
        let earlier = with_missing(fields, headers.drop_last());
        let all = with_missing(fields, headers);
        law_security_headers_are_present(fields, headers.drop_last());
        assert forall|name: Seq<u8>| first_value(earlier, name) is Some implies #[trigger] first_value(
            all,
            name,
        ) == first_value(earlier, name) by {
            if all != earlier {
                lemma_first_value_push(earlier, headers.last(), name);
            }
        }
        assert forall|i: int| 0 <= i < headers.len() implies first_value(
            all,
            (#[trigger] headers[i]).0,
        ) is Some by {
            if i < headers.len() - 1 {
                assert(headers.drop_last()[i] == headers[i]);
                assert(first_value(earlier, headers[i].0) is Some);
            } else if all != earlier {
                lemma_first_value_push(earlier, headers.last(), headers[i].0);
            }
        }
    }
}

/// A field that is added last is found where no other has its name.
pub proof fn lemma_first_value_push(
    fields: Seq<(Seq<u8>, Seq<u8>)>,
    field: (Seq<u8>, Seq<u8>),
    name: Seq<u8>,
)
    ensures
        first_value(fields.push(field), name) == match first_value(fields, name) {
            Some(value) => Some(value),
            None => if field.0 == name {
                Some(field.1)
            } else {
                None
            },
        },
    decreases fields.len(),
{
    reveal_with_fuel(first_value, 2);
    let all = fields.push(field);
    if fields.len() == 0 {
        assert(all.skip(1) =~= Seq::empty());
    } else {
        assert(all.skip(1) =~= fields.skip(1).push(field));
        lemma_first_value_push(fields.skip(1), field, name);
    }
}

} // verus!
