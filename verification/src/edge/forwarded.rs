//! Whom a trusted proxy forwards for.
use http::HeaderMap;

use vstd::prelude::*;
use vstd::utf8::encode_utf8;

use super::ascii::{
    before, find_byte, find_last_byte, is_visible, lower, part_after, part_before, to_lower, trim, trim_end,
    trim_start, trimmed, visible, without_leading, without_trailing,
};
use super::headers::{first_value, header_fields, header_value, lemma_known_names};
use super::policy::{byte_texts, NacelleHttpPolicy, PolicyRules};
use crate::address::IpAddr;
use crate::text::same_bytes;

verus! {

/// The value of the `for` parameter in one element of a `Forwarded` header. A
/// parameter without a value before it ends the search.
pub open spec fn for_parameter(element: Seq<u8>) -> Option<Seq<u8>>
    decreases element.len(),
{
    let part = trim(before(element, 59));
    match part.index_of_first(61) {
        None => None,
        Some(place) => if lower(trim(part.take(place))) == encode_utf8("for"@) {
            Some(trim_end(trim_start(trim(part.skip(place + 1)), 34, 34), 34, 34))
        } else {
            match element.index_of_first(59) {
                Some(end) if 0 <= end < element.len() => for_parameter(element.skip(end + 1)),
                _ => None,
            }
        },
    }
}

/// The address inside a text that is not one itself: what stands in brackets, or
/// what stands before a single colon.
pub open spec fn inner_address(text: Seq<u8>) -> Option<Seq<u8>> {
    if text.len() > 0 && text[0] == 91 && text.skip(1).index_of_first(93) is Some {
        Some(before(text.skip(1), 93))
    } else {
        match text.index_of_last(58) {
            Some(place) => if text.take(place).contains(58) {
                None
            } else {
                Some(text.take(place))
            },
            None => None,
        }
    }
}

/// The texts that may be an address, the likeliest first.
pub open spec fn address_texts(text: Seq<u8>) -> Seq<Seq<u8>> {
    let address = trim(text);
    match inner_address(address) {
        Some(inner) => seq![address, inner],
        None => seq![address],
    }
}

/// The texts that the `Forwarded` header offers.
pub open spec fn forwarded_texts(fields: Seq<(Seq<u8>, Seq<u8>)>) -> Seq<Seq<u8>> {
    match first_value(fields, encode_utf8("forwarded"@)) {
        Some(value) => if visible(value) {
            match for_parameter(trim(before(value, 44))) {
                Some(text) => address_texts(text),
                None => Seq::empty(),
            }
        } else {
            Seq::empty()
        },
        None => Seq::empty(),
    }
}

/// The texts that the `X-Forwarded-For` header offers.
pub open spec fn x_forwarded_texts(fields: Seq<(Seq<u8>, Seq<u8>)>) -> Seq<Seq<u8>> {
    match first_value(fields, encode_utf8("x-forwarded-for"@)) {
        Some(value) => if visible(value) {
            address_texts(trim(before(value, 44)))
        } else {
            Seq::empty()
        },
        None => Seq::empty(),
    }
}

/// The value of the `for` parameter in one element of a `Forwarded` header.
fn parse_for_parameter(element: &[u8]) -> (value: Option<&[u8]>)
    ensures
        match value {
            Some(value) => for_parameter(element@) == Some(value@),
            None => for_parameter(element@) is None,
        },
{
    let mut rest = element;
    loop
        invariant
            for_parameter(element@) == for_parameter(rest@),
        decreases rest@.len(),
    {
        let part = trimmed(part_before(rest, 59));
        let place: usize = match find_byte(part, 61) {
            Some(place) => place,
            None => {
                return None;
            },
        };
        let name = part_before(part, 61);
        if same_bytes(to_lower(trimmed(name)).as_slice(), "for".as_bytes()) {
            let value = trimmed(part_after(part, place));
            return Some(without_trailing(without_leading(value, 34, 34), 34, 34));
        }
        rest = match find_byte(rest, 59) {
            Some(end) => part_after(rest, end),
            None => {
                return None;
            },
        };
    }
}

fn copy(text: &[u8]) -> (bytes: Vec<u8>)
    ensures
        bytes@ == text@,
{
    let mut bytes: Vec<u8> = Vec::new();
    bytes.extend_from_slice(text);
    assert(bytes@ =~= text@);
    bytes
}

/// Appends the texts that may be an address.
fn push_address_texts(texts: &mut Vec<Vec<u8>>, text: &[u8])
    ensures
        byte_texts(final(texts)@) == byte_texts(old(texts)@) + address_texts(text@),
{
    let address = trimmed(text);
    texts.push(copy(address));
    let bracketed = if address.len() > 0 && address[0] == 91 {
        let inside = part_after(address, 0);
        match find_byte(inside, 93) {
            Some(_) => Some(part_before(inside, 93)),
            None => None,
        }
    } else {
        None
    };
    match bracketed {
        Some(inner) => {
            texts.push(copy(inner));
        },
        None => {
            if let Some(place) = find_last_byte(address, 58) {
                let inner = vstd::slice::slice_subrange(address, 0, place);
                assert(inner@ =~= address@.take(place as int));
                proof {
                    inner@.index_of_first_ensures(58);
                }
                if find_byte(inner, 58).is_none() {
                    texts.push(copy(inner));
                }
            }
        },
    }
    assert(byte_texts(texts@) =~= byte_texts(old(texts)@) + address_texts(text@));
}

/// The texts in which a proxy says whom it forwards for, in the order in which
/// they are tried: the first that is an address counts.
pub fn forwarded_peer_texts(headers: &HeaderMap) -> (texts: Vec<Vec<u8>>)
    ensures
        byte_texts(texts@) == forwarded_texts(header_fields(*headers)) + x_forwarded_texts(
            header_fields(*headers),
        ),
{
    proof {
        lemma_known_names();
    }
    let mut texts: Vec<Vec<u8>> = Vec::new();
    assert(byte_texts(texts@) =~= Seq::empty());
    if let Some(value) = header_value(headers, "forwarded") {
        if is_visible(value) {
            if let Some(text) = parse_for_parameter(trimmed(part_before(value, 44))) {
                push_address_texts(&mut texts, text);
            }
        }
    }
    let ghost fields = header_fields(*headers);
    assert(byte_texts(texts@) =~= forwarded_texts(fields));
    if let Some(value) = header_value(headers, "x-forwarded-for") {
        if is_visible(value) {
            push_address_texts(&mut texts, trimmed(part_before(value, 44)));
        }
    }
    assert(byte_texts(texts@) =~= forwarded_texts(fields) + x_forwarded_texts(fields));
    texts
}

/// The first address among parsed texts.
pub open spec fn first_address(parsed: Seq<Option<IpAddr>>) -> Option<IpAddr>
    decreases parsed.len(),
{
    if parsed.len() == 0 {
        None
    } else if parsed[0] is Some {
        parsed[0]
    } else {
        first_address(parsed.skip(1))
    }
}

impl PolicyRules {
    /// Whose request it is: the peer of the socket, unless that is a trusted
    /// proxy which says whom it forwards for.
    pub open spec fn effective_peer(
        self,
        socket_peer: Option<IpAddr>,
        parsed: Seq<Option<IpAddr>>,
    ) -> Option<IpAddr> {
        match socket_peer {
            None => None,
            Some(peer) => if self.trusted_proxies is Some && self.trusted_proxies->0.contains(peer) {
                match first_address(parsed) {
                    Some(forwarded) => Some(forwarded),
                    None => Some(peer),
                }
            } else {
                Some(peer)
            },
        }
    }
}

/// Whose request it is, given the forwarded texts as far as they are addresses.
pub fn effective_peer_ip(
    policy: &NacelleHttpPolicy,
    socket_peer: Option<IpAddr>,
    parsed: &Vec<Option<IpAddr>>,
) -> (peer: Option<IpAddr>)
    ensures
        peer == policy@.effective_peer(socket_peer, parsed@),
{
    let peer = match socket_peer {
        Some(peer) => peer,
        None => {
            return None;
        },
    };
    if !policy.trusts(peer) {
        return Some(peer);
    }
    let mut index: usize = 0;
    assert(parsed@.skip(0) =~= parsed@);
    while index < parsed.len()
        invariant
            index <= parsed.len(),
            socket_peer == Some(peer),
            policy@.trusted_proxies is Some,
            policy@.trusted_proxies->0.contains(peer),
            first_address(parsed@) == first_address(parsed@.skip(index as int)),
        decreases parsed.len() - index,
    {
        if let Some(forwarded) = parsed[index] {
            return Some(forwarded);
        }
        assert(parsed@.skip(index as int).skip(1) =~= parsed@.skip(index + 1));
        index += 1;
    }
    Some(peer)
}

/// A peer that is not trusted is never believed: whatever its headers say, the
/// request counts as its own.
pub proof fn law_untrusted_peers_are_not_believed(
    policy: PolicyRules,
    peer: IpAddr,
    parsed: Seq<Option<IpAddr>>,
)
    requires
        policy.trusted_proxies is None || !policy.trusted_proxies->0.contains(peer),
    ensures
        policy.effective_peer(Some(peer), parsed) == Some(peer),
{
}

} // verus!
