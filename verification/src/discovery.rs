//! The discovery side of the protocol: the SSDP probe text and the
//! parsing that turns a probe reply and the fetched device description
//! into a session.

use vstd::prelude::*;

use crate::text::{
    find_in, find_spec, last_word, lemma_find_from_found, lemma_words_nonempty, split_ws,
};
use crate::utils::{get_xml_tag_childs, xml_tag_childs_spec};

verus! {

/// An immutable record of a discovered device, read by every action:
/// the device's host (optionally with port), its name (the last token of
/// the SERVER header), the local address the probe went out from, and the
/// control path with no leading slash.
pub struct Session {
    pub device_addr: String,
    pub name: String,
    pub local_ip: String,
    pub endpoint: String,
}

/// The SSDP `M-SEARCH` probe for the WANIPConnection:1 service, byte for
/// byte as it goes out on the multicast group.
pub open spec fn discovery_request_spec() -> Seq<char> {
    "M-SEARCH * HTTP/1.1\r\nHOST: 239.255.255.250:1900\r\nMAN: \"ssdp:discover\"\r\nMX: 2\r\nST: urn:schemas-upnp-org:service:WANIPConnection:1\r\n\r\n"@
}

pub fn discovery_request() -> (r: String)
    ensures
        r@ == discovery_request_spec(),
{
    String::from_str(
        "M-SEARCH * HTTP/1.1\r\nHOST: 239.255.255.250:1900\r\nMAN: \"ssdp:discover\"\r\nMX: 2\r\nST: urn:schemas-upnp-org:service:WANIPConnection:1\r\n\r\n",
    )
}

/// The service marker that locates the WAN connection service inside the
/// device description document.
pub open spec fn service_marker() -> Seq<char> {
    "urn:upnp-org:serviceId:WANIPConn1"@
}

/// The control URL of the WAN connection service: the content of the
/// first `controlURL` tag at or after the leftmost service marker.
pub open spec fn control_endpoint_spec(igd: Seq<char>) -> Option<Seq<char>> {
    match find_spec(igd, service_marker()) {
        None => None,
        Some(x) => xml_tag_childs_spec(igd.skip(x), "controlURL"@),
    }
}

/// One leading slash stripped, at most once.
pub open spec fn strip_leading_slash(s: Seq<char>) -> Seq<char> {
    if s.len() > 0 && s[0] == '/' {
        s.skip(1)
    } else {
        s
    }
}

/// Builds the session out of the fetched device description, the host of
/// the LOCATION URL, the SERVER header value and the resolved local
/// address. Yields nothing exactly when the description lacks the service
/// marker or a `controlURL` tag after it.
///
/// The session invariant — non-empty fields after successful discovery —
/// is carried by the arguments: the SERVER value must hold at least one
/// word (a reply with a blank SERVER header is fatally non-conformant),
/// and the host and local address must be non-empty, which discovery
/// guarantees since the host is a whitespace token of the LOCATION URL
/// and the local address is a rendered socket address. Only the control
/// path can come out empty, when the device's control URL is exactly
/// `/`: no client of this protocol can promise more there.
pub fn build_session(igd: &str, device_addr: &str, server: &str, local_ip: &str) -> (r: Option<
    Session,
>)
    requires
        split_ws(server@).len() > 0,
        device_addr@.len() > 0,
        local_ip@.len() > 0,
    ensures
        match r {
            Some(s) => {
                &&& control_endpoint_spec(igd@) is Some
                &&& s.endpoint@ == strip_leading_slash(control_endpoint_spec(igd@).unwrap())
                &&& s.device_addr@ == device_addr@
                &&& s.device_addr@.len() > 0
                &&& s.name@ == split_ws(server@).last()
                &&& s.name@.len() > 0
                &&& s.local_ip@ == local_ip@
                &&& s.local_ip@.len() > 0
            },
            None => control_endpoint_spec(igd@) is None,
        },
{
    let n = igd.unicode_len();
    let x = match find_in(igd, "urn:upnp-org:serviceId:WANIPConn1", 0) {
        Some(x) => x,
        None => {
            return None;
        },
    };
    proof {
        lemma_find_from_found(igd@, service_marker(), 0, x as int);
    }
    let rest = igd.substring_char(x, n);
    proof {
        assert(rest@ =~= igd@.skip(x as int));
    }
    let endpoint_raw = match get_xml_tag_childs(rest, "controlURL") {
        Some(e) => e,
        None => {
            return None;
        },
    };
    let el = endpoint_raw.as_str().unicode_len();
    let endpoint = if el > 0 && endpoint_raw.as_str().get_char(0) == '/' {
        let stripped = String::from_str(endpoint_raw.as_str().substring_char(1, el));
        proof {
            assert(stripped@ =~= strip_leading_slash(endpoint_raw@));
        }
        stripped
    } else {
        endpoint_raw
    };
    let name = match last_word(server) {
        Some(w) => w,
        None => {
            proof {
                assert(false);
            }
            vstd::pervasive::unreached()
        },
    };
    proof {
        lemma_words_nonempty(server@);
    }
    Some(
        Session {
            device_addr: String::from_str(device_addr),
            name,
            local_ip: String::from_str(local_ip),
            endpoint,
        },
    )
}

} // verus!
