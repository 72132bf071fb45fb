//! SOAP envelope construction for the three WANIPConnection actions, the
//! headers of the POST that carries an envelope, and the parsing of the
//! GetExternalIPAddress response.

use vstd::prelude::*;

use crate::discovery::Session;
use crate::ipv4::{ipv4_valid, octet_val, parse_ipv4, split_dot, Ipv4};
use crate::text::dec_digits;
use crate::text::dec_str;
use crate::utils::{get_xml_tag_childs, xml_tag_childs_spec};

verus! {

/// How reading the external address out of a SOAP response can fail:
/// the response carries no address tag at all, or carries one whose
/// content is not a dotted-quad IPv4 address.
#[derive(Clone, Copy, PartialEq, Eq, Structural, Debug)]
pub enum AddressError {
    NotAvailable,
    Malformed,
}

// ---------------------------------------------------------------------------
// envelope construction
// ---------------------------------------------------------------------------

/// One action element: the action name under the `u:` namespace of
/// WANIPConnection:1 wrapped around its parameter block.
pub open spec fn soap_component_spec(name: Seq<char>, content: Seq<char>) -> Seq<char> {
    "<u:"@ + name + " xmlns:u=\"urn:schemas-upnp-org:service:WANIPConnection:1\">"@ + content
        + "</u:"@ + name + ">"@
}

pub fn soap_component(name: &str, content: &str) -> (r: String)
    ensures
        r@ == soap_component_spec(name@, content@),
{
    let r = String::from_str("<u:")
        .concat(name)
        .concat(" xmlns:u=\"urn:schemas-upnp-org:service:WANIPConnection:1\">")
        .concat(content)
        .concat("</u:")
        .concat(name)
        .concat(">");
    proof {
        assert(r@ =~= soap_component_spec(name@, content@));
    }
    r
}

/// The SOAP 1.1 envelope around one body element, exactly as the wire
/// format requires it, CRLF line ends included.
pub open spec fn soap_envelope_spec(body: Seq<char>) -> Seq<char> {
    "<?xml version=\"1.0\"?>\r\n<s:Envelope xmlns:s=\"http://schemas.xmlsoap.org/soap/envelope/\" s:encodingStyle=\"http://schemas.xmlsoap.org/soap/encoding/\">\r\n<s:Body>\r\n"@
        + body + "\r\n</s:Body>\r\n</s:Envelope>\r\n"@
}

pub fn soap_envelope(body: &str) -> (r: String)
    ensures
        r@ == soap_envelope_spec(body@),
{
    let r = String::from_str(
        "<?xml version=\"1.0\"?>\r\n<s:Envelope xmlns:s=\"http://schemas.xmlsoap.org/soap/envelope/\" s:encodingStyle=\"http://schemas.xmlsoap.org/soap/encoding/\">\r\n<s:Body>\r\n",
    ).concat(body).concat("\r\n</s:Body>\r\n</s:Envelope>\r\n");
    proof {
        assert(r@ =~= soap_envelope_spec(body@));
    }
    r
}

/// The GetExternalIPAddress envelope: the action element is empty.
pub open spec fn get_external_ip_envelope_spec() -> Seq<char> {
    soap_envelope_spec(soap_component_spec("GetExternalIPAddress"@, ""@))
}

pub fn get_external_ip_request() -> (r: String)
    ensures
        r@ == get_external_ip_envelope_spec(),
{
    let body = soap_component("GetExternalIPAddress", "");
    soap_envelope(body.as_str())
}

/// The ordered parameter block of AddPortMapping. The separators vary on
/// purpose — CRLF after most elements, a bare line feed and indentation
/// after `NewInternalClient` and `NewLeaseDuration` — and routers accept
/// the whitespace either way; the exact bytes stay fixed here so that the
/// request is reproducible.
pub open spec fn add_port_mapping_params_spec(
    protocol: Seq<char>,
    internal_port: u16,
    external_port: u16,
    local_ip: Seq<char>,
    description: Seq<char>,
    duration: usize,
) -> Seq<char> {
    "<NewRemoteHost></NewRemoteHost>\r\n<NewExternalPort>"@ + dec_digits(external_port as nat)
        + "</NewExternalPort>\r\n<NewProtocol>"@ + protocol
        + "</NewProtocol>\r\n<NewInternalPort>"@ + dec_digits(internal_port as nat)
        + "</NewInternalPort>\r\n<NewInternalClient>"@ + local_ip
        + "</NewInternalClient>\n        <NewEnabled>1</NewEnabled>\r\n<NewPortMappingDescription>"@
        + description + "</NewPortMappingDescription>\r\n<NewLeaseDuration>"@ + dec_digits(
        duration as nat,
    ) + "</NewLeaseDuration>\n        "@
}

/// The whole AddPortMapping envelope for one mapping.
pub open spec fn add_port_mapping_envelope_spec(
    protocol: Seq<char>,
    internal_port: u16,
    external_port: u16,
    local_ip: Seq<char>,
    description: Seq<char>,
    duration: usize,
) -> Seq<char> {
    soap_envelope_spec(
        soap_component_spec(
            "AddPortMapping"@,
            add_port_mapping_params_spec(
                protocol,
                internal_port,
                external_port,
                local_ip,
                description,
                duration,
            ),
        ),
    )
}

/// Renders the AddPortMapping envelope that forwards `external_port` on
/// the device to `internal_port` at the session's local address.
pub fn forward_port_request(
    session: &Session,
    protocol: &str,
    internal_port: u16,
    external_port: u16,
    description: &str,
    duration: usize,
) -> (r: String)
    ensures
        r@ == add_port_mapping_envelope_spec(
            protocol@,
            internal_port,
            external_port,
            session.local_ip@,
            description@,
            duration,
        ),
{
    let eport = dec_str(external_port as u64);
    let iport = dec_str(internal_port as u64);
    let dur = dec_str(duration as u64);
    let params = String::from_str("<NewRemoteHost></NewRemoteHost>\r\n<NewExternalPort>")
        .concat(eport.as_str())
        .concat("</NewExternalPort>\r\n<NewProtocol>")
        .concat(protocol)
        .concat("</NewProtocol>\r\n<NewInternalPort>")
        .concat(iport.as_str())
        .concat("</NewInternalPort>\r\n<NewInternalClient>")
        .concat(session.local_ip.as_str())
        .concat(
            "</NewInternalClient>\n        <NewEnabled>1</NewEnabled>\r\n<NewPortMappingDescription>",
        )
        .concat(description)
        .concat("</NewPortMappingDescription>\r\n<NewLeaseDuration>")
        .concat(dur.as_str())
        .concat("</NewLeaseDuration>\n        ");
    proof {
        assert(params@ =~= add_port_mapping_params_spec(
            protocol@,
            internal_port,
            external_port,
            session.local_ip@,
            description@,
            duration,
        ));
    }
    let body = soap_component("AddPortMapping", params.as_str());
    soap_envelope(body.as_str())
}

/// The ordered parameter block of DeletePortMapping.
pub open spec fn delete_port_mapping_params_spec(
    protocol: Seq<char>,
    external_port: u16,
) -> Seq<char> {
    "<NewRemoteHost></NewRemoteHost>\r\n<NewExternalPort>"@ + dec_digits(external_port as nat)
        + "</NewExternalPort>\r\n<NewProtocol>"@ + protocol + "</NewProtocol>\r\n"@
}

/// The whole DeletePortMapping envelope.
pub open spec fn delete_port_mapping_envelope_spec(
    protocol: Seq<char>,
    external_port: u16,
) -> Seq<char> {
    soap_envelope_spec(
        soap_component_spec(
            "DeletePortMapping"@,
            delete_port_mapping_params_spec(protocol, external_port),
        ),
    )
}

/// Renders the DeletePortMapping envelope that removes the mapping of
/// `external_port`.
pub fn remove_port_request(protocol: &str, external_port: u16) -> (r: String)
    ensures
        r@ == delete_port_mapping_envelope_spec(protocol@, external_port),
{
    let eport = dec_str(external_port as u64);
    let params = String::from_str("<NewRemoteHost></NewRemoteHost>\r\n<NewExternalPort>")
        .concat(eport.as_str())
        .concat("</NewExternalPort>\r\n<NewProtocol>")
        .concat(protocol)
        .concat("</NewProtocol>\r\n");
    proof {
        assert(params@ =~= delete_port_mapping_params_spec(protocol@, external_port));
    }
    let body = soap_component("DeletePortMapping", params.as_str());
    soap_envelope(body.as_str())
}

// ---------------------------------------------------------------------------
// the POST that carries an envelope
// ---------------------------------------------------------------------------

/// The UTF-8 byte length of a character sequence — what CONTENT-LENGTH
/// counts.
pub open spec fn byte_len(s: Seq<char>) -> nat {
    vstd::utf8::encode_utf8(s).len()
}

/// The header-and-body block of a SOAP POST: content type, the
/// SOAPACTION urn of the action, the byte length of the envelope, a blank
/// line, then the envelope itself.
pub open spec fn soap_post_payload_spec(action: Seq<char>, envelope: Seq<char>) -> Seq<char> {
    "CONTENT-TYPE: text/xml; charset=\"utf-8\"\r\nSOAPACTION: \"urn:schemas-upnp-org:service:WANIPConnection:1#"@
        + action + "\"\r\nCONTENT-LENGTH: "@ + dec_digits(byte_len(envelope)) + "\r\n\r\n"@
        + envelope
}

/// Renders the block that one SOAP POST hands to the HTTP request,
/// CONTENT-LENGTH counting the envelope's bytes.
pub fn soap_post_payload(action: &str, envelope: &str) -> (r: String)
    requires
        byte_len(envelope@) <= usize::MAX,
    ensures
        r@ == soap_post_payload_spec(action@, envelope@),
{
    let len = envelope.len();
    proof {
        assert(len as nat == byte_len(envelope@));
    }
    let num = dec_str(len as u64);
    let r = String::from_str(
        "CONTENT-TYPE: text/xml; charset=\"utf-8\"\r\nSOAPACTION: \"urn:schemas-upnp-org:service:WANIPConnection:1#",
    )
        .concat(action)
        .concat("\"\r\nCONTENT-LENGTH: ")
        .concat(num.as_str())
        .concat("\r\n\r\n")
        .concat(envelope);
    proof {
        assert(r@ =~= soap_post_payload_spec(action@, envelope@));
    }
    r
}

// ---------------------------------------------------------------------------
// the GetExternalIPAddress response
// ---------------------------------------------------------------------------

/// Reads the external address out of a GetExternalIPAddress response:
/// the content of the first `NewExternalIPAddress` tag, parsed as a
/// dotted quad. Fails with `NotAvailable` exactly when the tag is absent
/// and with `Malformed` exactly when its content is no valid address.
pub fn parse_external_ip(response: &str) -> (r: Result<Ipv4, AddressError>)
    ensures
        match r {
            Ok(ip) => {
                &&& xml_tag_childs_spec(response@, "NewExternalIPAddress"@) is Some
                &&& ipv4_valid(xml_tag_childs_spec(response@, "NewExternalIPAddress"@).unwrap())
                &&& ip.a as int == octet_val(
                    split_dot(
                        xml_tag_childs_spec(response@, "NewExternalIPAddress"@).unwrap(),
                    )[0],
                )
                &&& ip.b as int == octet_val(
                    split_dot(
                        xml_tag_childs_spec(response@, "NewExternalIPAddress"@).unwrap(),
                    )[1],
                )
                &&& ip.c as int == octet_val(
                    split_dot(
                        xml_tag_childs_spec(response@, "NewExternalIPAddress"@).unwrap(),
                    )[2],
                )
                &&& ip.d as int == octet_val(
                    split_dot(
                        xml_tag_childs_spec(response@, "NewExternalIPAddress"@).unwrap(),
                    )[3],
                )
            },
            Err(e) => match e {
                AddressError::NotAvailable => xml_tag_childs_spec(
                    response@,
                    "NewExternalIPAddress"@,
                ) is None,
                AddressError::Malformed => {
                    &&& xml_tag_childs_spec(response@, "NewExternalIPAddress"@) is Some
                    &&& !ipv4_valid(
                        xml_tag_childs_spec(response@, "NewExternalIPAddress"@).unwrap(),
                    )
                },
            },
        },
{
    let field = match get_xml_tag_childs(response, "NewExternalIPAddress") {
        Some(f) => f,
        None => {
            return Err(AddressError::NotAvailable);
        },
    };
    match parse_ipv4(field.as_str()) {
        Some(ip) => Ok(ip),
        None => Err(AddressError::Malformed),
    }
}

} // verus!
