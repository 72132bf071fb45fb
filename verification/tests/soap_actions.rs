use expose::discovery::{build_session, discovery_request, Session};
use expose::ipv4::Ipv4;
use expose::soap::{
    forward_port_request, get_external_ip_request, parse_external_ip, remove_port_request,
    soap_post_payload, AddressError,
};
use expose::utils::{find_line, format_url, get_xml_tag_childs, http_request, url_has_host};

fn session() -> Session {
    Session {
        device_addr: "192.168.1.1:5000".to_string(),
        name: "BarRouter/2.0".to_string(),
        local_ip: "192.168.1.50".to_string(),
        endpoint: "ctl/IPConn".to_string(),
    }
}

// --- the probe ----------------------------------------------------------

#[test]
fn discovery_probe_is_exact() {
    assert_eq!(
        discovery_request(),
        "M-SEARCH * HTTP/1.1\r\nHOST: 239.255.255.250:1900\r\nMAN: \"ssdp:discover\"\r\nMX: 2\r\nST: urn:schemas-upnp-org:service:WANIPConnection:1\r\n\r\n"
    );
}

// --- envelopes ----------------------------------------------------------

#[test]
fn get_external_ip_envelope_is_exact() {
    assert_eq!(
        get_external_ip_request(),
        "<?xml version=\"1.0\"?>\r\n\
         <s:Envelope xmlns:s=\"http://schemas.xmlsoap.org/soap/envelope/\" s:encodingStyle=\"http://schemas.xmlsoap.org/soap/encoding/\">\r\n\
         <s:Body>\r\n\
         <u:GetExternalIPAddress xmlns:u=\"urn:schemas-upnp-org:service:WANIPConnection:1\"></u:GetExternalIPAddress>\r\n\
         </s:Body>\r\n\
         </s:Envelope>\r\n"
    );
}

#[test]
fn add_port_mapping_round_trip() {
    let s = session();
    let envelope = forward_port_request(&s, "TCP", 8080, 8080, "test", 3600);
    assert_eq!(
        get_xml_tag_childs(&envelope, "NewRemoteHost"),
        Some("".to_string())
    );
    assert_eq!(
        get_xml_tag_childs(&envelope, "NewExternalPort"),
        Some("8080".to_string())
    );
    assert_eq!(
        get_xml_tag_childs(&envelope, "NewProtocol"),
        Some("TCP".to_string())
    );
    assert_eq!(
        get_xml_tag_childs(&envelope, "NewInternalPort"),
        Some("8080".to_string())
    );
    assert_eq!(
        get_xml_tag_childs(&envelope, "NewInternalClient"),
        Some("192.168.1.50".to_string())
    );
    assert_eq!(
        get_xml_tag_childs(&envelope, "NewEnabled"),
        Some("1".to_string())
    );
    assert_eq!(
        get_xml_tag_childs(&envelope, "NewPortMappingDescription"),
        Some("test".to_string())
    );
    assert_eq!(
        get_xml_tag_childs(&envelope, "NewLeaseDuration"),
        Some("3600".to_string())
    );
    assert_eq!(
        get_xml_tag_childs(&envelope, "AddPortMapping"),
        None,
        "the action element carries a namespace attribute, so the bare tag is absent"
    );
}

#[test]
fn add_port_mapping_envelope_is_exact() {
    let s = session();
    let envelope = forward_port_request(&s, "TCP", 8080, 8080, "test", 3600);
    assert_eq!(
        envelope,
        "<?xml version=\"1.0\"?>\r\n\
         <s:Envelope xmlns:s=\"http://schemas.xmlsoap.org/soap/envelope/\" s:encodingStyle=\"http://schemas.xmlsoap.org/soap/encoding/\">\r\n\
         <s:Body>\r\n\
         <u:AddPortMapping xmlns:u=\"urn:schemas-upnp-org:service:WANIPConnection:1\">\
         <NewRemoteHost></NewRemoteHost>\r\n\
         <NewExternalPort>8080</NewExternalPort>\r\n\
         <NewProtocol>TCP</NewProtocol>\r\n\
         <NewInternalPort>8080</NewInternalPort>\r\n\
         <NewInternalClient>192.168.1.50</NewInternalClient>\n        \
         <NewEnabled>1</NewEnabled>\r\n\
         <NewPortMappingDescription>test</NewPortMappingDescription>\r\n\
         <NewLeaseDuration>3600</NewLeaseDuration>\n        \
         </u:AddPortMapping>\r\n\
         </s:Body>\r\n\
         </s:Envelope>\r\n"
    );
}

#[test]
fn delete_port_mapping_envelope_holds_its_parameters() {
    let envelope = remove_port_request("UDP", 9000);
    assert_eq!(
        get_xml_tag_childs(&envelope, "NewRemoteHost"),
        Some("".to_string())
    );
    assert_eq!(
        get_xml_tag_childs(&envelope, "NewExternalPort"),
        Some("9000".to_string())
    );
    assert_eq!(
        get_xml_tag_childs(&envelope, "NewProtocol"),
        Some("UDP".to_string())
    );
}

#[test]
fn port_zero_renders_as_one_digit() {
    let envelope = remove_port_request("TCP", 0);
    assert_eq!(
        get_xml_tag_childs(&envelope, "NewExternalPort"),
        Some("0".to_string())
    );
}

// --- the POST block -----------------------------------------------------

#[test]
fn soap_post_payload_counts_bytes() {
    assert_eq!(
        soap_post_payload("GetExternalIPAddress", "abc"),
        "CONTENT-TYPE: text/xml; charset=\"utf-8\"\r\n\
         SOAPACTION: \"urn:schemas-upnp-org:service:WANIPConnection:1#GetExternalIPAddress\"\r\n\
         CONTENT-LENGTH: 3\r\n\
         \r\n\
         abc"
    );
    // CONTENT-LENGTH counts bytes, not characters
    assert!(soap_post_payload("A", "é").contains("CONTENT-LENGTH: 2\r\n"));
}

#[test]
fn http_request_is_exact() {
    assert_eq!(
        http_request("post", "10.0.0.1:1234", "ctl/IPConn", "X-HEADER: y\r\n"),
        "POST /ctl/IPConn HTTP/1.1\r\nHOST: 10.0.0.1:1234\r\nX-HEADER: y\r\n\n    \r\n"
    );
}

// --- the GetExternalIPAddress response -----------------------------------

#[test]
fn reads_the_external_address_out_of_a_response() {
    let response = "HTTP/1.1 200 OK\r\nCONTENT-TYPE: text/xml\r\n\r\n<s:Envelope><s:Body><u:GetExternalIPAddressResponse><NewExternalIPAddress>203.0.113.5</NewExternalIPAddress></u:GetExternalIPAddressResponse></s:Body></s:Envelope>";
    assert_eq!(
        parse_external_ip(response),
        Ok(Ipv4 { a: 203, b: 0, c: 113, d: 5 })
    );
}

#[test]
fn response_without_the_address_tag_is_not_available() {
    let response = "HTTP/1.1 500 Internal Server Error\r\n\r\n<s:Envelope><s:Body><s:Fault/></s:Body></s:Envelope>";
    assert_eq!(parse_external_ip(response), Err(AddressError::NotAvailable));
}

#[test]
fn response_with_a_broken_address_is_malformed() {
    let response = "<NewExternalIPAddress>not-an-ip</NewExternalIPAddress>";
    assert_eq!(parse_external_ip(response), Err(AddressError::Malformed));
}

// --- end to end over stub texts ------------------------------------------

#[test]
fn discovery_texts_build_the_session() {
    let reply = "HTTP/1.1 200 OK\r\nLOCATION: http://192.168.1.1:5000/desc.xml\r\nSERVER: Foo/1.0 UPnP/1.0 BarRouter/2.0\r\nEXT:\r\n\r\n";
    let location = find_line("location", reply).unwrap();
    let server = find_line("server", reply).unwrap();
    assert!(url_has_host(&location));
    let url = format_url(&location);
    assert_eq!(url.host, "192.168.1.1:5000");
    assert_eq!(url.path, "desc.xml");

    let igd = "<root><device><serviceList><service><serviceId>urn:upnp-org:serviceId:WANIPConn1</serviceId><controlURL>/ctl/IPConn</controlURL></service></serviceList></device></root>";
    let session = build_session(igd, &url.host, &server, "192.168.1.50").unwrap();
    assert_eq!(session.endpoint, "ctl/IPConn");
    assert_eq!(session.device_addr, "192.168.1.1:5000");
    assert_eq!(session.name, "BarRouter/2.0");
    assert_eq!(session.local_ip, "192.168.1.50");
}

#[test]
fn description_without_the_service_marker_yields_no_session() {
    let igd = "<root><controlURL>/ctl/IPConn</controlURL></root>";
    assert!(build_session(igd, "192.168.1.1:5000", "Foo/1.0 Bar/2.0", "10.0.0.2").is_none());
}

#[test]
fn description_without_a_control_url_yields_no_session() {
    let igd = "<root>urn:upnp-org:serviceId:WANIPConn1</root>";
    assert!(build_session(igd, "192.168.1.1:5000", "Foo/1.0 Bar/2.0", "10.0.0.2").is_none());
}
