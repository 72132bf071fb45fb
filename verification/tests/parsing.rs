use expose::ipv4::{parse_ipv4, Ipv4};
use expose::utils::{find_line, format_url, get_xml_tag_childs, url_has_host};

// --- header-line lookup -------------------------------------------------

const REPLY: &str = "HTTP/1.1 200 OK\r\nEXT:\r\nSERVER: Foo/1.0 UPnP/1.0 BarRouter/2.0\r\nLOCATION: http://192.168.1.1:5000/desc.xml\r\n\r\n";

#[test]
fn finds_location_and_server_headers() {
    assert_eq!(
        find_line("location", REPLY),
        Some("http://192.168.1.1:5000/desc.xml".to_string())
    );
    assert_eq!(
        find_line("server", REPLY),
        Some("Foo/1.0 UPnP/1.0 BarRouter/2.0".to_string())
    );
}

#[test]
fn header_lookup_ignores_ordering_and_unrelated_lines() {
    let swapped = "HTTP/1.1 200 OK\r\nLOCATION: http://192.168.1.1:5000/desc.xml\r\nCACHE-CONTROL: max-age=120\r\nST: urn:x\r\nSERVER: Foo/1.0 UPnP/1.0 BarRouter/2.0\r\n\r\n";
    assert_eq!(
        find_line("location", swapped),
        Some("http://192.168.1.1:5000/desc.xml".to_string())
    );
    assert_eq!(
        find_line("server", swapped),
        Some("Foo/1.0 UPnP/1.0 BarRouter/2.0".to_string())
    );
}

#[test]
fn header_lookup_is_case_insensitive_on_the_name() {
    assert_eq!(
        find_line("LoCaTiOn", REPLY),
        Some("http://192.168.1.1:5000/desc.xml".to_string())
    );
}

#[test]
fn header_lookup_trims_the_value() {
    let text = "LOCATION:   http://10.0.0.1/x  \r\nDONE: yes\r\n";
    assert_eq!(find_line("location", text), Some("http://10.0.0.1/x".to_string()));
}

#[test]
fn header_lookup_misses_absent_headers() {
    assert_eq!(find_line("mx", REPLY), None);
    assert_eq!(find_line("location", ""), None);
}

#[test]
fn header_lookup_works_without_a_final_line_ending() {
    assert_eq!(
        find_line("location", "LOCATION: http://10.0.0.1/x"),
        Some("http://10.0.0.1/x".to_string())
    );
}

#[test]
fn header_lookup_strips_the_prefix_once() {
    // the value is the remainder of the line after one prefix; a repeated
    // prefix belongs to the value
    assert_eq!(
        find_line("location", "LOCATION: LOCATION: http://x\r\n"),
        Some("LOCATION: http://x".to_string())
    );
}

#[test]
fn header_lookup_takes_the_first_matching_line() {
    let text = "LOCATION: http://first/\r\nLOCATION: http://second/\r\n";
    assert_eq!(find_line("location", text), Some("http://first/".to_string()));
}

// --- XML tag extraction -------------------------------------------------

#[test]
fn extracts_tag_content() {
    assert_eq!(get_xml_tag_childs("<Foo>bar</Foo>", "Foo"), Some("bar".to_string()));
}

#[test]
fn missing_opening_tag_yields_nothing() {
    assert_eq!(get_xml_tag_childs("bar</Foo>", "Foo"), None);
}

#[test]
fn missing_closing_tag_yields_nothing() {
    assert_eq!(get_xml_tag_childs("<Foo>bar", "Foo"), None);
}

#[test]
fn nested_same_tag_returns_leftmost_first_match() {
    // Intentional leftmost-first-match semantics, not a parser bug: the
    // scan has no notion of nesting, so the span runs from the end of the
    // first opening marker to the first closing marker after it.
    assert_eq!(
        get_xml_tag_childs("<Foo><Foo>x</Foo></Foo>", "Foo"),
        Some("<Foo>x".to_string())
    );
}

#[test]
fn tag_with_attribute_closes_on_its_first_word() {
    assert_eq!(
        get_xml_tag_childs("<controlURL ext=\"1\">/ctl/IPConn</controlURL>", "controlURL ext=\"1\""),
        Some("/ctl/IPConn".to_string())
    );
}

// --- URL splitting ------------------------------------------------------

#[test]
fn splits_url_into_protocol_host_path() {
    let url = format_url("http://10.0.0.1:1234/desc.xml");
    assert_eq!(url.protocol, "http");
    assert_eq!(url.host, "10.0.0.1:1234");
    assert_eq!(url.path, "desc.xml");
}

#[test]
fn url_path_defaults_to_empty() {
    let url = format_url("http://10.0.0.1");
    assert_eq!(url.protocol, "http");
    assert_eq!(url.host, "10.0.0.1");
    assert_eq!(url.path, "");
}

#[test]
fn url_keeps_later_slashes_inside_the_path() {
    let url = format_url("http://router.local:5000/a/b/c.xml");
    assert_eq!(url.path, "a/b/c.xml");
}

#[test]
fn url_split_ignores_slashes_before_the_protocol_marker() {
    // only the first '/' after the '://' separates host from path
    let url = format_url("a/b://h/q");
    assert_eq!(url.protocol, "a/b");
    assert_eq!(url.host, "h");
    assert_eq!(url.path, "q");
}

#[test]
fn url_wellformedness_check() {
    assert!(url_has_host("http://10.0.0.1"));
    assert!(url_has_host("http://10.0.0.1:1234/desc.xml"));
    assert!(!url_has_host("nonsense"));
    assert!(!url_has_host(""));
    assert!(!url_has_host("http://"));
}

// --- IPv4 parsing -------------------------------------------------------

#[test]
fn parses_dotted_quads() {
    assert_eq!(
        parse_ipv4("203.0.113.5"),
        Some(Ipv4 { a: 203, b: 0, c: 113, d: 5 })
    );
    assert_eq!(parse_ipv4("0.0.0.0"), Some(Ipv4 { a: 0, b: 0, c: 0, d: 0 }));
    assert_eq!(
        parse_ipv4("255.255.255.255"),
        Some(Ipv4 { a: 255, b: 255, c: 255, d: 255 })
    );
}

#[test]
fn rejects_malformed_addresses() {
    assert_eq!(parse_ipv4(""), None);
    assert_eq!(parse_ipv4("1.2.3"), None);
    assert_eq!(parse_ipv4("1.2.3.4.5"), None);
    assert_eq!(parse_ipv4("256.1.1.1"), None);
    assert_eq!(parse_ipv4("01.2.3.4"), None);
    assert_eq!(parse_ipv4("a.b.c.d"), None);
    assert_eq!(parse_ipv4("1.2.3.4 "), None);
    assert_eq!(parse_ipv4("1..3.4"), None);
    assert_eq!(parse_ipv4("1.2.3.1000"), None);
}
