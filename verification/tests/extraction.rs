use bridge_checker::endpoint::{
    parse_address, parse_endpoint, parse_octet, parse_port, Endpoint, ExtractError,
};
use bridge_checker::extract::{entries, extract, relevant_slice, Entry, LineFormat};

fn chars(s: &str) -> Vec<char> {
    s.chars().collect()
}

fn text(s: &[char]) -> String {
    s.iter().collect()
}

fn endpoint(a: u8, b: u8, c: u8, d: u8, port: u16) -> Endpoint {
    Endpoint { address: [a, b, c, d], port }
}

fn raw(list: &[Entry]) -> Vec<&str> {
    list.iter().map(|e| e.raw_text.as_str()).collect()
}

#[test]
fn octet_takes_one_to_three_digits_up_to_255() {
    assert_eq!(parse_octet(&chars("0")), Some(0));
    assert_eq!(parse_octet(&chars("9")), Some(9));
    assert_eq!(parse_octet(&chars("10")), Some(10));
    assert_eq!(parse_octet(&chars("199")), Some(199));
    assert_eq!(parse_octet(&chars("255")), Some(255));
    assert_eq!(parse_octet(&chars("256")), None);
    assert_eq!(parse_octet(&chars("999")), None);
    assert_eq!(parse_octet(&chars("1000")), None);
    assert_eq!(parse_octet(&chars("")), None);
}

#[test]
fn octet_refuses_leading_zeros_and_signs() {
    assert_eq!(parse_octet(&chars("00")), None);
    assert_eq!(parse_octet(&chars("01")), None);
    assert_eq!(parse_octet(&chars("010")), None);
    assert_eq!(parse_octet(&chars("+1")), None);
    assert_eq!(parse_octet(&chars("-1")), None);
    assert_eq!(parse_octet(&chars(" 1")), None);
    assert_eq!(parse_octet(&chars("1a")), None);
    assert_eq!(parse_octet(&chars("0x1")), None);
}

#[test]
fn every_octet_reads_back_from_its_numeral() {
    for n in 0..=255u8 {
        assert_eq!(parse_octet(&chars(&n.to_string())), Some(n));
    }
}

#[test]
fn address_is_four_octets_between_full_stops() {
    assert_eq!(parse_address(&chars("1.2.3.4")), Some([1, 2, 3, 4]));
    assert_eq!(parse_address(&chars("0.0.0.0")), Some([0, 0, 0, 0]));
    assert_eq!(parse_address(&chars("255.255.255.255")), Some([255, 255, 255, 255]));
    assert_eq!(parse_address(&chars("127.0.0.1")), Some([127, 0, 0, 1]));
}

#[test]
fn address_refuses_everything_else() {
    for s in [
        "", "1", "1.2", "1.2.3", "1.2.3.4.5", "1.2.3.", ".1.2.3", "1..2.3", "1.2.3.4.", "....",
        "256.0.0.1", "1.2.3.256", "01.2.3.4", "1.2.3.04", "1.2.3.4 ", " 1.2.3.4", "a.b.c.d",
        "1.2.3.-4", "+1.2.3.4", "1,2,3,4", "0x7f.0.0.1", "localhost", "::1", "1.2.3.4/8",
        "1111.2.3.4",
    ] {
        assert_eq!(parse_address(&chars(s)), None, "{:?}", s);
    }
}

#[test]
fn port_that_does_not_parse_is_zero() {
    assert_eq!(parse_port(&chars("443")), 443);
    assert_eq!(parse_port(&chars("0")), 0);
    assert_eq!(parse_port(&chars("65535")), 65535);
    assert_eq!(parse_port(&chars("+443")), 443);
    assert_eq!(parse_port(&chars("0443")), 443);
    for s in ["", "65536", "abc", "44a", "-1", " 443", "443 ", "4 43", "+", "99999999999999999999"] {
        assert_eq!(parse_port(&chars(s)), 0, "{:?}", s);
    }
}

#[test]
fn port_agrees_with_std_parse_or_zero() {
    for s in ["1", "80", "65535", "65536", "", "x", "+7", "-7", "007", "7 ", "٧"] {
        assert_eq!(parse_port(&chars(s)), s.parse::<u16>().unwrap_or(0), "{:?}", s);
    }
}

#[test]
fn endpoint_splits_at_the_first_colon() {
    assert_eq!(parse_endpoint(&chars("10.0.0.1:443")), Ok(endpoint(10, 0, 0, 1, 443)));
    assert_eq!(parse_endpoint(&chars("1.2.3.4:80:90")), Ok(endpoint(1, 2, 3, 4, 0)));
    assert_eq!(parse_endpoint(&chars("1.2.3.4:")), Ok(endpoint(1, 2, 3, 4, 0)));
    assert_eq!(parse_endpoint(&chars("1.2.3.4::80")), Ok(endpoint(1, 2, 3, 4, 0)));
}

#[test]
fn endpoint_without_colon_is_malformed() {
    for s in ["", "1.2.3.4", "1.2.3.4 80", "not an endpoint", "256.0.0.1"] {
        assert_eq!(parse_endpoint(&chars(s)), Err(ExtractError::MalformedEndpoint), "{:?}", s);
    }
}

#[test]
fn endpoint_with_bad_address_is_invalid() {
    for s in [":", ":80", "256.0.0.1:80", "1.2.3:80", "host:80", "1.2.3.4 :80", "01.2.3.4:80"] {
        assert_eq!(parse_endpoint(&chars(s)), Err(ExtractError::InvalidAddress), "{:?}", s);
    }
}

#[test]
fn endpoint_is_written_as_address_colon_port() {
    assert_eq!(endpoint(10, 0, 0, 1, 443).to_text(), "10.0.0.1:443");
    assert_eq!(endpoint(0, 0, 0, 0, 0).to_text(), "0.0.0.0:0");
    assert_eq!(endpoint(255, 255, 255, 255, 65535).to_text(), "255.255.255.255:65535");
    assert_eq!(endpoint(127, 0, 0, 1, 9050).to_text(), "127.0.0.1:9050");
}

#[test]
fn written_endpoint_reads_back_for_every_port() {
    for port in 0..=65535u16 {
        let e = endpoint(192, 0, 2, 7, port);
        assert_eq!(parse_endpoint(&chars(&e.to_text())), Ok(e));
    }
}

#[test]
fn written_endpoint_reads_back_for_every_octet_in_every_place() {
    for n in 0..=255u8 {
        for e in [
            endpoint(n, 1, 2, 3, 80),
            endpoint(1, n, 2, 3, 80),
            endpoint(1, 2, n, 3, 80),
            endpoint(1, 2, 3, n, 80),
            endpoint(n, n, n, n, n as u16),
        ] {
            let s = e.to_text();
            assert_eq!(parse_endpoint(&chars(&s)), Ok(e), "{}", s);
            assert_eq!(extract(&s, LineFormat::ProxyList), Ok(e), "{}", s);
        }
    }
}

#[test]
fn relevant_part_is_second_field_or_trimmed_line() {
    let line = chars("  obfs4 1.2.3.4:443 FP  ");
    assert_eq!(text(relevant_slice(&line, LineFormat::LegacyBridge)), "1.2.3.4:443");
    assert_eq!(text(relevant_slice(&line, LineFormat::ProxyList)), "obfs4 1.2.3.4:443 FP");
    let single = chars("1.2.3.4:443");
    assert_eq!(text(relevant_slice(&single, LineFormat::LegacyBridge)), "");
    assert_eq!(text(relevant_slice(&single, LineFormat::ProxyList)), "1.2.3.4:443");
}

#[test]
fn legacy_bridge_line_yields_second_field() {
    let r = extract("1.2.3.4 10.0.0.1:443 cert=xyz", LineFormat::LegacyBridge);
    assert_eq!(r, Ok(endpoint(10, 0, 0, 1, 443)));
}

#[test]
fn legacy_bridge_ignores_all_other_fields() {
    let expected = Ok(endpoint(198, 51, 100, 7, 9001));
    for line in [
        "obfs4 198.51.100.7:9001",
        "obfs4 198.51.100.7:9001 ",
        "obfs4 198.51.100.7:9001 0123456789ABCDEF cert=abc+def/ghi iat-mode=0",
        "anything 198.51.100.7:9001 1.1.1.1:1 2.2.2.2:2",
        "9.9.9.9:9 198.51.100.7:9001 8.8.8.8:8",
        "  obfs4\t\t198.51.100.7:9001\tx",
        "obfs4\u{a0}198.51.100.7:9001\u{3000}tail",
        ": 198.51.100.7:9001 :",
    ] {
        assert_eq!(extract(line, LineFormat::LegacyBridge), expected, "{:?}", line);
    }
}

#[test]
fn legacy_bridge_line_with_one_field_is_malformed() {
    for line in ["", "   ", "obfs4", "1.2.3.4:443", "  1.2.3.4:443  "] {
        assert_eq!(
            extract(line, LineFormat::LegacyBridge),
            Err(ExtractError::MalformedEndpoint),
            "{:?}",
            line
        );
    }
}

#[test]
fn legacy_bridge_second_field_decides_the_error() {
    assert_eq!(
        extract("obfs4 nocolon 1.2.3.4:443", LineFormat::LegacyBridge),
        Err(ExtractError::MalformedEndpoint)
    );
    assert_eq!(
        extract("obfs4 999.2.3.4:443 1.2.3.4:443", LineFormat::LegacyBridge),
        Err(ExtractError::InvalidAddress)
    );
}

#[test]
fn proxy_list_line_is_one_endpoint() {
    assert_eq!(extract("127.0.0.1:8080", LineFormat::ProxyList), Ok(endpoint(127, 0, 0, 1, 8080)));
    assert_eq!(
        extract("  127.0.0.1:8080\t\r", LineFormat::ProxyList),
        Ok(endpoint(127, 0, 0, 1, 8080))
    );
    assert_eq!(
        extract("127.0.0.1:8080 extra", LineFormat::ProxyList),
        Ok(endpoint(127, 0, 0, 1, 0))
    );
    assert_eq!(
        extract("socks5 127.0.0.1:8080", LineFormat::ProxyList),
        Err(ExtractError::InvalidAddress)
    );
}

#[test]
fn line_without_colon_is_malformed() {
    for line in ["10.0.0.1", "", " ", "10.0.0.1 443", "proxy"] {
        assert_eq!(
            extract(line, LineFormat::ProxyList),
            Err(ExtractError::MalformedEndpoint),
            "{:?}",
            line
        );
    }
    for line in ["obfs4 10.0.0.1 cert=a:b", "a b c", "obfs4 10.0.0.1"] {
        assert_eq!(
            extract(line, LineFormat::LegacyBridge),
            Err(ExtractError::MalformedEndpoint),
            "{:?}",
            line
        );
    }
}

#[test]
fn unreadable_port_gives_port_zero_not_an_error() {
    for line in ["10.0.0.1:", "10.0.0.1:http", "10.0.0.1:65536", "10.0.0.1:-1", "10.0.0.1:4 4"] {
        assert_eq!(
            extract(line, LineFormat::ProxyList),
            Ok(endpoint(10, 0, 0, 1, 0)),
            "{:?}",
            line
        );
    }
    assert_eq!(
        extract("obfs4 10.0.0.1:port cert", LineFormat::LegacyBridge),
        Ok(endpoint(10, 0, 0, 1, 0))
    );
}

#[test]
fn entry_names_what_extract_finds() {
    let entry = Entry { raw_text: "obfs4 10.0.0.1:443 x".to_string(), format: LineFormat::LegacyBridge };
    assert_eq!(entry.endpoint(), Ok(endpoint(10, 0, 0, 1, 443)));
    let entry = Entry { raw_text: "obfs4 10.0.0.1:443 x".to_string(), format: LineFormat::ProxyList };
    assert_eq!(entry.endpoint(), Err(ExtractError::InvalidAddress));
    assert_eq!(entry.clone(), entry);
}

#[test]
fn entries_are_the_lines_that_are_not_blank() {
    let list = entries("a 1.1.1.1:1\nb 2.2.2.2:2\n", LineFormat::LegacyBridge);
    assert_eq!(raw(&list), vec!["a 1.1.1.1:1", "b 2.2.2.2:2"]);
    assert!(list.iter().all(|e| e.format == LineFormat::LegacyBridge));

    let list = entries("1.1.1.1:1\n\n   \n2.2.2.2:2", LineFormat::ProxyList);
    assert_eq!(raw(&list), vec!["1.1.1.1:1", "2.2.2.2:2"]);
    assert!(list.iter().all(|e| e.format == LineFormat::ProxyList));
}

#[test]
fn entries_of_empty_input_are_none() {
    for s in ["", "\n", " ", "\r\n\r\n", " \t\n \n\u{a0}\n"] {
        assert!(entries(s, LineFormat::LegacyBridge).is_empty(), "{:?}", s);
        assert!(entries(s, LineFormat::ProxyList).is_empty(), "{:?}", s);
    }
}

#[test]
fn entries_keep_each_line_as_it_is() {
    let list = entries("\n\n  first  line \r\n\tsecond\t\r\nthird\r\r\nlast \n\n", LineFormat::ProxyList);
    assert_eq!(raw(&list), vec!["first  line ", "\tsecond\t", "third\r", "last"]);
}

#[test]
fn entries_agree_with_trim_and_lines() {
    for s in [
        "", "one", "one\n", "one\ntwo", "one\r\ntwo\r\n", "\n\none\n\n\ntwo\n\n", " a \n b ",
        "a\rb\nc", "a\n \nb", "x\n\r\ny",
    ] {
        let expected: Vec<&str> = s.trim().lines().filter(|l| !l.trim().is_empty()).collect();
        let list = entries(s, LineFormat::ProxyList);
        assert_eq!(raw(&list), expected, "{:?}", s);
    }
}

#[test]
fn malformed_lines_are_entries_too() {
    let list = entries("obfs4 1.2.3.4:1\ngarbage\nobfs4 300.1.1.1:1", LineFormat::LegacyBridge);
    assert_eq!(list.len(), 3);
    assert_eq!(list[0].endpoint(), Ok(endpoint(1, 2, 3, 4, 1)));
    assert_eq!(list[1].endpoint(), Err(ExtractError::MalformedEndpoint));
    assert_eq!(list[2].endpoint(), Err(ExtractError::InvalidAddress));
}
