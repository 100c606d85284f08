use trycp_server::port_range::parse_port_range;
use trycp_server::server::TrycpServer;
use trycp_server::text::u16_to_string;

fn parse(s: &str) -> Result<std::ops::Range<u16>, String> {
    parse_port_range(s.to_string())
}

#[test]
fn port_range_parses_two_numbers() {
    assert_eq!(parse("9000-9150"), Ok(9000..9150));
    assert_eq!(parse("0-65535"), Ok(0..65535));
    assert_eq!(parse("+1-+2"), Ok(1..2));
}

#[test]
fn port_range_rejects_wrong_order() {
    let msg = "Port range must go from a lower port to a higher one.".to_string();
    assert_eq!(parse("9150-9000"), Err(msg.clone()));
    assert_eq!(parse("5-5"), Err(msg));
}

#[test]
fn port_range_rejects_wrong_count() {
    let msg = "Port range must be in the format 'xxxx-yyyy'".to_string();
    assert_eq!(parse("9000"), Err(msg.clone()));
    assert_eq!(parse("1-2-3"), Err(msg));
}

#[test]
fn port_range_reports_number_errors_in_order() {
    assert_eq!(parse(""), Err("cannot parse integer from empty string".to_string()));
    assert_eq!(parse("1-"), Err("cannot parse integer from empty string".to_string()));
    assert_eq!(parse("-"), Err("cannot parse integer from empty string".to_string()));
    assert_eq!(parse("a-1"), Err("invalid digit found in string".to_string()));
    assert_eq!(parse("1-a-70000"), Err("invalid digit found in string".to_string()));
    assert_eq!(parse("70000-1"), Err("number too large to fit in target type".to_string()));
    assert_eq!(parse("99999x-1"), Err("number too large to fit in target type".to_string()));
    assert_eq!(parse("1x0000-2"), Err("invalid digit found in string".to_string()));
    assert_eq!(parse("+-1"), Err("invalid digit found in string".to_string()));
    assert_eq!(parse("٣-4"), Err("invalid digit found in string".to_string()));
}

#[test]
fn port_range_agrees_with_std_parse() {
    let samples = ["", "+", "0", "00065535", "65536", "+7", "1 ", " 1", "12a", "4294967296"];
    for s in samples.iter() {
        let ours = parse(&format!("{}-65535", s));
        let theirs: Result<u16, _> = s.parse::<u16>();
        match theirs {
            Err(e) => assert_eq!(ours, Err(e.to_string())),
            Ok(v) if v < 65535 => assert_eq!(ours, Ok(v..65535)),
            Ok(_) => assert!(ours.is_err()),
        }
    }
}

#[test]
fn port_range_roundtrip_of_written_range() {
    for (lo, hi) in [(0u16, 1u16), (9000, 9150), (65534, 65535), (7, 3)].iter() {
        let text = format!("{}-{}", u16_to_string(*lo), u16_to_string(*hi));
        if lo < hi {
            assert_eq!(parse(&text), Ok(*lo..*hi));
        } else {
            assert!(parse(&text).is_err());
        }
    }
}

#[test]
fn decimal_numerals() {
    assert_eq!(u16_to_string(0), "0");
    assert_eq!(u16_to_string(9), "9");
    assert_eq!(u16_to_string(10), "10");
    assert_eq!(u16_to_string(9000), "9000");
    assert_eq!(u16_to_string(65535), "65535");
}

#[test]
fn ports_are_handed_out_in_order_until_used_up() {
    let mut server = TrycpServer::new(9000..9003, "/tmp/c".to_string());
    assert_eq!(server.acquire_port(), Ok(9000));
    assert_eq!(server.acquire_port(), Ok(9001));
    assert_eq!(server.acquire_port(), Ok(9002));
    let exhausted = Err("All available ports have been used up! Range: 9000..9003".to_string());
    assert_eq!(server.acquire_port(), exhausted);
    assert_eq!(server.acquire_port(), exhausted);
    assert_eq!(server.next_port, 9003);
}

#[test]
fn reset_starts_ports_again_and_moves_directory() {
    let mut server = TrycpServer::new(10..12, "/tmp/a".to_string());
    assert_eq!(server.acquire_port(), Ok(10));
    server.reset(None);
    assert_eq!(server.conductors_dir, "/tmp/a");
    assert_eq!(server.acquire_port(), Ok(10));
    server.reset(Some("/tmp/b".to_string()));
    assert_eq!(server.conductors_dir, "/tmp/b");
    assert_eq!(server.next_port, 10);
}

#[test]
fn empty_range_hands_out_nothing() {
    let mut server = TrycpServer::new(5..5, "d".to_string());
    assert_eq!(
        server.acquire_port(),
        Err("All available ports have been used up! Range: 5..5".to_string())
    );
}
