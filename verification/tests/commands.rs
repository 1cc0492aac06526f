use am_receiver::command::{
    command_decode, decode_line, AGCType, FilterType, InternalCommand, UiCommand,
};
use am_receiver::parse::{parse_i32, split_tokens, str_eq};

#[test]
fn am_decode_boundaries() {
    assert_eq!(
        command_decode(UiCommand::AM(4)),
        InternalCommand::AM(FilterType::AM3K)
    );
    assert_eq!(
        command_decode(UiCommand::AM(5)),
        InternalCommand::AM(FilterType::AM6K)
    );
    assert_eq!(
        command_decode(UiCommand::AM(8)),
        InternalCommand::AM(FilterType::AM6K)
    );
    assert_eq!(
        command_decode(UiCommand::AM(9)),
        InternalCommand::AM(FilterType::AM11K)
    );
    assert_eq!(
        command_decode(UiCommand::AM(13)),
        InternalCommand::AM(FilterType::AM11K)
    );
    assert_eq!(
        command_decode(UiCommand::AM(14)),
        InternalCommand::AM(FilterType::Bypass)
    );
    assert_eq!(
        command_decode(UiCommand::AM(i32::MIN)),
        InternalCommand::AM(FilterType::AM3K)
    );
    assert_eq!(
        command_decode(UiCommand::AM(i32::MAX)),
        InternalCommand::AM(FilterType::Bypass)
    );
}

#[test]
fn agc_decode_boundaries() {
    assert_eq!(
        command_decode(UiCommand::AGC(-1)),
        InternalCommand::AGC(AGCType::Off)
    );
    assert_eq!(
        command_decode(UiCommand::AGC(i32::MIN)),
        InternalCommand::AGC(AGCType::Off)
    );
    assert_eq!(
        command_decode(UiCommand::AGC(0)),
        InternalCommand::AGC(AGCType::AGC05)
    );
    assert_eq!(
        command_decode(UiCommand::AGC(1)),
        InternalCommand::AGC(AGCType::AGC15)
    );
    assert_eq!(
        command_decode(UiCommand::AGC(2)),
        InternalCommand::AGC(AGCType::AGC20)
    );
    assert_eq!(
        command_decode(UiCommand::AGC(3)),
        InternalCommand::AGC(AGCType::AGC30)
    );
    assert_eq!(
        command_decode(UiCommand::AGC(4)),
        InternalCommand::AGC(AGCType::AGC50)
    );
    assert_eq!(
        command_decode(UiCommand::AGC(100)),
        InternalCommand::AGC(AGCType::AGC50)
    );
}

#[test]
fn af_decode_boundaries() {
    assert_eq!(
        command_decode(UiCommand::AF(4)),
        InternalCommand::AF(FilterType::AF3K)
    );
    assert_eq!(
        command_decode(UiCommand::AF(5)),
        InternalCommand::AF(FilterType::AF6K)
    );
    assert_eq!(
        command_decode(UiCommand::AF(8)),
        InternalCommand::AF(FilterType::AF6K)
    );
    assert_eq!(
        command_decode(UiCommand::AF(9)),
        InternalCommand::AF(FilterType::AF11K)
    );
    assert_eq!(
        command_decode(UiCommand::AF(i32::MAX)),
        InternalCommand::AF(FilterType::AF11K)
    );
}

#[test]
fn decode_passes_names_and_end_through() {
    assert_eq!(
        command_decode(UiCommand::RSSI("meter".to_string())),
        InternalCommand::RSSI("meter".to_string())
    );
    assert_eq!(
        command_decode(UiCommand::IFOUT("scope".to_string())),
        InternalCommand::IFOUT("scope".to_string())
    );
    assert_eq!(command_decode(UiCommand::END), InternalCommand::END);
}

#[test]
fn from_str_recognizes_commands() {
    assert_eq!(UiCommand::from_str("AM 5"), Some(UiCommand::AM(5)));
    assert_eq!(UiCommand::from_str("AGC -1"), Some(UiCommand::AGC(-1)));
    assert_eq!(UiCommand::from_str("AF 2"), Some(UiCommand::AF(2)));
    assert_eq!(
        UiCommand::from_str("RSSI meter"),
        Some(UiCommand::RSSI("meter".to_string()))
    );
    assert_eq!(
        UiCommand::from_str("IFOUT None"),
        Some(UiCommand::IFOUT("None".to_string()))
    );
    assert_eq!(UiCommand::from_str("END"), Some(UiCommand::END));
}

#[test]
fn from_str_tolerates_extra_whitespace() {
    assert_eq!(UiCommand::from_str("  AM \t 7  "), Some(UiCommand::AM(7)));
    assert_eq!(UiCommand::from_str("END "), Some(UiCommand::END));
}

#[test]
fn from_str_rejects_unknown_tokens() {
    assert_eq!(UiCommand::from_str(""), None);
    assert_eq!(UiCommand::from_str("   "), None);
    assert_eq!(UiCommand::from_str("AM"), None);
    assert_eq!(UiCommand::from_str("AM x"), None);
    assert_eq!(UiCommand::from_str("AM 5 6"), None);
    assert_eq!(UiCommand::from_str("FM 3"), None);
    assert_eq!(UiCommand::from_str("am 5"), None);
    assert_eq!(UiCommand::from_str("END 1"), None);
}

#[test]
fn from_str_integer_limits() {
    assert_eq!(
        UiCommand::from_str("AM 2147483647"),
        Some(UiCommand::AM(i32::MAX))
    );
    assert_eq!(UiCommand::from_str("AM 2147483648"), None);
    assert_eq!(
        UiCommand::from_str("AM -2147483648"),
        Some(UiCommand::AM(i32::MIN))
    );
    assert_eq!(UiCommand::from_str("AM -2147483649"), None);
    assert_eq!(UiCommand::from_str("AM +12"), Some(UiCommand::AM(12)));
}

#[test]
fn parse_i32_forms() {
    assert_eq!(parse_i32("0"), Some(0));
    assert_eq!(parse_i32("007"), Some(7));
    assert_eq!(parse_i32("-0"), Some(0));
    assert_eq!(parse_i32("+5"), Some(5));
    assert_eq!(parse_i32(""), None);
    assert_eq!(parse_i32("-"), None);
    assert_eq!(parse_i32("+"), None);
    assert_eq!(parse_i32("1a"), None);
    assert_eq!(parse_i32(" 1"), None);
    assert_eq!(parse_i32("999999999999999999999"), None);
}

#[test]
fn split_tokens_matches_whitespace_splitting() {
    let toks = split_tokens("  AM   5 ");
    assert_eq!(toks, vec!["AM".to_string(), "5".to_string()]);
    let toks = split_tokens("");
    assert!(toks.is_empty());
    let toks = split_tokens("one");
    assert_eq!(toks, vec!["one".to_string()]);
}

#[test]
fn str_eq_compares_contents() {
    assert!(str_eq("END", "END"));
    assert!(!str_eq("END", "ENDS"));
    assert!(!str_eq("AM", "AF"));
}

#[test]
fn decode_line_composes_parse_and_decode() {
    assert_eq!(
        decode_line("AM 3"),
        Some(InternalCommand::AM(FilterType::AM3K))
    );
    assert_eq!(
        decode_line("AGC 0"),
        Some(InternalCommand::AGC(AGCType::AGC05))
    );
    assert_eq!(decode_line("END"), Some(InternalCommand::END));
    assert_eq!(decode_line("noise"), None);
}
