use ajemi::hex::parse_hex_u32;
use ajemi::layout::{
    language_and_layout, layout_of_klid, parse_layout_name, probe_layout, Layout, LayoutProbe,
    BELGIAN_FRENCH, BELGIAN_FRENCH_COMMA, BELGIAN_FRENCH_PERIOD, FRENCH, GERMAN, GERMAN_IBM,
    SWISS_FRENCH, US, US_DVORAK,
};

fn name(text: &str) -> [u8; 9] {
    let mut buf = [0u8; 9];
    buf[..8].copy_from_slice(&text.as_bytes()[..8]);
    buf
}

#[test]
fn layout_names_parse() {
    assert_eq!(parse_layout_name(b"QWERTY"), Some(Layout::Qwerty));
    assert_eq!(parse_layout_name(b"DVORAK"), Some(Layout::Dvorak));
    assert_eq!(parse_layout_name(b"QWERTZ"), Some(Layout::Qwertz));
    assert_eq!(parse_layout_name(b"AZERTY"), Some(Layout::Azerty));
    assert_eq!(parse_layout_name(b"CUSTOM"), Some(Layout::Custom));
}

#[test]
fn unrecognised_layout_names() {
    assert_eq!(parse_layout_name(b""), None);
    assert_eq!(parse_layout_name(b"qwerty"), None);
    assert_eq!(parse_layout_name(b"QWERTY\n"), None);
    assert_eq!(parse_layout_name(b" DVORAK"), None);
    assert_eq!(parse_layout_name(b"COLEMAK"), None);
    assert_eq!(parse_layout_name(b"QWERT"), None);
}

#[test]
fn known_klids_classify() {
    assert_eq!(layout_of_klid(US_DVORAK), Layout::Dvorak);
    for id in [GERMAN, GERMAN_IBM, SWISS_FRENCH] {
        assert_eq!(layout_of_klid(id), Layout::Qwertz);
    }
    for id in [FRENCH, BELGIAN_FRENCH, BELGIAN_FRENCH_COMMA, BELGIAN_FRENCH_PERIOD] {
        assert_eq!(layout_of_klid(id), Layout::Azerty);
    }
    assert_eq!(layout_of_klid(0x0000_0409), Layout::Qwerty);
    assert_eq!(layout_of_klid(0x0000_0809), Layout::Qwerty);
}

#[test]
fn user_klids_are_custom() {
    assert_eq!(layout_of_klid(0xA000_0409), Layout::Custom);
    assert_eq!(layout_of_klid(0xAFFF_FFFF), Layout::Custom);
    assert_eq!(layout_of_klid(0xB000_0409), Layout::Qwerty);
    assert_eq!(layout_of_klid(0x9FFF_FFFF), Layout::Qwerty);
}

#[test]
fn hex_parsing_follows_from_str_radix() {
    let cases: [&[u8]; 12] = [
        b"00000409", b"0001080C", b"0001080c", b"A0000409", b"+1F", b"+", b"-1", b"", b"12G4",
        b"FFFFFFFF", b"100000000", b"ffffffff",
    ];
    for text in cases {
        let expected = std::str::from_utf8(text)
            .ok()
            .and_then(|s| u32::from_str_radix(s, 16).ok());
        assert_eq!(parse_hex_u32(text, text.len()), expected, "{:?}", text);
    }
    assert_eq!(parse_hex_u32(b"00000409", 8), Some(0x409));
    assert_eq!(parse_hex_u32(b"100000000", 9), None);
    assert_eq!(parse_hex_u32(b"0001040900", 4), Some(1));
}

#[test]
fn probe_finds_preferred_layout() {
    assert_eq!(probe_layout(Layout::Dvorak, Some(&name("00010409"))), LayoutProbe::Found { klid: 0x0001_0409, lang_id: 0x0409 });
    assert_eq!(probe_layout(Layout::Azerty, Some(&name("0001080C"))), LayoutProbe::Found { klid: 0x0001_080C, lang_id: 0x080C });
    assert_eq!(probe_layout(Layout::Custom, Some(&name("a0010411"))), LayoutProbe::Found { klid: 0xA001_0411, lang_id: 0x0411 });
    assert_eq!(probe_layout(Layout::Qwerty, Some(&name("00000409"))), LayoutProbe::Found { klid: 0x0409, lang_id: 0x0409 });
}

#[test]
fn probe_skips_other_layouts() {
    assert_eq!(probe_layout(Layout::Dvorak, Some(&name("00000409"))), LayoutProbe::Skip);
    assert_eq!(probe_layout(Layout::Qwertz, Some(&name("0000040C"))), LayoutProbe::Skip);
}

#[test]
fn probe_aborts_on_failure() {
    assert_eq!(probe_layout(Layout::Qwerty, None), LayoutProbe::Abort);
    assert_eq!(probe_layout(Layout::Qwerty, Some(&[0u8; 9])), LayoutProbe::Abort);
    assert_eq!(probe_layout(Layout::Qwerty, Some(&name("0000z409"))), LayoutProbe::Abort);
}

#[test]
fn probe_reads_only_the_first_eight_bytes() {
    let mut buf = name("00000407");
    buf[8] = b'7';
    assert_eq!(probe_layout(Layout::Qwertz, Some(&buf)), LayoutProbe::Found { klid: 0x0407, lang_id: 0x0407 });
}

#[test]
fn language_defaults_to_us_english() {
    assert_eq!(language_and_layout::<u64>(None), (US, None));
    assert_eq!(language_and_layout(Some((0x0407u16, 7u64))), (0x0407, Some(7u64)));
}
