use ajemi::categories::{
    supported_categories, TFCAT_CATEGORY_OF_TIP, TFCAT_DISPLAYATTRIBUTEPROPERTY,
    TFCAT_DISPLAYATTRIBUTEPROVIDER, TFCAT_PROPSTYLE_CUSTOM, TFCAT_PROPSTYLE_STATIC,
    TFCAT_PROPSTYLE_STATICCOMPACT, TFCAT_PROP_AUDIODATA, TFCAT_PROP_INKDATA,
    TFCAT_TIPCAP_COMLESS, TFCAT_TIPCAP_IMMERSIVESUPPORT, TFCAT_TIPCAP_INPUTMODECOMPARTMENT,
    TFCAT_TIPCAP_SECUREMODE, TFCAT_TIPCAP_SYSTRAYSUPPORT, TFCAT_TIPCAP_UIELEMENTENABLED,
    TFCAT_TIPCAP_WOW16, TFCAT_TIP_HANDWRITING, TFCAT_TIP_KEYBOARD, TFCAT_TIP_SPEECH,
};
use ajemi::timestamp::{timestamp_text, LocalTime};
use ajemi::wide::null_terminated_wchars;
use chrono::NaiveDate;
use windows::Win32::UI::TextServices as ts;

fn chrono_text(t: LocalTime) -> String {
    NaiveDate::from_ymd_opt(t.year, t.month, t.day)
        .unwrap()
        .and_hms_opt(t.hour, t.minute, t.second)
        .unwrap()
        .format("%Y-%m-%d %H:%M:%S")
        .to_string()
}

fn time(year: i32, month: u32, day: u32, hour: u32, minute: u32, second: u32) -> LocalTime {
    LocalTime { year, month, day, hour, minute, second }
}

#[test]
fn timestamp_pads_every_field() {
    assert_eq!(timestamp_text(time(2024, 1, 2, 3, 4, 5)), "2024-01-02 03:04:05");
    assert_eq!(timestamp_text(time(1999, 12, 31, 23, 59, 59)), "1999-12-31 23:59:59");
}

#[test]
fn timestamp_years_outside_four_digits() {
    assert_eq!(timestamp_text(time(7, 3, 9, 0, 0, 0)), "0007-03-09 00:00:00");
    assert_eq!(timestamp_text(time(0, 1, 1, 0, 0, 0)), "0000-01-01 00:00:00");
    assert_eq!(timestamp_text(time(-1, 1, 1, 0, 0, 0)), "-0001-01-01 00:00:00");
    assert_eq!(timestamp_text(time(10000, 1, 1, 0, 0, 0)), "+10000-01-01 00:00:00");
    assert_eq!(timestamp_text(time(-262144, 1, 1, 0, 0, 0)), "-262144-01-01 00:00:00");
}

#[test]
fn timestamp_agrees_with_chrono() {
    let times = [
        time(2024, 1, 2, 3, 4, 5),
        time(1, 1, 1, 0, 0, 0),
        time(999, 10, 10, 10, 10, 10),
        time(9999, 12, 31, 23, 59, 59),
        time(10000, 6, 15, 12, 30, 45),
        time(-1, 2, 28, 1, 2, 3),
        time(-9999, 2, 28, 1, 2, 3),
        time(-10000, 2, 28, 1, 2, 3),
        time(200000, 12, 31, 23, 59, 59),
        time(-200000, 1, 1, 0, 0, 0),
    ];
    for t in times {
        assert_eq!(timestamp_text(t), chrono_text(t), "{:?}", t);
    }
}

#[test]
fn timestamp_allows_a_leap_second_field() {
    assert_eq!(timestamp_text(time(2016, 12, 31, 23, 59, 60)), "2016-12-31 23:59:60");
}

#[test]
fn wide_strings_end_in_zero() {
    assert_eq!(null_terminated_wchars(""), vec![0u16]);
    assert_eq!(null_terminated_wchars("Ajemi"), vec![0x41, 0x6a, 0x65, 0x6d, 0x69, 0]);
    for text in ["toki pona", "sitelen seli kiwen juniko", "é中\u{F1900}\u{10FFFF}x", "\u{FFFF}\u{10000}"] {
        let mut expected: Vec<u16> = text.encode_utf16().collect();
        expected.push(0);
        assert_eq!(null_terminated_wchars(text), expected, "{:?}", text);
    }
    assert_eq!(null_terminated_wchars("\u{1F600}"), vec![0xD83D, 0xDE00, 0]);
}

#[test]
fn categories_match_the_framework_ids() {
    let pairs = [
        (TFCAT_CATEGORY_OF_TIP, ts::GUID_TFCAT_CATEGORY_OF_TIP),
        (TFCAT_TIP_KEYBOARD, ts::GUID_TFCAT_TIP_KEYBOARD),
        (TFCAT_TIP_SPEECH, ts::GUID_TFCAT_TIP_SPEECH),
        (TFCAT_TIP_HANDWRITING, ts::GUID_TFCAT_TIP_HANDWRITING),
        (TFCAT_TIPCAP_SECUREMODE, ts::GUID_TFCAT_TIPCAP_SECUREMODE),
        (TFCAT_TIPCAP_UIELEMENTENABLED, ts::GUID_TFCAT_TIPCAP_UIELEMENTENABLED),
        (TFCAT_TIPCAP_INPUTMODECOMPARTMENT, ts::GUID_TFCAT_TIPCAP_INPUTMODECOMPARTMENT),
        (TFCAT_TIPCAP_COMLESS, ts::GUID_TFCAT_TIPCAP_COMLESS),
        (TFCAT_TIPCAP_WOW16, ts::GUID_TFCAT_TIPCAP_WOW16),
        (TFCAT_TIPCAP_IMMERSIVESUPPORT, ts::GUID_TFCAT_TIPCAP_IMMERSIVESUPPORT),
        (TFCAT_TIPCAP_SYSTRAYSUPPORT, ts::GUID_TFCAT_TIPCAP_SYSTRAYSUPPORT),
        (TFCAT_PROP_AUDIODATA, ts::GUID_TFCAT_PROP_AUDIODATA),
        (TFCAT_PROP_INKDATA, ts::GUID_TFCAT_PROP_INKDATA),
        (TFCAT_PROPSTYLE_STATIC, ts::GUID_TFCAT_PROPSTYLE_STATIC),
        (TFCAT_DISPLAYATTRIBUTEPROVIDER, ts::GUID_TFCAT_DISPLAYATTRIBUTEPROVIDER),
        (TFCAT_DISPLAYATTRIBUTEPROPERTY, ts::GUID_TFCAT_DISPLAYATTRIBUTEPROPERTY),
    ];
    for (ours, framework) in pairs {
        assert_eq!(ours, framework.to_u128());
    }
    assert_eq!(TFCAT_PROPSTYLE_STATICCOMPACT, 0x85F9794B_4D19_40D8_8864_4E747371A66D);
    assert_eq!(TFCAT_PROPSTYLE_CUSTOM, 0x24AF3031_852D_40A2_BC09_8992898CE722);
}

#[test]
fn sixteen_distinct_categories_without_speech_or_handwriting() {
    let cats = supported_categories();
    assert_eq!(cats.len(), 16);
    for i in 0..cats.len() {
        for j in 0..i {
            assert_ne!(cats[i], cats[j]);
        }
    }
    assert!(!cats.contains(&TFCAT_TIP_SPEECH));
    assert!(!cats.contains(&TFCAT_TIP_HANDWRITING));
    assert_eq!(cats[0], TFCAT_CATEGORY_OF_TIP);
    assert_eq!(cats[15], TFCAT_DISPLAYATTRIBUTEPROPERTY);
}
