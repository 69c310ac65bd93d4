use unicode_bidi::BidiClass as DataSourceBidiClass;
use zerovec::bidi::{BidiClassAdapter, BidiClassValue, CodePointMapDataBorrowed, CodePointMapRange};

fn latin_arabic_rows() -> Vec<CodePointMapRange> {
    vec![
        // Basic Latin letters are strong left-to-right (class 0).
        CodePointMapRange { start: 0x41, end: 0x5A, value: BidiClassValue(0) },
        CodePointMapRange { start: 0x61, end: 0x7A, value: BidiClassValue(0) },
        // Digits are European numbers (class 2).
        CodePointMapRange { start: 0x30, end: 0x39, value: BidiClassValue(2) },
        // Arabic letters (class 13).
        CodePointMapRange { start: 0x0620, end: 0x064A, value: BidiClassValue(13) },
        // Hebrew letters are strong right-to-left (class 1).
        CodePointMapRange { start: 0x05D0, end: 0x05EA, value: BidiClassValue(1) },
    ]
}

#[test]
fn test_adapter_maps_classes() {
    let rows = latin_arabic_rows();
    let data = CodePointMapDataBorrowed::from_ranges(&rows);
    let adapter = BidiClassAdapter::new(data);
    assert_eq!(adapter.bidi_class('a'), DataSourceBidiClass::L);
    assert_eq!(adapter.bidi_class('Z'), DataSourceBidiClass::L);
    assert_eq!(adapter.bidi_class('7'), DataSourceBidiClass::EN);
    assert_eq!(adapter.bidi_class('\u{0639}'), DataSourceBidiClass::AL);
    assert_eq!(adapter.bidi_class('\u{05D0}'), DataSourceBidiClass::R);
    // A code point outside every row falls back to neutral.
    assert_eq!(adapter.bidi_class('!'), DataSourceBidiClass::ON);
}

#[test]
fn test_map_lookup_first_match() {
    let rows = vec![
        CodePointMapRange { start: 10, end: 20, value: BidiClassValue(7) },
        CodePointMapRange { start: 15, end: 30, value: BidiClassValue(8) },
    ];
    let data = CodePointMapDataBorrowed::from_ranges(&rows);
    // Code point 16 sits in both rows; the first row wins.
    assert_eq!(data.get('\u{10}'), BidiClassValue(7));
    // Code points 22 and 25 sit only in the second row.
    assert_eq!(data.get('\u{16}'), BidiClassValue(8));
    assert_eq!(data.get('\u{19}'), BidiClassValue(8));
}
