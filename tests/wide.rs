use windows_rpc::wide::wide_string;

#[test]
fn ascii_text_is_one_unit_per_char() {
    assert_eq!(wide_string("Got t e s t"), vec![
        0x47, 0x6F, 0x74, 0x20, 0x74, 0x20, 0x65, 0x20, 0x73, 0x20, 0x74, 0x00,
    ]);
}

#[test]
fn empty_text_is_only_the_terminator() {
    assert_eq!(wide_string(""), vec![0]);
}

#[test]
fn supplementary_chars_become_surrogate_pairs() {
    assert_eq!(wide_string("\u{1F600}é"), vec![0xD83D, 0xDE00, 0x00E9, 0]);
    assert_eq!(wide_string("\u{10FFFF}"), vec![0xDBFF, 0xDFFF, 0]);
    let text = "mixed \u{1D11E} text";
    let mut expected: Vec<u16> = text.encode_utf16().collect();
    expected.push(0);
    assert_eq!(wide_string(text), expected);
}

use windows_rpc::wide::{decode_wide, InvalidUtf16};

#[test]
fn decodes_units_into_chars() {
    assert_eq!(decode_wide(&[0x47, 0x6F, 0x74]), Ok(vec!['G', 'o', 't']));
    assert_eq!(decode_wide(&[]), Ok(vec![]));
    assert_eq!(decode_wide(&[0xD83D, 0xDE00, 0x00E9]), Ok(vec!['\u{1F600}', 'é']));
    assert_eq!(decode_wide(&[0xDBFF, 0xDFFF]), Ok(vec!['\u{10FFFF}']));
}

#[test]
fn unpaired_surrogates_are_rejected() {
    assert_eq!(decode_wide(&[0xD800]), Err(InvalidUtf16));
    assert_eq!(decode_wide(&[0xDC00, 0xD800]), Err(InvalidUtf16));
    assert_eq!(decode_wide(&[0x41, 0xD800, 0x41]), Err(InvalidUtf16));
}

#[test]
fn decoding_inverts_encoding() {
    let text = "echo \u{1F600} done";
    let mut units = wide_string(text);
    units.pop();
    let chars = decode_wide(&units).unwrap();
    assert_eq!(chars.into_iter().collect::<String>(), text);
}
