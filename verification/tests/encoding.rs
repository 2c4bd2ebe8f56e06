use pheme::urlenc::{encode_component, percent_decode};

#[test]
fn encode_keeps_unreserved_bytes() {
    assert_eq!(encode_component("AZaz09-._~"), "AZaz09-._~");
}

#[test]
fn encode_escapes_everything_else_uppercase() {
    assert_eq!(encode_component("hello world!"), "hello%20world%21");
    assert_eq!(encode_component("a/b?c=d&e"), "a%2Fb%3Fc%3Dd%26e");
}

#[test]
fn encode_works_on_utf8_bytes() {
    assert_eq!(encode_component("é"), "%C3%A9");
}

#[test]
fn decode_reads_hex_pairs() {
    assert_eq!(percent_decode("hello%20world%21"), Some("hello world!".to_string()));
    assert_eq!(percent_decode("%C3%A9"), Some("é".to_string()));
}

#[test]
fn decode_accepts_lowercase_hex() {
    assert_eq!(percent_decode("%c3%a9"), Some("é".to_string()));
}

#[test]
fn decode_passes_plain_characters_through() {
    assert_eq!(percent_decode("héllo"), Some("héllo".to_string()));
}

#[test]
fn decode_rejects_bad_escapes() {
    assert_eq!(percent_decode("%zz"), None);
    assert_eq!(percent_decode("abc%4"), None);
    assert_eq!(percent_decode("tail%"), None);
}

#[test]
fn decode_rejects_invalid_utf8() {
    assert_eq!(percent_decode("%FF"), None);
}

#[test]
fn encoding_round_trips() {
    let originals = [
        "",
        "rust",
        "rust news",
        "héllo wörld & co=?",
        "100% \u{1F600} sure",
        "a+b c/d~e_f",
    ];
    for original in originals {
        let encoded = encode_component(original);
        assert_eq!(percent_decode(&encoded), Some(original.to_string()));
    }
}
