use colamanga::uri::{encode_uri, encode_uri_component, percent_decode_text, percent_encode_text, Escaping};

#[test]
fn component_keeps_letters_digits_and_marks() {
    assert_eq!(encode_uri_component("a.jpg"), "a.jpg");
    assert_eq!(encode_uri_component("AZaz09-_.!~*'()"), "AZaz09-_.!~*'()");
    assert_eq!(encode_uri_component(""), "");
}

#[test]
fn component_escapes_space_as_percent_twenty() {
    assert_eq!(encode_uri_component("b jpg"), "b%20jpg");
    assert_eq!(encode_uri_component(" "), "%20");
}

#[test]
fn component_escapes_the_reserved_characters() {
    assert_eq!(encode_uri_component("a&b/c=d e"), "a%26b%2Fc%3Dd%20e");
    assert_eq!(encode_uri_component("+?#:;,@$"), "%2B%3F%23%3A%3B%2C%40%24");
    assert_eq!(encode_uri_component("%"), "%25");
}

#[test]
fn component_escapes_each_byte_of_a_wide_character() {
    assert_eq!(encode_uri_component("海"), "%E6%B5%B7");
    assert_eq!(encode_uri_component("é"), "%C3%A9");
    assert_eq!(encode_uri_component("\u{0}\u{7f}"), "%00%7F");
}

#[test]
fn uri_keeps_the_delimiters() {
    assert_eq!(encode_uri("a&b/c=d e"), "a&b/c=d%20e");
    assert_eq!(encode_uri(";,/?:@&=+$-_.!~*'()#"), ";,/?:@&=+$-_.!~*'()#");
    assert_eq!(encode_uri("\"<>"), "%22%3C%3E");
}

#[test]
fn the_two_encoders_are_the_two_modes() {
    assert_eq!(percent_encode_text("a/b c", Escaping::Component), encode_uri_component("a/b c"));
    assert_eq!(percent_encode_text("a/b c", Escaping::Uri), encode_uri("a/b c"));
}

#[test]
fn decoding_gives_back_the_token_bytes() {
    let token = "p&q/r=s t";
    let encoded = encode_uri_component(token);
    assert_eq!(encoded, "p%26q%2Fr%3Ds%20t");
    assert_eq!(percent_decode_text(&encoded), Some(token.as_bytes().to_vec()));
}

#[test]
fn decoding_undoes_encoding_of_any_text() {
    for token in ["", "plain", "a b", "100%", "海贼王/第1话", "\u{1F600}&=", "%41", "~!*'()"] {
        let narrow = encode_uri_component(token);
        let wide = encode_uri(token);
        assert_eq!(percent_decode_text(&narrow), Some(token.as_bytes().to_vec()));
        assert_eq!(percent_decode_text(&wide), Some(token.as_bytes().to_vec()));
        assert!(!narrow.contains(['&', '/', '=', ' ', '+']));
    }
}

#[test]
fn decoding_reads_digits_of_either_case() {
    assert_eq!(percent_decode_text("%2f%2F"), Some(vec![0x2f, 0x2f]));
    assert_eq!(percent_decode_text("a%00z"), Some(vec![0x61, 0x00, 0x7a]));
    assert_eq!(percent_decode_text("%ff"), Some(vec![0xff]));
}

#[test]
fn decoding_rejects_what_is_no_encoding() {
    assert_eq!(percent_decode_text("%"), None);
    assert_eq!(percent_decode_text("%2"), None);
    assert_eq!(percent_decode_text("ab%4"), None);
    assert_eq!(percent_decode_text("%G0"), None);
    assert_eq!(percent_decode_text("%0g"), None);
    assert_eq!(percent_decode_text("é"), None);
    assert_eq!(percent_decode_text("a%20é"), None);
}
