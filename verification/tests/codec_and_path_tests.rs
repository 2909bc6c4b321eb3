use turn_clock::codec::{decode_code, encode_index};
use turn_clock::path::extract_code_from_path;
use turn_clock::text::decimal_string;

#[test]
fn decimal_rendering_is_exact() {
    assert_eq!(decimal_string(0), "0");
    assert_eq!(decimal_string(7), "7");
    assert_eq!(decimal_string(120), "120");
    assert_eq!(decimal_string(1000), "1000");
    assert_eq!(decimal_string(u64::MAX), "18446744073709551615");
}

#[test]
fn codec_round_trips_every_index_shape() {
    for i in [0u64, 1, 9, 10, 42, 1_000_000, u64::MAX] {
        let code = encode_index(i);
        assert_eq!(decode_code(code.as_str()), Some(i));
    }
}

#[test]
fn decode_rejects_what_no_index_encodes_to() {
    assert_eq!(decode_code(""), None);
    assert_eq!(decode_code("abc"), None);
    assert_eq!(decode_code("12x"), None);
    assert_eq!(decode_code("007"), None);
    assert_eq!(decode_code("-1"), None);
    // one past the largest index
    assert_eq!(decode_code("18446744073709551616"), None);
    assert_eq!(decode_code("99999999999999999999999"), None);
}

#[test]
fn stream_path_yields_its_code() {
    assert_eq!(
        extract_code_from_path("/websocket/clocks/42"),
        Some(String::from("42"))
    );
    assert_eq!(
        extract_code_from_path("/websocket/clocks/abc"),
        Some(String::from("abc"))
    );
}

#[test]
fn non_stream_paths_yield_nothing() {
    assert_eq!(extract_code_from_path("/websocket/clocks/"), None);
    assert_eq!(extract_code_from_path("/websocket/clock/1"), None);
    assert_eq!(extract_code_from_path("/"), None);
    assert_eq!(extract_code_from_path(""), None);
}
