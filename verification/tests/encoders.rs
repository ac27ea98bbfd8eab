use bin2src::language::Language;
use bin2src::library::binary_to_binary;
use bin2src::library::binary_to_c_const;
use bin2src::library::binary_to_c_define;
use bin2src::library::binary_to_csharp_const;
use bin2src::library::binary_to_go_const;
use bin2src::library::binary_to_hex;
use bin2src::library::binary_to_java_const;
use bin2src::library::binary_to_javascript_const;
use bin2src::library::binary_to_python_const;
use bin2src::library::binary_to_rust_const;
use bin2src::library::encode;

const SAMPLE: [u8; 3] = [0x00, 0xff, 0x10];

#[test]
fn hex_dump_example() {
    assert_eq!(binary_to_hex(&SAMPLE), "00 ff 10");
}

#[test]
fn binary_dump_example() {
    assert_eq!(binary_to_binary(&SAMPLE), "00000000 11111111 00010000");
}

#[test]
fn c_const_example() {
    assert_eq!(
        binary_to_c_const(&SAMPLE, "DATA", 4),
        "const unsigned char DATA[] = {\n    0x00, 0xff, 0x10,\n};"
    );
}

#[test]
fn c_define_example() {
    assert_eq!(
        binary_to_c_define(&[0x01, 0x02], "BYTES", 2),
        "#define BYTES { \\\n  0x01, 0x02, }"
    );
}

#[test]
fn rust_const_example() {
    assert_eq!(
        binary_to_rust_const(&SAMPLE, "DATA", 4),
        "const DATA: &[u8] = &[\n    0x00, 0xff, 0x10,\n];"
    );
}

#[test]
fn csharp_const_example() {
    assert_eq!(
        binary_to_csharp_const(&SAMPLE, "Data", 4),
        "public static readonly byte[] Data = {\n    0x00, 0xff, 0x10,\n};"
    );
}

#[test]
fn python_const_example() {
    assert_eq!(
        binary_to_python_const(&SAMPLE, "DATA", 4),
        "DATA = bytes([\n    0x00, 0xff, 0x10,\n])"
    );
}

#[test]
fn javascript_const_example() {
    assert_eq!(
        binary_to_javascript_const(&SAMPLE, "data", 4),
        "const data = new Uint8Array([\n    0x00, 0xff, 0x10,\n]);"
    );
}

#[test]
fn go_const_example() {
    assert_eq!(
        binary_to_go_const(&SAMPLE, "Data", 4),
        "var Data = []byte{\n    0x00, 0xff, 0x10,\n}"
    );
}

#[test]
fn java_const_example() {
    assert_eq!(
        binary_to_java_const(&SAMPLE, "DATA", 4),
        "public static final int[] DATA = {\n    0x00, 0xff, 0x10,\n};"
    );
}

#[test]
fn empty_input_every_format() {
    let empty: [u8; 0] = [];
    assert_eq!(binary_to_hex(&empty), "");
    assert_eq!(binary_to_binary(&empty), "");
    assert_eq!(
        binary_to_c_const(&empty, "DATA", 4),
        "const unsigned char DATA[] = {};"
    );
    assert_eq!(binary_to_c_define(&empty, "DATA", 4), "#define DATA { }");
    assert_eq!(binary_to_rust_const(&empty, "DATA", 4), "const DATA: &[u8] = &[];");
    assert_eq!(
        binary_to_csharp_const(&empty, "DATA", 4),
        "public static readonly byte[] DATA = {};"
    );
    assert_eq!(binary_to_python_const(&empty, "DATA", 4), "DATA = bytes([])");
    assert_eq!(
        binary_to_javascript_const(&empty, "DATA", 4),
        "const DATA = new Uint8Array([]);"
    );
    assert_eq!(binary_to_go_const(&empty, "DATA", 4), "var DATA = []byte{}");
    assert_eq!(
        binary_to_java_const(&empty, "DATA", 4),
        "public static final int[] DATA = {};"
    );
}

#[test]
fn hex_dump_wraps_after_sixteen_bytes() {
    let bytes: Vec<u8> = (0u8..17u8).collect();
    assert_eq!(
        binary_to_hex(&bytes),
        "00 01 02 03 04 05 06 07 08 09 0a 0b 0c 0d 0e 0f\n10"
    );
}

#[test]
fn binary_dump_wraps_after_eight_bytes() {
    let bytes: Vec<u8> = vec![0u8; 9];
    let row: Vec<String> = (0..8).map(|_| "00000000".to_string()).collect();
    let expected = format!("{}\n00000000", row.join(" "));
    assert_eq!(binary_to_binary(&bytes), expected);
}

#[test]
fn c_const_wraps_after_twelve_bytes() {
    let bytes: Vec<u8> = (0u8..13u8).collect();
    assert_eq!(
        binary_to_c_const(&bytes, "DATA", 4),
        "const unsigned char DATA[] = {\n    0x00, 0x01, 0x02, 0x03, 0x04, 0x05, 0x06, 0x07, 0x08, 0x09, 0x0a, 0x0b,\n    0x0c,\n};"
    );
}

#[test]
fn c_define_wraps_with_escaped_line_breaks() {
    let bytes: Vec<u8> = (0u8..13u8).collect();
    assert_eq!(
        binary_to_c_define(&bytes, "DATA", 2),
        "#define DATA { \\\n  0x00, 0x01, 0x02, 0x03, 0x04, 0x05, 0x06, 0x07, 0x08, 0x09, 0x0a, 0x0b, \\\n  0x0c, }"
    );
}

#[test]
fn tab_size_zero_and_sixteen() {
    assert_eq!(
        binary_to_c_const(&[0x01, 0x02], "DATA", 0),
        "const unsigned char DATA[] = {\n0x01, 0x02,\n};"
    );
    assert_eq!(
        binary_to_c_const(&[0x01, 0x02], "DATA", 16),
        "const unsigned char DATA[] = {\n                0x01, 0x02,\n};"
    );
}

#[test]
fn indentation_is_uniform_across_lines() {
    let bytes: Vec<u8> = (0u8..25u8).collect();
    let text = binary_to_rust_const(&bytes, "DATA", 16);
    for line in text.lines() {
        if line.contains("0x") {
            assert!(line.starts_with("                0x"));
        }
    }
}

#[test]
fn encoding_twice_is_identical() {
    let langs = [
        Language::Binary,
        Language::Hex,
        Language::C,
        Language::CDef,
        Language::Rust,
        Language::CSharp,
        Language::Python,
        Language::Javascript,
        Language::Go,
        Language::Java,
    ];
    let bytes: Vec<u8> = (0u8..40u8).collect();
    for lang in langs {
        let first = encode(lang, &bytes, "DATA", 3);
        let second = encode(lang, &bytes, "DATA", 3);
        assert_eq!(first, second);
    }
}

#[test]
fn encode_dispatches_to_each_encoder() {
    assert_eq!(encode(Language::Hex, &SAMPLE, "DATA", 4), binary_to_hex(&SAMPLE));
    assert_eq!(encode(Language::Binary, &SAMPLE, "DATA", 4), binary_to_binary(&SAMPLE));
    assert_eq!(
        encode(Language::C, &SAMPLE, "DATA", 4),
        binary_to_c_const(&SAMPLE, "DATA", 4)
    );
    assert_eq!(
        encode(Language::CDef, &SAMPLE, "DATA", 4),
        binary_to_c_define(&SAMPLE, "DATA", 4)
    );
    assert_eq!(
        encode(Language::Rust, &SAMPLE, "DATA", 4),
        binary_to_rust_const(&SAMPLE, "DATA", 4)
    );
    assert_eq!(
        encode(Language::CSharp, &SAMPLE, "DATA", 4),
        binary_to_csharp_const(&SAMPLE, "DATA", 4)
    );
    assert_eq!(
        encode(Language::Python, &SAMPLE, "DATA", 4),
        binary_to_python_const(&SAMPLE, "DATA", 4)
    );
    assert_eq!(
        encode(Language::Javascript, &SAMPLE, "DATA", 4),
        binary_to_javascript_const(&SAMPLE, "DATA", 4)
    );
    assert_eq!(
        encode(Language::Go, &SAMPLE, "DATA", 4),
        binary_to_go_const(&SAMPLE, "DATA", 4)
    );
    assert_eq!(
        encode(Language::Java, &SAMPLE, "DATA", 4),
        binary_to_java_const(&SAMPLE, "DATA", 4)
    );
}

#[test]
fn hex_dump_tokens_are_two_hex_digits_each() {
    let bytes: Vec<u8> = (0u8..50u8).map(|i| i.wrapping_mul(37)).collect();
    let dump = binary_to_hex(&bytes);
    let tokens: Vec<&str> = dump.split_whitespace().collect();
    assert_eq!(tokens.len(), bytes.len());
    for token in tokens {
        assert_eq!(token.len(), 2);
        assert!(token.chars().all(|c| c.is_ascii_hexdigit()));
    }
}

#[test]
fn binary_dump_tokens_are_eight_bits_each() {
    let bytes: Vec<u8> = (0u8..50u8).map(|i| i.wrapping_mul(53)).collect();
    let dump = binary_to_binary(&bytes);
    let tokens: Vec<&str> = dump.split_whitespace().collect();
    assert_eq!(tokens.len(), bytes.len());
    for token in tokens {
        assert_eq!(token.len(), 8);
        assert!(token.chars().all(|c| c == '0' || c == '1'));
    }
}

#[test]
fn hex_dump_round_trips() {
    let bytes: Vec<u8> = (0u8..=255u8).collect();
    let dump = binary_to_hex(&bytes);
    let decoded: Vec<u8> = dump
        .split_whitespace()
        .map(|t| u8::from_str_radix(t, 16).unwrap())
        .collect();
    assert_eq!(decoded, bytes);
}

#[test]
fn binary_dump_round_trips() {
    let bytes: Vec<u8> = (0u8..=255u8).collect();
    let dump = binary_to_binary(&bytes);
    let decoded: Vec<u8> = dump
        .split_whitespace()
        .map(|t| u8::from_str_radix(t, 2).unwrap())
        .collect();
    assert_eq!(decoded, bytes);
}

#[test]
fn c_const_round_trips() {
    let bytes: Vec<u8> = (0u8..=255u8).collect();
    let text = binary_to_c_const(&bytes, "DATA", 4);
    let body = text.split_once('{').unwrap().1;
    let decoded: Vec<u8> = body
        .split(|c: char| c == ',' || c.is_whitespace() || c == '}' || c == ';')
        .filter(|t| !t.is_empty())
        .map(|t| u8::from_str_radix(t.strip_prefix("0x").unwrap(), 16).unwrap())
        .collect();
    assert_eq!(decoded, bytes);
}
