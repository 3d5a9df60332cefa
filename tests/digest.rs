use md5_registrar::md5::{
    format_words, md5, md5_utf8, pad_message, rotate_left, round_f, round_g, round_h, round_i,
    swap_bytes, INIT_A, INIT_B, INIT_C, INIT_D, SINE_TABLE,
};

fn hex_of_bytes(bytes: Vec<u8>) -> String {
    let (a, b, c, d) = md5(bytes);
    format_words((a, b, c, d))
}

#[test]
fn known_vector_empty() {
    assert_eq!(md5_utf8(""), "d41d8cd98f00b204e9800998ecf8427e");
}

#[test]
fn known_vector_abc() {
    assert_eq!(md5_utf8("abc"), "900150983cd24fb0d6963f7d28e17f72");
}

#[test]
fn known_vector_message_digest() {
    assert_eq!(md5_utf8("message digest"), "f96b697d7cb7938d525a2f31aaf161d0");
}

#[test]
fn known_vector_alphabet() {
    assert_eq!(md5_utf8("abcdefghijklmnopqrstuvwxyz"), "c3fcd3d76192e4007dfb496cca67e13b");
}

#[test]
fn known_vector_digits() {
    assert_eq!(
        md5_utf8("12345678901234567890123456789012345678901234567890123456789012345678901234567890"),
        "57edf4a22be3c955ac49da2e2107b67a"
    );
}

#[test]
fn known_vector_alphanumeric() {
    assert_eq!(
        md5_utf8("ABCDEFGHIJKLMNOPQRSTUVWXYZabcdefghijklmnopqrstuvwxyz0123456789"),
        "d174ab98d277d9f5a5611c2c9f419d9f"
    );
}

#[test]
fn one_block_boundary() {
    // 55 bytes: terminator and length still fit in one block.
    assert_eq!(md5_utf8(&"a".repeat(55)), "ef1772b6dff9a122358552954ad0df65");
}

#[test]
fn two_blocks_boundary() {
    // 56 bytes: the length field no longer fits, a second block follows.
    assert_eq!(md5_utf8(&"a".repeat(56)), "3b0c8ac703f828b04c6c197006d17218");
    assert_eq!(md5_utf8(&"a".repeat(64)), "014842d480b571495a4a0363793f7367");
}

#[test]
fn two_blocks() {
    assert_eq!(md5_utf8(&"a".repeat(100)), "36a92cc94a9e0fa21f625f8bfb007adf");
}

#[test]
fn three_blocks() {
    assert_eq!(md5_utf8(&"a".repeat(150)), "bc620e8c15265f195c8818e2f3e3c58b");
    assert_eq!(md5_utf8(&"0123456789".repeat(12)), "71877a6051c58e0e9246babc177ca5f2");
}

#[test]
fn five_blocks() {
    assert_eq!(md5_utf8(&"a".repeat(300)), "4e5475d125a33c6190718e75adc1b704");
    let mut bytes: Vec<u8> = (0..=255u8).collect();
    bytes.extend(0..40u8);
    assert_eq!(pad_message(bytes.clone()).len(), 320);
    assert_eq!(hex_of_bytes(bytes), "e49af9dc665060cfe02b5423a209c2de");
}

#[test]
fn utf8_text() {
    assert_eq!(md5_utf8("пароль"), "e242f36f4f95f12966da8fa2efd59992");
}

#[test]
fn digest_is_lowercase_hex_of_length_32() {
    for text in ["", "abc", "ABC", "The quick brown fox", "\u{0}\u{7f}"] {
        let d = md5_utf8(text);
        assert_eq!(d.len(), 32);
        assert!(d.chars().all(|c| c.is_ascii_digit() || ('a'..='f').contains(&c)));
    }
}

#[test]
fn digest_is_deterministic() {
    let text = "same input, same digest";
    assert_eq!(md5_utf8(text), md5_utf8(text));
    assert_eq!(md5(b"xyz".to_vec()), md5(b"xyz".to_vec()));
}

#[test]
fn padding_lengths() {
    for len in [0usize, 1, 55, 56, 63, 64, 65, 119, 120, 200] {
        let buf = pad_message(vec![0x11u8; len]);
        assert!(buf.len() > 0);
        assert_eq!(buf.len() % 64, 0);
        assert!(buf.len() >= len + 9 && buf.len() < len + 9 + 64);
    }
}

#[test]
fn padding_layout() {
    let buf = pad_message(b"abc".to_vec());
    assert_eq!(buf.len(), 64);
    assert_eq!(&buf[..3], b"abc");
    assert_eq!(buf[3], 0x80);
    assert!(buf[4..56].iter().all(|&b| b == 0));
    assert_eq!(&buf[56..], &[24, 0, 0, 0, 0, 0, 0, 0]);
    let empty = pad_message(Vec::new());
    assert_eq!(empty.len(), 64);
    assert_eq!(empty[0], 0x80);
    assert!(empty[1..].iter().all(|&b| b == 0));
    let long = pad_message(vec![0u8; 300]);
    assert_eq!(&long[312..], &[0x60, 0x09, 0, 0, 0, 0, 0, 0]);
}

#[test]
fn round_functions() {
    let (x, y, z) = (0xf0f0_f0f0u32, 0xff00_ff00u32, 0x0ff0_0ff0u32);
    assert_eq!(round_f(x, y, z), (x & y) | (!x & z));
    assert_eq!(round_f(x, y, z), 0xff00_ff00);
    assert_eq!(round_g(x, y, z), 0xf0f0_f0f0);
    assert_eq!(round_h(x, y, z), 0x0000_0000);
    assert_eq!(round_i(x, y, z), y ^ (x | !z));
    assert_eq!(round_i(0, 0, 0), u32::MAX);
    assert_eq!(round_i(0, 0, u32::MAX), 0);
}

#[test]
fn rotation_and_byte_swap() {
    assert_eq!(rotate_left(0x8000_0001, 1), 0x0000_0003);
    assert_eq!(rotate_left(0x1234_5678, 8), 0x3456_7812);
    assert_eq!(rotate_left(0xdead_beef, 31), 0xdead_beefu32.rotate_left(31));
    assert_eq!(swap_bytes(0x0123_4567), 0x6745_2301);
    assert_eq!(swap_bytes(0xd98c_1dd4), 0xd41d_8cd9);
}

#[test]
fn constants() {
    assert_eq!((INIT_A, INIT_B, INIT_C, INIT_D), (0x67452301, 0xefcdab89, 0x98badcfe, 0x10325476));
    assert_eq!(SINE_TABLE[0], 0xd76aa478);
    assert_eq!(SINE_TABLE[63], 0xeb86d391);
    for (i, t) in SINE_TABLE.iter().enumerate() {
        let expected = ((((i + 1) as f64).sin().abs()) * 4294967296.0) as u32;
        assert_eq!(*t, expected);
    }
}

#[test]
fn format_words_renders_in_order() {
    assert_eq!(
        format_words((0x0123_4567, 0x89ab_cdef, 0, u32::MAX)),
        "0123456789abcdef00000000ffffffff"
    );
}
