use base64::Engine;
use tmm::stu::{read_u16s, SkillTreeUrl, SkillTreeUrlError};

fn encode(bytes: &[u8]) -> String {
    base64::engine::general_purpose::URL_SAFE.encode(bytes)
}

const LONG_TOKEN: &str = "AAAABgMDf1wUCPTxbFnzvOqbimdxwGYmlSL074gN4q0KM2wEs1VLjDa4XdSNGGXYw1Su18_YJH_Gl_Qs8Ro4gpsEBy6Uxoo0S5BVocfjakcGwWv3wVF0ffF90om3ppmTJ3F5Sp8Wb-w4zRbfiivA0NAWv75P8NVb1RcvL12ApJE3VcYw-FBC8B9xhZeF2rlIjlZITLNmukmxNPeJvCYpj_o2xayY2RNo8peVEFEfGDpYUfsdFK7_OtgkqmHiLOJqQ49GY1-qf_rSoOZwu1XWEmmIb2aeBx5JUZUuRv5eAxqBJy8fAoPbaxeOE2wL7Bgvb6IAZOf5N1M1NukgBm0ZIbARlqcIAAt3Jq0Khk-4XTW91I3uqdjDGEgs8UYWNEu6GqHH-3198YXCL13fW6p__fyIbw==";

#[test]
fn decodes_a_real_version_6_token() {
    let stu: SkillTreeUrl = LONG_TOKEN.parse().unwrap();
    assert_eq!(stu.class, 3);
    assert_eq!(stu.ascendancy, 3);
    assert_eq!(stu.alternate_ascendancy, 0);
    assert_eq!(stu.nodes.len(), 127);
    assert_eq!(&stu.nodes[..3], &[23572, 2292, 61804]);
    assert_eq!(stu.nodes[126], 42760);
}

#[test]
fn round_trip_version_5() {
    let bytes = [0u8, 0, 0, 5, 2, 1, 3, 0, 100, 1, 1, 255, 255];
    let token = encode(&bytes);
    assert_eq!(token, "AAAABQIBAwBkAQH__w==");
    let stu = SkillTreeUrl::decode(&token).unwrap();
    assert_eq!(stu.class, 2);
    assert_eq!(stu.ascendancy, 1);
    assert_eq!(stu.alternate_ascendancy, 0);
    assert_eq!(stu.nodes, vec![100, 257, 65535]);
}

#[test]
fn padding_is_optional() {
    let stu = SkillTreeUrl::decode("AAAABQIBAwBkAQH__w").unwrap();
    assert_eq!(stu.nodes, vec![100, 257, 65535]);
}

#[test]
fn five_bytes_are_truncated() {
    let token = encode(&[0, 0, 0, 6, 1]);
    assert_eq!(token, "AAAABgE=");
    assert_eq!(SkillTreeUrl::decode(&token), Err(SkillTreeUrlError::Eof));
    assert_eq!(SkillTreeUrl::from_bytes(&[0, 0, 0, 5, 1]), Err(SkillTreeUrlError::Eof));
    assert_eq!(SkillTreeUrl::from_bytes(&[]), Err(SkillTreeUrlError::Eof));
}

#[test]
fn unknown_version_is_reported() {
    let token = encode(&[0, 0, 0, 99, 1, 2, 0]);
    assert_eq!(SkillTreeUrl::decode(&token), Err(SkillTreeUrlError::UnknownVersion(99)));
    assert_eq!(
        SkillTreeUrl::from_bytes(&[0, 0, 0, 99, 1, 2]),
        Err(SkillTreeUrlError::UnknownVersion(99))
    );
    assert_eq!(
        SkillTreeUrl::from_bytes(&[1, 0, 0, 5, 1, 2, 0]),
        Err(SkillTreeUrlError::UnknownVersion(0x0100_0005))
    );
}

#[test]
fn bad_base64_is_a_decode_error() {
    assert_eq!(SkillTreeUrl::decode("!!!!"), Err(SkillTreeUrlError::Decode));
    assert_eq!(SkillTreeUrl::decode("AAAABQ=A"), Err(SkillTreeUrlError::Decode));
}

#[test]
fn version_4_ignores_the_flag_and_a_trailing_byte() {
    let token = encode(&[0, 0, 0, 4, 7, 0b1110, 0, 1, 2, 3]);
    let stu = SkillTreeUrl::decode(&token).unwrap();
    assert_eq!(stu.class, 7);
    assert_eq!(stu.ascendancy, 2);
    assert_eq!(stu.alternate_ascendancy, 3);
    assert_eq!(stu.nodes, vec![0x0102]);
}

#[test]
fn version_4_without_flag_byte_is_truncated() {
    assert_eq!(SkillTreeUrl::from_bytes(&[0, 0, 0, 4, 7, 0]), Err(SkillTreeUrlError::Eof));
    assert_eq!(
        SkillTreeUrl::from_bytes(&[0, 0, 0, 4, 7, 0, 1]).map(|s| s.nodes),
        Ok(vec![])
    );
}

#[test]
fn declared_count_beyond_the_data_is_truncated() {
    let token = encode(&[0, 0, 0, 5, 7, 0, 3, 0, 1]);
    assert_eq!(SkillTreeUrl::decode(&token), Err(SkillTreeUrlError::Eof));
    assert_eq!(SkillTreeUrl::from_bytes(&[0, 0, 0, 6, 7, 0]), Err(SkillTreeUrlError::Eof));
}

#[test]
fn node_order_and_duplicates_are_kept() {
    let bytes = [0u8, 0, 0, 6, 0, 0, 3, 0, 9, 0, 2, 0, 9];
    let stu = SkillTreeUrl::from_bytes(&bytes).unwrap();
    assert_eq!(stu.nodes, vec![9, 2, 9]);
}

#[test]
fn reads_big_endian_pairs() {
    assert_eq!(read_u16s(&[9, 1, 2, 3, 4], 1, 2), Ok(vec![0x0102, 0x0304]));
    assert_eq!(read_u16s(&[9, 1, 2, 3], 1, 2), Err(SkillTreeUrlError::Eof));
    assert_eq!(read_u16s(&[], 0, 0), Ok(vec![]));
}
