use tomtel::base85::base85;
use tomtel::base85::trim_delimiter;
use tomtel::step1::step1_extension;
use tomtel::step2::parity_is_correct;
use tomtel::step2::step2_extension;
use tomtel::step3::step3_extension;
use tomtel::step4::checksum_correct_ip_header;
use tomtel::step4::checksum_correct_udp_header;
use tomtel::step4::get_ports_udp;
use tomtel::step4::get_source_dest_ip;
use tomtel::step4::get_total_length_ip;
use tomtel::step4::ones_complement_sum;
use tomtel::step4::step4_extension;

#[test]
fn test_correct_parity() {
    assert!(parity_is_correct(0b1011_0010));
    assert!(parity_is_correct(0b0000_0000));
    assert!(parity_is_correct(0b1111_1111));
}

#[test]
fn test_parity_rejects_bad_byte() {
    // one data bit set, parity bit clear
    assert!(!parity_is_correct(0b0000_0010));
}

#[test]
fn test_trim_delimiter_keeps_closing_pair() {
    let r = trim_delimiter(b"xx<~abc~>yy");
    assert_eq!(r, b"abc~>".to_vec());
}

#[test]
fn test_base85_zero_group() {
    // five `!` digits decode to four zero bytes; the closing pair itself is
    // part of the delimited region and decodes as a final short group
    let r = base85(b"<~!!!!!~>");
    assert_eq!(r, vec![0, 0, 0, 0, 0, 0, 0x1e, 0xfe]);
}

#[test]
fn test_base85_skips_whitespace() {
    let with_ws = base85(b"<~!! !\n!!~>");
    let without = base85(b"<~!!!!!~>");
    assert_eq!(with_ws, without);
}

#[test]
fn test_step1_xor_and_rotate() {
    let r = step1_extension(&[0x55, 0x54]);
    // 0x55 ^ 0x55 = 0 rotates to 0; 0x54 ^ 0x55 = 1 rotates to 0x80
    assert_eq!(r, vec![0x00, 0x80]);
}

#[test]
fn test_step2_packs_eight_bytes_into_seven() {
    // eight zero bytes all carry correct parity and pack to seven zeros
    let r = step2_extension(&[0; 8]);
    assert_eq!(r, vec![0; 7]);
}

#[test]
fn test_step2_data_bits_land_high_first() {
    // 0b0000_0011 has one data bit and correct parity; its data bits (value
    // 1) land at the top of the 56-bit group
    let r = step2_extension(&[0b0000_0011, 0, 0, 0, 0, 0, 0, 0]);
    assert_eq!(r, vec![0x02, 0, 0, 0, 0, 0, 0]);
}

#[test]
fn test_step2_drops_bad_parity() {
    // a lone byte with wrong parity contributes nothing
    let r = step2_extension(&[0b0000_0010]);
    assert_eq!(r, Vec::<u8>::new());
}

#[test]
fn test_step3_known_plaintext_recovers_key() {
    // craft a payload whose recovered key is all zeros: positions 28..32
    // hold the known `ic ]`, positions 32..60 hold `=`
    let mut payload = vec![0u8; 64];
    payload[0] = 0xab;
    payload[28] = b'i';
    payload[29] = b'c';
    payload[30] = b' ';
    payload[31] = b']';
    for i in 32..60 {
        payload[i] = b'=';
    }
    let r = step3_extension(&payload);
    // zero key: the payload decrypts to itself
    assert_eq!(r, payload);
}

#[test]
fn test_ones_complement_sum_carries_around() {
    let mut sum: u16 = 0;
    ones_complement_sum(&mut sum, &[0xff, 0xff, 0x00, 0x02]);
    // 0xffff + 0x0002 wraps to 0x0001 with the end-around carry added
    assert_eq!(sum, 0x0002);
}

#[test]
fn test_ones_complement_sum_pads_odd_byte() {
    let mut sum: u16 = 0;
    ones_complement_sum(&mut sum, &[0x12]);
    assert_eq!(sum, 0x1200);
}

#[test]
fn test_ip_field_accessors() {
    let mut p = vec![0u8; 28];
    p[2] = 0x01;
    p[3] = 0x2c;
    p[12] = 10;
    p[13] = 1;
    p[14] = 1;
    p[15] = 10;
    p[16] = 10;
    p[17] = 1;
    p[18] = 1;
    p[19] = 200;
    p[20] = 0x12;
    p[21] = 0x34;
    p[22] = 0xa4;
    p[23] = 0x55;
    assert_eq!(get_total_length_ip(&p), 300);
    let (src, dst) = get_source_dest_ip(&p);
    assert_eq!(src, [10, 1, 1, 10]);
    assert_eq!(dst, [10, 1, 1, 200]);
    assert_eq!(get_ports_udp(&p), (0x1234, 42069));
}

fn good_packet() -> Vec<u8> {
    let mut p = vec![0u8; 29];
    p[3] = 29; // total length
    p[10] = 0xe9; // IP header checksum
    p[11] = 0x0e;
    p[12] = 10; // source 10.1.1.10
    p[13] = 1;
    p[14] = 1;
    p[15] = 10;
    p[16] = 10; // dest 10.1.1.200
    p[17] = 1;
    p[18] = 1;
    p[19] = 200;
    p[22] = 0xa4; // dest port 42069
    p[23] = 0x55;
    p[25] = 9; // UDP length
    p[26] = 0x02; // UDP checksum
    p[27] = 0xb3;
    p[28] = 0x42; // the one payload byte
    p
}

#[test]
fn test_step4_keeps_valid_packet() {
    let p = good_packet();
    assert!(checksum_correct_ip_header(&p));
    assert!(checksum_correct_udp_header(&p, [10, 1, 1, 10], [10, 1, 1, 200], 0x11));
    assert_eq!(step4_extension(&p), vec![0x42]);
}

#[test]
fn test_step4_drops_bad_ip_checksum() {
    let mut p = good_packet();
    p[10] = 0x00;
    p[11] = 0x00;
    assert!(!checksum_correct_ip_header(&p));
    assert_eq!(step4_extension(&p), Vec::<u8>::new());
}

#[test]
fn test_step4_rejects_reserved_udp_checksum() {
    let mut p = good_packet();
    p[26] = 0xff;
    p[27] = 0xff;
    assert!(!checksum_correct_udp_header(&p, [10, 1, 1, 10], [10, 1, 1, 200], 0x11));
}

#[test]
fn test_step4_drops_wrong_source() {
    let mut p = good_packet();
    p[15] = 11; // 10.1.1.11
    p[11] = 0x0d; // keep the IP header checksum valid
    assert!(checksum_correct_ip_header(&p));
    assert_eq!(step4_extension(&p), Vec::<u8>::new());
}

#[test]
fn test_step4_short_buffer_yields_nothing() {
    assert_eq!(step4_extension(&[0u8; 28]), Vec::<u8>::new());
}
