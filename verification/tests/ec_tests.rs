use rqr::bits::BitVec;
use rqr::data::encode;
use rqr::ec::{add, gf_multiply, generate_ec_codewords, generator_poly, group_into_blocks};
use rqr::ec_level::ECLevel;
use rqr::info::{block_ec_count, format_info, group_block_count, version_info};
use rqr::mask::Mask;
use rqr::tables::{gf_exp_lookup, gf_log_lookup};
use rqr::version::Version;

fn bits(v: &[u8]) -> Vec<bool> {
    v.iter().map(|x| *x == 1).collect()
}

fn from_bin_str(s: &str) -> Vec<bool> {
    s.chars()
        .filter(|x| *x == '1' || *x == '0')
        .map(|x| x == '1')
        .collect()
}

#[test]
fn ec_ec_tutorial_example() {
    let ec_count = block_ec_count(Version::new(1), ECLevel::M);
    assert_eq!(ec_count, 10);

    // HELLO WORLD as 1-M code
    let data: [u8; 16] = [
        0b00100000, 0b01011011, 0b00001011, 0b01111000, 0b11010001, 0b01110010, 0b11011100,
        0b01001101, 0b01000011, 0b01000000, 0b11101100, 0b00010001, 0b11101100, 0b00010001,
        0b11101100, 0b00010001,
    ];
    assert_eq!(
        generate_ec_codewords(&data, ec_count),
        vec![196, 35, 39, 119, 235, 215, 231, 226, 93, 23]
    );
}

#[test]
fn ec_encoding_ec_tutorial_example() {
    let data: [u8; 16] = [32, 91, 11, 120, 209, 114, 220, 77, 67, 64, 236, 17, 236, 17, 236, 17];
    assert_eq!(generate_ec_codewords(&data, 10).len(), 10);
}

#[test]
fn ec_group_tutorial_example() {
    let layout = group_block_count(Version::new(5), ECLevel::Q);
    assert_eq!(layout, vec![15, 15, 16, 16]);

    let bv = BitVec::from_bytes(&vec![67, 85, 70, 134, 87, 38, 85, 194, 119, 50, 6, 18, 6, 103, 38, 246, 246, 66, 7, 118, 134, 242, 7, 38, 86, 22, 198, 199, 146, 6, 182, 230, 247, 119, 50, 7, 118, 134, 87, 38, 82, 6, 134, 151, 50, 7, 70, 247, 118, 86, 194, 6, 151, 50, 224, 236, 17, 236, 17, 236, 17, 236]);
    let expected: Vec<Vec<u8>> = vec![
        vec![67, 85, 70, 134, 87, 38, 85, 194, 119, 50, 6, 18, 6, 103, 38],
        vec![246, 246, 66, 7, 118, 134, 242, 7, 38, 86, 22, 198, 199, 146, 6],
        vec![182, 230, 247, 119, 50, 7, 118, 134, 87, 38, 82, 6, 134, 151, 50, 7],
        vec![70, 247, 118, 86, 194, 6, 151, 50, 224, 236, 17, 236, 17, 236, 17, 236],
    ];
    assert_eq!(group_into_blocks(&bv, &layout), expected);
}

#[test]
fn ec_encoding_group_tutorial_example() {
    let bv = BitVec::from_bytes(&vec![67, 85, 70, 134, 87, 38, 85, 194, 119, 50, 6, 18, 6, 103, 38, 246, 246, 66, 7, 118, 134, 242, 7, 38, 86, 22, 198, 199, 146, 6, 182, 230, 247, 119, 50, 7, 118, 134, 87, 38, 82, 6, 134, 151, 50, 7, 70, 247, 118, 86, 194, 6, 151, 50, 224, 236, 17, 236, 17, 236, 17, 236]);
    let expected: Vec<Vec<u8>> = vec![
        vec![67, 85, 70, 134, 87, 38, 85, 194, 119, 50, 6, 18, 6, 103, 38],
        vec![246, 246, 66, 7, 118, 134, 242, 7, 38, 86, 22, 198, 199, 146, 6],
        vec![182, 230, 247, 119, 50, 7, 118, 134, 87, 38, 82, 6, 134, 151, 50, 7],
        vec![70, 247, 118, 86, 194, 6, 151, 50, 224, 236, 17, 236, 17, 236, 17, 236],
    ];
    assert_eq!(
        group_into_blocks(&bv, &group_block_count(Version::new(5), ECLevel::Q)),
        expected
    );
}

#[test]
fn interleave_tutorial_example() {
    let bv = BitVec::from_bytes(&vec![67, 85, 70, 134, 87, 38, 85, 194, 119, 50, 6, 18, 6, 103, 38, 246, 246, 66, 7, 118, 134, 242, 7, 38, 86, 22, 198, 199, 146, 6, 182, 230, 247, 119, 50, 7, 118, 134, 87, 38, 82, 6, 134, 151, 50, 7, 70, 247, 118, 86, 194, 6, 151, 50, 16, 236, 17, 236, 17, 236, 17, 236]);
    let expected = from_bin_str("01000011111101101011011001000110010101011111011011100110111101110100011001000010111101110111011010000110000001110111011101010110010101110111011000110010110000100010011010000110000001110000011001010101111100100111011010010111110000100000011110000110001100100111011100100110010101110001000000110010010101100010011011101100000001100001011001010010000100010001001011000110000001101110110000000110110001111000011000010001011001111001001010010111111011000010011000000110001100100001000100000111111011001101010101010111100101001110101111000111110011000111010010011111000010110110000010110001000001010010110100111100110101001010110101110011110010100100110000011000111101111011011010000101100100111111000101111100010010110011101111011111100111011111001000100001111001011100100011101110011010101111100010000110010011000010100010011010000110111100001111111111011101011000000111100110101011001001101011010001101111010101001001101111000100010000101000000010010101101010001101101100100000111010000110100011111100000010000001101111011110001100000010110010001001111000010110001101111011000000000");
    let res = add(bv, Version::new(5), ECLevel::Q);
    assert_eq!(res.len(), expected.len());
    assert_eq!(res.to_bools(), expected);
}

#[test]
fn add_simple() {
    // For smaller versions data should simply be followed by ec data.
    let version = Version::new(1);
    let ecl = ECLevel::Q;

    let (_, data) = encode("HELLO WORLD", version, ecl).unwrap();
    let data_bits = data.to_bools();
    let data_bytes = data.to_bytes();

    let ec_count = block_ec_count(version, ecl);
    let ec_data = BitVec::from_bytes(&generate_ec_codewords(&data_bytes, ec_count));
    let ec = add(data, version, ecl);

    assert_eq!(ec.len(), data_bits.len() + ec_data.len());

    let mut res: Vec<bool> = Vec::new();
    res.extend(data_bits);
    res.extend(ec_data.to_bools());
    assert_eq!(ec.to_bools(), res);
}

#[test]
fn stream_length_for_every_version_and_level() {
    let levels = [ECLevel::L, ECLevel::M, ECLevel::Q, ECLevel::H];
    let remainder = [
        0, 7, 7, 7, 7, 7, 0, 0, 0, 0, 0, 0, 0, 3, 3, 3, 3, 3, 3, 3, 4, 4, 4, 4, 4, 4, 4, 3, 3, 3,
        3, 3, 3, 3, 0, 0, 0, 0, 0, 0,
    ];
    for v in 1..=40usize {
        for e in levels.iter() {
            let version = Version::new(v);
            let (_, data) = encode("12345", version, *e).unwrap();
            let layout = group_block_count(version, *e);
            let total: usize = layout.iter().sum();
            let out = add(data, version, *e);
            assert_eq!(
                out.len(),
                8 * total + 8 * block_ec_count(version, *e) * layout.len() + remainder[v - 1]
            );
        }
    }
}

#[test]
fn galois_field_tables() {
    let mut x: u32 = 1;
    for i in 0..255u32 {
        assert_eq!(gf_exp_lookup(i as u8) as u32, x);
        assert_eq!(gf_log_lookup(x as u8) as u32, i);
        x <<= 1;
        if x & 0x100 != 0 {
            x ^= 0x11D;
        }
    }
    assert_eq!(gf_exp_lookup(255), 1);
    assert_eq!(gf_multiply(0, 17), 0);
    assert_eq!(gf_multiply(17, 0), 0);
    assert_eq!(gf_multiply(2, 128), 29);
    assert_eq!(gf_multiply(1, 77), 77);
}

#[test]
fn generator_polynomials_in_log_form() {
    let log = |v: &Vec<u8>| -> Vec<u8> { v.iter().map(|c| gf_log_lookup(*c)).collect() };
    assert_eq!(generator_poly(0), Vec::<u8>::new());
    assert_eq!(log(&generator_poly(1)), vec![0]);
    assert_eq!(log(&generator_poly(2)), vec![25, 1]);
    assert_eq!(log(&generator_poly(7)), vec![87, 229, 146, 149, 238, 102, 21]);
    assert_eq!(
        log(&generator_poly(10)),
        vec![251, 67, 46, 61, 118, 70, 64, 94, 32, 45]
    );
    assert_eq!(
        log(&generator_poly(30)),
        vec![
            41, 173, 145, 152, 216, 31, 179, 182, 50, 48, 110, 86, 239, 96, 222, 125, 42, 173,
            226, 193, 224, 130, 156, 37, 251, 216, 238, 40, 192, 180
        ]
    );
}

#[test]
fn codeword_block_with_leading_zeros() {
    assert_eq!(generate_ec_codewords(&[0, 0, 0], 7), vec![0, 0, 0, 0, 0, 0, 0]);
    assert_eq!(generate_ec_codewords(&[], 3), vec![0, 0, 0]);
    // A single codeword 1 leaves the generator polynomial itself.
    assert_eq!(generate_ec_codewords(&[1], 2), generator_poly(2));
}

#[test]
fn format_information_bits() {
    // Level Q, mask 6
    assert_eq!(
        format_info(ECLevel::Q, Mask::new(6)).to_bools(),
        bits(&[0, 1, 0, 1, 1, 1, 0, 1, 1, 0, 1, 1, 0, 1, 0])
    );
    assert_eq!(
        format_info(ECLevel::L, Mask::new(0)).to_bools(),
        bits(&[1, 1, 1, 0, 1, 1, 1, 1, 1, 0, 0, 0, 1, 0, 0])
    );
    assert_eq!(
        format_info(ECLevel::M, Mask::new(0)).to_bools(),
        bits(&[1, 0, 1, 0, 1, 0, 0, 0, 0, 0, 1, 0, 0, 1, 0])
    );
    assert_eq!(
        format_info(ECLevel::H, Mask::new(7)).to_bools(),
        bits(&[0, 0, 0, 1, 0, 0, 0, 0, 0, 1, 1, 1, 0, 1, 1])
    );
    assert_eq!(ECLevel::L.to_bitvec().to_bools(), bits(&[0, 1]));
    assert_eq!(ECLevel::M.to_bitvec().to_bools(), bits(&[0, 0]));
    assert_eq!(ECLevel::Q.to_bitvec().to_bools(), bits(&[1, 1]));
    assert_eq!(ECLevel::H.to_bitvec().to_bools(), bits(&[1, 0]));
}

#[test]
fn version_information_bits() {
    for v in 1..7usize {
        assert!(version_info(Version::new(v)).is_none());
    }
    // Version 7 is 000111110010010100, which is placed from its last bit on.
    let mut seven = from_bin_str("000111110010010100");
    seven.reverse();
    assert_eq!(version_info(Version::new(7)).unwrap().to_bools(), seven);
    let mut forty = from_bin_str("101000110001101001");
    forty.reverse();
    assert_eq!(version_info(Version::new(40)).unwrap().to_bools(), forty);
}
