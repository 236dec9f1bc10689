use rqr::bits::{append, BitVec};
use rqr::data::{
    bitvec_char_count, convert_alphanumeric, convert_numeric, encode, encode_alphanumeric_data,
    encode_byte_data, encode_numeric_data, encode_with_mode, string_to_bytes,
};
use rqr::ec_level::ECLevel;
use rqr::error::Error;
use rqr::mode::Mode;
use rqr::version::Version;

fn bits(v: &[u8]) -> Vec<bool> {
    v.iter().map(|x| *x == 1).collect()
}

fn hello_bytes() -> Vec<u8> {
    vec![
        0b00100000, 0b01011011, 0b00001011, 0b01111000, 0b11010001, 0b01110010, 0b11011100,
        0b01001101, 0b01000011, 0b01000000,
        // Three padding bytes
        0b11101100, 0b00010001, 0b11101100,
    ]
}

#[test]
fn mode_creation() {
    assert_eq!(Mode::from_str("0123456789"), Mode::Numeric);
    assert_eq!(Mode::from_str("ABCXYZ 0123456789$%*+-./:"), Mode::Alphanumeric);
    assert_eq!(Mode::from_str("â˜ƒ"), Mode::Byte);
    assert_eq!(Mode::from_str("\u{2603}"), Mode::Byte);
}

#[test]
fn mode_internal() {
    assert_eq!(Mode::Numeric.to_bitvec().to_bools(), bits(&[0, 0, 0, 1]));
}

#[test]
fn to_bytes() {
    assert_eq!(
        string_to_bytes("0123456789", Mode::Numeric).unwrap(),
        vec![0, 1, 2, 3, 4, 5, 6, 7, 8, 9]
    );
    assert_eq!(
        string_to_bytes("ABCXYZ 0123456789$%*+-./:", Mode::Alphanumeric).unwrap(),
        vec![
            10, 11, 12, 33, 34, 35, 36, 0, 1, 2, 3, 4, 5, 6, 7, 8, 9, 37, 38, 39, 40, 41, 42, 43,
            44
        ]
    );
    assert_eq!(
        string_to_bytes("\u{2603}", Mode::Byte).unwrap(),
        vec![0b11100010, 0b10011000, 0b10000011]
    );
}

#[test]
fn encode_full() {
    let (_, encoded) = encode("HELLO WORLD", Version::new(1), ECLevel::Q).unwrap();
    assert_eq!(encoded.to_bools(), BitVec::from_bytes(&hello_bytes()).to_bools());
    assert_eq!(encoded.to_bytes(), hello_bytes());
}

#[test]
fn data_internal() {
    assert_eq!(
        bitvec_char_count(3, Mode::Numeric, Version::new(1)).to_bools(),
        bits(&[0, 0, 0, 0, 0, 0, 0, 0, 1, 1])
    );
    assert_eq!(
        bitvec_char_count("HELLO WORLD".len(), Mode::Alphanumeric, Version::new(1)).to_bools(),
        bits(&[0, 0, 0, 0, 0, 1, 0, 1, 1])
    );

    assert_eq!(
        encode_numeric_data(&vec![8, 6, 7, 5, 3, 0, 9]).to_bools(),
        bits(&[
            1, 1, 0, 1, 1, 0, 0, 0, 1, 1, // 867
            1, 0, 0, 0, 0, 1, 0, 0, 1, 0, // 530
            1, 0, 0, 1
        ])
    ); // 9
    assert_eq!(
        encode_alphanumeric_data(&vec![17, 14]).to_bools(),
        bits(&[0, 1, 1, 0, 0, 0, 0, 1, 0, 1, 1])
    );
    assert_eq!(
        encode_alphanumeric_data(&vec![45]).to_bools(),
        bits(&[1, 0, 1, 1, 0, 1])
    );

    assert_eq!(
        string_to_bytes("0123456789", Mode::Numeric).unwrap(),
        vec![0, 1, 2, 3, 4, 5, 6, 7, 8, 9]
    );
    assert_eq!(
        string_to_bytes("ABCXYZ 0123456789$%*+-./:", Mode::Alphanumeric).unwrap(),
        vec![
            10, 11, 12, 33, 34, 35, 36, 0, 1, 2, 3, 4, 5, 6, 7, 8, 9, 37, 38, 39, 40, 41, 42, 43,
            44
        ]
    );
    assert_eq!(
        string_to_bytes("\u{2603}", Mode::Byte).unwrap(),
        vec![0b11100010, 0b10011000, 0b10000011]
    );
    assert_eq!(
        string_to_bytes("â˜ƒ", Mode::Byte).unwrap(),
        "â˜ƒ".as_bytes().to_vec()
    );
}

#[test]
fn data_encoding_encode_data() {
    assert_eq!(Mode::Numeric.to_bitvec().to_bools(), bits(&[0, 0, 0, 1]));

    assert_eq!(Version::new(1).char_count_len(Mode::Numeric), 10);
    assert_eq!(Version::new(40).char_count_len(Mode::Byte), 16);

    assert_eq!(
        bitvec_char_count(vec![0u8, 1, 2].len(), Mode::Numeric, Version::new(1)).to_bools(),
        bits(&[0, 0, 0, 0, 0, 0, 0, 0, 1, 1])
    );
    assert_eq!(
        bitvec_char_count("HELLO WORLD".len(), Mode::Alphanumeric, Version::new(1)).to_bools(),
        bits(&[0, 0, 0, 0, 0, 1, 0, 1, 1])
    );

    assert_eq!(
        encode_numeric_data(&vec![8, 6, 7, 5, 3, 0, 9]).to_bools(),
        bits(&[
            1, 1, 0, 1, 1, 0, 0, 0, 1, 1, // 867
            1, 0, 0, 0, 0, 1, 0, 0, 1, 0, // 530
            1, 0, 0, 1
        ])
    ); // 9
    assert_eq!(
        encode_alphanumeric_data(&vec![17, 14]).to_bools(),
        bits(&[0, 1, 1, 0, 0, 0, 0, 1, 0, 1, 1])
    );
    assert_eq!(
        encode_alphanumeric_data(&vec![45]).to_bools(),
        bits(&[1, 0, 1, 1, 0, 1])
    );
    assert_eq!(
        encode_byte_data(&vec![140, 141, 142]).to_bytes(),
        vec![140, 141, 142]
    );

    let hello = encode_with_mode("HELLO WORLD", Mode::Alphanumeric, Version::new(1), ECLevel::Q)
        .unwrap();
    assert_eq!(hello.to_bytes(), hello_bytes());
}

#[test]
fn encoding_encode_data() {
    assert_eq!(Mode::Numeric.to_bitvec().to_bools(), bits(&[0, 0, 0, 1]));
    assert_eq!(Mode::Alphanumeric.to_bitvec().to_bools(), bits(&[0, 0, 1, 0]));
    assert_eq!(Mode::Byte.to_bitvec().to_bools(), bits(&[0, 1, 0, 0]));

    assert_eq!(Version::new(1).char_count_len(Mode::Numeric), 10);
    assert_eq!(Version::new(40).char_count_len(Mode::Byte), 16);

    assert_eq!(
        bitvec_char_count(3, Mode::Numeric, Version::new(1)).to_bools(),
        bits(&[0, 0, 0, 0, 0, 0, 0, 0, 1, 1])
    );
    assert_eq!(
        bitvec_char_count(11, Mode::Alphanumeric, Version::new(1)).to_bools(),
        bits(&[0, 0, 0, 0, 0, 1, 0, 1, 1])
    );
    assert_eq!(
        encode_numeric_data(&vec![8, 6, 7, 5, 3, 0, 9]).to_bools(),
        bits(&[1, 1, 0, 1, 1, 0, 0, 0, 1, 1, 1, 0, 0, 0, 0, 1, 0, 0, 1, 0, 1, 0, 0, 1])
    );
    assert_eq!(
        encode_alphanumeric_data(&vec![17, 14]).to_bools(),
        bits(&[0, 1, 1, 0, 0, 0, 0, 1, 0, 1, 1])
    );
    assert_eq!(
        encode_alphanumeric_data(&vec![45]).to_bools(),
        bits(&[1, 0, 1, 1, 0, 1])
    );
    let (mode, hello) = encode("HELLO WORLD", Version::new(1), ECLevel::Q).unwrap();
    assert_eq!(mode, Mode::Alphanumeric);
    assert_eq!(hello.to_bytes(), hello_bytes());
}

#[test]
fn numeric_groups_take_their_width_from_the_digit_count() {
    // Three digits always take ten bits, also where the number is small.
    assert_eq!(
        encode_numeric_data(&vec![0, 0, 1]).to_bools(),
        bits(&[0, 0, 0, 0, 0, 0, 0, 0, 0, 1])
    );
    assert_eq!(encode_numeric_data(&vec![0, 7]).to_bools(), bits(&[0, 0, 0, 0, 1, 1, 1]));
    assert_eq!(encode_numeric_data(&vec![]).to_bools(), Vec::<bool>::new());
}

#[test]
fn append_writes_most_significant_bit_first() {
    let mut bv = BitVec::new();
    append(&mut bv, 0b1011, 4);
    append(&mut bv, 1, 3);
    append(&mut bv, 7, 0);
    assert_eq!(bv.to_bools(), bits(&[1, 0, 1, 1, 0, 0, 1]));
    assert_eq!(bv.len(), 7);
    assert_eq!(bv.get(0), Some(true));
    assert_eq!(bv.get(7), None);
}

#[test]
fn conversion_of_single_characters() {
    assert_eq!(convert_numeric(b'7'), 7);
    assert_eq!(convert_alphanumeric('Z'), 35);
    assert_eq!(convert_alphanumeric(' '), 36);
    assert_eq!(convert_alphanumeric(':'), 44);
}

#[test]
fn forced_mode_that_cannot_represent_the_input() {
    assert_eq!(
        string_to_bytes("hello", Mode::Alphanumeric).unwrap_err(),
        Error::UnsupportedCharacter
    );
    assert_eq!(
        string_to_bytes("12a", Mode::Numeric).unwrap_err(),
        Error::UnsupportedCharacter
    );
    assert_eq!(string_to_bytes("", Mode::Numeric).unwrap_err(), Error::UnsupportedCharacter);
    // The comma lies between `+` and `-` but is no alphanumeric character.
    assert!(!Mode::Alphanumeric.matches("A,B"));
    assert!(Mode::Alphanumeric.matches("A-B"));
    assert!(!Mode::Numeric.matches("12\n"));
    assert!(Mode::Byte.matches(""));
    assert_eq!(Mode::from_str(""), Mode::Byte);
    assert!(!Mode::in_numeric("١٢٣"));
}

#[test]
fn stream_fills_the_symbol_exactly() {
    let levels = [ECLevel::L, ECLevel::M, ECLevel::Q, ECLevel::H];
    for v in 1..=40usize {
        for e in levels.iter() {
            let bv = encode_with_mode("A", Mode::Byte, Version::new(v), *e).unwrap();
            assert_eq!(bv.len(), rqr::info::total_bits(Version::new(v), *e));
            let bytes = bv.to_bytes();
            // mode 0100, count of 1, 'A' = 0x41, terminator, then pad bytes in turn
            let header = if v <= 9 { 3 } else { 4 };
            for (k, b) in bytes.iter().enumerate().skip(header) {
                let want = if (k - header) % 2 == 0 { 0xEC } else { 0x11 };
                assert_eq!(*b, want);
            }
        }
    }
}

#[test]
fn capacity_is_exact_for_every_version() {
    let levels = [ECLevel::L, ECLevel::M, ECLevel::Q, ECLevel::H];
    let modes = [(Mode::Numeric, '7'), (Mode::Alphanumeric, 'A'), (Mode::Byte, 'a')];
    for v in [1usize, 2, 9, 10, 26, 27, 40].iter() {
        for e in levels.iter() {
            for (m, c) in modes.iter() {
                let cap = Version::new(*v).capacity(*m, *e);
                let mut s = String::new();
                for _ in 0..cap {
                    s.push(*c);
                }
                assert!(encode_with_mode(&s, *m, Version::new(*v), *e).is_ok());
                s.push(*c);
                assert_eq!(
                    encode_with_mode(&s, *m, Version::new(*v), *e).unwrap_err(),
                    Error::CapacityExceeded
                );
            }
        }
    }
}

#[test]
fn character_count_field_holds_the_length() {
    let s = "0123456789012";
    let bv = encode_with_mode(s, Mode::Numeric, Version::new(10), ECLevel::L).unwrap();
    let field: Vec<bool> = bv.to_bools()[4..16].to_vec();
    let mut value = 0usize;
    for b in field.iter() {
        value = value * 2 + if *b { 1 } else { 0 };
    }
    assert_eq!(value, s.len());
}

#[test]
fn bit_stream_operations() {
    let mut a = BitVec::from_bools(&vec![true, false]);
    let mut b = BitVec::from_bools(&vec![true, true, false]);
    a.append(&mut b);
    assert_eq!(a.to_bools(), bits(&[1, 0, 1, 1, 0]));
    assert_eq!(b.len(), 0);
    a.pad_zeros(3);
    assert_eq!(a.to_bools(), bits(&[1, 0, 1, 1, 0, 0, 0, 0]));
    assert_eq!(a.to_bytes(), vec![0b10110000]);
    assert_eq!(a.byte_at(0), 0b10110000);
    assert!(a.bit(0) && !a.bit(1));
    a.push(true);
    assert_eq!(a.len(), 9);
    assert_eq!(a.to_bytes(), vec![0b10110000]);
    assert_eq!(BitVec::from_bytes(&vec![0xA5, 0x0F]).to_bools(), bits(&[1, 0, 1, 0, 0, 1, 0, 1, 0, 0, 0, 0, 1, 1, 1, 1]));
}

#[test]
fn padding_of_a_stream() {
    // Room for the terminator only in part: three bits are left.
    let mut bv = BitVec::from_bools(&vec![true; 13]);
    rqr::data::pad_stream(&mut bv, 16);
    assert_eq!(bv.len(), 16);
    assert_eq!(bv.to_bytes(), vec![0xff, 0b11111000]);
    // Terminator, zeros up to a whole byte, then the two pad bytes in turn.
    let mut bv = BitVec::from_bools(&vec![true; 9]);
    rqr::data::pad_stream(&mut bv, 40);
    assert_eq!(bv.to_bytes(), vec![0xff, 0x80, 0xEC, 0x11, 0xEC]);
    let mut full = BitVec::from_bools(&vec![false; 8]);
    rqr::data::pad_stream(&mut full, 8);
    assert_eq!(full.to_bytes(), vec![0]);
}
