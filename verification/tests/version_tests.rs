use rqr::ec_level::ECLevel;
use rqr::info::{block_ec_count, group_block_count, total_bits, total_codewords};
use rqr::mode::Mode;
use rqr::version::Version;

#[test]
fn version_version() {
    assert_eq!(Version::new(32).size(), 145);

    assert_eq!(Version::new(1).char_count_len(Mode::Numeric), 10);
    assert_eq!(Version::new(40).char_count_len(Mode::Byte), 16);
}

#[test]
fn minimal_version() {
    assert_eq!(
        Version::minimal("HELLO WORLD", Mode::Alphanumeric, ECLevel::Q),
        Some(Version::new(1))
    );
    assert_eq!(
        Version::minimal("HELLO THERE WORLD", Mode::Alphanumeric, ECLevel::Q),
        Some(Version::new(2))
    );

    // Test max possible capacity.
    let mut long = String::new();
    for _ in 0..2953 {
        long.push('X');
    }
    assert_eq!(
        Version::minimal(&long, Mode::Byte, ECLevel::L),
        Some(Version::new(40))
    );
    // Go over largest capacity.
    long.push('X');
    assert_eq!(Version::minimal(&long, Mode::Byte, ECLevel::L), None)
}

#[test]
fn data() {
    assert_eq!(total_codewords(Version::new(1), ECLevel::Q), 13);
    assert_eq!(total_bits(Version::new(1), ECLevel::Q), 104);
    assert_eq!(group_block_count(Version::new(1), ECLevel::Q), vec![13]);
    assert_eq!(
        group_block_count(Version::new(5), ECLevel::Q),
        vec![15, 15, 16, 16]
    );
}

#[test]
fn char_count_widths_by_version_group() {
    let expect = [(1, 10, 9, 8), (9, 10, 9, 8), (10, 12, 11, 16), (26, 12, 11, 16), (27, 14, 13, 16), (40, 14, 13, 16)];
    for (v, n, a, b) in expect.iter() {
        assert_eq!(Version::new(*v).char_count_len(Mode::Numeric), *n);
        assert_eq!(Version::new(*v).char_count_len(Mode::Alphanumeric), *a);
        assert_eq!(Version::new(*v).char_count_len(Mode::Byte), *b);
    }
}

#[test]
fn version_geometry() {
    assert_eq!(Version::new(1).size(), 21);
    assert_eq!(Version::new(40).size(), 177);
    assert_eq!(Version::new(1).dark_module_pos(), (8, 13));
    assert_eq!(Version::new(7).dark_module_pos(), (8, 37));
    assert!(!Version::new(6).extra_version_areas());
    assert!(Version::new(7).extra_version_areas());
    assert_eq!(Version::new(3).index(), 2);
    assert_eq!(Version::new(40).capacity(Mode::Numeric, ECLevel::L), 7089);
    assert_eq!(Version::new(1).capacity(Mode::Byte, ECLevel::H), 7);
}

#[test]
fn capacity_boundary_bumps_version() {
    let levels = [ECLevel::L, ECLevel::M, ECLevel::Q, ECLevel::H];
    let modes = [Mode::Numeric, Mode::Alphanumeric, Mode::Byte];
    for v in 1..=40usize {
        for e in levels.iter() {
            for m in modes.iter() {
                let cap = Version::new(v).capacity(*m, *e);
                assert_eq!(Version::minimal_for_len(cap, *m, *e), Some(Version::new(v)));
                let next = Version::minimal_for_len(cap + 1, *m, *e);
                if v == 40 {
                    assert_eq!(next, None);
                } else {
                    assert_eq!(next, Some(Version::new(v + 1)));
                }
            }
        }
    }
}

#[test]
fn block_layout_values() {
    assert_eq!(block_ec_count(Version::new(1), ECLevel::M), 10);
    assert_eq!(block_ec_count(Version::new(5), ECLevel::Q), 18);
    assert_eq!(total_codewords(Version::new(40), ECLevel::L), 2956);
    assert_eq!(group_block_count(Version::new(40), ECLevel::H).len(), 81);
}
