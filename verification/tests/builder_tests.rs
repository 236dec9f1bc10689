use rqr::bits::BitVec;
use rqr::builder::QrBuilder;
use rqr::ec_level::ECLevel;
use rqr::error::Error;
use rqr::layout::{add_finders, add_format};
use rqr::mask::Mask;
use rqr::matrix::{Matrix, Module};
use rqr::mode::Mode;
use rqr::qr::Qr;
use rqr::version::Version;
use rqr::zigzag::ZigZagIt;

fn bits(v: &[u8]) -> Vec<bool> {
    v.iter().map(|x| *x == 1).collect()
}

// Shows a matrix with its data bits inverted: `.` for a light function
// module and for a set data bit, `#` for everything else.
fn inverted_data_string(matrix: &Matrix) -> String {
    let mut res = String::new();
    for y in 0..matrix.size {
        for x in 0..matrix.size {
            let c = match matrix.get(x, y) {
                Module::Function(false) => '.',
                Module::Data(true) => '.',
                _ => '#',
            };
            res.push(c);
        }
        res.push('\n');
    }
    res
}

#[test]
fn finders() {
    let mut builder = QrBuilder::new().version(Version::new(1));
    add_finders(&mut builder.matrix);
    let expected = "\n#######.?????.#######\n#.....#.?????.#.....#\n#.###.#.?????.#.###.#\n#.###.#.?????.#.###.#\n#.###.#.?????.#.###.#\n#.....#.?????.#.....#\n#######.?????.#######\n........?????........\n?????????????????????\n?????????????????????\n?????????????????????\n?????????????????????\n?????????????????????\n........?????????????\n#######.?????????????\n#.....#.?????????????\n#.###.#.?????????????\n#.###.#.?????????????\n#.###.#.?????????????\n#.....#.?????????????\n#######.?????????????\n";
    assert_eq!(builder.to_dbg_string(), expected);
}

#[test]
fn fun_patterns() {
    let mut builder = QrBuilder::new().version(Version::new(3));
    builder.add_fun_patterns();
    let expected = "\n#######.*????????????.#######\n#.....#.*????????????.#.....#\n#.###.#.*????????????.#.###.#\n#.###.#.*????????????.#.###.#\n#.###.#.*????????????.#.###.#\n#.....#.*????????????.#.....#\n#######.#.#.#.#.#.#.#.#######\n........*????????????........\n******#**????????????********\n??????.??????????????????????\n??????#??????????????????????\n??????.??????????????????????\n??????#??????????????????????\n??????.??????????????????????\n??????#??????????????????????\n??????.??????????????????????\n??????#??????????????????????\n??????.??????????????????????\n??????#??????????????????????\n??????.??????????????????????\n??????#?????????????#####????\n........#???????????#...#????\n#######.*???????????#.#.#????\n#.....#.*???????????#...#????\n#.###.#.*???????????#####????\n#.###.#.*????????????????????\n#.###.#.*????????????????????\n#.....#.*????????????????????\n#######.*????????????????????\n";
    assert_eq!(builder.to_dbg_string(), expected);
}

#[test]
fn fun_patterns_large() {
    let mut builder = QrBuilder::new().version(Version::new(9));
    builder.add_fun_patterns();
    let expected = "\n#######.*?????????????????????????????????***.#######\n#.....#.*?????????????????????????????????***.#.....#\n#.###.#.*?????????????????????????????????***.#.###.#\n#.###.#.*?????????????????????????????????***.#.###.#\n#.###.#.*???????????????#####?????????????***.#.###.#\n#.....#.*???????????????#...#?????????????***.#.....#\n#######.#.#.#.#.#.#.#.#.#.#.#.#.#.#.#.#.#.#.#.#######\n........*???????????????#...#????????????????........\n******#**???????????????#####????????????????********\n??????.??????????????????????????????????????????????\n??????#??????????????????????????????????????????????\n??????.??????????????????????????????????????????????\n??????#??????????????????????????????????????????????\n??????.??????????????????????????????????????????????\n??????#??????????????????????????????????????????????\n??????.??????????????????????????????????????????????\n??????#??????????????????????????????????????????????\n??????.??????????????????????????????????????????????\n??????#??????????????????????????????????????????????\n??????.??????????????????????????????????????????????\n??????#??????????????????????????????????????????????\n??????.??????????????????????????????????????????????\n??????#??????????????????????????????????????????????\n??????.??????????????????????????????????????????????\n????#####???????????????#####???????????????#####????\n????#...#???????????????#...#???????????????#...#????\n????#.#.#???????????????#.#.#???????????????#.#.#????\n????#...#???????????????#...#???????????????#...#????\n????#####???????????????#####???????????????#####????\n??????.??????????????????????????????????????????????\n??????#??????????????????????????????????????????????\n??????.??????????????????????????????????????????????\n??????#??????????????????????????????????????????????\n??????.??????????????????????????????????????????????\n??????#??????????????????????????????????????????????\n??????.??????????????????????????????????????????????\n??????#??????????????????????????????????????????????\n??????.??????????????????????????????????????????????\n??????#??????????????????????????????????????????????\n??????.??????????????????????????????????????????????\n??????#??????????????????????????????????????????????\n??????.??????????????????????????????????????????????\n******#??????????????????????????????????????????????\n******.??????????????????????????????????????????????\n******#?????????????????#####???????????????#####????\n........#???????????????#...#???????????????#...#????\n#######.*???????????????#.#.#???????????????#.#.#????\n#.....#.*???????????????#...#???????????????#...#????\n#.###.#.*???????????????#####???????????????#####????\n#.###.#.*????????????????????????????????????????????\n#.###.#.*????????????????????????????????????????????\n#.....#.*????????????????????????????????????????????\n#######.*????????????????????????????????????????????\n";
    assert_eq!(builder.to_dbg_string(), expected);
}

#[test]
fn add_raw_data() {
    let mut builder = QrBuilder::new().version(Version::new(2));
    builder.add_fun_patterns();
    let mut bv: BitVec = BitVec::new();
    for i in 0..359 {
        bv.push(i % 2 == 0);
    }
    let written = builder.add_raw_data(&bv);
    assert_eq!(written, 359);

    let expected = "\n#######.*X-X-X-X-.#######\n#.....#.*X-X-X-X-.#.....#\n#.###.#.*X-X-X-X-.#.###.#\n#.###.#.*X-X-X-X-.#.###.#\n#.###.#.*X-X-X-X-.#.###.#\n#.....#.*X-X-X-X-.#.....#\n#######.#.#.#.#.#.#######\n........*X-X-X-X-........\n******#**X-X-X-X-********\nX-X-X-.X-X-X-X-X--X-X-X-X\nX-X-X-#X-X-X-X-X--X-X-X-X\nX-X-X-.X-X-X-X-X--X-X-X-X\nX-X-X-#X-X-X-X-X--X-X-X-X\nX-X-X-.X-X-X-X-X--X-X-X-X\nX-X-X-#X-X-X-X-X--X-X-X-X\nX-X-X-.X-X-X-X-X--X-X-X-X\nX-X-X-#X-X-X-X-X#####-X-X\n........#X-X-X--#...#-X-X\n#######.*X-X-X-X#.#.#-X-X\n#.....#.*X-X-X--#...#-X-X\n#.###.#.*X-X-X-X#####-X-X\n#.###.#.*X-X-X--X-X-X-X-X\n#.###.#.*X-X-X--X-X-X-X-X\n#.....#.*X-X-X--X-X-X-X-X\n#######.*X-X-X--X-X-X-X-X\n";
    assert_eq!(builder.to_dbg_string(), expected);
}

#[test]
fn add_data() {
    let mut builder = QrBuilder::new().version(Version::new(1)).ecl(ECLevel::Q);
    builder.add_fun_patterns();
    builder.add_data("HELLO WORLD").unwrap();
    let expected = "\n#######.*XX-X.#######\n#.....#.*X---.#.....#\n#.###.#.*-XX-.#.###.#\n#.###.#.*X-X-.#.###.#\n#.###.#.*---X.#.###.#\n#.....#.*XXX-.#.....#\n#######.#.#.#.#######\n........*X-X-........\n******#**-X--********\n---X-X.XX-X--X-XXX-XX\nX--XXX#XXX--X----XX-X\n--XXX-.--XX-------X--\n--X---#----X---X-----\n........#----XXX-XXXX\n#######.*---X-XXXX--X\n#.....#.*---XXX----X-\n#.###.#.*---X--X-X-X-\n#.###.#.*--------X---\n#.###.#.*-XXXX-XXXX--\n#.....#.*XX-X--X----X\n#######.*-XXXX-XX-X--\n";
    assert_eq!(builder.to_dbg_string(), expected);
}

#[test]
fn format_info() {
    let mut builder = QrBuilder::new().version(Version::new(1));
    // Mask 6, ECLevel Q
    add_format(
        &mut builder.matrix,
        &BitVec::from_bools(&bits(&[0, 1, 0, 1, 1, 1, 0, 1, 1, 0, 1, 1, 0, 1, 0])),
    );
    let expected = "\n????????.????????????\n????????#????????????\n????????.????????????\n????????#????????????\n????????#????????????\n????????.????????????\n?????????????????????\n????????#????????????\n.#.###?.#????##.##.#.\n?????????????????????\n?????????????????????\n?????????????????????\n?????????????????????\n?????????????????????\n????????.????????????\n????????#????????????\n????????#????????????\n????????#????????????\n????????.????????????\n????????#????????????\n????????.????????????\n";
    assert_eq!(builder.to_dbg_string(), expected);
}

#[test]
fn hello_world() {
    // Builds a final QR code which should be scannable.
    let mut builder = QrBuilder::new().version(Version::new(1)).ecl(ECLevel::Q);
    builder.add_all("HELLO WORLD").unwrap();
    let expected = "\n#######..--X-.#######\n#.....#.#X--X.#.....#\n#.###.#..X-XX.#.###.#\n#.###.#.#XXXX.#.###.#\n#.###.#.#X-X-.#.###.#\n#.....#..X--X.#.....#\n#######.#.#.#.#######\n........#X-XX........\n.#.####.#X--X##.##.#.\nX-XXXX.X----XXXX-XXX-\n--X-X-#X---X--XX-----\nX-XX-X.--X-XX---XX---\nXX-XXX#XXXX-XXX-XXXXX\n........#---X--X-X---\n#######..XX--XX--XXXX\n#.....#.#-X--X--X-XXX\n#.###.#.#X-X--X---XXX\n#.###.#.#-XXX---X-X--\n#.###.#..X----X----XX\n#.....#.#XX--XXX--XX-\n#######..X-X-------X-\n";
    assert_eq!(builder.to_dbg_string(), expected);
    assert_eq!(builder.mask, Some(Mask::new(6)));
    assert_eq!(builder.mode, Some(Mode::Alphanumeric));
}

#[test]
fn before_masking() {
    let mut builder = QrBuilder::new().version(Version::new(1)).ecl(ECLevel::Q);
    builder.add_fun_patterns();
    builder.add_data("HELLO WORLD").unwrap();
    let expected = "#######.#..#..#######\n#.....#.#.###.#.....#\n#.###.#.##..#.#.###.#\n#.###.#.#.#.#.#.###.#\n#.###.#.####..#.###.#\n#.....#.#...#.#.....#\n#######.#.#.#.#######\n........#.#.#........\n##########.##########\n###.#....#.##.#...#..\n.##...#...##.####..#.\n##...#.##..#######.##\n##.########.###.#####\n........#####...#....\n#######.####.#....##.\n#.....#.####...####.#\n#.###.#.####.##.#.#.#\n#.###.#.#########.###\n#.###.#.##....#....##\n#.....#.#..#.##.####.\n#######.##....#..#.##\n"; // Includes a newline at the end
    assert_eq!(inverted_data_string(&builder.matrix), expected);
}

#[test]
fn placement() {
    let mut builder = QrBuilder::new().version(Version::new(1)).ecl(ECLevel::Q);
    builder.add_fun_patterns();
    builder.add_data("HELLO WORLD").unwrap();
    let expected = "#######.#..#..#######\n#.....#.#.###.#.....#\n#.###.#.##..#.#.###.#\n#.###.#.#.#.#.#.###.#\n#.###.#.####..#.###.#\n#.....#.#...#.#.....#\n#######.#.#.#.#######\n........#.#.#........\n##########.##########\n###.#....#.##.#...#..\n.##...#...##.####..#.\n##...#.##..#######.##\n##.########.###.#####\n........#####...#....\n#######.####.#....##.\n#.....#.####...####.#\n#.###.#.####.##.#.#.#\n#.###.#.#########.###\n#.###.#.##....#....##\n#.....#.#..#.##.####.\n#######.##....#..#.##\n"; // Includes a newline at the end
    assert_eq!(inverted_data_string(&builder.matrix), expected);
}

#[test]
fn staged_build_equals_build() {
    let mut builder = QrBuilder::new().version(Version::new(1)).ecl(ECLevel::Q);
    builder.add_fun_patterns();
    builder.add_data("HELLO WORLD").unwrap();
    builder.build_mask();
    builder.add_info();
    let staged = builder.into_qr();
    let built = QrBuilder::new().version(Version::new(1)).ecl(ECLevel::Q).build("HELLO WORLD").unwrap();
    assert_eq!(staged.matrix.modules, built.matrix.modules);
    assert_eq!(staged.mask, built.mask);
    let again = QrBuilder::new().version(Version::new(1)).ecl(ECLevel::Q).into("HELLO WORLD").unwrap();
    assert_eq!(again.matrix.modules, built.matrix.modules);
    let third = QrBuilder::new().version(Version::new(1)).ecl(ECLevel::Q).build_qr("HELLO WORLD").unwrap();
    assert_eq!(third.matrix.modules, built.matrix.modules);
}

#[test]
fn forced_mask_is_applied() {
    let mut a = QrBuilder::new().version(Version::new(1)).ecl(ECLevel::Q);
    a.add_fun_patterns();
    a.add_data("HELLO WORLD").unwrap();
    a.mask_with(Mask::new(3));
    a.add_format_info();
    a.add_version_info();
    let b = QrBuilder::new()
        .version(Version::new(1))
        .ecl(ECLevel::Q)
        .mask(Mask::new(3))
        .build("HELLO WORLD")
        .unwrap();
    assert_eq!(a.matrix.modules, b.matrix.modules);
    assert_eq!(b.mask, Mask::new(3));
}

#[test]
fn complete_for_every_version_and_level() {
    let levels = [ECLevel::L, ECLevel::M, ECLevel::Q, ECLevel::H];
    for v in 1..=40usize {
        for e in levels.iter() {
            let qr = QrBuilder::new()
                .version(Version::new(v))
                .ecl(*e)
                .mask(Mask::new(v % 8))
                .build("HELLO")
                .unwrap();
            assert!(qr.matrix.complete());
            assert_eq!(qr.size(), 21 + 4 * (v - 1));
            assert_eq!(qr.matrix.modules.len(), qr.size() * qr.size());
        }
    }
}

#[test]
fn stream_fills_the_free_modules_exactly() {
    let levels = [ECLevel::L, ECLevel::M, ECLevel::Q, ECLevel::H];
    for v in 1..=40usize {
        for e in levels.iter() {
            let version = Version::new(v);
            let (_, data) = rqr::data::encode("HELLO", version, *e).unwrap();
            let stream = rqr::ec::add(data, version, *e);
            let mut builder = QrBuilder::new().version(version).ecl(*e);
            builder.add_fun_patterns();
            let written = builder.add_raw_data(&stream);
            assert_eq!(written, stream.len());
            for m in builder.matrix.modules.iter() {
                assert_ne!(*m, Module::Unknown);
            }
        }
    }
}

#[test]
fn version_information_from_version_seven() {
    let six = QrBuilder::new().version(Version::new(6)).build("A").unwrap();
    let seven = QrBuilder::new().version(Version::new(7)).build("A").unwrap();
    // Left of the top right finder: data in version 6, version information in 7.
    let n6 = six.size();
    let n7 = seven.size();
    let mut data6 = 0;
    for y in 0..6 {
        for x in (n6 - 11)..(n6 - 8) {
            if six.matrix.is_data(x, y) {
                data6 += 1;
            }
        }
    }
    assert_eq!(data6, 18);
    let bits = rqr::info::version_info(Version::new(7)).unwrap().to_bools();
    for i in 0..18 {
        assert_eq!(
            *seven.matrix.get(n7 - 11 + i % 3, i / 3),
            Module::Function(bits[i])
        );
        assert_eq!(
            *seven.matrix.get(i / 3, n7 - 11 + i % 3),
            Module::Function(bits[i])
        );
    }
}

#[test]
fn rebuilding_with_the_chosen_settings_gives_the_same_symbol() {
    let inputs = ["HELLO WORLD", "0123456789", "https://example.org/a/b?c=d", ""];
    let levels = [ECLevel::L, ECLevel::M, ECLevel::Q, ECLevel::H];
    for s in inputs.iter() {
        for e in levels.iter() {
            let auto = QrBuilder::new().ecl(*e).build(s).unwrap();
            let again = QrBuilder::new()
                .ecl(*e)
                .version(auto.version)
                .mask(auto.mask)
                .mode(auto.mode)
                .build(s)
                .unwrap();
            assert_eq!(auto, again);
            assert_eq!(auto.matrix.modules, again.matrix.modules);
            assert_eq!(auto.version, again.version);
            assert_eq!(auto.mask, again.mask);
            assert_eq!(auto.mode, again.mode);
        }
    }
}

#[test]
fn errors_of_the_builder() {
    assert_eq!(
        QrBuilder::new().version(Version(0)).build("A").unwrap_err(),
        Error::InvalidVersion
    );
    assert_eq!(
        QrBuilder::new().version(Version(41)).build("A").unwrap_err(),
        Error::InvalidVersion
    );
    assert_eq!(
        QrBuilder::new().mask(Mask(8)).build("A").unwrap_err(),
        Error::InvalidMask
    );
    assert_eq!(
        QrBuilder::new().mode(Mode::Numeric).build("A").unwrap_err(),
        Error::InvalidMode
    );
    assert_eq!(
        QrBuilder::new().mode(Mode::Alphanumeric).build("hello").unwrap_err(),
        Error::InvalidMode
    );
    assert_eq!(
        QrBuilder::new()
            .version(Version::new(1))
            .ecl(ECLevel::H)
            .build("HELLO WORLD, THIS IS TOO LONG")
            .unwrap_err(),
        Error::CapacityExceeded
    );
    // The version is checked before the mask, the mask before the mode.
    assert_eq!(
        QrBuilder::new()
            .version(Version(0))
            .mask(Mask(9))
            .mode(Mode::Numeric)
            .build("A")
            .unwrap_err(),
        Error::InvalidVersion
    );
    let mut builder = QrBuilder::new().mode(Mode::Numeric);
    assert_eq!(builder.add_all("A").unwrap_err(), Error::InvalidMode);
    assert_eq!(builder.matrix.size, 0);
    assert_eq!(builder.version, None);
}

#[test]
fn largest_input() {
    let mut long = String::new();
    for _ in 0..2953 {
        long.push('X');
    }
    let qr = QrBuilder::new().ecl(ECLevel::L).mode(Mode::Byte).build(&long).unwrap();
    assert_eq!(qr.version, Version::new(40));
    assert_eq!(qr.size(), 177);
    assert!(qr.matrix.complete());
    // As upper case letters the same string takes a smaller symbol.
    assert_eq!(Qr::with_ecl(&long, ECLevel::L).unwrap().version, Version::new(33));
    long.push('X');
    assert_eq!(
        QrBuilder::new().ecl(ECLevel::L).mode(Mode::Byte).build(&long).unwrap_err(),
        Error::CapacityExceeded
    );
}

#[test]
fn simple_api() {
    let qr = Qr::new("HELLO WORLD").unwrap();
    assert_eq!(qr.version, Version::new(1));
    assert_eq!(qr.ecl, ECLevel::Q);
    assert_eq!(qr.mode, Mode::Alphanumeric);
    assert_eq!(qr.mask, Mask::new(6));
    assert!(qr.is_dark(0, 0));
    assert!(!qr.is_dark(1, 1));
    assert!(qr.is_dark(8, 13));
    let other = Qr::with_version("HELLO WORLD", Version::new(3)).unwrap();
    assert_eq!(other.size(), 29);
    assert_eq!(Qr::new("HELLO THERE WORLD").unwrap().version, Version::new(2));
}

#[test]
fn zigzag_walk_of_the_smallest_symbol() {
    let mut it = ZigZagIt::new(21);
    let mut cells: Vec<(usize, usize)> = Vec::new();
    loop {
        match it.next() {
            Some(c) => cells.push(c),
            None => break,
        }
    }
    assert_eq!(&cells[0..6], &[(20, 20), (19, 20), (20, 19), (19, 19), (20, 18), (19, 18)]);
    assert_eq!(cells[41], (19, 0));
    assert_eq!(cells[42], (18, 0));
    assert_eq!(cells[43], (17, 0));
    assert_eq!(cells[44], (18, 1));
    assert_eq!(cells.len(), 20 * 21);
    assert_eq!(*cells.last().unwrap(), (0, 20));
    // Column 6 is met once, at the top, where the walk steps over the timing pattern.
    let in_column_six: Vec<&(usize, usize)> = cells.iter().filter(|c| c.0 == 6).collect();
    assert_eq!(in_column_six, vec![&(6, 0)]);
    assert!(!cells.contains(&(5, 0)));
    assert_eq!(it.next(), None);
}

#[test]
fn matrix_primitives() {
    let mut m = Matrix::new(5);
    assert_eq!(m.index(2, 3), 17);
    assert!(!m.any_in_square(0, 0, 5));
    assert!(!m.complete());
    m.set_square(1, 1, 3, Module::Function(true));
    m.set_square_outline(0, 0, 5, Module::Function(false));
    assert_eq!(*m.get(2, 2), Module::Function(true));
    assert_eq!(*m.get(0, 4), Module::Function(false));
    let mut n = Matrix::new(3);
    n.set_rect(0, 0, 1, 2, Module::Reserved);
    assert!(n.any_in_rect(1, 1, 2, 2));
    assert!(!n.any_in_rect(2, 0, 2, 2));
    n.set_data(2, 0, true);
    assert!(n.is_data(2, 0) && n.is_dark(2, 0) && !n.is_fun(2, 0));
    n.flip(2, 0);
    assert_eq!(*n.get(2, 0), Module::Data(false));
    n.set_fun(2, 1, true);
    assert!(n.is_fun(2, 1));
    assert!(n.is_fun(0, 0) && !n.is_dark(0, 0));
    n.set(2, 2, Module::Data(true));
    assert!(!n.complete());
    n.set_rect(0, 0, 1, 2, Module::Function(false));
    assert!(n.complete());
    assert_eq!(Module::Data(true).flipped(), Module::Data(false));
    assert_eq!(Module::Reserved.flipped(), Module::Reserved);
    assert!(Module::Reserved.is_fun() && !Module::Reserved.is_dark() && !Module::Reserved.is_data());
    assert_eq!(!Module::Function(false), Module::Function(true));
    assert_eq!(!Module::Unknown, Module::Unknown);
    assert_eq!(n.clone().modules, n.modules);
    *n.get_mut(1, 1) = Module::Data(true);
    assert_eq!(*n.get(1, 1), Module::Data(true));
    assert_eq!(n.modules[4], Module::Data(true));
}
