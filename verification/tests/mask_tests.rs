use rqr::builder::QrBuilder;
use rqr::ec_level::ECLevel;
use rqr::mask::{
    apply_mask, evaluate, evaluate_2x2, evaluate_5_in_line, evaluate_bw, evaluate_dl_pattern, mask,
    mask_at, Mask,
};
use rqr::matrix::{Matrix, Module};
use rqr::version::Version;

fn hello_before_masking() -> QrBuilder {
    let mut builder = QrBuilder::new().version(Version::new(1)).ecl(ECLevel::Q);
    builder.add_fun_patterns();
    builder.add_data("HELLO WORLD").unwrap();
    builder
}

// The symbol with its reserved modules dark and its data bits inverted.
fn inverted_data_matrix(matrix: &Matrix) -> Matrix {
    let mut res = Matrix::new(matrix.size);
    for y in 0..matrix.size {
        for x in 0..matrix.size {
            let m = match *matrix.get(x, y) {
                Module::Reserved => Module::Function(true),
                Module::Data(v) => Module::Data(!v),
                other => other,
            };
            res.set(x, y, m);
        }
    }
    res
}

#[test]
fn mask_evaluation() {
    let builder = hello_before_masking();
    println!("{}", builder.to_string());
    let matrix = inverted_data_matrix(&builder.matrix);
    assert_eq!(evaluate_5_in_line(&matrix), 211);
    assert_eq!(evaluate_2x2(&matrix), 135);
    assert_eq!(evaluate_dl_pattern(&matrix), 80);
    assert_eq!(evaluate_bw(&matrix), 10);
    assert_eq!(evaluate(&matrix), 436);
}

#[test]
fn penalty_of_the_unmasked_symbol() {
    let builder = hello_before_masking();
    assert_eq!(evaluate_5_in_line(&builder.matrix), 216);
    assert_eq!(evaluate_2x2(&builder.matrix), 219);
    assert_eq!(evaluate_dl_pattern(&builder.matrix), 160);
    assert_eq!(evaluate_bw(&builder.matrix), 10);
    assert_eq!(evaluate(&builder.matrix), 605);
}

#[test]
fn chosen_mask_has_the_least_penalty() {
    let builder = hello_before_masking();
    let (best, masked) = mask(&builder.matrix);
    let best_score = evaluate(&masked);
    for m in 0..8usize {
        let candidate = apply_mask(m, &builder.matrix);
        let score = evaluate(&candidate);
        assert!(best_score <= score);
        if m < best.0 {
            assert!(best_score < score);
        }
    }
    assert_eq!(best, Mask::new(6));
    assert_eq!(masked.modules, apply_mask(6, &builder.matrix).modules);
}

#[test]
fn masks_flip_data_modules_only() {
    let builder = hello_before_masking();
    for m in 0..8usize {
        let masked = apply_mask(m, &builder.matrix);
        for y in 0..21 {
            for x in 0..21 {
                let before = *builder.matrix.get(x, y);
                let after = *masked.get(x, y);
                match before {
                    Module::Data(v) => assert_eq!(after, Module::Data(v != mask_at(m, x, y))),
                    _ => assert_eq!(after, before),
                }
            }
        }
    }
}

#[test]
fn mask_predicates() {
    assert!(mask_at(0, 1, 1) && !mask_at(0, 1, 2));
    assert!(mask_at(1, 5, 2) && !mask_at(1, 2, 5));
    assert!(mask_at(2, 3, 1) && !mask_at(2, 4, 0));
    assert!(mask_at(3, 1, 2) && !mask_at(3, 1, 1));
    assert!(mask_at(4, 0, 0) && !mask_at(4, 3, 0) && mask_at(4, 3, 2));
    assert!(mask_at(5, 0, 7) && mask_at(5, 6, 5) && !mask_at(5, 1, 1));
    assert!(mask_at(6, 1, 1) && !mask_at(6, 1, 3) && mask_at(6, 2, 3));
    assert!(mask_at(7, 3, 3) && !mask_at(7, 2, 1) && mask_at(7, 0, 0));
}

#[test]
fn penalty_parts_on_small_patterns() {
    // One colour everywhere: every line is one run of 21 modules.
    let mut m = Matrix::new(21);
    m.set_rect(0, 0, 20, 20, Module::Function(false));
    assert_eq!(evaluate_5_in_line(&m), 2 * 21 * (3 + 16));
    assert_eq!(evaluate_2x2(&m), 3 * 20 * 20);
    assert_eq!(evaluate_dl_pattern(&m), 0);
    assert_eq!(evaluate_bw(&m), 90);
    // The finder-like pattern once in row 0, followed by light modules.
    let pattern = [1, 0, 1, 1, 1, 0, 1, 0, 0, 0, 0];
    for (x, v) in pattern.iter().enumerate() {
        m.set(x, 0, Module::Function(*v == 1));
    }
    assert_eq!(evaluate_dl_pattern(&m), 40);
    // Exactly half of the modules dark.
    let mut h = Matrix::new(22);
    for y in 0..22 {
        for x in 0..22 {
            h.set(x, y, Module::Data((x + y) % 2 == 0));
        }
    }
    assert_eq!(evaluate_bw(&h), 0);
    assert_eq!(evaluate_5_in_line(&h), 0);
    assert_eq!(evaluate_2x2(&h), 0);
}
