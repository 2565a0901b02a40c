use recipes::orientation::{correction_steps, get_orientation, ImageOp};

#[test]
fn orientation_values_outside_the_standard_are_unknown() {
    assert_eq!(get_orientation(Some(6)), 6);
    assert_eq!(get_orientation(Some(1)), 1);
    assert_eq!(get_orientation(Some(9)), 0);
    assert_eq!(get_orientation(Some(0)), 0);
    assert_eq!(get_orientation(None), 0);
}

#[test]
fn correction_steps_per_orientation() {
    assert!(correction_steps(0).is_empty());
    assert!(correction_steps(1).is_empty());
    assert_eq!(correction_steps(2), vec![ImageOp::FlipH]);
    assert_eq!(correction_steps(3), vec![ImageOp::Rotate180]);
    assert_eq!(correction_steps(4), vec![ImageOp::Rotate180, ImageOp::FlipH]);
    assert_eq!(correction_steps(5), vec![ImageOp::Rotate90, ImageOp::FlipH]);
    assert_eq!(correction_steps(6), vec![ImageOp::Rotate90, ImageOp::FlipH, ImageOp::FlipH]);
    assert_eq!(correction_steps(7), vec![ImageOp::Rotate90, ImageOp::FlipH, ImageOp::Rotate180]);
    assert_eq!(
        correction_steps(8),
        vec![ImageOp::Rotate90, ImageOp::FlipH, ImageOp::Rotate180, ImageOp::FlipH]
    );
    assert!(correction_steps(9).is_empty());
}
