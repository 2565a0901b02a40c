//! Upright pictures: the EXIF orientation tag of a photo says how it was
//! taken, and so which turns and flips bring it upright.
use vstd::prelude::*;

verus! {

/// One transformation of a picture.
#[derive(Clone, Copy, Debug, PartialEq, Eq, Structural)]
pub enum ImageOp {
    /// A quarter turn clockwise.
    Rotate90,
    /// A half turn.
    Rotate180,
    /// A mirror image left to right.
    FlipH,
}

/// The orientation values the EXIF standard defines.
pub open spec fn valid_orientation(v: u32) -> bool {
    1 <= v <= 8
}

/// The orientation of a picture from the raw value of its tag: a defined
/// value is kept, anything else (or no tag) counts as 0, unknown.
pub fn get_orientation(raw: Option<u32>) -> (r: u32)
    ensures
        r == match raw {
            Some(v) => if valid_orientation(v) {
                v
            } else {
                0
            },
            None => 0,
        },
{
    match raw {
        Some(v) => if 1 <= v && v <= 8 {
            v
        } else {
            0
        },
        None => 0,
    }
}

/// The steps that bring a picture of orientation `o` upright, in order:
/// for 5 to 8 a quarter turn and a flip, then for 3, 4, 7 and 8 a half
/// turn, then for an even value a flip. Orientations 1 and unknown ones need
/// nothing.
pub open spec fn upright_steps(o: u32) -> Seq<ImageOp> {
    if o <= 1 || o > 8 {
        seq![]
    } else {
        let a: Seq<ImageOp> = if o >= 5 {
            seq![ImageOp::Rotate90, ImageOp::FlipH]
        } else {
            seq![]
        };
        let b: Seq<ImageOp> = if o == 3 || o == 4 || o == 7 || o == 8 {
            seq![ImageOp::Rotate180]
        } else {
            seq![]
        };
        let c: Seq<ImageOp> = if o % 2 == 0 {
            seq![ImageOp::FlipH]
        } else {
            seq![]
        };
        a + b + c
    }
}

/// The steps that bring a picture of the given orientation upright.
pub fn correction_steps(orientation: u32) -> (r: Vec<ImageOp>)
    ensures
        r@ == upright_steps(orientation),
{
    let mut steps: Vec<ImageOp> = Vec::new();
    if orientation <= 1 || orientation > 8 {
        return steps;
    }
    if orientation >= 5 {
        steps.push(ImageOp::Rotate90);
        steps.push(ImageOp::FlipH);
    }
    if orientation == 3 || orientation == 4 || orientation == 7 || orientation == 8 {
        steps.push(ImageOp::Rotate180);
    }
    if orientation % 2 == 0 {
        steps.push(ImageOp::FlipH);
    }
    assert(steps@ =~= upright_steps(orientation));
    steps
}

} // verus!
