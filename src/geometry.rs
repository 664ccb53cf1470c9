//! What fitting an image into a square bounding box yields.
use vstd::prelude::*;

verus! {

/// `(new_width, new_height)` fits a `width` by `height` image in a square of
/// side `bound`: the longer side becomes `bound`, and the shorter side is less
/// than one pixel away from its proportional length, and at least one pixel.
pub open spec fn fits_box(width: int, height: int, bound: int, new_width: int, new_height: int) -> bool {
    if width >= height {
        &&& new_width == bound
        &&& 1 <= new_height <= bound
        &&& (new_height - 1) * width < height * bound < (new_height + 1) * width
    } else {
        &&& new_height == bound
        &&& 1 <= new_width <= bound
        &&& (new_width - 1) * height < width * bound < (new_width + 1) * height
    }
}

pub open spec fn max_side(width: int, height: int) -> int {
    if width >= height { width } else { height }
}

pub open spec fn min_side(width: int, height: int) -> int {
    if width >= height { height } else { width }
}

/// The side that a `width` by `height` image gets fitted to for a target size:
/// the target, but never more than the image's longer side, so that no image is
/// enlarged.
pub open spec fn capped_bound(target: int, width: int, height: int) -> int {
    if target <= max_side(width, height) {
        target
    } else {
        max_side(width, height)
    }
}

/// A bounding-box resize to the capped bound keeps the proportions and never
/// enlarges: the longer side becomes `min(target, longer side)`, the
/// orientation is kept, the shorter side stays within one pixel of its
/// proportional length (exactly it where that is a whole number), and an image
/// no larger than the target keeps its size.
pub proof fn lemma_bounding_box(
    width: int,
    height: int,
    target: int,
    new_width: int,
    new_height: int,
)
    requires
        width > 0,
        height > 0,
        target > 0,
        fits_box(width, height, capped_bound(target, width, height), new_width, new_height),
    ensures
        max_side(new_width, new_height) == capped_bound(target, width, height),
        width >= height ==> new_width >= new_height,
        height >= width ==> new_height >= new_width,
        (min_side(new_width, new_height) - 1) * max_side(width, height) < min_side(width, height)
            * capped_bound(target, width, height) < (min_side(new_width, new_height) + 1)
            * max_side(width, height),
        (min_side(width, height) * capped_bound(target, width, height)) % max_side(width, height)
            == 0 ==> min_side(new_width, new_height) == min_side(width, height) * capped_bound(
            target,
            width,
            height,
        ) / max_side(width, height),
        target >= max_side(width, height) ==> new_width == width && new_height == height,
{
    let l = max_side(width, height);
    let s = min_side(width, height);
    let bound = capped_bound(target, width, height);
    let ns = if width >= height { new_height } else { new_width };
    if width == height {
        assert(new_width == bound);
        assert(new_height - 1 < bound < new_height + 1) by (nonlinear_arith)
            requires
                width > 0,
                (new_height - 1) * width < width * bound,
                width * bound < (new_height + 1) * width,
        ;
    }
    assert(max_side(new_width, new_height) == bound);
    assert(min_side(new_width, new_height) == ns);
    if (s * bound) % l == 0 {
        let q = s * bound / l;
        assert(s * bound == q * l) by (nonlinear_arith)
            requires
                l > 0,
                (s * bound) % l == 0,
                q == s * bound / l,
        ;
        assert(ns == q) by (nonlinear_arith)
            requires
                l > 0,
                (ns - 1) * l < q * l,
                q * l < (ns + 1) * l,
        ;
    }
    if target >= l {
        assert(bound == l);
        assert(ns == s) by (nonlinear_arith)
            requires
                l > 0,
                (ns - 1) * l < s * l,
                s * l < (ns + 1) * l,
        ;
    }
}

} // verus!
