//! Crop rectangles, the similarity rule between them, and the choice between
//! two candidate crops.

use vstd::prelude::*;

verus! {

/// A share of the frame width, counted in hundredths of a percent.
#[derive(Clone, Copy, Debug, PartialEq, Eq, Structural)]
pub struct Percentage {
    pub hundredths: u64,
}

impl Percentage {
    /// The share `percent` %.
    pub fn from_percent(percent: u32) -> (p: Percentage)
        ensures
            p.hundredths == percent * 100,
    {
        Percentage { hundredths: percent as u64 * 100 }
    }

    /// The share `hundredths` / 100 %.
    pub fn from_hundredths(hundredths: u64) -> (p: Percentage)
        ensures
            p.hundredths == hundredths,
    {
        Percentage { hundredths }
    }
}

/// A rectangle in frame pixel coordinates. Width and height cannot be
/// negative; nothing bounds the rectangle by the frame.
#[derive(Clone, Copy, Debug, PartialEq, Eq, Structural)]
pub struct CropArea {
    pub x: i32,
    pub y: i32,
    pub width: u32,
    pub height: u32,
}

/// Whether two coordinates lie within `tolerance` of `frame_width` of each
/// other: `|a - b| <= tolerance% * frame_width`, compared without rounding.
pub open spec fn coordinate_within(a: int, b: int, frame_width: u32, tolerance: Percentage) -> bool {
    (if a >= b { a - b } else { b - a }) * 10_000 <= tolerance.hundredths * frame_width
}

fn is_coordinate_within(a: i64, b: i64, frame_width: u32, tolerance: Percentage) -> (r: bool)
    requires
        -0x8000_0000 <= a <= 0xffff_ffff,
        -0x8000_0000 <= b <= 0xffff_ffff,
    ensures
        r == coordinate_within(a as int, b as int, frame_width, tolerance),
{
    let distance: i64 = if a >= b { a - b } else { b - a };
    assert(tolerance.hundredths * frame_width <= 0xffff_ffff_ffff_ffff * 0xffff_ffff) by (nonlinear_arith)
        requires
            tolerance.hundredths <= 0xffff_ffff_ffff_ffff,
            frame_width <= 0xffff_ffff,
    ;
    let allowed: u128 = tolerance.hundredths as u128 * frame_width as u128;
    distance as u128 * 10_000 <= allowed
}

impl CropArea {
    /// The rectangle with its corner at (`x`, `y`) and the given width and
    /// height.
    pub fn new(x: i32, y: i32, width: u32, height: u32) -> (area: CropArea)
        ensures
            area == (CropArea { x, y, width, height }),
    {
        CropArea { x, y, width, height }
    }

    /// Each of x, y, width and height of `self` lies within `tolerance` of
    /// `frame_width` of the same measure of `other`.
    pub open spec fn within(self, other: CropArea, frame_width: u32, tolerance: Percentage) -> bool {
        &&& coordinate_within(self.x as int, other.x as int, frame_width, tolerance)
        &&& coordinate_within(self.y as int, other.y as int, frame_width, tolerance)
        &&& coordinate_within(self.width as int, other.width as int, frame_width, tolerance)
        &&& coordinate_within(self.height as int, other.height as int, frame_width, tolerance)
    }

    /// Whether `self` and `other` agree in all four measures within
    /// `tolerance` of `frame_width`.
    pub fn is_within_percentage(&self, other: &CropArea, frame_width: u32, tolerance: Percentage) -> (r: bool)
        ensures
            r == self.within(*other, frame_width, tolerance),
    {
        is_coordinate_within(self.x as i64, other.x as i64, frame_width, tolerance)
            && is_coordinate_within(self.y as i64, other.y as i64, frame_width, tolerance)
            && is_coordinate_within(self.width as i64, other.width as i64, frame_width, tolerance)
            && is_coordinate_within(self.height as i64, other.height as i64, frame_width, tolerance)
    }

    /// Twice the horizontal centre of the rectangle.
    pub open spec fn center_x2(self) -> int {
        2 * self.x + self.width
    }

    /// Twice the vertical centre of the rectangle.
    pub open spec fn center_y2(self) -> int {
        2 * self.y + self.height
    }
}

/// What to show of a frame.
#[derive(Clone, Copy, Debug, PartialEq, Eq, Structural)]
pub enum CropResult {
    /// One rectangle.
    Single(CropArea),
    /// Two rectangles, shown as the top and the bottom half.
    Stacked(CropArea, CropArea),
    /// The whole frame, scaled rather than cropped.
    Resize(CropArea),
}

/// Two crops are similar when they have the same layout, `Single` or
/// `Stacked`, and their rectangles match pairwise within the tolerance. A
/// `Resize` is similar to nothing.
pub open spec fn similar(a: CropResult, b: CropResult, frame_width: u32, tolerance: Percentage) -> bool {
    match (a, b) {
        (CropResult::Single(area), CropResult::Single(other)) => area.within(other, frame_width, tolerance),
        (CropResult::Stacked(top, bottom), CropResult::Stacked(other_top, other_bottom)) => {
            top.within(other_top, frame_width, tolerance) && bottom.within(other_bottom, frame_width, tolerance)
        },
        _ => false,
    }
}

/// Whether two crops are similar within `tolerance` of `frame_width`.
pub fn is_crop_similar(a: &CropResult, b: &CropResult, frame_width: u32, tolerance: Percentage) -> (r: bool)
    ensures
        r == similar(*a, *b, frame_width, tolerance),
{
    match (a, b) {
        (CropResult::Single(area), CropResult::Single(other)) => area.is_within_percentage(
            other,
            frame_width,
            tolerance,
        ),
        (CropResult::Stacked(top, bottom), CropResult::Stacked(other_top, other_bottom)) => {
            top.is_within_percentage(other_top, frame_width, tolerance) && bottom.is_within_percentage(
                other_bottom,
                frame_width,
                tolerance,
            )
        },
        _ => false,
    }
}

impl CropResult {
    /// Four times the horizontal centre of the crop; for a `Stacked` crop,
    /// of the point midway between the centres of its two rectangles.
    pub open spec fn center_x4(self) -> int {
        match self {
            CropResult::Single(a) => 2 * a.center_x2(),
            CropResult::Stacked(a, b) => a.center_x2() + b.center_x2(),
            CropResult::Resize(a) => 2 * a.center_x2(),
        }
    }

    /// Four times the vertical centre of the crop; for a `Stacked` crop, of
    /// the point midway between the centres of its two rectangles.
    pub open spec fn center_y4(self) -> int {
        match self {
            CropResult::Single(a) => 2 * a.center_y2(),
            CropResult::Stacked(a, b) => a.center_y2() + b.center_y2(),
            CropResult::Resize(a) => 2 * a.center_y2(),
        }
    }

    fn center4(&self) -> (c: (i64, i64))
        ensures
            c.0 == self.center_x4(),
            c.1 == self.center_y4(),
            -0x2_0000_0000 <= c.0 <= 0x4_0000_0000,
            -0x2_0000_0000 <= c.1 <= 0x4_0000_0000,
    {
        match self {
            CropResult::Single(a) | CropResult::Resize(a) => (
                2 * (2 * (a.x as i64) + a.width as i64),
                2 * (2 * (a.y as i64) + a.height as i64),
            ),
            CropResult::Stacked(a, b) => (
                (2 * (a.x as i64) + a.width as i64) + (2 * (b.x as i64) + b.width as i64),
                (2 * (a.y as i64) + a.height as i64) + (2 * (b.y as i64) + b.height as i64),
            ),
        }
    }
}

/// The squared distance between the centres of two crops, in units of a
/// sixteenth of a square pixel.
pub open spec fn center_distance(a: CropResult, b: CropResult) -> int {
    (a.center_x4() - b.center_x4()) * (a.center_x4() - b.center_x4()) + (a.center_y4() - b.center_y4()) * (
    a.center_y4() - b.center_y4())
}

fn squared(d: i64) -> (r: u128)
    requires
        -0x6_0000_0000 <= d <= 0x6_0000_0000,
    ensures
        r == d * d,
        r <= 0x6_0000_0000 * 0x6_0000_0000,
{
    let m: u128 = if d >= 0 { d as u128 } else { (-d) as u128 };
    assert(m * m == d * d && m * m <= 0x6_0000_0000 * 0x6_0000_0000) by (nonlinear_arith)
        requires
            m == d || m == -d,
            0 <= m <= 0x6_0000_0000,
    ;
    m * m
}

fn center_distance_of(a: &CropResult, b: &CropResult) -> (r: u128)
    ensures
        r == center_distance(*a, *b),
{
    let (ax, ay) = a.center4();
    let (bx, by) = b.center4();
    squared(ax - bx) + squared(ay - by)
}

/// Which of two candidate crops to keep: the committed crop `previous` or the
/// proposed `change`, given the crop `latest` that the detector now reports.
///
/// The layouts decide first. From `Stacked` or `Resize` to `Single` the
/// change wins; from `Single` to `Stacked` or `Resize` the previous crop
/// stays. In every other pairing the candidate whose centre lies nearer to the
/// centre of `latest` wins, and `previous` where both are equally near.
pub open spec fn closest_crop(previous: CropResult, change: CropResult, latest: CropResult) -> CropResult {
    match (previous, change) {
        (CropResult::Stacked(_, _), CropResult::Single(_)) => change,
        (CropResult::Resize(_), CropResult::Single(_)) => change,
        (CropResult::Single(_), CropResult::Stacked(_, _)) => previous,
        (CropResult::Single(_), CropResult::Resize(_)) => previous,
        _ => if center_distance(change, latest) < center_distance(previous, latest) {
            change
        } else {
            previous
        },
    }
}

/// Chooses between the committed crop and a proposed change.
pub fn select_closest_crop(previous: &CropResult, change: &CropResult, latest: &CropResult) -> (chosen: CropResult)
    ensures
        chosen == closest_crop(*previous, *change, *latest),
{
    match (previous, change) {
        (CropResult::Stacked(_, _), CropResult::Single(_)) => *change,
        (CropResult::Resize(_), CropResult::Single(_)) => *change,
        (CropResult::Single(_), CropResult::Stacked(_, _)) => *previous,
        (CropResult::Single(_), CropResult::Resize(_)) => *previous,
        _ => if center_distance_of(change, latest) < center_distance_of(previous, latest) {
            *change
        } else {
            *previous
        },
    }
}

/// The choice between two candidates is always one of the two.
pub proof fn lemma_closest_crop_is_candidate(previous: CropResult, change: CropResult, latest: CropResult)
    ensures
        closest_crop(previous, change, latest) == previous || closest_crop(previous, change, latest) == change,
        previous == change ==> closest_crop(previous, change, latest) == previous,
{
}

/// The number of objects in view falls into one of four classes, by which a
/// frame is laid out: none, one, two, or a crowd of three or more.
pub open spec fn crop_class(object_count: usize) -> int {
    if object_count >= 3 {
        3
    } else {
        object_count as int
    }
}

/// Whether two object counts fall into the same class, so that going from one
/// to the other leaves the count roughly unchanged.
pub fn is_crop_class_same(object_count: usize, other_count: usize) -> (same: bool)
    ensures
        same == (crop_class(object_count) == crop_class(other_count)),
{
    let a: usize = if object_count >= 3 { 3 } else { object_count };
    let b: usize = if other_count >= 3 { 3 } else { other_count };
    a == b
}

/// Similarity does not depend on the order of the two crops.
pub proof fn lemma_similar_symmetric(a: CropResult, b: CropResult, frame_width: u32, tolerance: Percentage)
    ensures
        similar(a, b, frame_width, tolerance) == similar(b, a, frame_width, tolerance),
{
}

/// Crops of different layouts are never similar, and a `Resize` is similar to
/// no crop at all.
pub proof fn lemma_layouts_never_similar(a: CropResult, b: CropResult, frame_width: u32, tolerance: Percentage)
    ensures
        a is Single && b is Stacked ==> !similar(a, b, frame_width, tolerance),
        a is Stacked && b is Single ==> !similar(a, b, frame_width, tolerance),
        a is Resize || b is Resize ==> !similar(a, b, frame_width, tolerance),
{
}

/// A crop of one or two rectangles is similar to itself under any tolerance.
pub proof fn lemma_similar_reflexive(a: CropResult, frame_width: u32, tolerance: Percentage)
    ensures
        similar(a, a, frame_width, tolerance) == !(a is Resize),
{
    assert(0 <= tolerance.hundredths * frame_width) by (nonlinear_arith);
}

} // verus!
