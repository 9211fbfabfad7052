//! Sizes of laid out components and how a row or column of two components
//! shares the room it is given.
use vstd::prelude::*;
use crate::display::{Point, Rectangle, Size};

verus! {

/// A length a component would like, and the least and most it takes.
#[derive(Debug, Clone, Copy, PartialEq, Eq, Structural, Default)]
pub struct ValueRange {
    pub preferred_value: u32,
    pub min_value: u32,
    pub max_value: u32,
}

impl ValueRange {
    /// The range of a length that is exactly `value`.
    pub open spec fn fixed_spec(value: u32) -> ValueRange {
        ValueRange { preferred_value: value, min_value: value, max_value: value }
    }

    /// A length that is exactly `value`.
    pub fn fixed(value: u32) -> (r: Self)
        ensures
            r == (ValueRange { preferred_value: value, min_value: value, max_value: value }),
    {
        ValueRange { preferred_value: value, min_value: value, max_value: value }
    }

    /// Widens to hold `rhs` as well: each bound becomes the larger of the two.
    pub fn expand(&mut self, rhs: &Self)
        ensures
            final(self).preferred_value == (if old(self).preferred_value < rhs.preferred_value {
                rhs.preferred_value
            } else {
                old(self).preferred_value
            }),
            final(self).min_value == (if old(self).min_value < rhs.min_value {
                rhs.min_value
            } else {
                old(self).min_value
            }),
            final(self).max_value == (if old(self).max_value < rhs.max_value {
                rhs.max_value
            } else {
                old(self).max_value
            }),
    {
        if self.preferred_value < rhs.preferred_value {
            self.preferred_value = rhs.preferred_value;
        }
        if self.min_value < rhs.min_value {
            self.min_value = rhs.min_value;
        }
        if self.max_value < rhs.max_value {
            self.max_value = rhs.max_value;
        }
    }

    /// Adds `rhs` bound by bound (two components one after the other).
    pub fn add_assign(&mut self, rhs: Self)
        requires
            old(self).preferred_value + rhs.preferred_value <= u32::MAX,
            old(self).min_value + rhs.min_value <= u32::MAX,
            old(self).max_value + rhs.max_value <= u32::MAX,
        ensures
            final(self).preferred_value == old(self).preferred_value + rhs.preferred_value,
            final(self).min_value == old(self).min_value + rhs.min_value,
            final(self).max_value == old(self).max_value + rhs.max_value,
    {
        self.preferred_value = self.preferred_value + rhs.preferred_value;
        self.min_value = self.min_value + rhs.min_value;
        self.max_value = self.max_value + rhs.max_value;
    }

    /// The range of a component that takes all room it gets: at least its
    /// old maximum, at most anything.
    pub fn expand_max(&self) -> (r: Self)
        ensures
            r == (ValueRange {
                preferred_value: self.preferred_value,
                min_value: self.max_value,
                max_value: u32::MAX,
            }),
    {
        ValueRange {
            preferred_value: self.preferred_value,
            min_value: self.max_value,
            max_value: u32::MAX,
        }
    }
}

/// The width and height ranges of a component.
#[derive(Debug, Clone, Copy, PartialEq, Eq, Structural, Default)]
pub struct ComponentSize {
    pub width: ValueRange,
    pub height: ValueRange,
}

impl ComponentSize {
    /// A component of exactly `width` by `height`.
    pub fn fixed_size(width: u32, height: u32) -> (r: ComponentSize)
        ensures
            r.width == (ValueRange { preferred_value: width, min_value: width, max_value: width }),
            r.height == (ValueRange { preferred_value: height, min_value: height, max_value: height }),
    {
        ComponentSize { width: ValueRange::fixed(width), height: ValueRange::fixed(height) }
    }

    /// A component with preferred sizes and ranges `start..end` of width and height.
    pub fn new(
        preferred_width: u32,
        preferred_height: u32,
        width_range: std::ops::Range<u32>,
        height_range: std::ops::Range<u32>,
    ) -> (r: Self)
        ensures
            r.width == (ValueRange {
                preferred_value: preferred_width,
                min_value: width_range.start,
                max_value: width_range.end,
            }),
            r.height == (ValueRange {
                preferred_value: preferred_height,
                min_value: height_range.start,
                max_value: height_range.end,
            }),
    {
        ComponentSize {
            width: ValueRange {
                preferred_value: preferred_width,
                min_value: width_range.start,
                max_value: width_range.end,
            },
            height: ValueRange {
                preferred_value: preferred_height,
                min_value: height_range.start,
                max_value: height_range.end,
            },
        }
    }

    /// This component with both ranges opened upwards.
    pub fn expanded(&self) -> (r: Self)
        ensures
            r.width == (ValueRange {
                preferred_value: self.width.preferred_value,
                min_value: self.width.max_value,
                max_value: u32::MAX,
            }),
            r.height == (ValueRange {
                preferred_value: self.height.preferred_value,
                min_value: self.height.max_value,
                max_value: u32::MAX,
            }),
    {
        ComponentSize { width: self.width.expand_max(), height: self.height.expand_max() }
    }
}

/// The direction components are lined up in: lengths "along" it and "across" it.
pub trait Orientation {
    /// Whether components stand one above the other.
    spec fn vertical() -> bool;

    fn split_component_size(size: &ComponentSize) -> (r: (ValueRange, ValueRange))
        ensures
            r == (if Self::vertical() {
                (size.height, size.width)
            } else {
                (size.width, size.height)
            }),
    ;

    fn split_size(size: Size) -> (r: (u32, u32))
        ensures
            r == (if Self::vertical() {
                (size.height, size.width)
            } else {
                (size.width, size.height)
            }),
    ;

    fn split_point(p: Point) -> (r: (i32, i32))
        ensures
            r == (if Self::vertical() {
                (p.y, p.x)
            } else {
                (p.x, p.y)
            }),
    ;

    fn create_component_size(along: ValueRange, cross: ValueRange) -> (r: ComponentSize)
        ensures
            r == (if Self::vertical() {
                ComponentSize { width: cross, height: along }
            } else {
                ComponentSize { width: along, height: cross }
            }),
    ;

    fn create_size(along: u32, across: u32) -> (r: Size)
        ensures
            r == (if Self::vertical() {
                Size { width: across, height: along }
            } else {
                Size { width: along, height: across }
            }),
    ;

    fn create_point(along: i32, cross: i32) -> (r: Point)
        ensures
            r == (if Self::vertical() {
                Point { x: cross, y: along }
            } else {
                Point { x: along, y: cross }
            }),
    ;
}

/// Components side by side.
pub struct Horizontal {}

/// Components one above the other.
pub struct Vertical {}

impl Orientation for Horizontal {
    open spec fn vertical() -> bool {
        false
    }

    fn split_component_size(size: &ComponentSize) -> (r: (ValueRange, ValueRange)) {
        (size.width, size.height)
    }

    fn split_size(size: Size) -> (r: (u32, u32)) {
        (size.width, size.height)
    }

    fn split_point(p: Point) -> (r: (i32, i32)) {
        (p.x, p.y)
    }

    fn create_component_size(along: ValueRange, cross: ValueRange) -> (r: ComponentSize) {
        ComponentSize { width: along, height: cross }
    }

    fn create_size(along: u32, across: u32) -> (r: Size) {
        Size { width: along, height: across }
    }

    fn create_point(along: i32, cross: i32) -> (r: Point) {
        Point { x: along, y: cross }
    }
}

impl Orientation for Vertical {
    open spec fn vertical() -> bool {
        true
    }

    fn split_component_size(size: &ComponentSize) -> (r: (ValueRange, ValueRange)) {
        (size.height, size.width)
    }

    fn split_size(size: Size) -> (r: (u32, u32)) {
        (size.height, size.width)
    }

    fn split_point(p: Point) -> (r: (i32, i32)) {
        (p.y, p.x)
    }

    fn create_component_size(along: ValueRange, cross: ValueRange) -> (r: ComponentSize) {
        ComponentSize { width: cross, height: along }
    }

    fn create_size(along: u32, across: u32) -> (r: Size) {
        Size { width: across, height: along }
    }

    fn create_point(along: i32, cross: i32) -> (r: Point) {
        Point { x: cross, y: along }
    }
}

/// The size of two components lined up: their lengths along add up, the
/// length across is the larger one.
pub fn pair_size<O: Orientation>(first: &ComponentSize, second: &ComponentSize) -> (r: ComponentSize)
    requires
        first.width.preferred_value + second.width.preferred_value <= u32::MAX,
        first.width.min_value + second.width.min_value <= u32::MAX,
        first.width.max_value + second.width.max_value <= u32::MAX,
        first.height.preferred_value + second.height.preferred_value <= u32::MAX,
        first.height.min_value + second.height.min_value <= u32::MAX,
        first.height.max_value + second.height.max_value <= u32::MAX,
    ensures
        ({
            let (a1, c1) = if O::vertical() {
                (first.height, first.width)
            } else {
                (first.width, first.height)
            };
            let (a2, c2) = if O::vertical() {
                (second.height, second.width)
            } else {
                (second.width, second.height)
            };
            let (along, cross) = if O::vertical() {
                (r.height, r.width)
            } else {
                (r.width, r.height)
            };
            &&& along.preferred_value == a1.preferred_value + a2.preferred_value
            &&& along.min_value == a1.min_value + a2.min_value
            &&& along.max_value == a1.max_value + a2.max_value
            &&& cross.preferred_value == (if c1.preferred_value < c2.preferred_value {
                c2.preferred_value
            } else {
                c1.preferred_value
            })
            &&& cross.min_value == (if c1.min_value < c2.min_value {
                c2.min_value
            } else {
                c1.min_value
            })
            &&& cross.max_value == (if c1.max_value < c2.max_value {
                c2.max_value
            } else {
                c1.max_value
            })
        }),
{
    let mut total_along = ValueRange { preferred_value: 0, min_value: 0, max_value: 0 };
    let mut total_cross = ValueRange { preferred_value: 0, min_value: 0, max_value: 0 };
    let (along, cross) = O::split_component_size(first);
    total_along.add_assign(along);
    total_cross.expand(&cross);
    let (along, cross) = O::split_component_size(second);
    total_along.add_assign(along);
    total_cross.expand(&cross);
    O::create_component_size(total_along, total_cross)
}

/// The widest of the first `n` lines (zero for none).
pub open spec fn widest_line(lines: Seq<(u32, u32)>, n: int) -> int
    decreases n,
{
    if n <= 0 {
        0
    } else {
        let w = widest_line(lines, n - 1);
        if lines[n - 1].0 > w {
            lines[n - 1].0 as int
        } else {
            w
        }
    }
}

/// The heights of the first `n` lines added up.
pub open spec fn lines_height(lines: Seq<(u32, u32)>, n: int) -> int
    decreases n,
{
    if n <= 0 {
        0
    } else {
        lines_height(lines, n - 1) + lines[n - 1].1
    }
}

proof fn lemma_lines_height_monotone(lines: Seq<(u32, u32)>, m: int, n: int)
    requires
        0 <= m <= n <= lines.len(),
    ensures
        0 <= lines_height(lines, m) <= lines_height(lines, n),
    decreases n - m,
{
    if m < n {
        lemma_lines_height_monotone(lines, m, n - 1);
    } else {
        lemma_lines_height_nonneg(lines, m);
    }
}

proof fn lemma_lines_height_nonneg(lines: Seq<(u32, u32)>, n: int)
    ensures
        0 <= lines_height(lines, n),
    decreases n,
{
    if n > 0 {
        lemma_lines_height_nonneg(lines, n - 1);
    }
}

/// The size of a text of several lines, from the width and height each
/// line measures: as wide as its widest line, as high as its lines together.
pub fn text_block_size(lines: &Vec<(u32, u32)>) -> (r: ComponentSize)
    requires
        lines_height(lines@, lines@.len() as int) <= u32::MAX,
    ensures
        r.width == ValueRange::fixed_spec(widest_line(lines@, lines@.len() as int) as u32),
        r.height == ValueRange::fixed_spec(lines_height(lines@, lines@.len() as int) as u32),
{
    let mut width: u32 = 0;
    let mut height: u32 = 0;
    let mut i: usize = 0;
    while i < lines.len()
        invariant
            i <= lines@.len(),
            width == widest_line(lines@, i as int),
            height == lines_height(lines@, i as int),
            lines_height(lines@, lines@.len() as int) <= u32::MAX,
        decreases lines@.len() - i,
    {
        proof {
            lemma_lines_height_monotone(lines@, (i + 1) as int, lines@.len() as int);
        }
        let (w, h) = lines[i];
        if w > width {
            width = w;
        }
        height = height + h;
        i = i + 1;
    }
    ComponentSize::fixed_size(width, height)
}

/// The lengths two components get when `target` is shared among them (see
/// `distribute`): every one gets at least what it prefers and at most its
/// maximum (or what it prefers, where that is more), and together no more
/// than the room there is.
pub open spec fn fair_share(target: u32, sizes: [ValueRange; 2], r: [u32; 2]) -> bool {
    &&& forall|i: int|
        0 <= i < 2 ==> sizes@[i].preferred_value <= #[trigger] r@[i] && (r@[i]
            <= sizes@[i].max_value || r@[i] == sizes@[i].preferred_value)
    &&& r@[0] + r@[1] <= target
}

/// The lesser of two lengths.
pub open spec fn min_int(a: int, b: int) -> int {
    if a < b {
        a
    } else {
        b
    }
}

/// One round of handing out the rest `budget` between two components that
/// have lengths `r0`, `r1`, weights `w0`, `w1` and maxima `m0`, `m1`: each
/// one with a weight and room left takes its weight's share of what is left
/// (the first one first, capped at its room); gives the new rest and lengths.
pub open spec fn share_round(budget: int, r0: int, r1: int, w0: int, w1: int, m0: int, m1: int) -> (
    int,
    int,
    int,
) {
    let h0 = w0 > 0 && r0 < m0;
    let h1 = w1 > 0 && r1 < m1;
    let weights = (if h0 {
        w0
    } else {
        0
    }) + (if h1 {
        w1
    } else {
        0
    });
    if weights == 0 {
        (budget, r0, r1)
    } else {
        let t0 = if h0 {
            budget * w0 / weights
        } else {
            0
        };
        let n0 = if h0 {
            r0 + min_int(t0, m0 - r0)
        } else {
            r0
        };
        let budget1 = budget - t0;
        let weights1 = weights - (if h0 {
            w0
        } else {
            0
        });
        let t1 = if h1 {
            budget1 * w1 / weights1
        } else {
            0
        };
        let n1 = if h1 {
            r1 + min_int(t1, m1 - r1)
        } else {
            r1
        };
        (budget1 - t1, n0, n1)
    }
}

/// The lengths after handing out the rest in rounds until nothing is left or
/// a round hands out nothing.
pub open spec fn share_rounds(budget: int, r0: int, r1: int, w0: int, w1: int, m0: int, m1: int) -> (
    int,
    int,
)
    decreases budget,
{
    if budget <= 0 {
        (r0, r1)
    } else {
        let (b, n0, n1) = share_round(budget, r0, r1, w0, w1, m0, m1);
        if b == budget || b < 0 || b > budget {
            (n0, n1)
        } else {
            share_rounds(b, n0, n1, w0, w1, m0, m1)
        }
    }
}

/// Shares `along_target` among two components by their weights. Each gets
/// what it prefers; if there is more room and their maxima together exceed
/// it, the rest is handed out in rounds, each component with room left
/// getting its weight's share of what is left (capped at its maximum), until
/// nothing is left or nothing changes; if the maxima fit, each gets its maximum.
pub fn distribute(along_target: u32, sizes: [ValueRange; 2], weights: [u32; 2]) -> (r: [u32; 2])
    requires
        sizes@[0].preferred_value + sizes@[1].preferred_value <= along_target,
        sizes@[0].preferred_value + sizes@[1].preferred_value < along_target && sizes@[0].max_value
            + sizes@[1].max_value > along_target ==> {
            let rest = along_target - sizes@[0].preferred_value - sizes@[1].preferred_value;
            &&& rest * weights@[0] <= u32::MAX
            &&& rest * weights@[1] <= u32::MAX
            &&& weights@[0] + weights@[1] <= u32::MAX
        },
    ensures
        sizes@[0].preferred_value + sizes@[1].preferred_value == along_target ==> r@ == seq![
            sizes@[0].preferred_value,
            sizes@[1].preferred_value,
        ],
        sizes@[0].preferred_value + sizes@[1].preferred_value < along_target && sizes@[0].max_value
            + sizes@[1].max_value <= along_target ==> r@ == seq![
            sizes@[0].max_value,
            sizes@[1].max_value,
        ],
        sizes@[0].preferred_value + sizes@[1].preferred_value < along_target && sizes@[0].max_value
            + sizes@[1].max_value > along_target ==> fair_share(along_target, sizes, r),
        sizes@[0].preferred_value + sizes@[1].preferred_value < along_target && sizes@[0].max_value
            + sizes@[1].max_value > along_target ==> (r@[0] as int, r@[1] as int) == share_rounds(
            along_target - sizes@[0].preferred_value - sizes@[1].preferred_value,
            sizes@[0].preferred_value as int,
            sizes@[1].preferred_value as int,
            weights@[0] as int,
            weights@[1] as int,
            sizes@[0].max_value as int,
            sizes@[1].max_value as int,
        ),
{
    let total_preferred = sizes[0].preferred_value + sizes[1].preferred_value;
    if along_target == total_preferred {
        let r = [sizes[0].preferred_value, sizes[1].preferred_value];
        assert(r@ =~= seq![sizes@[0].preferred_value, sizes@[1].preferred_value]);
        return r;
    }
    let total_max: u64 = sizes[0].max_value as u64 + sizes[1].max_value as u64;
    if total_max <= along_target as u64 {
        let r = [sizes[0].max_value, sizes[1].max_value];
        assert(r@ =~= seq![sizes@[0].max_value, sizes@[1].max_value]);
        return r;
    }
    let mut remaining_budget: u32 = along_target - total_preferred;
    let budget0: u32 = remaining_budget;
    let mut r0: u32 = sizes[0].preferred_value;
    let mut r1: u32 = sizes[1].preferred_value;
    let w0 = weights[0];
    let w1 = weights[1];
    let max0 = sizes[0].max_value;
    let max1 = sizes[1].max_value;
    let pref0 = sizes[0].preferred_value;
    let pref1 = sizes[1].preferred_value;
    let ghost goal = share_rounds(
        remaining_budget as int,
        pref0 as int,
        pref1 as int,
        w0 as int,
        w1 as int,
        max0 as int,
        max1 as int,
    );
    while remaining_budget > 0
        invariant
            share_rounds(
                remaining_budget as int,
                r0 as int,
                r1 as int,
                w0 as int,
                w1 as int,
                max0 as int,
                max1 as int,
            ) == goal,
            pref0 <= r0,
            pref1 <= r1,
            r0 <= max0 || r0 == pref0,
            r1 <= max1 || r1 == pref1,
            r0 + r1 + remaining_budget <= along_target,
            remaining_budget <= budget0,
            budget0 as int * w0 <= u32::MAX,
            budget0 as int * w1 <= u32::MAX,
            w0 + w1 <= u32::MAX,
        ensures
            (r0 as int, r1 as int) == goal,
        decreases remaining_budget,
    {
        let before = remaining_budget;
        let ghost start0 = r0 as int;
        let ghost start1 = r1 as int;
        let h0 = w0 > 0 && r0 < max0;
        let h1 = w1 > 0 && r1 < max1;
        let mut remaining_weights: u32 = (if h0 {
            w0
        } else {
            0
        }) + (if h1 {
            w1
        } else {
            0
        });
        if remaining_weights == 0 {
            assert(share_round(before as int, r0 as int, r1 as int, w0 as int, w1 as int, max0 as int, max1 as int)
                == (before as int, r0 as int, r1 as int));
            break;
        }
        if h0 {
            proof {
                assert(remaining_budget as int * w0 <= budget0 as int * w0) by (nonlinear_arith)
                    requires
                        remaining_budget <= budget0,
                ;
                assert(remaining_budget as int * w0 / remaining_weights as int <= remaining_budget)
                    by (nonlinear_arith)
                    requires
                        w0 <= remaining_weights,
                        remaining_weights > 0,
                ;
            }
            let theoretical = remaining_budget * w0 / remaining_weights;
            let room = max0 - r0;
            let selected = if theoretical < room {
                theoretical
            } else {
                room
            };
            r0 = r0 + selected;
            remaining_budget = remaining_budget - theoretical;
            remaining_weights = remaining_weights - w0;
        }
        if h1 {
            proof {
                assert(remaining_budget as int * w1 <= budget0 as int * w1) by (nonlinear_arith)
                    requires
                        remaining_budget <= budget0,
                ;
                assert(remaining_budget as int * w1 / remaining_weights as int <= remaining_budget)
                    by (nonlinear_arith)
                    requires
                        w1 <= remaining_weights,
                        remaining_weights > 0,
                ;
            }
            let theoretical = remaining_budget * w1 / remaining_weights;
            let room = max1 - r1;
            let selected = if theoretical < room {
                theoretical
            } else {
                room
            };
            r1 = r1 + selected;
            remaining_budget = remaining_budget - theoretical;
            remaining_weights = remaining_weights - w1;
        }
        assert(share_round(before as int, start0, start1, w0 as int, w1 as int, max0 as int, max1 as int)
            == (remaining_budget as int, r0 as int, r1 as int));
        if before == remaining_budget {
            assert(r0 == start0 && r1 == start1);
            break;
        }
    }
    [r0, r1]
}

/// Where two components of the given lengths go in `position`: one after the
/// other along, each over the full length across.
pub fn place<O: Orientation>(position: Rectangle, lengths: [u32; 2]) -> (r: [Rectangle; 2])
    requires
        lengths@[0] <= i32::MAX,
        ({
            let start = if O::vertical() {
                position.top_left.y
            } else {
                position.top_left.x
            };
            i32::MIN <= start + lengths@[0] <= i32::MAX
        }),
    ensures
        ({
            let (along, cross) = if O::vertical() {
                (position.top_left.y as int, position.top_left.x as int)
            } else {
                (position.top_left.x as int, position.top_left.y as int)
            };
            let across = if O::vertical() {
                position.size.width
            } else {
                position.size.height
            };
            let starts = seq![along, along + lengths@[0]];
            forall|i: int|
                0 <= i < 2 ==> {
                    let p = (#[trigger] r@[i]).top_left;
                    let s = r@[i].size;
                    &&& (if O::vertical() {
                        p.y == starts[i] && p.x == cross
                    } else {
                        p.x == starts[i] && p.y == cross
                    })
                    &&& (if O::vertical() {
                        s.height == lengths@[i] && s.width == across
                    } else {
                        s.width == lengths@[i] && s.height == across
                    })
                }
        }),
{
    let (_along_target, cross_target) = O::split_size(position.size);
    let (along_offset, cross_offset) = O::split_point(position.top_left);
    let first = Rectangle {
        top_left: O::create_point(along_offset, cross_offset),
        size: O::create_size(lengths[0], cross_target),
    };
    let second_offset = along_offset + lengths[0] as i32;
    let second = Rectangle {
        top_left: O::create_point(second_offset, cross_offset),
        size: O::create_size(lengths[1], cross_target),
    };
    [first, second]
}

} // verus!
