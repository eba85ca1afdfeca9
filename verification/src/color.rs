//! Colours and the gradient that is laid over the glyph grid.

use vstd::prelude::*;
use vstd::math::abs;

verus! {

/// One colour, as three channel intensities.
#[derive(Clone, Copy, Debug, PartialEq, Eq, Structural)]
pub struct Color {
    pub r: u8,
    pub g: u8,
    pub b: u8,
}

/// The intensity `value` on a scale of 0 to 1000: the integer nearest to
/// `1000 * value / 255`.
pub open spec fn scaled_intensity(value: int) -> int {
    (2000 * value + 255) / 510
}

/// Rescales a channel from 0..=255 to 0..=1000, rounding to the nearest integer.
pub fn scale_color(value: u8) -> (scaled: i16)
    ensures
        scaled == scaled_intensity(value as int),
        0 <= scaled <= 1000,
        -255 <= 2000 * value - 510 * scaled < 255,
{
    let doubled: u32 = 2000 * (value as u32) + 255;
    (doubled / 510) as i16
}

/// The value of a direction component that stands for 1.
pub const DIRECTION_SCALE: i32 = 1_000_000;

/// The direction in which the gradient runs: the cosine (`x`) and the sine
/// (`y`) of its angle, each in millionths.
#[derive(Clone, Copy, Debug, PartialEq, Eq, Structural)]
pub struct Direction {
    pub x: i32,
    pub y: i32,
}

impl Direction {
    /// Neither component exceeds 1 in magnitude.
    pub open spec fn wf(&self) -> bool {
        &&& -DIRECTION_SCALE <= self.x <= DIRECTION_SCALE
        &&& -DIRECTION_SCALE <= self.y <= DIRECTION_SCALE
    }

    /// The direction with the given components, if both lie within -1..=1.
    pub fn new(x: i32, y: i32) -> (direction: Option<Direction>)
        ensures
            direction is Some <==> (Direction { x, y }).wf(),
            direction is Some ==> direction == Some(Direction { x, y }),
    {
        if -DIRECTION_SCALE <= x && x <= DIRECTION_SCALE && -DIRECTION_SCALE <= y && y
            <= DIRECTION_SCALE {
            Some(Direction { x, y })
        } else {
            None
        }
    }
}

/// The extent that stands for `n` cells in the geometry of the gradient: `n`
/// itself, or the largest extent where `n` is beyond it.
pub open spec fn canvas_extent_of(n: int) -> int {
    if n > u32::MAX {
        u32::MAX as int
    } else {
        n
    }
}

/// The extent that stands for `n` cells in the geometry of the gradient.
pub fn canvas_extent(n: usize) -> (extent: u32)
    ensures
        extent == canvas_extent_of(n as int),
{
    if n > u32::MAX as usize {
        u32::MAX
    } else {
        n as u32
    }
}

/// Twice the projection of the offset of cell (`x`, `y`) from the canvas
/// centre onto `d`, in millionths.
pub open spec fn projection(x: int, y: int, width: int, height: int, d: Direction) -> int {
    (2 * x - width) * d.x + (2 * y - height) * d.y
}

/// Twice the projection of the half-extent box of the canvas onto `d`, in
/// millionths; where that is 0, twice the value that stands for 1.
pub open spec fn half_extent(width: int, height: int, d: Direction) -> int {
    let e = width * abs(d.x as int) + height * abs(d.y as int);
    if e == 0 {
        2 * DIRECTION_SCALE
    } else {
        e
    }
}

/// Where cell (`x`, `y`) lies along the gradient, as a fraction
/// (numerator, denominator) in 0..1: the projection divided by the half
/// extent, moved from -1..=1 to 0..=1 and kept at or below 0.999999.
pub open spec fn gradient_position(x: int, y: int, width: int, height: int, d: Direction) -> (
    int,
    int,
) {
    let e = half_extent(width, height, d);
    let num = projection(x, y, width, height, d) + e;
    let den = 2 * e;
    if num <= 0 {
        (0, den)
    } else if num * 1_000_000 > 999_999 * den {
        (999_999, 1_000_000)
    } else {
        (num, den)
    }
}

/// The value at `weight / span` of the way from `a` to `b`, rounded down.
pub open spec fn lerp_value(a: int, b: int, weight: int, span: int) -> int {
    (a * (span - weight) + b * weight) / span
}

/// Channel by channel, the colour at `weight / span` of the way from `a` to `b`.
pub open spec fn lerp_color_value(a: Color, b: Color, weight: int, span: int) -> Color {
    Color {
        r: lerp_value(a.r as int, b.r as int, weight, span) as u8,
        g: lerp_value(a.g as int, b.g as int, weight, span) as u8,
        b: lerp_value(a.b as int, b.b as int, weight, span) as u8,
    }
}

/// The colour of cell (`x`, `y`) on a canvas of `width` by `height` cells
/// under the stops `stops` laid out along `d`.
pub open spec fn gradient_color(
    x: int,
    y: int,
    width: int,
    height: int,
    d: Direction,
    stops: Seq<Color>,
) -> Color {
    if stops.len() < 2 {
        stops[0]
    } else {
        let (num, den) = gradient_position(x, y, width, height, d);
        let scaled = num * (stops.len() - 1);
        lerp_color_value(stops[scaled / den], stops[scaled / den + 1], scaled % den, den)
    }
}

/// What is blended from `a` and `b` lies between them, and is `a` or `b`
/// itself at either end.
pub proof fn lemma_lerp_value_bounds(a: int, b: int, weight: int, span: int)
    requires
        0 <= a <= 255,
        0 <= b <= 255,
        0 <= weight <= span,
        0 < span,
    ensures
        0 <= lerp_value(a, b, weight, span) <= 255,
        a <= b ==> a <= lerp_value(a, b, weight, span) <= b,
        b <= a ==> b <= lerp_value(a, b, weight, span) <= a,
        a == b ==> lerp_value(a, b, weight, span) == a,
        weight == 0 ==> lerp_value(a, b, weight, span) == a,
        weight == span ==> lerp_value(a, b, weight, span) == b,
{
    let total = a * (span - weight) + b * weight;
    assert(0 <= total <= 255 * span) by (nonlinear_arith)
        requires
            total == a * (span - weight) + b * weight,
            0 <= a <= 255,
            0 <= b <= 255,
            0 <= weight <= span,
    ;
    assert(0 <= total / span <= 255) by (nonlinear_arith)
        requires
            0 <= total <= 255 * span,
            0 < span,
    ;
    if a <= b {
        assert(a * span <= total <= b * span) by (nonlinear_arith)
            requires
                total == a * (span - weight) + b * weight,
                a <= b,
                0 <= weight <= span,
        ;
        assert(a <= total / span <= b) by (nonlinear_arith)
            requires
                a * span <= total <= b * span,
                0 < span,
        ;
    }
    if b <= a {
        assert(b * span <= total <= a * span) by (nonlinear_arith)
            requires
                total == a * (span - weight) + b * weight,
                b <= a,
                0 <= weight <= span,
        ;
        assert(b <= total / span <= a) by (nonlinear_arith)
            requires
                b * span <= total <= a * span,
                0 < span,
        ;
    }
    if a == b {
        assert(total == a * span) by (nonlinear_arith)
            requires
                total == a * (span - weight) + b * weight,
                a == b,
        ;
        assert((a * span) / span == a) by (nonlinear_arith)
            requires
                0 < span,
        ;
    }
    if weight == 0 {
        assert(total == a * span) by (nonlinear_arith)
            requires
                total == a * (span - weight) + b * weight,
                weight == 0,
        ;
        assert((a * span) / span == a) by (nonlinear_arith)
            requires
                0 < span,
        ;
    }
    if weight == span {
        assert(total == b * span) by (nonlinear_arith)
            requires
                total == a * (span - weight) + b * weight,
                weight == span,
        ;
        assert((b * span) / span == b) by (nonlinear_arith)
            requires
                0 < span,
        ;
    }
}

/// The value at `weight / span` of the way from `a` to `b`, rounded down.
pub fn lerp(a: u8, b: u8, weight: u64, span: u64) -> (value: u8)
    requires
        0 < span,
        weight <= span,
    ensures
        value == lerp_value(a as int, b as int, weight as int, span as int),
{
    proof {
        lemma_lerp_value_bounds(a as int, b as int, weight as int, span as int);
    }
    let rest: u128 = (span - weight) as u128;
    assert(a * rest <= 255 * rest <= 255 * 0xffff_ffff_ffff_ffff) by (nonlinear_arith)
        requires
            0 <= a <= 255,
            0 <= rest <= 0xffff_ffff_ffff_ffff,
    ;
    assert(b * weight <= 255 * weight <= 255 * 0xffff_ffff_ffff_ffff) by (nonlinear_arith)
        requires
            0 <= b <= 255,
            0 <= weight <= 0xffff_ffff_ffff_ffff,
    ;
    let total: u128 = (a as u128) * rest + (b as u128) * (weight as u128);
    (total / (span as u128)) as u8
}

/// Channel by channel, the colour at `weight / span` of the way from `a` to `b`.
pub fn lerp_color(a: Color, b: Color, weight: u64, span: u64) -> (color: Color)
    requires
        0 < span,
        weight <= span,
    ensures
        color == lerp_color_value(a, b, weight as int, span as int),
{
    Color {
        r: lerp(a.r, b.r, weight, span),
        g: lerp(a.g, b.g, weight, span),
        b: lerp(a.b, b.b, weight, span),
    }
}

/// The position along the gradient is a proper fraction, strictly below 1.
pub proof fn lemma_gradient_position_bounds(x: int, y: int, width: int, height: int, d: Direction)
    requires
        0 <= width,
        0 <= height,
    ensures
        0 <= gradient_position(x, y, width, height, d).0 < gradient_position(
            x,
            y,
            width,
            height,
            d,
        ).1,
{
    let ax = abs(d.x as int);
    let ay = abs(d.y as int);
    assert(0 <= width * ax && 0 <= height * ay) by (nonlinear_arith)
        requires
            0 <= width,
            0 <= height,
            0 <= ax,
            0 <= ay,
    ;
}

/// The segment that a position falls into has a stop at either end.
pub proof fn lemma_segment_in_range(num: int, den: int, stops: int)
    requires
        0 <= num < den,
        2 <= stops,
    ensures
        0 <= (num * (stops - 1)) / den < stops - 1,
        0 <= (num * (stops - 1)) % den < den,
{
    let scaled = num * (stops - 1);
    assert(0 <= scaled < den * (stops - 1)) by (nonlinear_arith)
        requires
            scaled == num * (stops - 1),
            0 <= num < den,
            2 <= stops,
    ;
    assert(0 <= scaled / den < stops - 1) by (nonlinear_arith)
        requires
            0 <= scaled < den * (stops - 1),
            0 < den,
    ;
}

/// With a single stop the gradient is that colour everywhere, whatever the
/// canvas and the direction.
pub proof fn lemma_single_stop_is_constant(
    x: int,
    y: int,
    width: int,
    height: int,
    d: Direction,
    stops: Seq<Color>,
)
    requires
        stops.len() == 1,
    ensures
        gradient_color(x, y, width, height, d, stops) == stops[0],
{
}

/// At the centre of the canvas the position along the gradient is exactly one
/// half, whatever the direction.
pub proof fn lemma_center_is_halfway(x: int, y: int, width: int, height: int, d: Direction)
    requires
        0 <= width,
        0 <= height,
        2 * x == width,
        2 * y == height,
    ensures
        2 * gradient_position(x, y, width, height, d).0 == gradient_position(
            x,
            y,
            width,
            height,
            d,
        ).1,
{
    let ax = abs(d.x as int);
    let ay = abs(d.y as int);
    assert(0 <= width * ax && 0 <= height * ay) by (nonlinear_arith)
        requires
            0 <= width,
            0 <= height,
            0 <= ax,
            0 <= ay,
    ;
    assert((2 * x - width) * d.x == 0 && (2 * y - height) * d.y == 0) by (nonlinear_arith)
        requires
            2 * x == width,
            2 * y == height,
    ;
}

/// The colour of cell (`x`, `y`) on a canvas of `width` by `height` cells:
/// the single stop where there is one, else the two stops around the cell's
/// position along `direction`, blended by how far the cell lies between them.
pub fn interpolate_multi_color(
    x: u32,
    y: u32,
    width: u32,
    height: u32,
    direction: Direction,
    colors: &Vec<Color>,
) -> (color: Color)
    requires
        colors@.len() >= 1,
        direction.wf(),
    ensures
        color == gradient_color(
            x as int,
            y as int,
            width as int,
            height as int,
            direction,
            colors@,
        ),
        colors@.len() == 1 ==> color == colors@[0],
{
    if colors.len() < 2 {
        return colors[0];
    }
    let dx: i64 = direction.x as i64;
    let dy: i64 = direction.y as i64;
    let ax: i64 = if dx < 0 { -dx } else { dx };
    let ay: i64 = if dy < 0 { -dy } else { dy };
    let off_x: i64 = 2 * (x as i64) - (width as i64);
    let off_y: i64 = 2 * (y as i64) - (height as i64);
    assert(-0x2_0000_0000 * 1_000_000 <= off_x * dx <= 0x2_0000_0000 * 1_000_000)
        by (nonlinear_arith)
        requires
            -0x2_0000_0000 <= off_x <= 0x2_0000_0000,
            -1_000_000 <= dx <= 1_000_000,
    ;
    assert(-0x2_0000_0000 * 1_000_000 <= off_y * dy <= 0x2_0000_0000 * 1_000_000)
        by (nonlinear_arith)
        requires
            -0x2_0000_0000 <= off_y <= 0x2_0000_0000,
            -1_000_000 <= dy <= 1_000_000,
    ;
    assert(0 <= width * ax <= 0x1_0000_0000 * 1_000_000) by (nonlinear_arith)
        requires
            0 <= width <= 0x1_0000_0000,
            0 <= ax <= 1_000_000,
    ;
    assert(0 <= height * ay <= 0x1_0000_0000 * 1_000_000) by (nonlinear_arith)
        requires
            0 <= height <= 0x1_0000_0000,
            0 <= ay <= 1_000_000,
    ;
    let along: i64 = off_x * dx + off_y * dy;
    let raw: i64 = (width as i64) * ax + (height as i64) * ay;
    let extent: i64 = if raw == 0 { 2 * (DIRECTION_SCALE as i64) } else { raw };
    let num0: i64 = along + extent;
    let den0: i64 = 2 * extent;
    let num: u64;
    let den: u64;
    if num0 <= 0 {
        num = 0;
        den = den0 as u64;
    } else if (num0 as i128) * 1_000_000 > 999_999 * (den0 as i128) {
        num = 999_999;
        den = 1_000_000;
    } else {
        num = num0 as u64;
        den = den0 as u64;
    }
    proof {
        assert(along == projection(x as int, y as int, width as int, height as int, direction));
        assert(extent == half_extent(width as int, height as int, direction));
        assert((num as int, den as int) == gradient_position(
            x as int,
            y as int,
            width as int,
            height as int,
            direction,
        ));
        lemma_gradient_position_bounds(
            x as int,
            y as int,
            width as int,
            height as int,
            direction,
        );
        lemma_segment_in_range(num as int, den as int, colors@.len() as int);
    }
    let last: u128 = (colors.len() - 1) as u128;
    assert(num * last <= 0xffff_ffff_ffff_ffff * 0xffff_ffff_ffff_ffff) by (nonlinear_arith)
        requires
            0 <= num <= 0xffff_ffff_ffff_ffff,
            0 <= last <= 0xffff_ffff_ffff_ffff,
    ;
    let scaled: u128 = (num as u128) * last;
    let index: usize = (scaled / (den as u128)) as usize;
    let weight: u64 = (scaled % (den as u128)) as u64;
    lerp_color(colors[index], colors[index + 1], weight, den)
}

} // verus!
