//! The icon, drawn in code so that there is no binary asset to carry.
//!
//! Every shape is symmetric about both axes on purpose. One consumer wants its
//! rows one way round and another the other, and a symmetric image is correct
//! either way.

use vstd::prelude::*;

verus! {

/// What the icon is currently saying. The daemon has no window, so this and
/// the log are the only places its state is visible at all.
///
/// Distinguished by shape as well as colour: a 32x32 icon on a taskbar is
/// small, and a colour-only difference is no difference to anyone who cannot
/// see it.
#[derive(Clone, Copy, PartialEq, Eq, Debug, Structural)]
pub enum Status {
    /// No mouse. Either it has not enumerated yet or it went away.
    Waiting,
    /// Configured and listening for the button.
    Ready,
    /// The button is down and its action is asserted.
    Talking,
    /// Paused from the menu: the mouse is in its normal state and the button
    /// belongs to Windows again.
    Paused,
}

/// The icon that the program is, as opposed to the one that the daemon happens
/// to be showing.
pub const APP: Status = Status::Ready;

/// The largest size whose pixels can be counted in 32 bits.
pub const MAX_SIZE: u32 = 32767;

/// Samples per pixel.
pub const SAMPLES: u32 = 16;

impl Status {
    /// Mid-tones, so that they stay legible on a light and a dark taskbar.
    pub open spec fn colour(self) -> (u8, u8, u8) {
        match self {
            // Grey: nothing to talk to.
            Status::Waiting => (0x8a, 0x8a, 0x8a),
            // Blue: armed and waiting.
            Status::Ready => (0x2e, 0x9b, 0xf0),
            // Green: transmitting.
            Status::Talking => (0x3d, 0xc2, 0x5f),
            // Amber: deliberately idle.
            Status::Paused => (0xe0, 0x99, 0x2b),
        }
    }

    /// Red, green and blue.
    pub fn rgb(self) -> (r: (u8, u8, u8))
        ensures
            r == self.colour(),
    {
        match self {
            Status::Waiting => (0x8a, 0x8a, 0x8a),
            Status::Ready => (0x2e, 0x9b, 0xf0),
            Status::Talking => (0x3d, 0xc2, 0x5f),
            Status::Paused => (0xe0, 0x99, 0x2b),
        }
    }
}

/// Where sample `s` of four lies in pixel `x` of a row of `size`, from the
/// centre of the image and in eighths of a pixel.
pub open spec fn offset(size: int, x: int, s: int) -> int {
    8 * x + 2 * s + 1 - 4 * size
}

/// Whether the point `(u, v)`, in eighths of a pixel from the centre of an
/// image of `size` pixels, lies within `radius` halves of a unit, of which
/// the image is 32 wide.
///
/// A distance of `d` eighths is `d * 4 / size` units.
pub open spec fn within(size: int, u: int, v: int, radius: int) -> bool {
    64 * (u * u + v * v) <= (radius * size) * (radius * size)
}

/// Whether it lies `radius` halves of a unit from the centre, or further.
pub open spec fn beyond(size: int, u: int, v: int, radius: int) -> bool {
    64 * (u * u + v * v) >= (radius * size) * (radius * size)
}

pub open spec fn distance(u: int) -> int {
    if u < 0 {
        -u
    } else {
        u
    }
}

/// The ring, from 11 to 14.5 units.
pub open spec fn in_ring(size: int, u: int, v: int) -> bool {
    beyond(size, u, v, 22) && within(size, u, v, 29)
}

/// The pause glyph: two upright bars from 2 to 5 units to either side and 7
/// units up and down, clear of the ring.
pub open spec fn in_bars(size: int, u: int, v: int) -> bool {
    2 * size <= 4 * distance(u) <= 5 * size && 4 * distance(v) <= 7 * size
}

/// Whether a point is inked: a hollow ring while there is no mouse, a dot of 7
/// units inside it once it is armed, a disc filled to the ring's edge while
/// the button is down, and the pause glyph inside the ring while paused.
pub open spec fn is_inked(status: Status, size: int, u: int, v: int) -> bool {
    match status {
        Status::Waiting => in_ring(size, u, v),
        Status::Ready => in_ring(size, u, v) || within(size, u, v, 14),
        Status::Talking => within(size, u, v, 29),
        Status::Paused => in_ring(size, u, v) || in_bars(size, u, v),
    }
}

pub open spec fn count(b: bool) -> nat {
    if b {
        1
    } else {
        0
    }
}

/// How many of the four samples of pixel `x` are inked in the line `v`.
pub open spec fn hits_in_line(status: Status, size: int, x: int, v: int) -> nat {
    count(is_inked(status, size, offset(size, x, 0), v)) + count(
        is_inked(status, size, offset(size, x, 1), v),
    ) + count(is_inked(status, size, offset(size, x, 2), v)) + count(
        is_inked(status, size, offset(size, x, 3), v),
    )
}

/// How many of the sixteen samples of a pixel are inked.
#[verifier::opaque]
pub open spec fn hits(status: Status, size: int, x: int, y: int) -> nat {
    hits_in_line(status, size, x, offset(size, y, 0)) + hits_in_line(
        status,
        size,
        x,
        offset(size, y, 1),
    ) + hits_in_line(status, size, x, offset(size, y, 2)) + hits_in_line(
        status,
        size,
        x,
        offset(size, y, 3),
    )
}

/// A pixel: blue, green, red and alpha. Alpha is coverage, and a pixel that is
/// not covered at all is all zero.
pub open spec fn pixel(status: Status, size: int, x: int, y: int) -> (u8, u8, u8, u8) {
    let n = hits(status, size, x, y);
    let (r, g, b) = status.colour();
    if n == 0 {
        (0, 0, 0, 0)
    } else {
        (b, g, r, (n * 255 / SAMPLES as nat) as u8)
    }
}

/// The pixel at `(x, y)` in the bytes of an image of `size` pixels square,
/// rows top-down.
pub open spec fn pixel_in(image: Seq<u8>, size: int, x: int, y: int) -> (u8, u8, u8, u8) {
    nth_pixel(image, y * size + x)
}

pub open spec fn nth_pixel(image: Seq<u8>, k: int) -> (u8, u8, u8, u8) {
    (image[4 * k], image[4 * k + 1], image[4 * k + 2], image[4 * k + 3])
}

proof fn lemma_square_of_negation(u: int)
    ensures
        (-u) * (-u) == u * u,
{
    assert((-u) * (-u) == u * u) by (nonlinear_arith);
}

/// Ink on one side of an axis is ink on the other.
proof fn lemma_ink_is_symmetric(status: Status, size: int, u: int, v: int)
    ensures
        is_inked(status, size, -u, v) == is_inked(status, size, u, v),
        is_inked(status, size, u, -v) == is_inked(status, size, u, v),
{
    lemma_square_of_negation(u);
    lemma_square_of_negation(v);
}

/// The samples of a pixel are those of its mirror image, in reverse.
proof fn lemma_offset_mirrored(size: int, x: int, s: int)
    ensures
        offset(size, size - 1 - x, 3 - s) == -offset(size, x, s),
{
}

proof fn lemma_line_mirrored(status: Status, size: int, x: int, v: int)
    ensures
        hits_in_line(status, size, size - 1 - x, v) == hits_in_line(status, size, x, v),
        hits_in_line(status, size, x, -v) == hits_in_line(status, size, x, v),
{
    lemma_offset_mirrored(size, x, 0);
    lemma_offset_mirrored(size, x, 1);
    lemma_offset_mirrored(size, x, 2);
    lemma_offset_mirrored(size, x, 3);
    lemma_ink_is_symmetric(status, size, offset(size, x, 0), v);
    lemma_ink_is_symmetric(status, size, offset(size, x, 1), v);
    lemma_ink_is_symmetric(status, size, offset(size, x, 2), v);
    lemma_ink_is_symmetric(status, size, offset(size, x, 3), v);
}

/// Every shape at every size is symmetric about both axes.
pub proof fn law_every_shape_is_symmetric(status: Status, size: int, x: int, y: int)
    ensures
        pixel(status, size, size - 1 - x, y) == pixel(status, size, x, y),
        pixel(status, size, x, size - 1 - y) == pixel(status, size, x, y),
{
    reveal(hits);
    lemma_line_mirrored(status, size, x, offset(size, y, 0));
    lemma_line_mirrored(status, size, x, offset(size, y, 1));
    lemma_line_mirrored(status, size, x, offset(size, y, 2));
    lemma_line_mirrored(status, size, x, offset(size, y, 3));
    lemma_offset_mirrored(size, y, 0);
    lemma_offset_mirrored(size, y, 1);
    lemma_offset_mirrored(size, y, 2);
    lemma_offset_mirrored(size, y, 3);
}

/// Wherever a shape is inked at one size, it is inked at any multiple of that
/// size: every size is the same picture.
pub proof fn law_every_size_is_the_same_picture(status: Status, size: int, k: int, u: int, v: int)
    requires
        k > 0,
        size > 0,
    ensures
        is_inked(status, k * size, k * u, k * v) == is_inked(status, size, u, v),
{
    assert forall|radius: int| radius > 0 implies within(k * size, k * u, k * v, radius) == within(
        size,
        u,
        v,
        radius,
    ) && beyond(k * size, k * u, k * v, radius) == beyond(size, u, v, radius) by {
        let d = u * u + v * v;
        let r = (radius * size) * (radius * size);
        assert((k * u) * (k * u) + (k * v) * (k * v) == (k * k) * (u * u + v * v))
            by (nonlinear_arith);
        assert((radius * (k * size)) * (radius * (k * size)) == (k * k) * ((radius * size) * (radius
            * size))) by (nonlinear_arith);
        assert(k * k > 0) by (nonlinear_arith)
            requires
                k > 0,
        ;
        let kk = k * k;
        assert((64 * (kk * d) <= kk * r) == (64 * d <= r)) by (nonlinear_arith)
            requires
                kk > 0,
        ;
        assert((64 * (kk * d) >= kk * r) == (64 * d >= r)) by (nonlinear_arith)
            requires
                kk > 0,
        ;
    }
    assert(distance(k * u) == k * distance(u)) by (nonlinear_arith)
        requires
            k > 0,
    ;
    assert(distance(k * v) == k * distance(v)) by (nonlinear_arith)
        requires
            k > 0,
    ;
    let (du, dv) = (distance(u), distance(v));
    assert((2 * (k * size) <= 4 * (k * du)) == (2 * size <= 4 * du)) by (nonlinear_arith)
        requires
            k > 0,
    ;
    assert((4 * (k * du) <= 5 * (k * size)) == (4 * du <= 5 * size)) by (nonlinear_arith)
        requires
            k > 0,
    ;
    assert((4 * (k * dv) <= 7 * (k * size)) == (4 * dv <= 7 * size)) by (nonlinear_arith)
        requires
            k > 0,
    ;
}

/// The states differ by shape and not by colour alone: what is at the centre,
/// in the gap between dot and ring and on a bar of the pause glyph tells all
/// four apart, at every size. `n` is the width of a unit.
pub proof fn law_the_states_differ_by_shape(n: int)
    requires
        n > 0,
    ensures
        ({
            let size = 32 * n;
            let unit = 8 * n;
            &&& !is_inked(Status::Waiting, size, 0, 0)
            &&& !is_inked(Status::Waiting, size, 0, 9 * unit)
            &&& !is_inked(Status::Waiting, size, 4 * unit, 0)
            &&& is_inked(Status::Ready, size, 0, 0)
            &&& !is_inked(Status::Ready, size, 0, 9 * unit)
            &&& is_inked(Status::Ready, size, 4 * unit, 0)
            &&& is_inked(Status::Talking, size, 0, 0)
            &&& is_inked(Status::Talking, size, 0, 9 * unit)
            &&& is_inked(Status::Talking, size, 4 * unit, 0)
            &&& !is_inked(Status::Paused, size, 0, 0)
            &&& !is_inked(Status::Paused, size, 0, 9 * unit)
            &&& is_inked(Status::Paused, size, 4 * unit, 0)
        }),
{
    let statuses = seq![Status::Waiting, Status::Ready, Status::Talking, Status::Paused];
    assert forall|i: int, u: int, v: int| 0 <= i < 4 implies is_inked(
        #[trigger] statuses[i],
        32 * n,
        #[trigger] (u * n),
        #[trigger] (v * n),
    ) == is_inked(statuses[i], 32, u, v) by {
        assert(n * 32 == 32 * n && n * u == u * n && n * v == v * n) by (nonlinear_arith);
        law_every_size_is_the_same_picture(statuses[i], 32, n, u, v);
    }
    let (w, r, t, p) = (statuses[0], statuses[1], statuses[2], statuses[3]);
    assert(0 * n == 0 && 72 * n == 9 * (8 * n) && 32 * n == 4 * (8 * n)) by (nonlinear_arith);
    assert(is_inked(w, 32 * n, 0 * n, 0 * n) == is_inked(w, 32, 0, 0));
    assert(is_inked(w, 32 * n, 0 * n, 72 * n) == is_inked(w, 32, 0, 72));
    assert(is_inked(w, 32 * n, 32 * n, 0 * n) == is_inked(w, 32, 32, 0));
    assert(is_inked(r, 32 * n, 0 * n, 0 * n) == is_inked(r, 32, 0, 0));
    assert(is_inked(r, 32 * n, 0 * n, 72 * n) == is_inked(r, 32, 0, 72));
    assert(is_inked(r, 32 * n, 32 * n, 0 * n) == is_inked(r, 32, 32, 0));
    assert(is_inked(t, 32 * n, 0 * n, 0 * n) == is_inked(t, 32, 0, 0));
    assert(is_inked(t, 32 * n, 0 * n, 72 * n) == is_inked(t, 32, 0, 72));
    assert(is_inked(t, 32 * n, 32 * n, 0 * n) == is_inked(t, 32, 32, 0));
    assert(is_inked(p, 32 * n, 0 * n, 0 * n) == is_inked(p, 32, 0, 0));
    assert(is_inked(p, 32 * n, 0 * n, 72 * n) == is_inked(p, 32, 0, 72));
    assert(is_inked(p, 32 * n, 32 * n, 0 * n) == is_inked(p, 32, 32, 0));
}

/// Alpha is coverage: nothing where no sample is inked, full where all are,
/// and never less where more of them are.
pub proof fn law_alpha_is_coverage(status: Status, size: int, x: int, y: int, other: (int, int))
    ensures
        hits(status, size, x, y) <= SAMPLES,
        pixel(status, size, x, y).3 == 0 <==> hits(status, size, x, y) == 0,
        pixel(status, size, x, y).3 == 255 <==> hits(status, size, x, y) == SAMPLES,
        hits(status, size, x, y) <= hits(status, size, other.0, other.1) ==> pixel(
            status,
            size,
            x,
            y,
        ).3 <= pixel(status, size, other.0, other.1).3,
{
    reveal(hits);
}

/// What bounds a point of an image keeps every product below 64 bits.
proof fn lemma_products_are_small(size: int, u: int, v: int)
    requires
        0 <= size <= MAX_SIZE,
        -4 * size <= u <= 4 * size,
        -4 * size <= v <= 4 * size,
    ensures
        0 <= u * u <= 0x4_0000_0000,
        0 <= v * v <= 0x4_0000_0000,
        forall|radius: int|
            0 <= radius <= 29 ==> 0 <= #[trigger] (radius * size) <= 0x10_0000 && 0 <= (radius
                * size) * (radius * size) <= 0x100_0000_0000,
{
    assert(0 <= u * u <= 0x4_0000_0000) by (nonlinear_arith)
        requires
            -131068 <= u <= 131068,
    ;
    assert(0 <= v * v <= 0x4_0000_0000) by (nonlinear_arith)
        requires
            -131068 <= v <= 131068,
    ;
    assert forall|radius: int| 0 <= radius <= 29 implies 0 <= #[trigger] (radius * size)
        <= 0x10_0000 && 0 <= (radius * size) * (radius * size) <= 0x100_0000_0000 by {
        let r = radius * size;
        assert(0 <= radius * size <= 0x10_0000) by (nonlinear_arith)
            requires
                0 <= radius <= 29,
                0 <= size <= 32767,
        ;
        assert(0 <= r * r <= 0x100_0000_0000) by (nonlinear_arith)
            requires
                0 <= r <= 0x10_0000,
        ;
    }
}

fn inked(status: Status, size: i64, u: i64, v: i64) -> (r: bool)
    requires
        0 <= size <= MAX_SIZE,
        -4 * size <= u <= 4 * size,
        -4 * size <= v <= 4 * size,
    ensures
        r == is_inked(status, size as int, u as int, v as int),
{
    proof {
        lemma_products_are_small(size as int, u as int, v as int);
        assert(0 <= 14 * (size as int) && 0 <= 22 * (size as int) && 0 <= 29 * (size as int));
    }
    let d: i64 = 64 * (u * u + v * v);
    let (dot, inner, outer): (i64, i64, i64) = (14 * size, 22 * size, 29 * size);
    let ring = d >= inner * inner && d <= outer * outer;
    match status {
        Status::Waiting => ring,
        Status::Ready => ring || d <= dot * dot,
        Status::Talking => d <= outer * outer,
        Status::Paused => {
            let (across, up): (i64, i64) = (
                if u < 0 {
                    -u
                } else {
                    u
                },
                if v < 0 {
                    -v
                } else {
                    v
                },
            );
            ring || 2 * size <= 4 * across && 4 * across <= 5 * size && 4 * up <= 7 * size
        },
    }
}

fn counted(b: bool) -> (n: u32)
    ensures
        n == count(b),
{
    if b {
        1
    } else {
        0
    }
}

fn line_hits(status: Status, size: i64, x: i64, v: i64) -> (n: u32)
    requires
        0 <= x < size <= MAX_SIZE,
        -4 * size <= v <= 4 * size,
    ensures
        n == hits_in_line(status, size as int, x as int, v as int),
        n <= 4,
{
    let u: i64 = 8 * x + 1 - 4 * size;
    counted(inked(status, size, u, v)) + counted(inked(status, size, u + 2, v)) + counted(
        inked(status, size, u + 4, v),
    ) + counted(inked(status, size, u + 6, v))
}

fn pixel_hits(status: Status, size: i64, x: i64, y: i64) -> (n: u32)
    requires
        0 <= x < size <= MAX_SIZE,
        0 <= y < size,
    ensures
        n == hits(status, size as int, x as int, y as int),
        n <= SAMPLES,
{
    reveal(hits);
    let v: i64 = 8 * y + 1 - 4 * size;
    line_hits(status, size, x, v) + line_hits(status, size, x, v + 2) + line_hits(
        status,
        size,
        x,
        v + 4,
    ) + line_hits(status, size, x, v + 6)
}

/// Draw `status` at `size` by `size`: a hollow ring while there is no mouse, a
/// dot inside that ring once it is armed, a filled disc while the button is
/// down, and the two bars of a pause glyph inside the ring while paused.
///
/// Rows run top-down, and each pixel is blue, green, red and alpha. Alpha is
/// edge coverage, so the result is antialiased. The geometry is written for
/// 32 by 32 and scaled, so that every size is the same picture.
pub fn bgra(size: u32, status: Status) -> (image: Vec<u8>)
    requires
        size <= MAX_SIZE,
    ensures
        image@.len() == 4 * size * size,
        forall|x: int, y: int|
            0 <= x < size && 0 <= y < size ==> #[trigger] pixel_in(image@, size as int, x, y)
                == pixel(status, size as int, x, y),
{
    let (r, g, b) = status.rgb();
    let n: i64 = size as i64;
    let mut image: Vec<u8> = Vec::new();
    let mut y: i64 = 0;
    while y < n
        invariant
            0 <= y <= n == size <= MAX_SIZE,
            (r, g, b) == status.colour(),
            image@.len() == 4 * (y * n),
            forall|k: int|
                0 <= k < y * n ==> #[trigger] nth_pixel(image@, k) == pixel(
                    status,
                    n as int,
                    k % n as int,
                    k / n as int,
                ),
        decreases n - y,
    {
        let mut x: i64 = 0;
        while x < n
            invariant
                0 <= x <= n == size <= MAX_SIZE,
                0 <= y < n,
                (r, g, b) == status.colour(),
                image@.len() == 4 * (y * n + x),
                forall|k: int|
                    0 <= k < y * n + x ==> #[trigger] nth_pixel(image@, k) == pixel(
                        status,
                        n as int,
                        k % n as int,
                        k / n as int,
                    ),
            decreases n - x,
        {
            let found: u32 = pixel_hits(status, n, x, y);
            let ghost before = image@;
            let ghost at = y * n + x;
            if found == 0 {
                image.push(0);
                image.push(0);
                image.push(0);
                image.push(0);
            } else {
                image.push(b);
                image.push(g);
                image.push(r);
                image.push((found * 255 / SAMPLES) as u8);
            }
            proof {
                assert(at >= 0) by (nonlinear_arith)
                    requires
                        at == y * n + x,
                        y >= 0,
                        n >= 0,
                        x >= 0,
                ;
                vstd::arithmetic::div_mod::lemma_fundamental_div_mod_converse(
                    at,
                    n as int,
                    y as int,
                    x as int,
                );
                assert(nth_pixel(image@, at) == pixel(status, n as int, x as int, y as int));
                assert forall|k: int| 0 <= k < at + 1 implies #[trigger] nth_pixel(image@, k)
                    == pixel(status, n as int, k % n as int, k / n as int) by {
                    if k < at {
                        assert(nth_pixel(image@, k) == nth_pixel(before, k));
                    }
                }
            }
            x = x + 1;
        }
        proof {
            assert(y * n + n == (y + 1) * n) by (nonlinear_arith);
        }
        y = y + 1;
    }
    proof {
        assert forall|x: int, y: int| 0 <= x < size && 0 <= y < size implies #[trigger] pixel_in(
            image@,
            size as int,
            x,
            y,
        ) == pixel(status, size as int, x, y) by {
            let k = y * size + x;
            vstd::arithmetic::div_mod::lemma_fundamental_div_mod_converse(k, size as int, y, x);
            assert(0 <= k < n * n) by (nonlinear_arith)
                requires
                    k == y * n + x,
                    0 <= x < n,
                    0 <= y < n,
            ;
            assert(nth_pixel(image@, k) == pixel(status, n as int, k % n as int, k / n as int));
        }
        assert(4 * (n * n) == 4 * size * size) by (nonlinear_arith)
            requires
                n == size,
        ;
    }
    image
}

/// The round shapes are round: whether a point is inked depends on its
/// distance from the centre alone.
pub proof fn law_round_shapes_are_round(status: Status, size: int, p: (int, int), q: (int, int))
    requires
        status != Status::Paused,
        p.0 * p.0 + p.1 * p.1 == q.0 * q.0 + q.1 * q.1,
    ensures
        is_inked(status, size, p.0, p.1) == is_inked(status, size, q.0, q.1),
{
}

/// Along the middle of the image, in units of which it is 32 wide: the ring
/// is from 11 to 14.5, the dot reaches to 7, the disc to 14.5, and the bars of
/// the pause glyph are from 2 to 5. A point `u` eighths of a pixel from the
/// centre is `4 * u / size` units from it.
pub proof fn law_how_far_the_shapes_reach(size: int, u: int)
    requires
        size > 0,
    ensures
        ({
            let d = distance(u);
            let ring = 11 * size <= 4 * d && 8 * d <= 29 * size;
            &&& is_inked(Status::Waiting, size, u, 0) <==> ring
            &&& is_inked(Status::Ready, size, u, 0) <==> ring || 4 * d <= 7 * size
            &&& is_inked(Status::Talking, size, u, 0) <==> 8 * d <= 29 * size
            &&& is_inked(Status::Paused, size, u, 0) <==> ring || (2 * size <= 4 * d && 4 * d <= 5
                * size)
        }),
{
    let d = distance(u);
    assert(u * u == d * d) by (nonlinear_arith)
        requires
            d == u || d == -u,
    ;
    assert(d >= 0);
    assert((64 * (d * d) <= (29 * size) * (29 * size)) == (8 * d <= 29 * size)) by (nonlinear_arith)
        requires
            d >= 0,
            size > 0,
    ;
    assert((64 * (d * d) >= (22 * size) * (22 * size)) == (8 * d >= 22 * size)) by (nonlinear_arith)
        requires
            d >= 0,
            size > 0,
    ;
    assert((64 * (d * d) <= (14 * size) * (14 * size)) == (8 * d <= 14 * size)) by (nonlinear_arith)
        requires
            d >= 0,
            size > 0,
    ;
}

/// The pause glyph is the ring with two upright bars inside it, 2 to 5 units
/// to either side and 7 units up and down.
pub proof fn law_the_pause_glyph_is_a_ring_and_two_bars(size: int, u: int, v: int)
    ensures
        is_inked(Status::Paused, size, u, v) <==> is_inked(Status::Waiting, size, u, v) || (2
            * size <= 4 * distance(u) && 4 * distance(u) <= 5 * size && 4 * distance(v) <= 7
            * size),
{
}

/// A pixel is covered as far as the picture under it is inked: fully where all
/// of its square is, and not at all where none of it is. One that is covered
/// has the colour of the status, blue first.
pub proof fn law_a_pixel_shows_what_is_under_it(status: Status, size: int, x: int, y: int)
    ensures
        ({
            let (left, top) = (8 * x - 4 * size, 8 * y - 4 * size);
            let p = pixel(status, size, x, y);
            let (red, green, blue) = status.colour();
            &&& (forall|u: int, v: int|
                left <= u <= left + 8 && top <= v <= top + 8 ==> #[trigger] is_inked(
                    status,
                    size,
                    u,
                    v,
                )) ==> p == (blue, green, red, 255u8)
            &&& (forall|u: int, v: int|
                left <= u <= left + 8 && top <= v <= top + 8 ==> !#[trigger] is_inked(
                    status,
                    size,
                    u,
                    v,
                )) ==> p == (0u8, 0u8, 0u8, 0u8)
            &&& p.3 != 0 ==> p.0 == blue && p.1 == green && p.2 == red
            &&& p.3 == 0 ==> p == (0u8, 0u8, 0u8, 0u8)
        }),
{
    reveal(hits);
}

/// The colours tell the states apart: grey without a mouse, blue when ready,
/// green while talking, and amber while paused.
pub proof fn law_the_states_differ_by_colour(a: Status, b: Status)
    ensures
        a.colour() == b.colour() ==> a == b,
        ({
            let (r, g, b) = Status::Waiting.colour();
            r == g && g == b
        }),
        ({
            let (r, g, b) = Status::Ready.colour();
            b > g && g > r
        }),
        ({
            let (r, g, b) = Status::Talking.colour();
            g > b && b > r
        }),
        ({
            let (r, g, b) = Status::Paused.colour();
            r > g && g > b
        }),
{
}

/// An image is stored row by row from the top, four bytes to a pixel.
pub proof fn law_rows_run_from_the_top(image: Seq<u8>, size: int, x: int, y: int)
    ensures
        ({
            let at = 4 * (y * size + x);
            pixel_in(image, size, x, y) == (image[at], image[at + 1], image[at + 2], image[at + 3])
        }),
{
}

/// Whether sample `k` of a pixel is inked. Its square is eight eighths of a
/// pixel wide and high, and holds four samples by four, one eighth from its
/// edges and two from each other, row by row.
pub open spec fn is_sample_inked(status: Status, size: int, x: int, y: int, k: int) -> bool {
    is_inked(status, size, 8 * x - 4 * size + 1 + 2 * (k % 4), 8 * y - 4 * size + 1 + 2 * (k / 4))
}

/// How many of the first `n` samples of a pixel are inked.
pub open spec fn inked_among(status: Status, size: int, x: int, y: int, n: nat) -> nat
    decreases n,
{
    if n == 0 {
        0
    } else {
        inked_among(status, size, x, y, (n - 1) as nat) + count(
            is_sample_inked(status, size, x, y, n - 1),
        )
    }
}

proof fn lemma_line_of_samples(status: Status, size: int, x: int, y: int, r: int)
    requires
        0 <= r < 4,
    ensures
        inked_among(status, size, x, y, (4 * r + 4) as nat) == inked_among(
            status,
            size,
            x,
            y,
            (4 * r) as nat,
        ) + hits_in_line(status, size, x, offset(size, y, r)),
{
    assert forall|s: int| 0 <= s < 4 implies #[trigger] is_sample_inked(
        status,
        size,
        x,
        y,
        4 * r + s,
    ) == is_inked(status, size, offset(size, x, s), offset(size, y, r)) by {
        assert((4 * r + s) % 4 == s && (4 * r + s) / 4 == r);
        assert(8 * x - 4 * size + 1 + 2 * s == offset(size, x, s));
        assert(8 * y - 4 * size + 1 + 2 * r == offset(size, y, r));
    }
    reveal_with_fuel(inked_among, 5);
    let k = 4 * r;
    assert(is_sample_inked(status, size, x, y, k) == is_sample_inked(
        status,
        size,
        x,
        y,
        4 * r + 0,
    ));
    assert(is_sample_inked(status, size, x, y, 4 * r + 1) == is_inked(
        status,
        size,
        offset(size, x, 1),
        offset(size, y, r),
    ));
    assert(is_sample_inked(status, size, x, y, 4 * r + 2) == is_inked(
        status,
        size,
        offset(size, x, 2),
        offset(size, y, r),
    ));
    assert(is_sample_inked(status, size, x, y, 4 * r + 3) == is_inked(
        status,
        size,
        offset(size, x, 3),
        offset(size, y, r),
    ));
    assert(inked_among(status, size, x, y, (k + 1) as nat) == inked_among(
        status,
        size,
        x,
        y,
        k as nat,
    ) + count(is_sample_inked(status, size, x, y, k)));
}

/// A pixel is as opaque as the share of its sixteen samples that are inked.
pub proof fn law_how_opaque_a_pixel_is(status: Status, size: int, x: int, y: int)
    ensures
        inked_among(status, size, x, y, 16) <= 16,
        pixel(status, size, x, y).3 == inked_among(status, size, x, y, 16) * 255 / 16,
{
    reveal(hits);
    lemma_line_of_samples(status, size, x, y, 0);
    lemma_line_of_samples(status, size, x, y, 1);
    lemma_line_of_samples(status, size, x, y, 2);
    lemma_line_of_samples(status, size, x, y, 3);
    let n = hits(status, size, x, y);
    assert(inked_among(status, size, x, y, 0) == 0);
    assert(inked_among(status, size, x, y, 16) == n);
    assert(n <= 16);
    assert(n * 255 / 16 <= 255);
}

/// A drawing has four bytes for each pixel, row by row from the top.
pub proof fn law_a_drawing_has_every_pixel(
    size: u32,
    status: Status,
    image: Vec<u8>,
    x: int,
    y: int,
)
    requires
        0 <= x < size,
        0 <= y < size,
        call_ensures(bgra, (size, status), image),
    ensures
        image@.len() == 4 * size * size,
        ({
            let at = 4 * (y * size + x);
            (image@[at], image@[at + 1], image@[at + 2], image@[at + 3]) == pixel(
                status,
                size as int,
                x,
                y,
            )
        }),
{
    assert(pixel_in(image@, size as int, x, y) == pixel(status, size as int, x, y));
}

} // verus!
