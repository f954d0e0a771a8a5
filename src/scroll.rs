//! Mapping from a sensor reading to a scroll speed, and the wrapping
//! horizontal offset into a looping texture.
//!
//! Offsets and speeds are kept in exact sub-pixel units: one pixel is
//! `UNITS_PER_PIXEL` units, a number chosen so that every speed the mapping
//! produces is a whole number of units.

use vstd::prelude::*;

verus! {

/// Highest reading the sensor is expected to report.
pub const MAX_VALUE: u16 = 33400;

/// Centre of the sensor's range.
pub const MID_VALUE: u16 = MAX_VALUE / 2;

/// Lowest reading the sensor is expected to report.
pub const MIN_VALUE: u16 = 2000;

/// Half-width of the band around `MID_VALUE` in which the backdrop stands still.
pub const DEAD_ZONE: u16 = 3000;

/// Sub-pixel units in one pixel.
pub const UNITS_PER_PIXEL: i64 = 641160;

/// Speed at either end of the sensor's range: two and a half pixels per
/// update, in units.
pub const SPEED_MULTIPLIER: i64 = 1602900;

/// Units of speed per reading step above the dead zone.
pub const UPPER_STEP: i64 = 117;

/// Units of speed per reading step below the dead zone.
pub const LOWER_STEP: i64 = 137;

/// Highest reading inside the dead zone.
pub open spec fn upper_edge() -> int {
    MID_VALUE + DEAD_ZONE
}

/// Lowest reading inside the dead zone.
pub open spec fn lower_edge() -> int {
    MID_VALUE - DEAD_ZONE
}

/// A reading brought into `[MIN_VALUE, MAX_VALUE]`.
pub open spec fn clamped(v: int) -> int {
    if v < MIN_VALUE {
        MIN_VALUE as int
    } else if v > MAX_VALUE {
        MAX_VALUE as int
    } else {
        v
    }
}

/// Scroll speed, in units per update, for a reading: zero inside the dead
/// zone, and outside it linear in the distance from the dead zone's edge,
/// reaching `SPEED_MULTIPLIER` in size at the end of the range. Readings
/// above the dead zone scroll left (negative), readings below it right.
pub open spec fn speed_for(v: int) -> int {
    let c = clamped(v);
    if c > upper_edge() {
        -(SPEED_MULTIPLIER * (c - upper_edge()) / (MAX_VALUE - upper_edge()))
    } else if c < lower_edge() {
        SPEED_MULTIPLIER * (lower_edge() - c) / (lower_edge() - MIN_VALUE)
    } else {
        0
    }
}

/// Offset after moving `offset` by `speed` on a loop of length `width`.
pub open spec fn scrolled_offset(offset: int, speed: int, width: int) -> int {
    (offset + speed) % width
}

/// Above the dead zone the speed is `UPPER_STEP` units per reading step.
pub proof fn lemma_upper_ramp(v: int)
    requires
        clamped(v) > upper_edge(),
    ensures
        speed_for(v) == -(UPPER_STEP * (clamped(v) - upper_edge())),
{
    let d = clamped(v) - upper_edge();
    assert(MAX_VALUE - upper_edge() == 13700);
    assert(SPEED_MULTIPLIER * d == 13700 * (UPPER_STEP * d)) by (nonlinear_arith)
        requires
            SPEED_MULTIPLIER == 1602900,
            UPPER_STEP == 117,
    ;
    vstd::arithmetic::div_mod::lemma_div_multiples_vanish(
        UPPER_STEP * d,
        MAX_VALUE - upper_edge(),
    );
}

/// Below the dead zone the speed is `LOWER_STEP` units per reading step.
pub proof fn lemma_lower_ramp(v: int)
    requires
        clamped(v) < lower_edge(),
    ensures
        speed_for(v) == LOWER_STEP * (lower_edge() - clamped(v)),
{
    let d = lower_edge() - clamped(v);
    assert(lower_edge() - MIN_VALUE == 11700);
    assert(SPEED_MULTIPLIER * d == 11700 * (LOWER_STEP * d)) by (nonlinear_arith)
        requires
            SPEED_MULTIPLIER == 1602900,
            LOWER_STEP == 137,
    ;
    vstd::arithmetic::div_mod::lemma_div_multiples_vanish(
        LOWER_STEP * d,
        lower_edge() - MIN_VALUE,
    );
}

/// Scroll speed for a sensor reading, in units per update.
///
/// The reading is clamped into `[MIN_VALUE, MAX_VALUE]` first, so the speed
/// never exceeds `SPEED_MULTIPLIER` in size. The result is exact: it is the
/// ramp's ratio times `SPEED_MULTIPLIER` with no rounding.
pub fn calculate_scroll_speed(sensor_value: u16) -> (r: i64)
    ensures
        r == speed_for(sensor_value as int),
        clamped(sensor_value as int) > upper_edge() ==> r * (MAX_VALUE - upper_edge())
            == -(SPEED_MULTIPLIER * (clamped(sensor_value as int) - upper_edge())),
        clamped(sensor_value as int) < lower_edge() ==> r * (lower_edge() - MIN_VALUE)
            == SPEED_MULTIPLIER * (lower_edge() - clamped(sensor_value as int)),
        clamped(sensor_value as int) > upper_edge() ==> r == -(UPPER_STEP * (clamped(
            sensor_value as int,
        ) - upper_edge())),
        clamped(sensor_value as int) < lower_edge() ==> r == LOWER_STEP * (lower_edge() - clamped(
            sensor_value as int,
        )),
        -SPEED_MULTIPLIER <= r <= SPEED_MULTIPLIER,
{
    let c: u16 = if sensor_value < MIN_VALUE {
        MIN_VALUE
    } else if sensor_value > MAX_VALUE {
        MAX_VALUE
    } else {
        sensor_value
    };
    if c > MID_VALUE + DEAD_ZONE {
        proof {
            lemma_upper_ramp(sensor_value as int);
        }
        let steps: i64 = (c - (MID_VALUE + DEAD_ZONE)) as i64;
        -(steps * UPPER_STEP)
    } else if c < MID_VALUE - DEAD_ZONE {
        proof {
            lemma_lower_ramp(sensor_value as int);
        }
        let steps: i64 = ((MID_VALUE - DEAD_ZONE) - c) as i64;
        steps * LOWER_STEP
    } else {
        0
    }
}

/// The scroll state of a looping backdrop texture: where the visible
/// window starts, and how wide the texture is.
pub struct SkyImage {
    offset: i64,
    texture_width: u32,
}

impl SkyImage {
    /// Left edge of the visible window, in units.
    pub closed spec fn offset_units(self) -> int {
        self.offset as int
    }

    /// Width of the texture, in pixels.
    pub closed spec fn width_pixels(self) -> int {
        self.texture_width as int
    }

    /// Width of the texture, in units.
    pub open spec fn width_units(self) -> int {
        self.width_pixels() * UNITS_PER_PIXEL
    }

    #[verifier::type_invariant]
    spec fn well_formed(self) -> bool {
        &&& self.texture_width > 0
        &&& 0 <= self.offset < self.texture_width * UNITS_PER_PIXEL
    }

    /// A backdrop over a texture `texture_width` pixels wide, with the
    /// visible window at the texture's left edge.
    pub fn new(texture_width: u32) -> (r: Self)
        requires
            texture_width > 0,
        ensures
            r.offset_units() == 0,
            r.width_pixels() == texture_width,
    {
        SkyImage { offset: 0, texture_width }
    }

    /// Width of the texture, in pixels.
    pub fn texture_width(&self) -> (r: u32)
        ensures
            r == self.width_pixels(),
            r > 0,
    {
        proof {
            use_type_invariant(self);
        }
        self.texture_width
    }

    /// Left edge of the visible window, in units; always inside the texture.
    pub fn offset(&self) -> (r: i64)
        ensures
            r == self.offset_units(),
            0 <= r < self.width_units(),
    {
        proof {
            use_type_invariant(self);
        }
        self.offset
    }

    /// Width of the texture in units, as an executable value.
    fn width_in_units(&self) -> (r: i64)
        ensures
            r == self.width_units(),
            r > 0,
    {
        proof {
            use_type_invariant(self);
        }
        self.texture_width as i64 * UNITS_PER_PIXEL
    }

    /// Moves the visible window by `speed` units, wrapping around the
    /// texture so that the offset stays in `[0, width)`.
    pub fn scroll(&mut self, speed: i64)
        ensures
            final(self).width_pixels() == old(self).width_pixels(),
            final(self).offset_units() == scrolled_offset(
                old(self).offset_units(),
                speed as int,
                old(self).width_units(),
            ),
    {
        proof {
            use_type_invariant(&*self);
        }
        let width = self.width_in_units();
        let step = match speed.checked_rem_euclid(width) {
            Some(s) => s,
            None => 0,
        };
        proof {
            vstd::arithmetic::div_mod::lemma_mod_bound(speed as int, width as int);
            vstd::arithmetic::div_mod::lemma_add_mod_noop_right(
                self.offset as int,
                speed as int,
                width as int,
            );
        }
        let moved = self.offset + step;
        let wrapped = if moved >= width {
            moved - width
        } else {
            moved
        };
        proof {
            if moved >= width {
                vstd::arithmetic::div_mod::lemma_mod_sub_multiples_vanish(
                    moved as int,
                    width as int,
                );
            }
            vstd::arithmetic::div_mod::lemma_small_mod(wrapped as nat, width as nat);
        }
        self.offset = wrapped;
    }

    /// Advances the backdrop by one update for the sensor reading
    /// `sensor_value`: the offset moves by `speed_for(sensor_value)` and
    /// wraps around the texture.
    pub fn update(&mut self, sensor_value: u16)
        ensures
            final(self).width_pixels() == old(self).width_pixels(),
            final(self).offset_units() == scrolled_offset(
                old(self).offset_units(),
                speed_for(sensor_value as int),
                old(self).width_units(),
            ),
    {
        let speed = calculate_scroll_speed(sensor_value);
        self.scroll(speed);
    }

    /// How far a view `view_width` pixels wide, starting at the offset, runs
    /// past the texture's right edge, in units; `None` when it stays inside.
    /// The overrun is drawn from the texture's left edge, at the right end of
    /// the view.
    pub fn wrap_overlap(&self, view_width: u32) -> (r: Option<i64>)
        ensures
            r == (if self.offset_units() + view_width * UNITS_PER_PIXEL > self.width_units() {
                Some((self.offset_units() + view_width * UNITS_PER_PIXEL
                    - self.width_units()) as i64)
            } else {
                None
            }),
    {
        proof {
            use_type_invariant(self);
        }
        let width = self.width_in_units();
        let end = self.offset + view_width as i64 * UNITS_PER_PIXEL;
        if end > width {
            Some(end - width)
        } else {
            None
        }
    }
}

/// Inside the dead zone, its edges included, the backdrop stands still.
pub proof fn lemma_dead_zone_is_still(v: int)
    requires
        lower_edge() <= v <= upper_edge(),
    ensures
        speed_for(v) == 0,
{
}

/// Above the dead zone, up to `MAX_VALUE`, a higher reading scrolls strictly
/// faster to the left.
pub proof fn lemma_speed_falls_above_dead_zone(a: int, b: int)
    requires
        upper_edge() < a < b <= MAX_VALUE,
    ensures
        speed_for(b) < speed_for(a) < 0,
{
    lemma_upper_ramp(a);
    lemma_upper_ramp(b);
}

/// Below the dead zone, down to `MIN_VALUE`, a lower reading scrolls strictly
/// faster to the right.
pub proof fn lemma_speed_rises_below_dead_zone(a: int, b: int)
    requires
        MIN_VALUE <= a < b < lower_edge(),
    ensures
        speed_for(a) > speed_for(b) > 0,
{
    lemma_lower_ramp(a);
    lemma_lower_ramp(b);
}

/// A step left of size `m`, smaller than the texture, that would take the
/// offset below zero lands at `offset - m + width` instead; from offset zero
/// that is `width - m`.
pub proof fn lemma_negative_step_wraps(offset: int, m: int, width: int)
    requires
        0 <= offset < width,
        0 < m < width,
        offset < m,
    ensures
        scrolled_offset(offset, -m, width) == offset - m + width,
        offset == 0 ==> scrolled_offset(offset, -m, width) == width - m,
{
    vstd::arithmetic::div_mod::lemma_mod_multiples_vanish(1, offset - m, width);
    vstd::arithmetic::div_mod::lemma_small_mod((offset - m + width) as nat, width as nat);
}

/// A step right of size `m` that takes the offset to the texture's width
/// or past it, but not past twice the width, lands at `offset + m - width`.
pub proof fn lemma_positive_step_wraps(offset: int, m: int, width: int)
    requires
        0 <= offset < width,
        0 < m,
        width <= offset + m < 2 * width,
    ensures
        scrolled_offset(offset, m, width) == offset + m - width,
{
    vstd::arithmetic::div_mod::lemma_mod_sub_multiples_vanish(offset + m, width);
    vstd::arithmetic::div_mod::lemma_small_mod((offset + m - width) as nat, width as nat);
}

} // verus!
