//! The buffer in which a picture gathers light, frame after frame.
//!
//! Every pixel holds the sum of the radiance samples taken of it since the
//! buffer was last cleared, as three numbers, and the buffer counts the
//! samples per pixel. The sums themselves round and are the caller's to
//! compute; the buffer places them, clears them and finds the greatest.

use vstd::prelude::*;
use crate::scalar::Scalar;
use crate::vector::Vec3;

verus! {

/// The radiance gathered per pixel, row after row, three numbers to a pixel.
pub struct Film {
    width: usize,
    height: usize,
    samples: u32,
    radiance: Vec<Scalar>,
}

impl View for Film {
    type V = Seq<Scalar>;

    /// The numbers of the buffer: red, green and blue of the first pixel of
    /// the first row, then of the next pixel, and so on, row after row.
    closed spec fn view(&self) -> Seq<Scalar> {
        self.radiance@
    }
}

/// The bytes of a pixel on the screen: red, green and blue cut down to
/// bytes, and an opacity of 255, which is fully opaque.
pub fn opaque_pixel(color: Vec3) -> (r: [u8; 4])
    ensures
        r[0] == color.x.spec_to_u8(),
        r[1] == color.y.spec_to_u8(),
        r[2] == color.z.spec_to_u8(),
        r[3] == 255,
{
    [color.x.to_u8(), color.y.to_u8(), color.z.to_u8(), 255]
}

/// The greatest of a run of numbers, taken from left to right, and `0.0` for
/// an empty run. A NaN counts only where every number is one.
pub open spec fn peak_of(values: Seq<Scalar>) -> Scalar
    decreases values.len(),
{
    if values.len() == 0 {
        Scalar::spec_zero()
    } else if values.len() == 1 {
        values[0]
    } else {
        peak_of(values.drop_last()).spec_max(values.last())
    }
}

/// The peak of a run that is not empty is one of its numbers, no number of
/// the run is greater, and it is a NaN only if all of them are.
pub proof fn lemma_peak_of(values: Seq<Scalar>)
    requires
        values.len() > 0,
    ensures
        exists|i: int| 0 <= i < values.len() && #[trigger] values[i] == peak_of(values),
        forall|i: int|
            0 <= i < values.len() && !(#[trigger] values[i]).spec_is_nan() ==> values[i].spec_le(
                peak_of(values),
            ),
        peak_of(values).spec_is_nan() ==> forall|i: int|
            0 <= i < values.len() ==> (#[trigger] values[i]).spec_is_nan(),
    decreases values.len(),
{
    if values.len() == 1 {
        assert(values[0] == peak_of(values));
    } else {
        let front = values.drop_last();
        let last = values.len() - 1;
        lemma_peak_of(front);
        let k = choose|k: int| 0 <= k < front.len() && #[trigger] front[k] == peak_of(front);
        assert(front[k] == values[k]);
        if peak_of(values) == values[last] {
        } else {
            assert(values[k] == peak_of(values));
        }
        assert forall|i: int| 0 <= i < values.len() && !(#[trigger] values[i]).spec_is_nan() implies values[i].spec_le(
            peak_of(values),
        ) by {
            if i < last {
                assert(front[i] == values[i]);
            }
        }
        if peak_of(values).spec_is_nan() {
            assert forall|i: int| 0 <= i < values.len() implies (#[trigger] values[i]).spec_is_nan() by {
                if i < last {
                    assert(front[i] == values[i]);
                }
            }
        }
    }
}

proof fn lemma_row_fits(w: int, h: int, x: int, y: int)
    requires
        0 <= x < w,
        0 <= y < h,
    ensures
        0 <= y * w,
        y * w + x < w * h,
        (y * w + x) * 3 + 2 < 3 * w * h,
{
    assert(0 <= y * w && y * w + x < w * h && (y * w + x) * 3 + 2 < 3 * w * h) by (nonlinear_arith)
        requires
            0 <= x < w,
            0 <= y < h,
    ;
}

impl Film {
    #[verifier::type_invariant]
    spec fn sized(&self) -> bool {
        self.radiance.len() == 3 * self.width * self.height
    }

    pub closed spec fn spec_width(&self) -> usize {
        self.width
    }

    pub closed spec fn spec_height(&self) -> usize {
        self.height
    }

    pub closed spec fn spec_samples(&self) -> u32 {
        self.samples
    }

    /// The buffer holds three numbers for each pixel.
    pub open spec fn well_formed(&self) -> bool {
        self@.len() == 3 * self.spec_width() * self.spec_height()
    }

    /// Where the numbers of a pixel begin.
    pub open spec fn offset(&self, x: int, y: int) -> int {
        (y * self.spec_width() + x) * 3
    }

    /// The radiance gathered at a pixel.
    pub open spec fn pixel_at(&self, x: int, y: int) -> Vec3 {
        Vec3 {
            x: self@[self.offset(x, y)],
            y: self@[self.offset(x, y) + 1],
            z: self@[self.offset(x, y) + 2],
        }
    }

    /// Nothing has been gathered: every number is `0.0` and no sample is
    /// counted.
    pub open spec fn blank(&self) -> bool {
        &&& self.spec_samples() == 0
        &&& forall|i: int| 0 <= i < self@.len() ==> self@[i] == Scalar::spec_zero()
    }

    /// The numbers of a pixel lie inside the buffer, and those of different
    /// pixels do not overlap.
    pub proof fn lemma_offset(&self, x: int, y: int)
        requires
            self.well_formed(),
            0 <= x < self.spec_width(),
            0 <= y < self.spec_height(),
        ensures
            0 <= self.offset(x, y),
            self.offset(x, y) + 2 < self@.len(),
            forall|u: int, v: int|
                0 <= u < self.spec_width() && 0 <= v < self.spec_height() && (u != x || v != y) ==> {
                    ||| #[trigger] self.offset(u, v) + 2 < self.offset(x, y)
                    ||| self.offset(x, y) + 2 < self.offset(u, v)
                },
    {
        let w = self.spec_width() as int;
        let h = self.spec_height() as int;
        assert(y * w + x < h * w) by (nonlinear_arith)
            requires
                0 <= x < w,
                0 <= y < h,
        ;
        assert(0 <= y * w) by (nonlinear_arith)
            requires
                0 <= y,
                0 <= w,
        ;
        assert(3 * w * h == 3 * (h * w)) by (nonlinear_arith);
        assert forall|u: int, v: int|
            0 <= u < w && 0 <= v < h && (u != x || v != y) implies {
            ||| #[trigger] self.offset(u, v) + 2 < self.offset(x, y)
            ||| self.offset(x, y) + 2 < self.offset(u, v)
        } by {
            assert(v * w + u != y * w + x) by (nonlinear_arith)
                requires
                    0 <= u < w,
                    0 <= x < w,
                    u != x || v != y,
            ;
        }
    }

    /// A blank buffer of a given size; none where the size is beyond what
    /// the machine can address.
    pub fn new(width: u32, height: u32) -> (r: Option<Film>)
        ensures
            r is Some <==> 3 * width * height <= usize::MAX,
            r matches Some(film) ==> {
                &&& film.spec_width() == width
                &&& film.spec_height() == height
                &&& film.well_formed()
                &&& film.blank()
            },
    {
        let w: usize = width as usize;
        let h: usize = height as usize;
        let pixels: usize = match w.checked_mul(h) {
            Some(p) => p,
            None => {
                proof {
                    assert(3 * w * h >= w * h) by (nonlinear_arith)
                        requires
                            0 <= w,
                            0 <= h,
                    ;
                }
                return None;
            },
        };
        let count: usize = match pixels.checked_mul(3) {
            Some(c) => c,
            None => {
                proof {
                    assert(3 * w * h == (w * h) * 3) by (nonlinear_arith);
                }
                return None;
            },
        };
        proof {
            assert(3 * w * h == (w * h) * 3) by (nonlinear_arith);
        }
        let mut radiance: Vec<Scalar> = Vec::new();
        let mut i: usize = 0;
        while i < count
            invariant
                i <= count,
                radiance.len() == i,
                forall|j: int| 0 <= j < i ==> radiance[j] == Scalar::spec_zero(),
            decreases count - i,
        {
            radiance.push(Scalar::zero());
            i = i + 1;
        }
        Some(Film { width: w, height: h, samples: 0, radiance })
    }

    /// The number of pixels in a row.
    #[verifier::when_used_as_spec(spec_width)]
    pub fn width(&self) -> (r: usize)
        ensures
            r == self.spec_width(),
    {
        self.width
    }

    /// The number of rows.
    #[verifier::when_used_as_spec(spec_height)]
    pub fn height(&self) -> (r: usize)
        ensures
            r == self.spec_height(),
    {
        self.height
    }

    /// The samples gathered per pixel since the buffer was last blank.
    #[verifier::when_used_as_spec(spec_samples)]
    pub fn samples(&self) -> (r: u32)
        ensures
            r == self.spec_samples(),
    {
        self.samples
    }

    /// The radiance gathered at the pixel in column `x` of row `y`.
    pub fn pixel(&self, x: usize, y: usize) -> (r: Vec3)
        requires
            x < self.spec_width(),
            y < self.spec_height(),
        ensures
            self.well_formed(),
            r == self.pixel_at(x as int, y as int),
    {
        proof {
            use_type_invariant(self);
            self.lemma_offset(x as int, y as int);
            lemma_row_fits(self.width as int, self.height as int, x as int, y as int);
        }
        let at: usize = (y * self.width + x) * 3;
        Vec3::new(self.radiance[at], self.radiance[at + 1], self.radiance[at + 2])
    }

    /// Puts a new sum at the pixel in column `x` of row `y`. Every other
    /// pixel and the count of samples stay as they are.
    pub fn set_pixel(&mut self, x: usize, y: usize, value: Vec3)
        requires
            x < old(self).spec_width(),
            y < old(self).spec_height(),
        ensures
            final(self).well_formed(),
            final(self).spec_width() == old(self).spec_width(),
            final(self).spec_height() == old(self).spec_height(),
            final(self).spec_samples() == old(self).spec_samples(),
            final(self).pixel_at(x as int, y as int) == value,
            forall|u: int, v: int|
                0 <= u < old(self).spec_width() && 0 <= v < old(self).spec_height() && (u != x || v
                    != y) ==> #[trigger] final(self).pixel_at(u, v) == old(self).pixel_at(u, v),
    {
        proof {
            use_type_invariant(&*self);
            self.lemma_offset(x as int, y as int);
            lemma_row_fits(self.width as int, self.height as int, x as int, y as int);
        }
        let at: usize = (y * self.width + x) * 3;
        self.radiance[at] = value.x;
        self.radiance[at + 1] = value.y;
        self.radiance[at + 2] = value.z;
        proof {
            assert forall|u: int, v: int|
                0 <= u < old(self).spec_width() && 0 <= v < old(self).spec_height() && (u != x || v
                    != y) implies #[trigger] self.pixel_at(u, v) == old(self).pixel_at(u, v) by {
                old(self).lemma_offset(u, v);
                assert(self.offset(u, v) == old(self).offset(u, v));
            }
        }
    }

    /// Counts the samples of a frame, `count` for each pixel. The count
    /// stops at the largest number it can hold.
    pub fn record(&mut self, count: u32)
        ensures
            final(self)@ == old(self)@,
            final(self).spec_width() == old(self).spec_width(),
            final(self).spec_height() == old(self).spec_height(),
            final(self).spec_samples() == if old(self).spec_samples() + count > u32::MAX {
                u32::MAX
            } else {
                (old(self).spec_samples() + count) as u32
            },
    {
        proof {
            use_type_invariant(&*self);
        }
        self.samples = self.samples.saturating_add(count);
    }

    /// Clears the buffer: every number becomes `0.0` and the count of
    /// samples zero. The size stays.
    pub fn reset(&mut self)
        ensures
            final(self).blank(),
            final(self).well_formed(),
            final(self).spec_width() == old(self).spec_width(),
            final(self).spec_height() == old(self).spec_height(),
    {
        proof {
            use_type_invariant(&*self);
        }
        let count: usize = self.radiance.len();
        let mut i: usize = 0;
        while i < count
            invariant
                i <= count,
                self.radiance.len() == count,
                count == 3 * self.width * self.height,
                self.width == old(self).width,
                self.height == old(self).height,
                forall|j: int| 0 <= j < i ==> self.radiance[j] == Scalar::spec_zero(),
            decreases count - i,
        {
            self.radiance[i] = Scalar::zero();
            i = i + 1;
        }
        self.samples = 0;
    }

    /// Whether nothing has been gathered since the buffer was last cleared.
    pub fn is_blank(&self) -> (r: bool)
        ensures
            r == self.blank(),
    {
        if self.samples != 0 {
            return false;
        }
        let mut i: usize = 0;
        while i < self.radiance.len()
            invariant
                i <= self.radiance.len(),
                forall|j: int| 0 <= j < i ==> self.radiance[j] == Scalar::spec_zero(),
            decreases self.radiance.len() - i,
        {
            if self.radiance[i].to_bits() != 0 {
                assert(self@[i as int] != Scalar::spec_zero());
                return false;
            }
            i = i + 1;
        }
        true
    }

    /// The greatest number in the buffer, and `0.0` for a buffer without
    /// pixels: the radiance against which the picture is toned down.
    pub fn peak(&self) -> (r: Scalar)
        ensures
            r == peak_of(self@),
            forall|i: int|
                0 <= i < self@.len() && !(#[trigger] self@[i]).spec_is_nan() ==> self@[i].spec_le(r),
            self@.len() > 0 ==> exists|i: int| 0 <= i < self@.len() && #[trigger] self@[i] == r,
    {
        if self.radiance.len() == 0 {
            return Scalar::zero();
        }
        let mut best: Scalar = self.radiance[0];
        let mut i: usize = 1;
        proof {
            assert(self.radiance@.take(1).len() == 1);
        }
        while i < self.radiance.len()
            invariant
                1 <= i <= self.radiance.len(),
                best == peak_of(self.radiance@.take(i as int)),
            decreases self.radiance.len() - i,
        {
            proof {
                assert(self.radiance@.take(i + 1).drop_last() =~= self.radiance@.take(i as int));
            }
            best = best.max(self.radiance[i]);
            i = i + 1;
        }
        proof {
            assert(self.radiance@.take(i as int) =~= self.radiance@);
            lemma_peak_of(self.radiance@);
        }
        best
    }
}

} // verus!
