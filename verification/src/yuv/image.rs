//! The planes of an image, ready to be converted pixel by pixel.
use crate::output::{ByteOrder, RgbaSampleOutput, SampleScale};
use crate::scaling::chroma_midpoint;
#[allow(unused_imports)]
use crate::scaling::midpoint;
#[allow(unused_imports)]
use crate::transform::pixels::{index_of, lemma_index_of, place_of};
use crate::transform::plan::RgbaTransformPlan;
use crate::ycbcr::PreparedYcbcrToRgb;
#[allow(unused_imports)]
use crate::ycbcr::{converts, kernel_ready, settled};
use vstd::prelude::*;

verus! {

/// Samples of eight or sixteen bits.
#[derive(Clone, Copy)]
pub enum SampleSlice<'a> {
    U8(&'a [u8]),
    U16(&'a [u16]),
}

impl<'a> View for SampleSlice<'a> {
    type V = Seq<u16>;

    open spec fn view(&self) -> Seq<u16> {
        match self {
            SampleSlice::U8(samples) => samples@.map_values(|sample: u8| sample as u16),
            SampleSlice::U16(samples) => samples@,
        }
    }
}

impl<'a> SampleSlice<'a> {
    /// The number of samples.
    pub fn count(&self) -> (count: usize)
        ensures
            count == self@.len(),
    {
        match self {
            SampleSlice::U8(samples) => samples.len(),
            SampleSlice::U16(samples) => samples.len(),
        }
    }

    /// One of the samples.
    pub fn get(&self, index: usize) -> (sample: u16)
        requires
            index < self@.len(),
        ensures
            sample == self@[index as int],
    {
        match self {
            SampleSlice::U8(samples) => samples[index] as u16,
            SampleSlice::U16(samples) => samples[index],
        }
    }
}

/// The chroma samples of an image. Each stands for `across` by `down` pixels.
pub struct Chroma {
    pub u: Seq<u16>,
    pub v: Seq<u16>,
    pub width: int,
    pub across: int,
    pub down: int,
}

/// The opacity of an image.
pub struct Opacity {
    pub bit_depth: u8,
    pub samples: Seq<u16>,
}

/// An image of luma and chroma planes.
pub struct YuvImage {
    pub width: u32,
    pub height: u32,
    pub luma: Seq<u16>,
    pub chroma: Option<Chroma>,
    pub converter: PreparedYcbcrToRgb,
    /// Luma is copied as it is.
    pub verbatim: bool,
    pub opacity: Option<Opacity>,
}

/// How many chroma samples stand for `size` pixels in a row.
pub open spec fn chroma_size(size: int, shared: int) -> int {
    (size + shared - 1) / shared
}

impl YuvImage {
    /// The number of pixels.
    pub open spec fn pixels(self) -> int {
        self.width * self.height
    }

    /// Every plane has its samples, and the bit depths are in range.
    pub open spec fn wf(self) -> bool {
        &&& self.luma.len() == self.pixels()
        &&& self.pixels() <= usize::MAX
        &&& self.converter.wf()
        &&& 1 <= self.converter.bit_depth
        &&& self.chroma matches Some(chroma) ==> {
            &&& 1 <= chroma.across <= 2
            &&& 1 <= chroma.down <= 2
            &&& chroma.width == chroma_size(self.width as int, chroma.across)
            &&& chroma.u.len() == chroma.width * chroma_size(self.height as int, chroma.down)
            &&& chroma.v.len() == chroma.u.len()
            &&& chroma.u.len() <= usize::MAX
        }
        &&& self.opacity matches Some(opacity) ==> {
            &&& 1 <= opacity.bit_depth <= 16
            &&& opacity.samples.len() == self.pixels()
        }
    }

    /// The two chroma samples of a pixel.
    pub open spec fn chroma_at(self, place: (int, int)) -> (int, int) {
        match self.chroma {
            None => (
                midpoint(self.converter.bit_depth),
                midpoint(self.converter.bit_depth),
            ),
            Some(chroma) => {
                let index = index_of(
                    (place.0 / chroma.across, place.1 / chroma.down),
                    chroma.width,
                );
                (chroma.u[index] as int, chroma.v[index] as int)
            },
        }
    }

    /// Whether the colour of a pixel is `rgb`.
    pub open spec fn rgb_is<F: Fn(PreparedYcbcrToRgb, i32, i32, i32) -> (u16, u16, u16)>(
        self,
        float_kernel: F,
        place: (int, int),
        rgb: (u16, u16, u16),
    ) -> bool {
        let luma = self.luma[index_of(place, self.width as int)];
        if self.verbatim {
            let grey = if luma > 255 {
                255u16
            } else {
                luma
            };
            rgb == (grey, grey, grey)
        } else {
            let (cb, cr) = self.chroma_at(place);
            converts(self.converter, float_kernel, luma as i32, cb as i32, cr as i32, rgb)
        }
    }

    /// Whether a pixel has one colour: one that is shown as it is has, and one
    /// whose conversion makes one colour of a sample.
    pub open spec fn settled<F: Fn(PreparedYcbcrToRgb, i32, i32, i32) -> (u16, u16, u16)>(
        self,
        float_kernel: F,
    ) -> bool {
        self.verbatim || settled(self.converter, float_kernel)
    }

    /// The opacity of a pixel, scaled.
    pub open spec fn scaled_opacity<T: Copy, S: SampleScale<T>>(self, place: (int, int)) -> T {
        match self.opacity {
            None => S::opaque_value(),
            Some(opacity) => S::scaled(
                opacity.samples[index_of(place, self.width as int)],
                opacity.bit_depth,
            ),
        }
    }

    /// Whether the first `channels` of red, green, blue and opacity of a
    /// pixel, scaled, are the samples from `start` on.
    pub open spec fn shows<
        T: Copy,
        S: SampleScale<T>,
        F: Fn(PreparedYcbcrToRgb, i32, i32, i32) -> (u16, u16, u16),
    >(
        self,
        float_kernel: F,
        place: (int, int),
        channels: int,
        samples: Seq<T>,
        start: int,
    ) -> bool {
        let depth = self.converter.bit_depth;
        &&& exists|rgb: (u16, u16, u16)|
            {
                &&& #[trigger] self.rgb_is(float_kernel, place, rgb)
                &&& samples[start] == S::scaled(rgb.0, depth)
                &&& samples[start + 1] == S::scaled(rgb.1, depth)
                &&& samples[start + 2] == S::scaled(rgb.2, depth)
            }
        &&& channels == 4 ==> samples[start + 3] == self.scaled_opacity::<T, S>(place)
    }

    /// Whether `samples` show an image of `size` that takes each pixel from a
    /// place of this one.
    pub open spec fn shown_as<
        T: Copy,
        S: SampleScale<T>,
        F: Fn(PreparedYcbcrToRgb, i32, i32, i32) -> (u16, u16, u16),
    >(
        self,
        float_kernel: F,
        channels: int,
        samples: Seq<T>,
        width: int,
        count: int,
        from: spec_fn((int, int)) -> (int, int),
    ) -> bool {
        forall|k: int|
            0 <= k < count ==> self.shows::<T, S, F>(
                float_kernel,
                from(#[trigger] place_of(k, width)),
                channels,
                samples,
                channels * k,
            )
    }
}

/// The chroma planes of an image.
#[derive(Clone, Copy)]
pub struct ChromaPlanes<'a> {
    pub u: SampleSlice<'a>,
    pub v: SampleSlice<'a>,
    pub width: usize,
    pub across: usize,
    pub down: usize,
}

/// The opacity plane of an image.
#[derive(Clone, Copy)]
pub struct OpacityPlane<'a> {
    pub bit_depth: u8,
    pub samples: SampleSlice<'a>,
}

/// The planes of an image.
#[derive(Clone, Copy)]
pub struct YuvPlanes<'a> {
    pub width: u32,
    pub height: u32,
    pub luma: SampleSlice<'a>,
    pub chroma: Option<ChromaPlanes<'a>>,
    pub converter: PreparedYcbcrToRgb,
    pub verbatim: bool,
    pub opacity: Option<OpacityPlane<'a>>,
}

impl<'a> View for YuvPlanes<'a> {
    type V = YuvImage;

    open spec fn view(&self) -> YuvImage {
        YuvImage {
            width: self.width,
            height: self.height,
            luma: self.luma@,
            chroma: match self.chroma {
                None => None,
                Some(chroma) => Some(
                    Chroma {
                        u: chroma.u@,
                        v: chroma.v@,
                        width: chroma.width as int,
                        across: chroma.across as int,
                        down: chroma.down as int,
                    },
                ),
            },
            converter: self.converter,
            verbatim: self.verbatim,
            opacity: match self.opacity {
                None => None,
                Some(opacity) => Some(
                    Opacity { bit_depth: opacity.bit_depth, samples: opacity.samples@ },
                ),
            },
        }
    }
}

/// A chroma sample stands for the pixels that share it.
pub proof fn lemma_chroma_place(position: int, size: int, shared: int)
    requires
        0 <= position < size,
        1 <= shared <= 2,
    ensures
        0 <= position / shared < chroma_size(size, shared),
{
    if shared == 1 {
        assert(position / 1 == position && size / 1 == size);
    } else {
        assert(position / 2 < (size + 1) / 2);
    }
}

impl<'a> YuvPlanes<'a> {
    /// The colour of a pixel.
    pub fn rgb_at<F: Fn(PreparedYcbcrToRgb, i32, i32, i32) -> (u16, u16, u16)>(
        &self,
        x: usize,
        y: usize,
        float_kernel: &F,
    ) -> (rgb: (u16, u16, u16))
        requires
            self@.wf(),
            kernel_ready(*float_kernel),
            x < self.width,
            y < self.height,
        ensures
            self@.rgb_is(*float_kernel, (x as int, y as int), rgb),
    {
        let width: usize = self.width as usize;
        proof {
            lemma_index_of((x as int, y as int), self.width as int, self.height as int);
            assert(0 <= y * width) by (nonlinear_arith);
        }
        let luma: u16 = self.luma.get(y * width + x);
        if self.verbatim {
            let grey: u16 = if luma > 255 {
                255
            } else {
                luma
            };
            return (grey, grey, grey);
        }
        let (cb, cr): (i32, i32) = match &self.chroma {
            None => {
                let middle: i32 = chroma_midpoint(self.converter.bit_depth);
                proof {
                    vstd::arithmetic::power2::lemma2_to64();
                    if self.converter.bit_depth < 16 {
                        vstd::arithmetic::power2::lemma_pow2_strictly_increases(
                            (self.converter.bit_depth - 1) as nat,
                            15,
                        );
                    }
                }
                (middle, middle)
            },
            Some(chroma) => {
                proof {
                    lemma_chroma_place(x as int, self.width as int, chroma.across as int);
                    lemma_chroma_place(y as int, self.height as int, chroma.down as int);
                    lemma_index_of(
                        (x as int / chroma.across as int, y as int / chroma.down as int),
                        chroma.width as int,
                        chroma_size(self.height as int, chroma.down as int),
                    );
                    assert(0 <= (y as int / chroma.down as int) * chroma.width)
                        by (nonlinear_arith)
                        requires
                            0 <= y as int / chroma.down as int,
                            0 <= chroma.width,
                    ;
                }
                let index: usize = (y / chroma.down) * chroma.width + x / chroma.across;
                (chroma.u.get(index) as i32, chroma.v.get(index) as i32)
            },
        };
        self.converter.convert(float_kernel, luma as i32, cb, cr)
    }

    /// The opacity of a pixel, scaled.
    pub fn opacity_at<T: Copy, S: SampleScale<T>>(&self, x: usize, y: usize) -> (opacity: T)
        requires
            self@.wf(),
            x < self.width,
            y < self.height,
        ensures
            opacity == self@.scaled_opacity::<T, S>((x as int, y as int)),
    {
        match &self.opacity {
            None => S::opaque(),
            Some(opacity) => {
                let width: usize = self.width as usize;
                proof {
                    lemma_index_of((x as int, y as int), self.width as int, self.height as int);
                    assert(0 <= y * width) by (nonlinear_arith);
                }
                S::scale(opacity.samples.get(y * width + x), opacity.bit_depth)
            },
        }
    }

    /// Stores the samples of a pixel.
    fn write_pixel<
        T: Copy,
        S: SampleScale<T>,
        O: RgbaSampleOutput<T> + ?Sized,
        F: Fn(PreparedYcbcrToRgb, i32, i32, i32) -> (u16, u16, u16),
    >(
        &self,
        x: usize,
        y: usize,
        float_kernel: &F,
        channels: usize,
        out: &mut O,
        order: ByteOrder,
        start: usize,
    )
        requires
            self@.wf(),
            kernel_ready(*float_kernel),
            x < self.width,
            y < self.height,
            3 <= channels <= 4,
            start + channels <= old(out).samples(order).len(),
            old(out).samples(order).len() <= usize::MAX,
        ensures
            final(out).samples(order).len() == old(out).samples(order).len(),
            final(out).rest() == old(out).rest(),
            forall|i: int|
                0 <= i < old(out).samples(order).len() && (i < start || start + channels <= i)
                    ==> #[trigger] final(out).samples(order)[i] == old(out).samples(order)[i],
            self@.shows::<T, S, F>(
                *float_kernel,
                (x as int, y as int),
                channels as int,
                final(out).samples(order),
                start as int,
            ),
    {
        let rgb: (u16, u16, u16) = self.rgb_at(x, y, float_kernel);
        let depth: u8 = self.converter.bit_depth;
        let red: T = S::scale(rgb.0, depth);
        let green: T = S::scale(rgb.1, depth);
        let blue: T = S::scale(rgb.2, depth);
        out.write_sample(order, start, red);
        out.write_sample(order, start + 1, green);
        out.write_sample(order, start + 2, blue);
        if channels == 4 {
            let opacity: T = self.opacity_at::<T, S>(x, y);
            out.write_sample(order, start + 3, opacity);
        }
        assert(self@.rgb_is(*float_kernel, (x as int, y as int), rgb));
    }

    /// Stores the image that takes its pixels from this one by a plan.
    pub fn write_transformed<
        T: Copy,
        S: SampleScale<T>,
        O: RgbaSampleOutput<T> + ?Sized,
        F: Fn(PreparedYcbcrToRgb, i32, i32, i32) -> (u16, u16, u16),
    >(
        &self,
        plan: &RgbaTransformPlan,
        float_kernel: &F,
        channels: usize,
        out: &mut O,
        order: ByteOrder,
    )
        requires
            self@.wf(),
            kernel_ready(*float_kernel),
            plan.wf(),
            plan.source_width == self.width,
            plan.source_height == self.height,
            3 <= channels <= 4,
            old(out).samples(order).len() == channels * (plan.destination_width
                * plan.destination_height),
            old(out).samples(order).len() <= usize::MAX,
        ensures
            final(out).samples(order).len() == old(out).samples(order).len(),
            final(out).rest() == old(out).rest(),
            self@.shown_as::<T, S, F>(
                *float_kernel,
                channels as int,
                final(out).samples(order),
                plan.destination_width as int,
                plan.destination_width * plan.destination_height,
                |place: (int, int)| plan.source_of(place),
            ),
    {
        let width: usize = plan.destination_width as usize;
        let height: usize = plan.destination_height as usize;
        let ghost total = old(out).samples(order).len();
        let ghost from = |place: (int, int)| plan.source_of(place);
        let mut y: usize = 0;
        assert(0 * width == 0);
        while y < height
            invariant
                y <= height,
                width == plan.destination_width,
                height == plan.destination_height,
                self@.wf(),
                kernel_ready(*float_kernel),
                plan.wf(),
                plan.source_width == self.width,
                plan.source_height == self.height,
                3 <= channels <= 4,
                total == channels * (plan.destination_width * plan.destination_height),
                total <= usize::MAX,
                total == old(out).samples(order).len(),
                from == (|place: (int, int)| plan.source_of(place)),
                out.samples(order).len() == total,
                out.rest() == old(out).rest(),
                self@.shown_as::<T, S, F>(
                    *float_kernel,
                    channels as int,
                    out.samples(order),
                    width as int,
                    y * width,
                    from,
                ),
            decreases height - y,
        {
            let mut x: usize = 0;
            while x < width
                invariant
                    x <= width,
                    y < height,
                    width == plan.destination_width,
                    height == plan.destination_height,
                    self@.wf(),
                    kernel_ready(*float_kernel),
                    plan.wf(),
                    plan.source_width == self.width,
                    plan.source_height == self.height,
                    3 <= channels <= 4,
                    total == channels * (plan.destination_width * plan.destination_height),
                    total <= usize::MAX,
                    total == old(out).samples(order).len(),
                    from == (|place: (int, int)| plan.source_of(place)),
                    out.samples(order).len() == total,
                    out.rest() == old(out).rest(),
                    self@.shown_as::<T, S, F>(
                        *float_kernel,
                        channels as int,
                        out.samples(order),
                        width as int,
                        y * width + x,
                        from,
                    ),
                decreases width - x,
            {
                let (source_x, source_y) = plan.source_pixel(x, y);
                let ghost count = y * width + x;
                proof {
                    lemma_index_of((x as int, y as int), width as int, height as int);
                    crate::transform::pixels::lemma_channel_bounds(
                        count,
                        width * height,
                        channels as int,
                        total as int,
                    );
                    assert(0 <= y * width) by (nonlinear_arith);
                    assert(count <= channels * count) by (nonlinear_arith)
                        requires
                            0 <= count,
                            1 <= channels,
                    ;
                    vstd::arithmetic::mul::lemma_mul_is_commutative(channels as int, count);
                }
                let start: usize = (y * width + x) * channels;
                let ghost before = out.samples(order);
                self.write_pixel::<T, S, O, F>(
                    source_x,
                    source_y,
                    float_kernel,
                    channels,
                    out,
                    order,
                    start,
                );
                proof {
                    let after = out.samples(order);
                    assert forall|k: int| 0 <= k < count + 1 implies self@.shows::<T, S, F>(
                        *float_kernel,
                        from(#[trigger] place_of(k, width as int)),
                        channels as int,
                        after,
                        channels * k,
                    ) by {
                        if k < count {
                            assert(channels * k + channels <= channels * count)
                                by (nonlinear_arith)
                                requires
                                    k + 1 <= count,
                                    0 < channels,
                            ;
                            assert(0 <= channels * k) by (nonlinear_arith)
                                requires
                                    0 <= k,
                                    0 < channels,
                            ;
                            lemma_shows_still::<T, S, F>(
                                self@,
                                *float_kernel,
                                from(place_of(k, width as int)),
                                channels as int,
                                before,
                                after,
                                channels * k,
                            );
                        } else {
                            assert(place_of(k, width as int) == (x as int, y as int));
                        }
                    }
                }
                x = x + 1;
            }
            proof {
                assert(y * width + width == (y + 1) * width) by (nonlinear_arith);
            }
            y = y + 1;
        }
        proof {
            vstd::arithmetic::mul::lemma_mul_is_commutative(height as int, width as int);
        }
    }
}

/// A pixel is still shown where its samples stay.
proof fn lemma_shows_still<
    T: Copy,
    S: SampleScale<T>,
    F: Fn(PreparedYcbcrToRgb, i32, i32, i32) -> (u16, u16, u16),
>(
    image: YuvImage,
    float_kernel: F,
    place: (int, int),
    channels: int,
    before: Seq<T>,
    after: Seq<T>,
    start: int,
)
    requires
        3 <= channels <= 4,
        image.shows::<T, S, F>(float_kernel, place, channels, before, start),
        forall|i: int| start <= i < start + channels ==> #[trigger] after[i] == before[i],
    ensures
        image.shows::<T, S, F>(float_kernel, place, channels, after, start),
{
    let depth = image.converter.bit_depth;
    let rgb = choose|rgb: (u16, u16, u16)|
        {
            &&& #[trigger] image.rgb_is(float_kernel, place, rgb)
            &&& before[start] == S::scaled(rgb.0, depth)
            &&& before[start + 1] == S::scaled(rgb.1, depth)
            &&& before[start + 2] == S::scaled(rgb.2, depth)
        };
    assert(image.rgb_is(float_kernel, place, rgb));
}

} // verus!
