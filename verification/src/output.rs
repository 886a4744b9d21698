//! Where decoded samples go: how they are scaled, and how they are stored.
use crate::scaling::{scale_heic_sample_to_image_rgb8, scale_sample_to_u16, scale_sample_to_u8};
#[allow(unused_imports)]
use crate::scaling::{to_rgb8, to_u16, to_u8};
#[allow(unused_imports)]
use vstd::endian::{endianness, Endian};
use vstd::prelude::*;

verus! {

/// The order of the bytes of a number.
#[derive(Clone, Copy, Debug, PartialEq, Eq, Structural)]
pub enum ByteOrder {
    LittleEndian,
    BigEndian,
}

/// The byte order of the machine that the program runs on.
pub open spec fn machine_order() -> ByteOrder {
    match endianness() {
        Endian::Little => ByteOrder::LittleEndian,
        Endian::Big => ByteOrder::BigEndian,
    }
}

/// The number that two bytes stand for.
pub open spec fn two_bytes(order: ByteOrder, first: u8, second: u8) -> u16 {
    match order {
        ByteOrder::LittleEndian => (first + 256 * second) as u16,
        ByteOrder::BigEndian => (256 * first + second) as u16,
    }
}

/// `u16::to_ne_bytes` of the standard library: the two bytes of a number, in
/// the order of the machine. Which of the two orders that is, is left to
/// `endianness`, the name that `vstd` has for it.
#[verifier::external_body]
fn native_bytes(number: u16) -> (bytes: [u8; 2])
    ensures
        two_bytes(machine_order(), bytes@[0], bytes@[1]) == number,
{
    number.to_ne_bytes()
}

/// The byte order of the machine.
pub(crate) fn native_byte_order() -> (order: ByteOrder)
    ensures
        order == machine_order(),
{
    if native_bytes(1)[0] == 1 {
        ByteOrder::LittleEndian
    } else {
        ByteOrder::BigEndian
    }
}

/// A way to scale samples for the output.
pub trait SampleScale<T: Copy> {
    /// A sample of some bit depth, scaled.
    spec fn scaled(sample: u16, bit_depth: u8) -> T;

    /// The value of full opacity.
    spec fn opaque_value() -> T;

    /// Scales a sample.
    fn scale(sample: u16, bit_depth: u8) -> (scaled: T)
        requires
            1 <= bit_depth <= 16,
        ensures
            scaled == Self::scaled(sample, bit_depth),
    ;

    /// The value of full opacity.
    fn opaque() -> (value: T)
        ensures
            value == Self::opaque_value(),
    ;
}

/// Scaling to eight bits.
pub struct ScaleToU8;

impl SampleScale<u8> for ScaleToU8 {
    open spec fn scaled(sample: u16, bit_depth: u8) -> u8 {
        to_u8(sample, bit_depth)
    }

    open spec fn opaque_value() -> u8 {
        255
    }

    fn scale(sample: u16, bit_depth: u8) -> (scaled: u8) {
        scale_sample_to_u8(sample, bit_depth)
    }

    fn opaque() -> (value: u8) {
        255
    }
}

/// Scaling to sixteen bits.
pub struct ScaleToU16;

impl SampleScale<u16> for ScaleToU16 {
    open spec fn scaled(sample: u16, bit_depth: u8) -> u16 {
        to_u16(sample, bit_depth)
    }

    open spec fn opaque_value() -> u16 {
        65535
    }

    fn scale(sample: u16, bit_depth: u8) -> (scaled: u16) {
        scale_sample_to_u16(sample, bit_depth)
    }

    fn opaque() -> (value: u16) {
        65535
    }
}

/// Scaling to eight bits through sixteen where there are more than eight.
pub struct ScaleToRgb8;

impl SampleScale<u8> for ScaleToRgb8 {
    open spec fn scaled(sample: u16, bit_depth: u8) -> u8 {
        to_rgb8(sample, bit_depth)
    }

    open spec fn opaque_value() -> u8 {
        255
    }

    fn scale(sample: u16, bit_depth: u8) -> (scaled: u8) {
        scale_heic_sample_to_image_rgb8(sample, bit_depth)
    }

    fn opaque() -> (value: u8) {
        255
    }
}

/// A buffer that takes samples one by one.
pub trait RgbaSampleOutput<T: Copy> {
    /// The samples that the buffer holds.
    spec fn samples(&self, order: ByteOrder) -> Seq<T>;

    /// The bytes of the buffer that belong to no sample.
    spec fn rest(&self) -> Seq<u8>;

    /// The number of samples that the buffer holds.
    fn sample_len(&self) -> (count: usize)
        ensures
            forall|order: ByteOrder| #[trigger] self.samples(order).len() == count,
    ;

    /// Stores a sample.
    fn write_sample(&mut self, order: ByteOrder, index: usize, sample: T)
        requires
            index < old(self).samples(order).len(),
        ensures
            final(self).samples(order) == old(self).samples(order).update(index as int, sample),
            final(self).rest() == old(self).rest(),
    ;
}

impl<T: Copy> RgbaSampleOutput<T> for [T] {
    open spec fn samples(&self, order: ByteOrder) -> Seq<T> {
        self@
    }

    open spec fn rest(&self) -> Seq<u8> {
        Seq::empty()
    }

    fn sample_len(&self) -> (count: usize) {
        self.len()
    }

    fn write_sample(&mut self, order: ByteOrder, index: usize, sample: T) {
        self[index] = sample;
    }
}

/// Bytes that hold samples of sixteen bits, two for each.
pub open spec fn paired(bytes: Seq<u8>, order: ByteOrder) -> Seq<u16> {
    Seq::new(
        bytes.len() / 2,
        |i: int| two_bytes(order, bytes[2 * i], bytes[2 * i + 1]),
    )
}

/// The byte behind the pairs, where the number of bytes is odd.
pub open spec fn unpaired(bytes: Seq<u8>) -> Seq<u8> {
    bytes.skip(2 * (bytes.len() as int / 2))
}

/// Bytes are as many as make up their pairs and what is left over.
pub proof fn lemma_paired_length(bytes: Seq<u8>, order: ByteOrder)
    ensures
        bytes.len() == 2 * paired(bytes, order).len() + unpaired(bytes).len(),
{
}

/// Bytes that hold the same samples, in one order, and the same byte behind
/// them are the same bytes.
pub proof fn lemma_same_pairs(left: Seq<u8>, right: Seq<u8>, order: ByteOrder)
    requires
        paired(left, order) == paired(right, order),
        unpaired(left) == unpaired(right),
    ensures
        left == right,
{
    lemma_paired_length(left, order);
    lemma_paired_length(right, order);
    let pairs = left.len() as int / 2;
    assert forall|i: int| 0 <= i < left.len() implies left[i] == right[i] by {
        if i < 2 * pairs {
            let k = i / 2;
            assert(paired(left, order)[k] == two_bytes(order, left[2 * k], left[2 * k + 1]));
            assert(paired(right, order)[k] == two_bytes(order, right[2 * k], right[2 * k + 1]));
            assert(i == 2 * k || i == 2 * k + 1);
        } else {
            assert(unpaired(left)[i - 2 * pairs] == left[i]);
            assert(unpaired(right)[i - 2 * pairs] == right[i]);
        }
    }
    assert(left =~= right);
}

impl RgbaSampleOutput<u16> for [u8] {
    open spec fn samples(&self, order: ByteOrder) -> Seq<u16> {
        paired(self@, order)
    }

    open spec fn rest(&self) -> Seq<u8> {
        unpaired(self@)
    }

    fn sample_len(&self) -> (count: usize) {
        self.len() / 2
    }

    fn write_sample(&mut self, order: ByteOrder, index: usize, sample: u16) {
        let ghost before = self@;
        let ghost total = self.len();
        let low: u8 = (sample % 256) as u8;
        let high: u8 = (sample / 256) as u8;
        let (first, second): (u8, u8) = match order {
            ByteOrder::LittleEndian => (low, high),
            ByteOrder::BigEndian => (high, low),
        };
        self[2 * index] = first;
        self[2 * index + 1] = second;
        assert(paired(self@, order) =~= paired(before, order).update(index as int, sample));
        assert(unpaired(self@) =~= unpaired(before));
    }
}

} // verus!
