//! The bit stream of an uncompressed item: bits are taken from each byte from
//! the most significant one down.
use crate::errors::{DecodeUncompressedError, InputFault};
use crate::text::{Arg, Detail};
use vstd::prelude::*;

verus! {

/// Where a reader of the stream stands: the next bit, and the bytes at which
/// the current pixel, row and tile began.
pub struct Position {
    pub bit: int,
    pub pixel_start: int,
    pub row_start: int,
    pub tile_start: int,
}

/// The bit at `pos`, counted from the most significant bit of the first byte.
pub open spec fn bit_at(data: Seq<u8>, pos: int) -> int {
    ((data[pos / 8] >> ((7 - pos % 8) as u8)) & 1u8) as int
}

/// The number that the `count` bits from `pos` on spell.
pub open spec fn bits_value(data: Seq<u8>, pos: int, count: nat) -> int
    decreases count,
{
    if count == 0 {
        0
    } else {
        2 * bits_value(data, pos, (count - 1) as nat) + bit_at(data, pos + count - 1)
    }
}

/// The number of bits of the stream.
pub open spec fn total_bits(data: Seq<u8>) -> int {
    8 * (data.len() as int)
}

/// `value` rounded up to a multiple of `alignment`; an alignment of zero asks
/// for none.
pub open spec fn align_up(value: int, alignment: int) -> int {
    if alignment == 0 || value % alignment == 0 {
        value
    } else {
        value + (alignment - value % alignment)
    }
}

/// An invalid-input error.
pub open spec fn invalid(detail: Detail) -> DecodeUncompressedError {
    DecodeUncompressedError::InvalidInput { detail: InputFault::Template(detail) }
}

/// An unsupported-feature error.
pub open spec fn unsupported(detail: Detail) -> DecodeUncompressedError {
    DecodeUncompressedError::UnsupportedFeature { detail }
}

impl Position {
    /// The beginning of the stream.
    pub open spec fn start() -> Position {
        Position { bit: 0, pixel_start: 0, row_start: 0, tile_start: 0 }
    }

    /// The byte that holds the next bit.
    pub open spec fn byte(self) -> int {
        self.bit / 8
    }

    /// Moves to the next byte boundary.
    pub open spec fn to_byte_boundary(self) -> Position {
        Position { bit: align_up(self.bit, 8), ..self }
    }

    /// Moves `bits` bits on.
    pub open spec fn skip_bits(self, data: Seq<u8>, bits: int) -> Result<
        Position,
        DecodeUncompressedError,
    > {
        if total_bits(data) > usize::MAX {
            Err(invalid(Detail::Plain("uncompressed payload bit-length overflow")))
        } else if self.bit + bits > usize::MAX {
            Err(invalid(Detail::Plain("uncompressed payload bit cursor overflow")))
        } else if self.bit + bits > total_bits(data) {
            Err(
                invalid(
                    Detail::Two(
                        "uncompressed payload is truncated while skipping {} bits (only {} bits remain)",
                        Arg::Num(bits as i128),
                        Arg::Num((total_bits(data) - self.bit) as i128),
                    ),
                ),
            )
        } else {
            Ok(Position { bit: self.bit + bits, ..self })
        }
    }

    /// Moves `bytes` bytes on.
    pub open spec fn skip_bytes(self, data: Seq<u8>, bytes: int) -> Result<
        Position,
        DecodeUncompressedError,
    > {
        if bytes * 8 > usize::MAX {
            Err(invalid(Detail::Plain("uncompressed payload byte-skip overflow")))
        } else {
            self.skip_bits(data, bytes * 8)
        }
    }

    /// Moves past a number of `count` bits.
    pub open spec fn read_bits(self, data: Seq<u8>, count: int) -> Result<
        Position,
        DecodeUncompressedError,
    > {
        if count == 0 || count > 16 {
            Err(
                invalid(
                    Detail::One(
                        "unsupported uncompressed component bit depth {}, expected 1..=16",
                        Arg::Num(count as i128),
                    ),
                ),
            )
        } else if total_bits(data) > usize::MAX {
            Err(invalid(Detail::Plain("uncompressed payload bit-length overflow")))
        } else if self.bit + count > usize::MAX {
            Err(invalid(Detail::Plain("uncompressed payload bit cursor overflow")))
        } else if self.bit + count > total_bits(data) {
            Err(
                invalid(
                    Detail::Two(
                        "uncompressed payload is truncated while reading {}-bit sample (only {} bits remain)",
                        Arg::Num(count as i128),
                        Arg::Num((total_bits(data) - self.bit) as i128),
                    ),
                ),
            )
        } else {
            Ok(Position { bit: self.bit + count, ..self })
        }
    }

    /// Pads the current pixel to `pixel_size` bytes; zero asks for no padding.
    pub open spec fn pixel_aligned(self, data: Seq<u8>, pixel_size: int) -> Result<
        Position,
        DecodeUncompressedError,
    > {
        let used = self.byte() - self.pixel_start;
        if pixel_size == 0 || pixel_size == used {
            Ok(self)
        } else if pixel_size > used {
            self.skip_bytes(data, pixel_size - used)
        } else {
            Err(
                invalid(
                    Detail::Two(
                        "uncC pixel_size {} is smaller than decoded pixel payload ({} bytes)",
                        Arg::Num(pixel_size as i128),
                        Arg::Num(used as i128),
                    ),
                ),
            )
        }
    }

    /// Ends the current row: at a byte boundary, and with the row's length a
    /// multiple of `alignment` bytes.
    pub open spec fn row_aligned(self, data: Seq<u8>, alignment: int) -> Result<
        Position,
        DecodeUncompressedError,
    > {
        let at = self.to_byte_boundary();
        let used = at.byte() - at.row_start;
        if alignment == 0 || used % alignment == 0 {
            Ok(at)
        } else {
            at.skip_bytes(data, alignment - used % alignment)
        }
    }

    /// Ends the current tile, with its length a multiple of `alignment` bytes.
    pub open spec fn tile_aligned(self, data: Seq<u8>, alignment: int) -> Result<
        Position,
        DecodeUncompressedError,
    > {
        let used = self.byte() - self.tile_start;
        if alignment == 0 || used % alignment == 0 {
            Ok(self)
        } else {
            self.skip_bytes(data, alignment - used % alignment)
        }
    }
}

/// Builds an invalid-input error.
pub fn invalid_input<T>(detail: Detail) -> (error: Result<T, DecodeUncompressedError>)
    ensures
        error == Err::<T, DecodeUncompressedError>(invalid(detail)),
{
    Err(DecodeUncompressedError::InvalidInput { detail: InputFault::Template(detail) })
}

/// Builds an unsupported-feature error.
pub fn unsupported_feature<T>(detail: Detail) -> (error: Result<T, DecodeUncompressedError>)
    ensures
        error == Err::<T, DecodeUncompressedError>(unsupported(detail)),
{
    Err(DecodeUncompressedError::UnsupportedFeature { detail })
}

/// Reads numbers of up to sixteen bits from the stream.
pub struct UncompressedBitReader<'a> {
    data: &'a [u8],
    bit_offset: usize,
    pixel_start_byte: usize,
    row_start_byte: usize,
    tile_start_byte: usize,
}

impl<'a> UncompressedBitReader<'a> {
    /// The bytes of the stream.
    pub closed spec fn bytes(&self) -> Seq<u8> {
        self.data@
    }

    /// Where the reader stands.
    pub closed spec fn position(&self) -> Position {
        Position {
            bit: self.bit_offset as int,
            pixel_start: self.pixel_start_byte as int,
            row_start: self.row_start_byte as int,
            tile_start: self.tile_start_byte as int,
        }
    }

    /// The reader stands within the stream, behind the marks that it set.
    pub open spec fn wf(&self) -> bool {
        let p = self.position();
        &&& self.bytes().len() <= usize::MAX
        &&& 0 <= p.bit <= total_bits(self.bytes())
        &&& total_bits(self.bytes()) > usize::MAX ==> p.bit == 0
        &&& 0 <= p.pixel_start <= p.byte()
        &&& 0 <= p.row_start <= p.byte()
        &&& 0 <= p.tile_start <= p.byte()
    }

    /// A reader at the beginning of `data`.
    pub fn new(data: &'a [u8]) -> (reader: UncompressedBitReader<'a>)
        ensures
            reader.wf(),
            reader.bytes() == data@,
            reader.position() == Position::start(),
    {
        let ghost length = data.len();
        UncompressedBitReader {
            data,
            bit_offset: 0,
            pixel_start_byte: 0,
            row_start_byte: 0,
            tile_start_byte: 0,
        }
    }

    /// Notes that a pixel begins here.
    pub fn mark_pixel_start(&mut self)
        requires
            old(self).wf(),
        ensures
            final(self).wf(),
            final(self).bytes() == old(self).bytes(),
            final(self).position() == (Position {
                pixel_start: old(self).position().byte(),
                ..old(self).position()
            }),
    {
        self.pixel_start_byte = self.current_byte_index();
    }

    /// Notes that a row begins here.
    pub fn mark_row_start(&mut self)
        requires
            old(self).wf(),
        ensures
            final(self).wf(),
            final(self).bytes() == old(self).bytes(),
            final(self).position() == (Position {
                row_start: old(self).position().byte(),
                ..old(self).position()
            }),
    {
        self.row_start_byte = self.current_byte_index();
    }

    /// Notes that a tile begins here.
    pub fn mark_tile_start(&mut self)
        requires
            old(self).wf(),
        ensures
            final(self).wf(),
            final(self).bytes() == old(self).bytes(),
            final(self).position() == (Position {
                tile_start: old(self).position().byte(),
                ..old(self).position()
            }),
    {
        self.tile_start_byte = self.current_byte_index();
    }

    /// The byte that holds the next bit.
    pub fn current_byte_index(&self) -> (index: usize)
        ensures
            index == self.position().byte(),
    {
        self.bit_offset / 8
    }

    /// Moves to the next byte boundary.
    pub fn skip_to_byte_boundary(&mut self)
        requires
            old(self).wf(),
        ensures
            final(self).wf(),
            final(self).bytes() == old(self).bytes(),
            final(self).position() == old(self).position().to_byte_boundary(),
    {
        let residual: usize = self.bit_offset % 8;
        if residual != 0 {
            self.bit_offset = self.bit_offset + (8 - residual);
        }
    }

    /// Moves `bits` bits on.
    pub fn skip_bits(&mut self, bits: usize) -> (result: Result<(), DecodeUncompressedError>)
        requires
            old(self).wf(),
        ensures
            final(self).wf(),
            final(self).bytes() == old(self).bytes(),
            match old(self).position().skip_bits(old(self).bytes(), bits as int) {
                Ok(p) => result is Ok && final(self).position() == p,
                Err(e) => result == Err::<(), DecodeUncompressedError>(e) && final(self).position()
                    == old(self).position(),
            },
    {
        let total_bits: usize = match self.data.len().checked_mul(8) {
            Some(total) => total,
            None => {
                return invalid_input(Detail::Plain("uncompressed payload bit-length overflow"));
            },
        };
        let next_offset: usize = match self.bit_offset.checked_add(bits) {
            Some(next) => next,
            None => {
                return invalid_input(Detail::Plain("uncompressed payload bit cursor overflow"));
            },
        };
        if next_offset > total_bits {
            return invalid_input(
                Detail::Two(
                    "uncompressed payload is truncated while skipping {} bits (only {} bits remain)",
                    Arg::Num(bits as i128),
                    Arg::Num((total_bits - self.bit_offset) as i128),
                ),
            );
        }
        self.bit_offset = next_offset;
        Ok(())
    }

    /// Moves `bytes` bytes on.
    pub fn skip_bytes(&mut self, bytes: usize) -> (result: Result<(), DecodeUncompressedError>)
        requires
            old(self).wf(),
        ensures
            final(self).wf(),
            final(self).bytes() == old(self).bytes(),
            match old(self).position().skip_bytes(old(self).bytes(), bytes as int) {
                Ok(p) => result is Ok && final(self).position() == p,
                Err(e) => result == Err::<(), DecodeUncompressedError>(e) && final(self).position()
                    == old(self).position(),
            },
    {
        let bits: usize = match bytes.checked_mul(8) {
            Some(bits) => bits,
            None => {
                return invalid_input(Detail::Plain("uncompressed payload byte-skip overflow"));
            },
        };
        self.skip_bits(bits)
    }

    /// Reads a number of `bit_count` bits.
    pub fn read_bits(&mut self, bit_count: usize) -> (result: Result<u16, DecodeUncompressedError>)
        requires
            old(self).wf(),
        ensures
            final(self).wf(),
            final(self).bytes() == old(self).bytes(),
            match old(self).position().read_bits(old(self).bytes(), bit_count as int) {
                Ok(p) => final(self).position() == p && result is Ok && result->Ok_0 == bits_value(
                    old(self).bytes(),
                    old(self).position().bit,
                    bit_count as nat,
                ),
                Err(e) => result == Err::<u16, DecodeUncompressedError>(e) && final(self).position() == old(self).position(),
            },
    {
        if bit_count == 0 || bit_count > 16 {
            return invalid_input(
                Detail::One(
                    "unsupported uncompressed component bit depth {}, expected 1..=16",
                    Arg::Num(bit_count as i128),
                ),
            );
        }
        let total_bits: usize = match self.data.len().checked_mul(8) {
            Some(total) => total,
            None => {
                return invalid_input(Detail::Plain("uncompressed payload bit-length overflow"));
            },
        };
        let end_offset: usize = match self.bit_offset.checked_add(bit_count) {
            Some(end) => end,
            None => {
                return invalid_input(Detail::Plain("uncompressed payload bit cursor overflow"));
            },
        };
        if end_offset > total_bits {
            return invalid_input(
                Detail::Two(
                    "uncompressed payload is truncated while reading {}-bit sample (only {} bits remain)",
                    Arg::Num(bit_count as i128),
                    Arg::Num((total_bits - self.bit_offset) as i128),
                ),
            );
        }
        let ghost data = self.bytes();
        let ghost start = self.position();
        let mut value: u16 = 0;
        let mut taken: usize = 0;
        while taken < bit_count
            invariant
                taken <= bit_count <= 16,
                data.len() == self.data@.len(),
                data == self.data@,
                self.bytes() == data,
                total_bits == 8 * data.len(),
                self.position() == (Position { bit: start.bit + taken, ..start }),
                start.bit + bit_count <= total_bits,
                self.wf(),
                value == bits_value(data, start.bit, taken as nat),
                taken == 0 ==> value < 1,
                taken == 1 ==> value < 2,
                taken == 2 ==> value < 4,
                taken == 3 ==> value < 8,
                taken == 4 ==> value < 16,
                taken == 5 ==> value < 32,
                taken == 6 ==> value < 64,
                taken == 7 ==> value < 128,
                taken == 8 ==> value < 256,
                taken == 9 ==> value < 512,
                taken == 10 ==> value < 1024,
                taken == 11 ==> value < 2048,
                taken == 12 ==> value < 4096,
                taken == 13 ==> value < 8192,
                taken == 14 ==> value < 16384,
                taken == 15 ==> value < 32768,
            decreases bit_count - taken,
        {
            let byte_index: usize = self.bit_offset / 8;
            let bit_in_byte: usize = 7 - (self.bit_offset % 8);
            let byte: u8 = self.data[byte_index];
            let bit: u8 = (byte >> (bit_in_byte as u8)) & 1;
            assert(bit <= 1) by {
                let shifted = byte >> (bit_in_byte as u8);
                assert(shifted & 1u8 <= 1) by (bit_vector);
            }
            assert(value < 32768);
            assert(((value << 1) | (bit as u16)) == 2 * value + bit) by (bit_vector)
                requires
                    value < 32768,
                    bit <= 1,
            ;
            assert(bit == bit_at(data, start.bit + taken));
            value = (value << 1) | (bit as u16);
            self.bit_offset = self.bit_offset + 1;
            taken = taken + 1;
            assert(bits_value(data, start.bit, taken as nat) == 2 * bits_value(
                data,
                start.bit,
                (taken - 1) as nat,
            ) + bit_at(data, start.bit + taken - 1));
        }
        Ok(value)
    }

    /// Pads the current pixel to `pixel_size` bytes; zero asks for no padding.
    pub fn handle_pixel_alignment(&mut self, pixel_size: u32) -> (result: Result<
        (),
        DecodeUncompressedError,
    >)
        requires
            old(self).wf(),
        ensures
            final(self).wf(),
            final(self).bytes() == old(self).bytes(),
            match old(self).position().pixel_aligned(old(self).bytes(), pixel_size as int) {
                Ok(p) => result is Ok && final(self).position() == p,
                Err(e) => result == Err::<(), DecodeUncompressedError>(e) && final(self).position()
                    == old(self).position(),
            },
    {
        if pixel_size == 0 {
            return Ok(());
        }
        let pixel_size: usize = pixel_size as usize;
        let bytes_in_pixel: usize = self.current_byte_index() - self.pixel_start_byte;
        if pixel_size > bytes_in_pixel {
            return self.skip_bytes(pixel_size - bytes_in_pixel);
        }
        if pixel_size == bytes_in_pixel {
            return Ok(());
        }
        invalid_input(
            Detail::Two(
                "uncC pixel_size {} is smaller than decoded pixel payload ({} bytes)",
                Arg::Num(pixel_size as i128),
                Arg::Num(bytes_in_pixel as i128),
            ),
        )
    }

    /// Ends the current row: at a byte boundary, and with the row's length a
    /// multiple of `alignment` bytes.
    pub fn handle_row_alignment(&mut self, alignment: u32) -> (result: Result<
        (),
        DecodeUncompressedError,
    >)
        requires
            old(self).wf(),
        ensures
            final(self).wf(),
            final(self).bytes() == old(self).bytes(),
            match old(self).position().row_aligned(old(self).bytes(), alignment as int) {
                Ok(p) => result is Ok && final(self).position() == p,
                Err(e) => result == Err::<(), DecodeUncompressedError>(e) && final(self).position()
                    == old(self).position().to_byte_boundary(),
            },
    {
        self.skip_to_byte_boundary();
        if alignment == 0 {
            return Ok(());
        }
        let alignment: usize = alignment as usize;
        let bytes_in_row: usize = self.current_byte_index() - self.row_start_byte;
        let residual: usize = bytes_in_row % alignment;
        if residual != 0 {
            return self.skip_bytes(alignment - residual);
        }
        Ok(())
    }

    /// Ends the current tile, with its length a multiple of `alignment` bytes.
    pub fn handle_tile_alignment(&mut self, alignment: u32) -> (result: Result<
        (),
        DecodeUncompressedError,
    >)
        requires
            old(self).wf(),
        ensures
            final(self).wf(),
            final(self).bytes() == old(self).bytes(),
            match old(self).position().tile_aligned(old(self).bytes(), alignment as int) {
                Ok(p) => result is Ok && final(self).position() == p,
                Err(e) => result == Err::<(), DecodeUncompressedError>(e) && final(self).position()
                    == old(self).position(),
            },
    {
        if alignment == 0 {
            return Ok(());
        }
        let alignment: usize = alignment as usize;
        let bytes_in_tile: usize = self.current_byte_index() - self.tile_start_byte;
        let residual: usize = bytes_in_tile % alignment;
        if residual != 0 {
            return self.skip_bytes(alignment - residual);
        }
        Ok(())
    }
}

} // verus!
