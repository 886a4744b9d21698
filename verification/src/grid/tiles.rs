//! The tiles of a grid, converted one by one and pasted onto a canvas.
#[allow(unused_imports)]
use super::canvas::{
    converted_tile, lemma_paint, lemma_paint_outside, painted, pixel_shown, untouched, with_tile,
    GridView,
};
#[allow(unused_imports)]
use super::layout::{alignment_error, mismatch_error, origin_error};
use super::layout::{
    heic_grid_tile_origin, validate_decoded_heic_grid_tile_reference,
    validate_heic_grid_tile_origin_alignment, HeicGridDescriptor, HeicGridTileReference,
};
use crate::errors::DecodeHeicError;
#[allow(unused_imports)]
use crate::errors::first;
use crate::output::{ByteOrder, RgbaSampleOutput, SampleScale};
#[allow(unused_imports)]
use crate::transform::mapping::inside;
use crate::transform::orientation::RgbaOrientationTransform;
use crate::transform::paste::{paste_planned, paste_turned, paste_upright};
#[allow(unused_imports)]
use crate::transform::paste::{own_place, pasted, plan_is_exact, planned, turned};
#[allow(unused_imports)]
use crate::transform::pixels::{
    index_of, lemma_channel_bounds, lemma_index_of, lemma_place_of, place_of,
};
use crate::transform::plan::RgbaTransformPlan;
use crate::types::{DecodedHeicImage, HeicAuxiliaryAlphaPlane};
#[allow(unused_imports)]
use crate::types::HeicView;
use crate::ycbcr::PreparedYcbcrToRgb;
#[allow(unused_imports)]
use crate::ycbcr::kernel_ready;
use crate::yuv::convert::convert_heic_owned;
#[allow(unused_imports)]
use crate::yuv::convert::owned_convert_error;
#[allow(unused_imports)]
use crate::yuv::heic::heic_image;
use vstd::prelude::*;

verus! {

/// The surface that tiles are pasted onto: the image as it is, turned and
/// mirrored, or behind its transforms.
#[derive(Clone, Copy)]
pub enum GridSurface<'a> {
    Upright { width: u32, height: u32 },
    Turned(&'a RgbaOrientationTransform),
    Planned(&'a RgbaTransformPlan),
}

impl<'a> GridSurface<'a> {
    /// The size of the image.
    pub open spec fn canvas_size(self) -> (u32, u32) {
        match self {
            GridSurface::Upright { width, height } => (width, height),
            GridSurface::Turned(map) => (map.source_width, map.source_height),
            GridSurface::Planned(plan) => (plan.source_width, plan.source_height),
        }
    }

    /// The size of the surface.
    pub open spec fn size(self) -> (u32, u32) {
        match self {
            GridSurface::Upright { width, height } => (width, height),
            GridSurface::Turned(map) => (map.destination_width, map.destination_height),
            GridSurface::Planned(plan) => (plan.destination_width, plan.destination_height),
        }
    }

    /// The place of the image that a place of the surface shows.
    pub open spec fn from(self) -> spec_fn((int, int)) -> (int, int) {
        match self {
            GridSurface::Upright { .. } => own_place(),
            GridSurface::Turned(map) => turned(*map),
            GridSurface::Planned(plan) => planned(plan),
        }
    }

    /// Every place of the surface shows one of the image.
    pub open spec fn wf(self) -> bool {
        match self {
            GridSurface::Upright { .. } => true,
            GridSurface::Turned(map) => map.wf(),
            GridSurface::Planned(plan) => plan.wf() && plan_is_exact(plan),
        }
    }

    /// Every place of the surface shows one of the image.
    pub proof fn lemma_from(self)
        requires
            self.wf(),
        ensures
            forall|place: (int, int)|
                inside(place, self.size().0, self.size().1) ==> inside(
                    #[trigger] self.from()(place),
                    self.canvas_size().0,
                    self.canvas_size().1,
                ),
    {
    }

    /// Pastes a tile.
    pub(crate) fn paste<T: Copy, O: RgbaSampleOutput<T> + ?Sized>(
        &self,
        channels: usize,
        source: &[T],
        size: (u32, u32),
        destination: &mut O,
        order: ByteOrder,
        origin: (u32, u32),
    )
        requires
            0 < channels <= 4,
            self.wf(),
            source@.len() == channels * (size.0 * size.1),
            old(destination).samples(order).len() == channels * (self.size().0 * self.size().1),
        ensures
            final(destination).rest() == old(destination).rest(),
            final(destination).samples(order) == pasted(
                channels as int,
                source@,
                size,
                old(destination).samples(order),
                self.size().0 as int,
                origin,
                self.from(),
            ),
    {
        match self {
            GridSurface::Upright { width, height } => {
                paste_upright(
                    channels,
                    source,
                    size,
                    destination,
                    order,
                    (*width, *height),
                    origin,
                );
            },
            GridSurface::Turned(map) => {
                paste_turned(channels, source, size, destination, order, map, origin);
            },
            GridSurface::Planned(plan) => {
                paste_planned(channels, source, size, destination, order, plan, origin);
            },
        }
    }
}

/// Why a tile cannot be pasted, if it cannot.
pub open spec fn tile_error(
    descriptor: HeicGridDescriptor,
    reference: HeicGridTileReference,
    tile: HeicView,
    index: int,
    channels: int,
    label: &'static str,
) -> Option<DecodeHeicError> {
    let column = index % descriptor.columns as int;
    let row = index / descriptor.columns as int;
    first(
        mismatch_error(tile, reference, index),
        first(
            owned_convert_error(converted_tile(tile, reference), channels, label),
            first(
                origin_error(reference.tile_width, reference.tile_height, row, column),
                alignment_error(
                    reference.layout,
                    (column * reference.tile_width, row * reference.tile_height),
                ),
            ),
        ),
    )
}

/// Checks a tile, converts it, and finds its place on the canvas.
pub(crate) fn convert_grid_tile<
    T: Copy,
    S: SampleScale<T>,
    F: Fn(PreparedYcbcrToRgb, i32, i32, i32) -> (u16, u16, u16),
>(
    tile: DecodedHeicImage,
    descriptor: &HeicGridDescriptor,
    reference: &HeicGridTileReference,
    tile_index: usize,
    channels: usize,
    label: &'static str,
    float_kernel: &F,
) -> (result: Result<(Vec<T>, (u32, u32)), DecodeHeicError>)
    requires
        descriptor.columns > 0,
        3 <= channels <= 4,
        kernel_ready(*float_kernel),
    ensures
        match tile_error(
            *descriptor,
            *reference,
            tile@,
            tile_index as int,
            channels as int,
            label,
        ) {
            Some(e) => result == Err::<(Vec<T>, (u32, u32)), DecodeHeicError>(e),
            None => {
                &&& result is Ok
                &&& result->Ok_0.0@.len() == channels * (tile.width * tile.height)
                &&& heic_image(converted_tile(tile@, *reference), None).shown_as::<T, S, F>(
                    *float_kernel,
                    channels as int,
                    result->Ok_0.0@,
                    tile.width as int,
                    tile.width * tile.height,
                    own_place(),
                )
                &&& placed(*descriptor, *reference, tile_index as int, result->Ok_0.1)
                &&& tile.width == reference.tile_width
                &&& tile.height == reference.tile_height
            },
        },
{
    validate_decoded_heic_grid_tile_reference(&tile, reference, tile_index)?;
    let converted: DecodedHeicImage = DecodedHeicImage {
        ycbcr_range: reference.conversion_ycbcr_range,
        ycbcr_matrix: reference.conversion_ycbcr_matrix,
        ..tile
    };
    assert(converted@ == converted_tile(tile@, *reference));
    let pixels: Vec<T> = convert_heic_owned::<T, S, F>(
        &converted,
        channels,
        true,
        label,
        label,
        float_kernel,
    )?;
    let columns: usize = descriptor.columns as usize;
    let origin: (u32, u32) = heic_grid_tile_origin(
        reference.tile_width,
        reference.tile_height,
        tile_index / columns,
        tile_index % columns,
    )?;
    validate_heic_grid_tile_origin_alignment(reference.layout, origin.0, origin.1)?;
    proof {
        assert(tile.width * tile.height * channels == channels * (tile.width * tile.height))
            by (nonlinear_arith);
    }
    Ok((pixels, origin))
}

/// Whether `origin` is the place of a tile on the canvas.
pub open spec fn placed(
    descriptor: HeicGridDescriptor,
    reference: HeicGridTileReference,
    index: int,
    origin: (u32, u32),
) -> bool {
    &&& origin.0 == (index % descriptor.columns as int) * reference.tile_width
    &&& origin.1 == (index / descriptor.columns as int) * reference.tile_height
}

/// The opacity of the pixels of a grid: that of a plane, or full.
pub open spec fn grid_opacity<T: Copy, S: SampleScale<T>>(
    alpha: Option<&HeicAuxiliaryAlphaPlane>,
    width: u32,
) -> spec_fn((int, int)) -> T {
    |place: (int, int)|
        match alpha {
            None => S::opaque_value(),
            Some(plane) => S::scaled(
                plane.samples@[index_of(place, width as int)],
                plane.bit_depth,
            ),
        }
}

/// Gives the pixels of a tile the opacity that the grid has at their places.
fn lay_alpha_over_tile<T: Copy, S: SampleScale<T>>(
    pixels: &mut Vec<T>,
    size: (u32, u32),
    origin: (u32, u32),
    alpha: &HeicAuxiliaryAlphaPlane,
    canvas_size: (u32, u32),
)
    requires
        old(pixels)@.len() == 4 * (size.0 * size.1),
        alpha.samples@.len() == canvas_size.0 * canvas_size.1,
        1 <= alpha.bit_depth <= 16,
    ensures
        final(pixels)@.len() == old(pixels)@.len(),
        forall|i: int|
            0 <= i < old(pixels)@.len() ==> #[trigger] final(pixels)@[i] == tile_sample::<T, S>(
                old(pixels)@,
                size,
                origin,
                alpha,
                canvas_size,
                i,
            ),
{
    let ghost before = pixels@;
    let width: usize = size.0 as usize;
    let total: usize = pixels.len();
    let pixel_total: usize = total / 4;
    let alpha_total: usize = alpha.samples.len();
    let mut k: usize = 0;
    while k < pixel_total
        invariant
            k <= pixel_total,
            pixel_total == size.0 * size.1,
            total == 4 * pixel_total,
            width == size.0,
            pixels@.len() == total,
            before.len() == total,
            alpha_total == alpha.samples@.len(),
            alpha.samples@.len() == canvas_size.0 * canvas_size.1,
            1 <= alpha.bit_depth <= 16,
            forall|i: int|
                0 <= i < before.len() ==> #[trigger] pixels@[i] == if i < 4 * k {
                    tile_sample::<T, S>(before, size, origin, alpha, canvas_size, i)
                } else {
                    before[i]
                },
        decreases pixel_total - k,
    {
        proof {
            lemma_place_of(k as int, size.0 as int, size.1 as int);
        }
        let x: usize = k % width;
        let y: usize = k / width;
        if x < canvas_size.0 as usize && y < canvas_size.1 as usize && origin.0 as u64 + (x as u64)
            < canvas_size.0 as u64 && origin.1 as u64 + (y as u64) < canvas_size.1 as u64 {
            let ghost place = (origin.0 + x as int, origin.1 + y as int);
            proof {
                lemma_index_of(place, canvas_size.0 as int, canvas_size.1 as int);
                assert(0 <= (origin.1 + y) * canvas_size.0) by (nonlinear_arith);
            }
            let index: usize = (origin.1 as usize + y) * canvas_size.0 as usize
                + origin.0 as usize + x;
            pixels.set(4 * k + 3, S::scale(alpha.samples[index], alpha.bit_depth));
        }
        proof {
            assert((4 * k) / 4 == k && (4 * k + 1) / 4 == k && (4 * k + 2) / 4 == k && (4 * k + 3)
                / 4 == k);
        }
        k = k + 1;
    }
}

/// A sample of a tile that has the opacity of the grid laid over it.
pub open spec fn tile_sample<T: Copy, S: SampleScale<T>>(
    pixels: Seq<T>,
    size: (u32, u32),
    origin: (u32, u32),
    alpha: &HeicAuxiliaryAlphaPlane,
    canvas_size: (u32, u32),
    i: int,
) -> T {
    let local = place_of(i / 4, size.0 as int);
    let place = (origin.0 + local.0, origin.1 + local.1);
    if i % 4 == 3 && inside(place, canvas_size.0, canvas_size.1) {
        S::scaled(alpha.samples@[index_of(place, canvas_size.0 as int)], alpha.bit_depth)
    } else {
        pixels[i]
    }
}

/// The first error that the tiles of a grid meet, in the order in which they
/// are pasted: that of decoding a tile, or of pasting it.
pub open spec fn tiles_error(
    descriptor: HeicGridDescriptor,
    reference: HeicGridTileReference,
    tiles: Seq<Result<DecodedHeicImage, DecodeHeicError>>,
    channels: int,
    label: &'static str,
    count: nat,
) -> Option<DecodeHeicError>
    decreases count,
{
    if count == 0 {
        None
    } else {
        first(
            tiles_error(descriptor, reference, tiles, channels, label, (count - 1) as nat),
            match tiles[count - 1] {
                Err(e) => Some(e),
                Ok(tile) => tile_error(
                    descriptor,
                    reference,
                    tile@,
                    count - 1,
                    channels,
                    label,
                ),
            },
        )
    }
}

/// What the decoded tiles hold.
pub open spec fn tile_views(tiles: Seq<Result<DecodedHeicImage, DecodeHeicError>>) -> Seq<
    HeicView,
> {
    Seq::new(tiles.len(), |k: int| tiles[k]->Ok_0@)
}

/// Whether a decoder gives these outcomes for the first tiles of a grid.
pub open spec fn produced<D: Fn(usize) -> Result<DecodedHeicImage, DecodeHeicError>>(
    decode_tile: D,
    tiles: Seq<Result<DecodedHeicImage, DecodeHeicError>>,
) -> bool {
    forall|k: int|
        0 <= k < tiles.len() ==> decode_tile.ensures((k as usize,), #[trigger] tiles[k])
}

/// Whether a grid of so many tiles had so many of them decoded: where it is in
/// order, at least the first.
pub open spec fn tiles_tried(
    descriptor: HeicGridDescriptor,
    tile_count: int,
    tried: int,
) -> bool {
    &&& tried <= tile_count
    &&& 0 < descriptor.output_width && 0 < descriptor.output_height && 0 < tile_count && tile_count
        == descriptor.rows * descriptor.columns ==> 0 < tried
}

/// Whether an opacity plane is one of a grid.
pub open spec fn alpha_fits(
    alpha: Option<&HeicAuxiliaryAlphaPlane>,
    descriptor: HeicGridDescriptor,
) -> bool {
    alpha matches Some(plane) ==> {
        &&& 1 <= plane.bit_depth <= 16
        &&& plane.samples@.len() == descriptor.output_width * descriptor.output_height
    }
}

/// Pastes the next tile of a grid.
fn paste_one<
    T: Copy,
    S: SampleScale<T>,
    O: RgbaSampleOutput<T> + ?Sized,
    F: Fn(PreparedYcbcrToRgb, i32, i32, i32) -> (u16, u16, u16),
>(
    tile: DecodedHeicImage,
    tile_index: usize,
    descriptor: &HeicGridDescriptor,
    reference: &HeicGridTileReference,
    surface: &GridSurface<'_>,
    out: &mut O,
    order: ByteOrder,
    alpha: Option<&HeicAuxiliaryAlphaPlane>,
    channels: usize,
    label: &'static str,
    float_kernel: &F,
    Ghost(grid): Ghost<GridView>,
    Ghost(filled): Ghost<bool>,
    Ghost(start): Ghost<Seq<T>>,
) -> (result: Result<(), DecodeHeicError>)
    requires
        3 <= channels <= 4,
        alpha is Some ==> channels == 4,
        alpha_fits(alpha, *descriptor),
        kernel_ready(*float_kernel),
        surface.wf(),
        surface.canvas_size() == (descriptor.output_width, descriptor.output_height),
        descriptor.columns > 0,
        reference.tile_width > 0,
        reference.tile_height > 0,
        grid.descriptor == *descriptor,
        grid.reference == *reference,
        grid.tiles.len() == tile_index,
        tile_index < descriptor.rows * descriptor.columns,
        painted::<T, S, F>(
            grid,
            filled,
            *float_kernel,
            channels as int,
            old(out).samples(order),
            surface.size(),
            surface.from(),
            grid_opacity::<T, S>(alpha, descriptor.output_width),
        ),
        untouched(
            grid,
            channels as int,
            start,
            old(out).samples(order),
            surface.size().0 as int,
            surface.from(),
        ),
    ensures
        final(out).samples(order).len() == old(out).samples(order).len(),
        final(out).rest() == old(out).rest(),
        match tile_error(
            *descriptor,
            *reference,
            tile@,
            tile_index as int,
            channels as int,
            label,
        ) {
            Some(e) => result == Err::<(), DecodeHeicError>(e) && final(out).samples(order) == old(
                out,
            ).samples(order),
            None => {
                &&& result is Ok
                &&& painted::<T, S, F>(
                    with_tile(grid, tile@),
                    filled,
                    *float_kernel,
                    channels as int,
                    final(out).samples(order),
                    surface.size(),
                    surface.from(),
                    grid_opacity::<T, S>(alpha, descriptor.output_width),
                )
                &&& untouched(
                    with_tile(grid, tile@),
                    channels as int,
                    start,
                    final(out).samples(order),
                    surface.size().0 as int,
                    surface.from(),
                )
            },
        },
{
    let ghost view = tile@;
    let ghost before = out.samples(order);
    let ghost canvas = surface.canvas_size();
    let size: (u32, u32) = (tile.width, tile.height);
    let (mut pixels, origin): (Vec<T>, (u32, u32)) = convert_grid_tile::<T, S, F>(
        tile,
        descriptor,
        reference,
        tile_index,
        channels,
        label,
        float_kernel,
    )?;
    let ghost image = heic_image(converted_tile(view, *reference), None);
    let ghost bare = pixels@;
    if let Some(plane) = alpha {
        lay_alpha_over_tile::<T, S>(
            &mut pixels,
            size,
            origin,
            plane,
            (descriptor.output_width, descriptor.output_height),
        );
    }
    proof {
        let opacity = grid_opacity::<T, S>(alpha, descriptor.output_width);
        assert forall|x: int, y: int|
            0 <= x < size.0 && 0 <= y < size.1 && inside(
                (origin.0 + x, origin.1 + y),
                canvas.0,
                canvas.1,
            ) implies pixel_shown::<T, S, F>(
            image,
            *float_kernel,
            (x, y),
            channels as int,
            pixels@,
            channels * #[trigger] index_of((x, y), size.0 as int),
            opacity((origin.0 + x, origin.1 + y)),
        ) by {
            let j = index_of((x, y), size.0 as int);
            lemma_index_of((x, y), size.0 as int, size.1 as int);
            lemma_channel_bounds(j, size.0 * size.1, channels as int, pixels@.len() as int);
            assert(own_place()(place_of(j, size.0 as int)) == (x, y));
            assert(image.shows::<T, S, F>(
                *float_kernel,
                (x, y),
                channels as int,
                bare,
                channels * j,
            ));
            let depth = image.converter.bit_depth;
            let start = channels * j;
            let rgb = choose|rgb: (u16, u16, u16)|
                {
                    &&& #[trigger] image.rgb_is(*float_kernel, (x, y), rgb)
                    &&& bare[start] == S::scaled(rgb.0, depth)
                    &&& bare[start + 1] == S::scaled(rgb.1, depth)
                    &&& bare[start + 2] == S::scaled(rgb.2, depth)
                };
            assert(image.rgb_is(*float_kernel, (x, y), rgb));
            if alpha is Some {
                assert((4 * j) / 4 == j && (4 * j + 1) / 4 == j && (4 * j + 2) / 4 == j && (4 * j
                    + 3) / 4 == j);
                assert(pixels@[start] == bare[start]);
                assert(pixels@[start + 1] == bare[start + 1]);
                assert(pixels@[start + 2] == bare[start + 2]);
                assert(pixels@[start + 3] == opacity((origin.0 + x, origin.1 + y)));
            }
        }
        surface.lemma_from();
    }
    surface.paste(channels, pixels.as_slice(), size, out, order, origin);
    proof {
        lemma_paint::<T, S, F>(
            grid,
            view,
            filled,
            *float_kernel,
            channels as int,
            pixels@,
            before,
            out.samples(order),
            surface.size(),
            surface.from(),
            grid_opacity::<T, S>(alpha, descriptor.output_width),
            origin,
        );
        lemma_paint_outside(
            grid,
            view,
            channels as int,
            pixels@,
            start,
            before,
            out.samples(order),
            surface.size(),
            surface.from(),
            origin,
        );
    }
    Ok(())
}

/// Pastes the tiles of a grid, the first of which is already decoded. The
/// outcomes of decoding come with the result.
pub(crate) fn paste_heic_grid_tiles<
    T: Copy,
    S: SampleScale<T>,
    O: RgbaSampleOutput<T> + ?Sized,
    D: Fn(usize) -> Result<DecodedHeicImage, DecodeHeicError>,
    F: Fn(PreparedYcbcrToRgb, i32, i32, i32) -> (u16, u16, u16),
>(
    descriptor: &HeicGridDescriptor,
    reference: &HeicGridTileReference,
    first_tile: DecodedHeicImage,
    surface: &GridSurface<'_>,
    out: &mut O,
    order: ByteOrder,
    alpha: Option<&HeicAuxiliaryAlphaPlane>,
    channels: usize,
    label: &'static str,
    tile_count: usize,
    decode_tile: &D,
    float_kernel: &F,
    Ghost(filled): Ghost<bool>,
) -> (outcome: (
    Result<(), DecodeHeicError>,
    Ghost<Seq<Result<DecodedHeicImage, DecodeHeicError>>>,
))
    requires
        3 <= channels <= 4,
        alpha is Some ==> channels == 4,
        alpha_fits(alpha, *descriptor),
        kernel_ready(*float_kernel),
        surface.wf(),
        surface.canvas_size() == (descriptor.output_width, descriptor.output_height),
        reference.tile_width > 0,
        reference.tile_height > 0,
        tile_count > 0,
        tile_count == descriptor.rows * descriptor.columns,
        forall|k: usize| k < tile_count ==> #[trigger] decode_tile.requires((k,)),
        decode_tile.ensures(
            (0usize,),
            Ok::<DecodedHeicImage, DecodeHeicError>(first_tile),
        ),
        painted::<T, S, F>(
            (GridView { descriptor: *descriptor, reference: *reference, tiles: Seq::empty() }),
            filled,
            *float_kernel,
            channels as int,
            old(out).samples(order),
            surface.size(),
            surface.from(),
            grid_opacity::<T, S>(alpha, descriptor.output_width),
        ),
    ensures
        final(out).samples(order).len() == old(out).samples(order).len(),
        final(out).rest() == old(out).rest(),
        ({
            let tiles = outcome.1@;
            &&& 1 <= tiles.len() <= tile_count
            &&& tiles[0] == Ok::<DecodedHeicImage, DecodeHeicError>(first_tile)
            &&& produced(*decode_tile, tiles)
            &&& match tiles_error(
                *descriptor,
                *reference,
                tiles,
                channels as int,
                label,
                tiles.len(),
            ) {
                Some(e) => {
                    let early = GridView {
                        descriptor: *descriptor,
                        reference: *reference,
                        tiles: tile_views(tiles.drop_last()),
                    };
                    &&& outcome.0 == Err::<(), DecodeHeicError>(e)
                    &&& painted::<T, S, F>(
                        early,
                        filled,
                        *float_kernel,
                        channels as int,
                        final(out).samples(order),
                        surface.size(),
                        surface.from(),
                        grid_opacity::<T, S>(alpha, descriptor.output_width),
                    )
                    &&& untouched(
                        early,
                        channels as int,
                        old(out).samples(order),
                        final(out).samples(order),
                        surface.size().0 as int,
                        surface.from(),
                    )
                },
                None => outcome.0 is Ok && tiles.len() == tile_count && painted::<T, S, F>(
                    (GridView {
                        descriptor: *descriptor,
                        reference: *reference,
                        tiles: tile_views(tiles),
                    }),
                    filled,
                    *float_kernel,
                    channels as int,
                    final(out).samples(order),
                    surface.size(),
                    surface.from(),
                    grid_opacity::<T, S>(alpha, descriptor.output_width),
                ),
            }
        }),
{
    proof {
        assert(descriptor.columns > 0) by {
            assert(descriptor.columns == 0 ==> descriptor.rows * descriptor.columns == 0)
                by (nonlinear_arith);
        }
    }
    let ghost none = GridView {
        descriptor: *descriptor,
        reference: *reference,
        tiles: Seq::empty(),
    };
    let ghost start = out.samples(order);
    let ghost mut tiles: Seq<Result<DecodedHeicImage, DecodeHeicError>> = seq![Ok(first_tile)];
    proof {
        reveal_with_fuel(tiles_error, 2);
    }
    match paste_one::<T, S, O, F>(
        first_tile,
        0,
        descriptor,
        reference,
        surface,
        out,
        order,
        alpha,
        channels,
        label,
        float_kernel,
        Ghost(none),
        Ghost(filled),
        Ghost(start),
    ) {
        Err(e) => {
            assert(tile_views(tiles.drop_last()) =~= none.tiles);
            return (Err(e), Ghost(tiles));
        },
        Ok(()) => {},
    }
    proof {
        assert(with_tile(none, first_tile@).tiles =~= tile_views(tiles));
    }
    let mut index: usize = 1;
    while index < tile_count
        invariant
            1 <= index <= tile_count,
            3 <= channels <= 4,
            alpha is Some ==> channels == 4,
            alpha_fits(alpha, *descriptor),
            kernel_ready(*float_kernel),
            surface.wf(),
            surface.canvas_size() == (descriptor.output_width, descriptor.output_height),
            descriptor.columns > 0,
            reference.tile_width > 0,
            reference.tile_height > 0,
            tile_count == descriptor.rows * descriptor.columns,
            forall|k: usize| k < tile_count ==> #[trigger] decode_tile.requires((k,)),
            tiles.len() == index,
            tiles[0] == Ok::<DecodedHeicImage, DecodeHeicError>(first_tile),
            produced(*decode_tile, tiles),
            tiles_error(
                *descriptor,
                *reference,
                tiles,
                channels as int,
                label,
                index as nat,
            ) is None,
            start == old(out).samples(order),
            out.samples(order).len() == old(out).samples(order).len(),
            out.rest() == old(out).rest(),
            untouched(
                (GridView {
                    descriptor: *descriptor,
                    reference: *reference,
                    tiles: tile_views(tiles),
                }),
                channels as int,
                start,
                out.samples(order),
                surface.size().0 as int,
                surface.from(),
            ),
            painted::<T, S, F>(
                (GridView {
                    descriptor: *descriptor,
                    reference: *reference,
                    tiles: tile_views(tiles),
                }),
                filled,
                *float_kernel,
                channels as int,
                out.samples(order),
                surface.size(),
                surface.from(),
                grid_opacity::<T, S>(alpha, descriptor.output_width),
            ),
        decreases tile_count - index,
    {
        let ghost earlier = tiles;
        let decoded: Result<DecodedHeicImage, DecodeHeicError> = decode_tile(index);
        proof {
            tiles = tiles.push(decoded);
            assert(tiles.drop_last() =~= earlier);
            lemma_earlier_tiles(
                *descriptor,
                *reference,
                earlier,
                tiles,
                channels as int,
                label,
                index as nat,
            );
        }
        let tile: DecodedHeicImage = match decoded {
            Err(e) => {
                return (Err(e), Ghost(tiles));
            },
            Ok(tile) => tile,
        };
        let ghost view = tile@;
        match paste_one::<T, S, O, F>(
            tile,
            index,
            descriptor,
            reference,
            surface,
            out,
            order,
            alpha,
            channels,
            label,
            float_kernel,
            Ghost(
                GridView {
                    descriptor: *descriptor,
                    reference: *reference,
                    tiles: tile_views(earlier),
                },
            ),
            Ghost(filled),
            Ghost(start),
        ) {
            Err(e) => {
                return (Err(e), Ghost(tiles));
            },
            Ok(()) => {},
        }
        assert(tile_views(earlier).push(view) =~= tile_views(tiles));
        index = index + 1;
    }
    (Ok(()), Ghost(tiles))
}

/// What the first tiles meet does not depend on the later ones.
proof fn lemma_earlier_tiles(
    descriptor: HeicGridDescriptor,
    reference: HeicGridTileReference,
    tiles: Seq<Result<DecodedHeicImage, DecodeHeicError>>,
    more: Seq<Result<DecodedHeicImage, DecodeHeicError>>,
    channels: int,
    label: &'static str,
    count: nat,
)
    requires
        count <= tiles.len() <= more.len(),
        forall|k: int| 0 <= k < count ==> #[trigger] more[k] == tiles[k],
    ensures
        tiles_error(descriptor, reference, more, channels, label, count) == tiles_error(
            descriptor,
            reference,
            tiles,
            channels,
            label,
            count,
        ),
    decreases count,
{
    if count > 0 {
        lemma_earlier_tiles(
            descriptor,
            reference,
            tiles,
            more,
            channels,
            label,
            (count - 1) as nat,
        );
        assert(more[count - 1] == tiles[count - 1]);
    }
}

} // verus!
