//! Grids as RGBA and RGB images.
#[allow(unused_imports)]
use super::canvas::{
    gap_view, lemma_painted_cover, lemma_painted_gap, lemma_painted_gathered,
    lemma_painted_opacity, lemma_painted_same, painted, untouched, zero_plane, GridView,
};
#[allow(unused_imports)]
use super::layout::{empty_error, first_tile_error, tile_count_error, tile_reference, tiles_cover};
use super::layout::{
    heic_grid_tiles_cover_descriptor, validate_decoded_heic_grid_first_tile,
    validate_heic_grid_descriptor_and_tile_count, HeicGridDescriptor, HeicGridTileReference,
};
#[allow(unused_imports)]
use super::tiles::{grid_opacity, produced, tile_views, tiles_error, tiles_tried};
use super::tiles::{paste_heic_grid_tiles, GridSurface};
use crate::errors::{invalid_frame, DecodeError, DecodeHeicError, TransformGuardError, Wording};
#[allow(unused_imports)]
use crate::errors::{bad_frame, first};
#[allow(unused_imports)]
use crate::output::{lemma_paired_length, machine_order, paired, unpaired};
use crate::output::{
    native_byte_order, ByteOrder, RgbaSampleOutput, SampleScale, ScaleToRgb8, ScaleToU16,
    ScaleToU8,
};
use crate::rgba::{DecodedRgbImage, DecodedRgbaImage, DecodedRgbaPixels};
use crate::text::{Arg, Detail};
#[allow(unused_imports)]
use crate::transform::mapping::{inside, lemma_source_place, transformed_size, transforms_wf};
use crate::transform::mapping::PrimaryItemTransformProperty;
#[allow(unused_imports)]
use crate::transform::orientation::{lemma_orientation, orientation_outcome};
use crate::transform::orientation::{
    rgba_orientation_transform_from_primary_transforms, RgbaOrientationTransform,
};
#[allow(unused_imports)]
use crate::transform::paste::{lemma_plan_is_exact, own_place, planned};
use crate::transform::pixels::{
    apply_primary_item_transforms_rgba, checked_interleaved_sample_count,
    checked_rgba_sample_count,
};
#[allow(unused_imports)]
use crate::transform::pixels::{
    lemma_channel_bounds, lemma_index_of, lemma_place_of, place_of, sample_count, sources,
};
#[allow(unused_imports)]
use crate::transform::plan::{lemma_plan_places, output_error};
use crate::transform::plan::{plan_output, RgbaTransformPlan};
use crate::types::{
    DecodedHeicImage, HeicAuxiliaryAlphaPlane, HeicPixelLayout, HeicPlane,
    PrimaryItemColorProperties,
};
use crate::ycbcr::PreparedYcbcrToRgb;
#[allow(unused_imports)]
use crate::ycbcr::kernel_ready;
use crate::yuv::convert::convert_heic_owned;
#[allow(unused_imports)]
use crate::yuv::convert::owned_convert_error;
#[allow(unused_imports)]
use crate::yuv::heic::{alpha_error, depth_error, heic_image};
use crate::yuv::heic::{heic_bit_depth_for_png_conversion, validate_auxiliary_alpha_plane};
use crate::yuv::output::heic_storage_bit_depth;
#[allow(unused_imports)]
use crate::yuv::output::storage_depth;
use crate::yuv::rgba::apply_auxiliary_alpha;
use vstd::prelude::*;

verus! {

/// A grid item.
#[derive(Clone, Debug, PartialEq, Eq)]
pub struct HeicGrid {
    pub descriptor: HeicGridDescriptor,
    pub colr: PrimaryItemColorProperties,
    pub tile_count: usize,
}

/// What the first tile of a grid says of it, or why the grid cannot be
/// decoded.
pub open spec fn grid_opening(
    grid: HeicGrid,
    tiles: Seq<Result<DecodedHeicImage, DecodeHeicError>>,
) -> Result<(HeicGridTileReference, u8), DecodeHeicError> {
    match first(
        empty_error(grid.descriptor),
        first(
            tile_count_error(grid.descriptor, grid.tile_count as int),
            if grid.tile_count == 0 {
                Some(bad_frame(Detail::Plain("grid tile list cannot be empty")))
            } else {
                None
            },
        ),
    ) {
        Some(e) => Err(e),
        None => match tiles[0] {
            Err(e) => Err(e),
            Ok(tile) => match first(
                first_tile_error(grid.descriptor, tile@),
                depth_error(tile.bit_depth_luma, tile.bit_depth_chroma),
            ) {
                Some(e) => Err(e),
                None => Ok((tile_reference(tile@, &grid.colr), tile.bit_depth_luma)),
            },
        },
    }
}

/// Decodes and checks the first tile of a grid. The outcomes of decoding come
/// with the result.
fn open_grid<D: Fn(usize) -> Result<DecodedHeicImage, DecodeHeicError>>(
    grid: &HeicGrid,
    decode_tile: &D,
) -> (outcome: (
    Result<(DecodedHeicImage, HeicGridTileReference, u8), DecodeHeicError>,
    Ghost<Seq<Result<DecodedHeicImage, DecodeHeicError>>>,
))
    requires
        forall|k: usize| k < grid.tile_count ==> #[trigger] decode_tile.requires((k,)),
    ensures
        tiles_tried(grid.descriptor, grid.tile_count as int, outcome.1@.len() as int),
        produced(*decode_tile, outcome.1@),
        match grid_opening(*grid, outcome.1@) {
            Err(e) => outcome.0 == Err::<
                (DecodedHeicImage, HeicGridTileReference, u8),
                DecodeHeicError,
            >(e),
            Ok((reference, depth)) => {
                &&& outcome.0 is Ok
                &&& outcome.0->Ok_0.1 == reference
                &&& outcome.0->Ok_0.2 == depth
                &&& outcome.1@ == seq![
                    Ok::<DecodedHeicImage, DecodeHeicError>(outcome.0->Ok_0.0),
                ]
                &&& grid.tile_count == grid.descriptor.rows * grid.descriptor.columns
                &&& 0 < grid.tile_count
                &&& 0 < reference.tile_width
                &&& 0 < reference.tile_height
                &&& 0 < grid.descriptor.output_width
                &&& 0 < grid.descriptor.output_height
            },
        },
{
    match validate_heic_grid_descriptor_and_tile_count(&grid.descriptor, grid.tile_count) {
        Err(e) => {
            return (Err(e), Ghost(Seq::empty()));
        },
        Ok(()) => {},
    }
    if grid.tile_count == 0 {
        return (
            invalid_frame(Detail::Plain("grid tile list cannot be empty")),
            Ghost(Seq::empty()),
        );
    }
    proof {
        let rows = grid.descriptor.rows;
        let columns = grid.descriptor.columns;
        assert(rows > 0 && columns > 0) by {
            assert(rows == 0 || columns == 0 ==> rows * columns == 0) by (nonlinear_arith);
        }
    }
    let decoded: Result<DecodedHeicImage, DecodeHeicError> = decode_tile(0);
    let ghost tiles = seq![decoded];
    let tile: DecodedHeicImage = match decoded {
        Err(e) => {
            return (Err(e), Ghost(tiles));
        },
        Ok(tile) => tile,
    };
    match validate_decoded_heic_grid_first_tile(&grid.descriptor, &tile) {
        Err(e) => {
            return (Err(e), Ghost(tiles));
        },
        Ok(()) => {},
    }
    let depth: u8 = match heic_bit_depth_for_png_conversion(&tile) {
        Err(e) => {
            return (Err(e), Ghost(tiles));
        },
        Ok(depth) => depth,
    };
    let reference: HeicGridTileReference = HeicGridTileReference::from_first_tile(
        &tile,
        &grid.colr,
    );
    (Ok((tile, reference, depth)), Ghost(tiles))
}

/// The colour of the pixels that no tile covers: that of samples that are all
/// zero.
pub fn heic_grid_gap_pixel<
    T: Copy,
    S: SampleScale<T>,
    F: Fn(PreparedYcbcrToRgb, i32, i32, i32) -> (u16, u16, u16),
>(
    reference: &HeicGridTileReference,
    channels: usize,
    label: &'static str,
    float_kernel: &F,
) -> (result: Result<Vec<T>, DecodeHeicError>)
    requires
        3 <= channels <= 4,
        kernel_ready(*float_kernel),
    ensures
        match owned_convert_error(gap_view(*reference), channels as int, label) {
            Some(e) => result == Err::<Vec<T>, DecodeHeicError>(e),
            None => {
                &&& result is Ok
                &&& result->Ok_0@.len() == channels
                &&& heic_image(gap_view(*reference), None).shows::<T, S, F>(
                    *float_kernel,
                    (0, 0),
                    channels as int,
                    result->Ok_0@,
                    0,
                )
            },
        },
{
    let grey: bool = matches!(reference.layout, HeicPixelLayout::Yuv400);
    let y_plane: HeicPlane = HeicPlane { width: 1, height: 1, samples: vec![0u16] };
    let u_plane: Option<HeicPlane> = if grey {
        None
    } else {
        Some(HeicPlane { width: 1, height: 1, samples: vec![0u16] })
    };
    let v_plane: Option<HeicPlane> = if grey {
        None
    } else {
        Some(HeicPlane { width: 1, height: 1, samples: vec![0u16] })
    };
    let zero: DecodedHeicImage = DecodedHeicImage {
        width: 1,
        height: 1,
        bit_depth_luma: reference.bit_depth_luma,
        bit_depth_chroma: reference.bit_depth_chroma,
        layout: reference.layout,
        ycbcr_range: reference.conversion_ycbcr_range,
        ycbcr_matrix: reference.conversion_ycbcr_matrix,
        y_plane,
        u_plane,
        v_plane,
    };
    proof {
        assert(zero.y_plane@.samples =~= zero_plane().samples);
        if !grey {
            assert(zero.u_plane->0@.samples =~= zero_plane().samples);
            assert(zero.v_plane->0@.samples =~= zero_plane().samples);
        }
        assert(zero@ == gap_view(*reference));
    }
    let pixel: Vec<T> = convert_heic_owned::<T, S, F>(
        &zero,
        channels,
        true,
        label,
        label,
        float_kernel,
    )?;
    proof {
        assert(own_place()(place_of(0, 1)) == (0int, 0int));
    }
    Ok(pixel)
}

/// Fills a canvas with one colour.
fn fill<T: Copy, O: RgbaSampleOutput<T> + ?Sized>(
    out: &mut O,
    order: ByteOrder,
    pixel: &[T],
    Ghost(count): Ghost<int>,
)
    requires
        3 <= pixel@.len() <= 4,
        old(out).samples(order).len() == pixel@.len() * count,
        0 <= count,
    ensures
        final(out).samples(order).len() == old(out).samples(order).len(),
        final(out).rest() == old(out).rest(),
        forall|k: int, c: int|
            0 <= k < count && 0 <= c < pixel@.len() ==> #[trigger] final(out).samples(
                order,
            )[pixel@.len() * k + c] == pixel@[c],
{
    let total: usize = out.sample_len();
    let channels: usize = pixel.len();
    let mut i: usize = 0;
    let mut c: usize = 0;
    while i < total
        invariant
            i <= total,
            3 <= channels <= 4,
            channels == pixel@.len(),
            c < channels,
            c == i % channels,
            out.samples(order).len() == total,
            out.rest() == old(out).rest(),
            forall|j: int|
                0 <= j < i ==> #[trigger] out.samples(order)[j] == pixel@[j % channels as int],
        decreases total - i,
    {
        out.write_sample(order, i, pixel[c]);
        proof {
            vstd::arithmetic::div_mod::lemma_fundamental_div_mod(i as int, channels as int);
            let q = i as int / channels as int;
            if c + 1 == channels {
                assert(i + 1 == (q + 1) * channels + 0) by (nonlinear_arith)
                    requires
                        i == channels * q + c,
                        c + 1 == channels,
                ;
                vstd::arithmetic::div_mod::lemma_fundamental_div_mod_converse(
                    i + 1,
                    channels as int,
                    q + 1,
                    0,
                );
            } else {
                assert(i + 1 == q * channels + (c + 1)) by (nonlinear_arith)
                    requires
                        i == channels * q + c,
                ;
                vstd::arithmetic::div_mod::lemma_fundamental_div_mod_converse(
                    i + 1,
                    channels as int,
                    q,
                    c + 1,
                );
            }
        }
        i = i + 1;
        c = if c + 1 == channels {
            0
        } else {
            c + 1
        };
    }
    proof {
        assert forall|k: int, ch: int|
            0 <= k < count && 0 <= ch < pixel@.len() implies #[trigger] out.samples(
            order,
        )[pixel@.len() * k + ch] == pixel@[ch] by {
            lemma_channel_bounds(k, count, channels as int, total as int);
            crate::transform::paste::lemma_sample(channels * k + ch, k, ch, channels as int);
        }
    }
}

/// Fills a canvas with the colour of the gap, where the tiles do not cover
/// it.
fn fill_gap<
    T: Copy,
    S: SampleScale<T>,
    O: RgbaSampleOutput<T> + ?Sized,
    F: Fn(PreparedYcbcrToRgb, i32, i32, i32) -> (u16, u16, u16),
>(
    descriptor: &HeicGridDescriptor,
    reference: &HeicGridTileReference,
    surface: &GridSurface<'_>,
    out: &mut O,
    order: ByteOrder,
    channels: usize,
    label: &'static str,
    float_kernel: &F,
) -> (result: Result<bool, DecodeHeicError>)
    requires
        3 <= channels <= 4,
        kernel_ready(*float_kernel),
        surface.wf(),
        surface.canvas_size() == (descriptor.output_width, descriptor.output_height),
        0 < reference.tile_width,
        0 < reference.tile_height,
        old(out).samples(order).len() == channels * (surface.size().0 * surface.size().1),
    ensures
        final(out).samples(order).len() == old(out).samples(order).len(),
        final(out).rest() == old(out).rest(),
        match gap_error(*descriptor, *reference, channels as int, label) {
            Some(e) => result == Err::<bool, DecodeHeicError>(e) && final(out).samples(order)
                == old(out).samples(order),
            None => {
                &&& result == Ok::<bool, DecodeHeicError>(!tiles_cover(*descriptor, *reference))
                &&& tiles_cover(*descriptor, *reference) ==> final(out).samples(order) == old(
                    out,
                ).samples(order)
                &&& painted::<T, S, F>(
                    (GridView {
                        descriptor: *descriptor,
                        reference: *reference,
                        tiles: Seq::empty(),
                    }),
                    !tiles_cover(*descriptor, *reference),
                    *float_kernel,
                    channels as int,
                    final(out).samples(order),
                    surface.size(),
                    surface.from(),
                    grid_opacity::<T, S>(None, descriptor.output_width),
                )
            },
        },
{
    let ghost grid = GridView {
        descriptor: *descriptor,
        reference: *reference,
        tiles: Seq::empty(),
    };
    proof {
        surface.lemma_from();
    }
    if heic_grid_tiles_cover_descriptor(descriptor, reference) {
        proof {
            assert forall|place: (int, int)|
                inside(place, descriptor.output_width, descriptor.output_height) implies !(
            #[trigger] grid.covered(place, 0)) by {
                let (c, r) = grid.cell(place);
                super::canvas::lemma_cell(place.0, reference.tile_width as int, c);
                super::canvas::lemma_cell(place.1, reference.tile_height as int, r);
                assert(0 <= r * descriptor.columns + c) by (nonlinear_arith)
                    requires
                        0 <= r,
                        0 <= c,
                ;
            }
            assert forall|k: int|
                0 <= k < surface.size().0 * surface.size().1 implies !grid.covered(
                surface.from()(#[trigger] place_of(k, surface.size().0 as int)),
                0,
            ) by {
                lemma_place_of(k, surface.size().0 as int, surface.size().1 as int);
            }
        }
        return Ok(false);
    }
    let pixel: Vec<T> = heic_grid_gap_pixel::<T, S, F>(reference, channels, label, float_kernel)?;
    fill(
        out,
        order,
        pixel.as_slice(),
        Ghost(surface.size().0 * surface.size().1),
    );
    proof {
        lemma_painted_gap::<T, S, F>(
            grid,
            *float_kernel,
            channels as int,
            pixel@,
            out.samples(order),
            surface.size(),
            surface.from(),
            grid_opacity::<T, S>(None, descriptor.output_width),
        );
    }
    Ok(true)
}

/// Why the colour of the gap cannot be found, where there is a gap.
pub open spec fn gap_error(
    descriptor: HeicGridDescriptor,
    reference: HeicGridTileReference,
    channels: int,
    label: &'static str,
) -> Option<DecodeHeicError> {
    if tiles_cover(descriptor, reference) {
        None
    } else {
        owned_convert_error(gap_view(reference), channels, label)
    }
}

/// Whether an image shows a grid behind its transforms.
pub open spec fn grid_shown<
    T: Copy,
    S: SampleScale<T>,
    F: Fn(PreparedYcbcrToRgb, i32, i32, i32) -> (u16, u16, u16),
>(
    grid: GridView,
    transforms: Seq<PrimaryItemTransformProperty>,
    alpha: Option<&HeicAuxiliaryAlphaPlane>,
    float_kernel: F,
    channels: int,
    result: (u32, u32, Seq<T>),
) -> bool {
    let width = grid.descriptor.output_width;
    let height = grid.descriptor.output_height;
    &&& transformed_size(transforms, width, height, transforms.len()) == Ok::<
        (u32, u32),
        TransformGuardError,
    >((result.0, result.1))
    &&& painted::<T, S, F>(
        grid,
        true,
        float_kernel,
        channels,
        result.2,
        (result.0, result.1),
        sources(transforms, width, height, transforms.len()),
        grid_opacity::<T, S>(alpha, width),
    )
}

/// A grid as its tiles make it up.
pub open spec fn grid_view(
    grid: HeicGrid,
    tiles: Seq<Result<DecodedHeicImage, DecodeHeicError>>,
) -> GridView {
    GridView {
        descriptor: grid.descriptor,
        reference: grid_opening(grid, tiles)->Ok_0.0,
        tiles: tile_views(tiles),
    }
}

/// The opening of a grid rests on its first tile.
proof fn lemma_opening(
    grid: HeicGrid,
    tiles: Seq<Result<DecodedHeicImage, DecodeHeicError>>,
    more: Seq<Result<DecodedHeicImage, DecodeHeicError>>,
)
    requires
        0 < tiles.len() <= more.len(),
        tiles[0] == more[0],
    ensures
        grid_opening(grid, more) == grid_opening(grid, tiles),
{
}

/// Why a grid cannot become an RGB image, if it cannot.
pub open spec fn rgb_grid_error(
    grid: HeicGrid,
    tiles: Seq<Result<DecodedHeicImage, DecodeHeicError>>,
    transforms: Seq<PrimaryItemTransformProperty>,
) -> Option<DecodeError> {
    let descriptor = grid.descriptor;
    match grid_opening(grid, tiles) {
        Err(e) => Some(DecodeError::HeicDecode(e)),
        Ok((reference, _)) => match transformed_size(
            transforms,
            descriptor.output_width,
            descriptor.output_height,
            transforms.len(),
        ) {
            Err(e) => Some(DecodeError::TransformGuard(e)),
            Ok((width, height)) => match sample_count(width, height, 3) {
                Err(e) => Some(DecodeError::TransformGuard(e)),
                Ok(_) => match first(
                    gap_error(descriptor, reference, 3, "RGB"),
                    tiles_error(descriptor, reference, tiles, 3, "RGB", tiles.len()),
                ) {
                    Some(e) => Some(DecodeError::HeicDecode(e)),
                    None => None,
                },
            },
        },
    }
}

/// Whether the decoding of a grid gave `result`, for some outcomes of
/// decoding its tiles.
pub open spec fn rgb_grid_decoded<F: Fn(PreparedYcbcrToRgb, i32, i32, i32) -> (u16, u16, u16)>(
    grid: HeicGrid,
    tiles: Seq<Result<DecodedHeicImage, DecodeHeicError>>,
    transforms: Seq<PrimaryItemTransformProperty>,
    icc_profile: Option<Vec<u8>>,
    float_kernel: F,
    result: Result<DecodedRgbImage, DecodeError>,
) -> bool {
    match rgb_grid_error(grid, tiles, transforms) {
        Some(e) => result == Err::<DecodedRgbImage, DecodeError>(e),
        None => {
            &&& result matches Ok(image)
            &&& tiles.len() == grid.tile_count
            &&& image.source_bit_depth == grid_opening(grid, tiles)->Ok_0.1
            &&& image.icc_profile == icc_profile
            &&& grid_shown::<u8, ScaleToRgb8, F>(
                grid_view(grid, tiles),
                transforms,
                None,
                float_kernel,
                3,
                (image.width, image.height, image.pixels@),
            )
        },
    }
}

/// The painted surface of a plan shows the grid behind its transforms.
proof fn lemma_planned_shown<
    T: Copy,
    S: SampleScale<T>,
    F: Fn(PreparedYcbcrToRgb, i32, i32, i32) -> (u16, u16, u16),
>(
    grid: GridView,
    filled: bool,
    plan: &RgbaTransformPlan,
    transforms: Seq<PrimaryItemTransformProperty>,
    alpha: Option<&HeicAuxiliaryAlphaPlane>,
    float_kernel: F,
    channels: int,
    samples: Seq<T>,
)
    requires
        plan.plans(
            transforms,
            grid.descriptor.output_width,
            grid.descriptor.output_height,
        ),
        plan.wf(),
        filled || tiles_cover(grid.descriptor, grid.reference),
        grid.tiles.len() == grid.descriptor.rows * grid.descriptor.columns,
        0 < grid.reference.tile_width,
        0 < grid.reference.tile_height,
        painted::<T, S, F>(
            grid,
            filled,
            float_kernel,
            channels,
            samples,
            (plan.destination_width, plan.destination_height),
            planned(plan),
            grid_opacity::<T, S>(alpha, grid.descriptor.output_width),
        ),
    ensures
        grid_shown::<T, S, F>(
            grid,
            transforms,
            alpha,
            float_kernel,
            channels,
            (plan.destination_width, plan.destination_height, samples),
        ),
{
    let width = grid.descriptor.output_width;
    let height = grid.descriptor.output_height;
    let size = (plan.destination_width, plan.destination_height);
    let from = planned(plan);
    let all = sources(transforms, width, height, transforms.len());
    lemma_plan_is_exact(plan, transforms, width, height);
    if !filled {
        lemma_painted_cover::<T, S, F>(
            grid,
            float_kernel,
            channels,
            samples,
            size,
            from,
            grid_opacity::<T, S>(alpha, width),
        );
    }
    assert forall|place: (int, int)| inside(place, size.0, size.1) implies #[trigger] from(place)
        == all(place) by {
        lemma_plan_places(plan, transforms, width, height, place);
    }
    lemma_painted_same::<T, S, F>(
        grid,
        true,
        float_kernel,
        channels,
        samples,
        size,
        from,
        all,
        grid_opacity::<T, S>(alpha, width),
    );
}

/// Decodes a grid to samples of eight bits without opacity. The tiles are
/// decoded one after another, by `decode_tile`.
pub fn decode_primary_heic_grid_to_rgb8_image<
    D: Fn(usize) -> Result<DecodedHeicImage, DecodeHeicError>,
    F: Fn(PreparedYcbcrToRgb, i32, i32, i32) -> (u16, u16, u16),
>(
    grid: &HeicGrid,
    transforms: &[PrimaryItemTransformProperty],
    icc_profile: Option<Vec<u8>>,
    decode_tile: &D,
    float_kernel: &F,
) -> (result: Result<DecodedRgbImage, DecodeError>)
    requires
        transforms_wf(transforms@),
        kernel_ready(*float_kernel),
        forall|k: usize| k < grid.tile_count ==> #[trigger] decode_tile.requires((k,)),
    ensures
        exists|tiles: Seq<Result<DecodedHeicImage, DecodeHeicError>>|
            {
                &&& #[trigger] produced(*decode_tile, tiles)
                &&& tiles_tried(grid.descriptor, grid.tile_count as int, tiles.len() as int)
                &&& rgb_grid_decoded(
                    *grid,
                    tiles,
                    transforms@,
                    icc_profile,
                    *float_kernel,
                    result,
                )
            },
{
    let descriptor: &HeicGridDescriptor = &grid.descriptor;
    let (opened, Ghost(opening)) = open_grid(grid, decode_tile);
    let (first_tile, reference, source_bit_depth): (
        DecodedHeicImage,
        HeicGridTileReference,
        u8,
    ) = match opened {
        Err(e) => {
            let result: Result<DecodedRgbImage, DecodeError> = Err(DecodeError::HeicDecode(e));
            assert(rgb_grid_decoded(
                *grid,
                opening,
                transforms@,
                icc_profile,
                *float_kernel,
                result,
            ));
            return result;
        },
        Ok(opened) => opened,
    };
    let plan: RgbaTransformPlan = match RgbaTransformPlan::from_primary_transforms(
        descriptor.output_width,
        descriptor.output_height,
        transforms,
    ) {
        Err(e) => {
            return Err(DecodeError::TransformGuard(e));
        },
        Ok(plan) => plan,
    };
    let count: usize = match checked_interleaved_sample_count(
        plan.destination_width,
        plan.destination_height,
        3,
    ) {
        Err(e) => {
            return Err(DecodeError::TransformGuard(e));
        },
        Ok(count) => count,
    };
    let mut output: Vec<u8> = vec![0u8; count];
    let surface: GridSurface<'_> = GridSurface::Planned(&plan);
    proof {
        lemma_plan_is_exact(
            &plan,
            transforms@,
            descriptor.output_width,
            descriptor.output_height,
        );
    }
    let filled: bool = match fill_gap::<u8, ScaleToRgb8, [u8], F>(
        descriptor,
        &reference,
        &surface,
        output.as_mut_slice(),
        ByteOrder::LittleEndian,
        3,
        "RGB",
        float_kernel,
    ) {
        Err(e) => {
            return Err(DecodeError::HeicDecode(e));
        },
        Ok(filled) => filled,
    };
    let (pasted, Ghost(tiles)) = paste_heic_grid_tiles::<u8, ScaleToRgb8, [u8], D, F>(
        descriptor,
        &reference,
        first_tile,
        &surface,
        output.as_mut_slice(),
        ByteOrder::LittleEndian,
        None,
        3,
        "RGB",
        grid.tile_count,
        decode_tile,
        float_kernel,
        Ghost(filled),
    );
    proof {
        lemma_opening(*grid, opening, tiles);
    }
    match pasted {
        Err(e) => {
            let result: Result<DecodedRgbImage, DecodeError> = Err(DecodeError::HeicDecode(e));
            assert(rgb_grid_decoded(
                *grid,
                tiles,
                transforms@,
                icc_profile,
                *float_kernel,
                result,
            ));
            return result;
        },
        Ok(()) => {},
    }
    proof {
        lemma_planned_shown::<u8, ScaleToRgb8, F>(
            grid_view(*grid, tiles),
            filled,
            &plan,
            transforms@,
            None,
            *float_kernel,
            3,
            output@,
        );
    }
    let result: Result<DecodedRgbImage, DecodeError> = Ok(
        DecodedRgbImage {
            width: plan.destination_width,
            height: plan.destination_height,
            source_bit_depth,
            pixels: output,
            icc_profile,
        },
    );
    assert(rgb_grid_decoded(*grid, tiles, transforms@, icc_profile, *float_kernel, result));
    result
}

/// The size of the canvas that the tiles of a grid are pasted onto: turned at
/// once, where the grid is opaque and nothing but turned.
pub open spec fn canvas_of(
    grid: HeicGrid,
    transforms: Seq<PrimaryItemTransformProperty>,
    with_alpha: bool,
) -> Result<(bool, u32, u32), TransformGuardError> {
    let width = grid.descriptor.output_width;
    let height = grid.descriptor.output_height;
    if with_alpha {
        Ok((false, width, height))
    } else {
        match orientation_outcome(transforms, transforms.len()) {
            Err(e) => Err(e),
            Ok(Some(true)) => {
                let (w, h) = transformed_size(transforms, width, height, transforms.len())->Ok_0;
                Ok((true, w, h))
            },
            Ok(_) => Ok((false, width, height)),
        }
    }
}

/// Why a grid cannot become an RGBA image, if it cannot.
pub open spec fn rgba_grid_error(
    grid: HeicGrid,
    tiles: Seq<Result<DecodedHeicImage, DecodeHeicError>>,
    transforms: Seq<PrimaryItemTransformProperty>,
    alpha: Option<&HeicAuxiliaryAlphaPlane>,
) -> Option<DecodeError> {
    let descriptor = grid.descriptor;
    let width = descriptor.output_width;
    let height = descriptor.output_height;
    match grid_opening(grid, tiles) {
        Err(e) => Some(DecodeError::HeicDecode(e)),
        Ok((reference, _)) => match canvas_of(grid, transforms, alpha is Some) {
            Err(e) => Some(DecodeError::TransformGuard(e)),
            Ok((_, canvas_width, canvas_height)) => match sample_count(
                canvas_width,
                canvas_height,
                4,
            ) {
                Err(e) => Some(DecodeError::TransformGuard(e)),
                Ok(_) => match first(
                    gap_error(descriptor, reference, 4, "RGBA"),
                    first(
                        tiles_error(descriptor, reference, tiles, 4, "RGBA", tiles.len()),
                        match alpha {
                            None => None,
                            Some(plane) => alpha_error(plane, width, height),
                        },
                    ),
                ) {
                    Some(e) => Some(DecodeError::HeicDecode(e)),
                    None => match transformed_size(transforms, width, height, transforms.len()) {
                        Err(e) => Some(DecodeError::TransformGuard(e)),
                        Ok(_) => None,
                    },
                },
            },
        },
    }
}

/// Whether the decoding of a grid gave `result`, for some outcomes of
/// decoding its tiles.
pub open spec fn rgba_grid_decoded<F: Fn(PreparedYcbcrToRgb, i32, i32, i32) -> (u16, u16, u16)>(
    grid: HeicGrid,
    tiles: Seq<Result<DecodedHeicImage, DecodeHeicError>>,
    transforms: Seq<PrimaryItemTransformProperty>,
    alpha: Option<&HeicAuxiliaryAlphaPlane>,
    icc_profile: Option<Vec<u8>>,
    float_kernel: F,
    result: Result<DecodedRgbaImage, DecodeError>,
) -> bool {
    match rgba_grid_error(grid, tiles, transforms, alpha) {
        Some(e) => result == Err::<DecodedRgbaImage, DecodeError>(e),
        None => {
            let depth = grid_opening(grid, tiles)->Ok_0.1;
            &&& result matches Ok(image)
            &&& tiles.len() == grid.tile_count
            &&& image.source_bit_depth == depth
            &&& image.icc_profile == icc_profile
            &&& match image.pixels {
                DecodedRgbaPixels::U8(pixels) => depth <= 8 && grid_shown::<u8, ScaleToU8, F>(
                    grid_view(grid, tiles),
                    transforms,
                    alpha,
                    float_kernel,
                    4,
                    (image.width, image.height, pixels@),
                ),
                DecodedRgbaPixels::U16(pixels) => depth > 8 && grid_shown::<u16, ScaleToU16, F>(
                    grid_view(grid, tiles),
                    transforms,
                    alpha,
                    float_kernel,
                    4,
                    (image.width, image.height, pixels@),
                ),
            }
        },
    }
}

/// Whether the pixels of a grid came out as `result`, for some outcomes of
/// decoding its tiles.
spec fn pixels_decoded<
    T: Copy,
    S: SampleScale<T>,
    F: Fn(PreparedYcbcrToRgb, i32, i32, i32) -> (u16, u16, u16),
>(
    grid: HeicGrid,
    tiles: Seq<Result<DecodedHeicImage, DecodeHeicError>>,
    transforms: Seq<PrimaryItemTransformProperty>,
    alpha: Option<&HeicAuxiliaryAlphaPlane>,
    float_kernel: F,
    result: Result<(u32, u32, Vec<T>), DecodeError>,
) -> bool {
    match rgba_grid_error(grid, tiles, transforms, alpha) {
        Some(e) => result == Err::<(u32, u32, Vec<T>), DecodeError>(e),
        None => {
            &&& result matches Ok(image)
            &&& tiles.len() == grid.tile_count
            &&& grid_shown::<T, S, F>(
                grid_view(grid, tiles),
                transforms,
                alpha,
                float_kernel,
                4,
                (image.0, image.1, image.2@),
            )
        },
    }
}

/// Decodes the tiles of a grid onto a canvas and carries out what is left to
/// do. The outcomes of decoding come with the result.
fn finish_heic_grid_rgba_decode<
    T: Copy,
    S: SampleScale<T>,
    D: Fn(usize) -> Result<DecodedHeicImage, DecodeHeicError>,
    F: Fn(PreparedYcbcrToRgb, i32, i32, i32) -> (u16, u16, u16),
>(
    grid: &HeicGrid,
    transforms: &[PrimaryItemTransformProperty],
    auxiliary_alpha: Option<&HeicAuxiliaryAlphaPlane>,
    first_tile: DecodedHeicImage,
    reference: &HeicGridTileReference,
    orientation: Option<RgbaOrientationTransform>,
    label: &'static str,
    decode_tile: &D,
    float_kernel: &F,
) -> (outcome: (
    Result<(u32, u32, Vec<T>), DecodeError>,
    Ghost<Seq<Result<DecodedHeicImage, DecodeHeicError>>>,
))
    requires
        transforms_wf(transforms@),
        kernel_ready(*float_kernel),
        forall|k: usize| k < grid.tile_count ==> #[trigger] decode_tile.requires((k,)),
        decode_tile.ensures((0usize,), Ok::<DecodedHeicImage, DecodeHeicError>(first_tile)),
        grid_opening(*grid, seq![Ok::<DecodedHeicImage, DecodeHeicError>(first_tile)]) is Ok,
        grid_opening(
            *grid,
            seq![Ok::<DecodedHeicImage, DecodeHeicError>(first_tile)],
        )->Ok_0.0 == *reference,
        grid.tile_count == grid.descriptor.rows * grid.descriptor.columns,
        0 < grid.tile_count,
        0 < reference.tile_width,
        0 < reference.tile_height,
        match canvas_of(*grid, transforms@, auxiliary_alpha is Some) {
            Err(_) => false,
            Ok((true, _, _)) => orientation matches Some(map) && map.orients(
                transforms@,
                grid.descriptor.output_width,
                grid.descriptor.output_height,
                transforms@.len(),
            ),
            Ok((false, _, _)) => orientation is None,
        },
    ensures
        tiles_tried(grid.descriptor, grid.tile_count as int, outcome.1@.len() as int),
        produced(*decode_tile, outcome.1@),
        outcome.1@.len() > 0,
        outcome.1@[0] == Ok::<DecodedHeicImage, DecodeHeicError>(first_tile),
        pixels_decoded::<T, S, F>(
            *grid,
            outcome.1@,
            transforms@,
            auxiliary_alpha,
            *float_kernel,
            outcome.0,
        ),
{
    let descriptor: &HeicGridDescriptor = &grid.descriptor;
    let width: u32 = descriptor.output_width;
    let height: u32 = descriptor.output_height;
    let ghost opening = seq![Ok::<DecodedHeicImage, DecodeHeicError>(first_tile)];
    let (output_width, output_height): (u32, u32) = match &orientation {
        Some(map) => (map.destination_width, map.destination_height),
        None => (width, height),
    };
    let surface: GridSurface<'_> = match &orientation {
        Some(map) => GridSurface::Turned(map),
        None => GridSurface::Upright { width, height },
    };
    proof {
        if let Some(map) = orientation {
            lemma_orientation(map, transforms@, width, height, transforms@.len());
        }
        surface.lemma_from();
    }
    let count: usize = match checked_rgba_sample_count(output_width, output_height) {
        Err(e) => {
            return (Err(DecodeError::TransformGuard(e)), Ghost(opening));
        },
        Ok(count) => count,
    };
    let mut output: Vec<T> = vec![S::opaque(); count];
    let filled: bool = match fill_gap::<T, S, [T], F>(
        descriptor,
        reference,
        &surface,
        output.as_mut_slice(),
        ByteOrder::LittleEndian,
        4,
        "RGBA",
        float_kernel,
    ) {
        Err(e) => {
            return (Err(DecodeError::HeicDecode(e)), Ghost(opening));
        },
        Ok(filled) => filled,
    };
    let (pasted, Ghost(tiles)) = paste_heic_grid_tiles::<T, S, [T], D, F>(
        descriptor,
        reference,
        first_tile,
        &surface,
        output.as_mut_slice(),
        ByteOrder::LittleEndian,
        None,
        4,
        "RGBA",
        grid.tile_count,
        decode_tile,
        float_kernel,
        Ghost(filled),
    );
    proof {
        lemma_opening(*grid, opening, tiles);
    }
    match pasted {
        Err(e) => {
            return (Err(DecodeError::HeicDecode(e)), Ghost(tiles));
        },
        Ok(()) => {},
    }
    let ghost view = grid_view(*grid, tiles);
    let ghost opaque = grid_opacity::<T, S>(None, width);
    proof {
        if !filled {
            lemma_painted_cover::<T, S, F>(
                view,
                *float_kernel,
                4,
                output@,
                surface.size(),
                surface.from(),
                opaque,
            );
        }
    }
    if orientation.is_some() {
        proof {
            let all = sources(transforms@, width, height, transforms@.len());
            lemma_painted_same::<T, S, F>(
                view,
                true,
                *float_kernel,
                4,
                output@,
                surface.size(),
                surface.from(),
                all,
                opaque,
            );
        }
        return (Ok((output_width, output_height, output)), Ghost(tiles));
    }
    let ghost bare = output@;
    if let Some(plane) = auxiliary_alpha {
        match apply_auxiliary_alpha::<T, S>(output.as_mut_slice(), width, height, plane, label) {
            Err(e) => {
                return (Err(DecodeError::HeicDecode(e)), Ghost(tiles));
            },
            Ok(()) => {},
        }
        proof {
            let other = grid_opacity::<T, S>(auxiliary_alpha, width);
            assert forall|i: int| 0 <= i < bare.len() implies #[trigger] output@[i] == if i % 4
                == 3 {
                other(own_place()(place_of(i / 4, width as int)))
            } else {
                bare[i]
            } by {
                lemma_place_of(i / 4, width as int, height as int);
            }
            lemma_painted_opacity::<T, S, F>(
                view,
                *float_kernel,
                bare,
                output@,
                (width, height),
                own_place(),
                opaque,
                other,
            );
        }
    }
    let ghost canvas = output@;
    match apply_primary_item_transforms_rgba(width, height, output, transforms) {
        Err(e) => (Err(DecodeError::TransformGuard(e)), Ghost(tiles)),
        Ok((w, h, moved)) => {
            proof {
                let all = sources(transforms@, width, height, transforms@.len());
                assert forall|place: (int, int)| inside(place, w, h) implies inside(
                    #[trigger] all(place),
                    width,
                    height,
                ) by {
                    lemma_source_place(transforms@, width, height, transforms@.len(), place);
                }
                lemma_painted_gathered::<T, S, F>(
                    view,
                    *float_kernel,
                    4,
                    canvas,
                    (width, height),
                    moved@,
                    (w, h),
                    all,
                    grid_opacity::<T, S>(auxiliary_alpha, width),
                );
            }
            (Ok((w, h, moved)), Ghost(tiles))
        },
    }
}

/// Decodes a grid to an RGBA image. The tiles are decoded one after another,
/// by `decode_tile`.
pub fn decode_primary_heic_grid_to_rgba_image<
    D: Fn(usize) -> Result<DecodedHeicImage, DecodeHeicError>,
    F: Fn(PreparedYcbcrToRgb, i32, i32, i32) -> (u16, u16, u16),
>(
    grid: &HeicGrid,
    transforms: &[PrimaryItemTransformProperty],
    auxiliary_alpha: Option<&HeicAuxiliaryAlphaPlane>,
    icc_profile: Option<Vec<u8>>,
    decode_tile: &D,
    float_kernel: &F,
) -> (result: Result<DecodedRgbaImage, DecodeError>)
    requires
        transforms_wf(transforms@),
        kernel_ready(*float_kernel),
        forall|k: usize| k < grid.tile_count ==> #[trigger] decode_tile.requires((k,)),
    ensures
        exists|tiles: Seq<Result<DecodedHeicImage, DecodeHeicError>>|
            {
                &&& #[trigger] produced(*decode_tile, tiles)
                &&& tiles_tried(grid.descriptor, grid.tile_count as int, tiles.len() as int)
                &&& rgba_grid_decoded(
                    *grid,
                    tiles,
                    transforms@,
                    auxiliary_alpha,
                    icc_profile,
                    *float_kernel,
                    result,
                )
            },
{
    let (opened, Ghost(opening)) = open_grid(grid, decode_tile);
    let (first_tile, reference, source_bit_depth): (
        DecodedHeicImage,
        HeicGridTileReference,
        u8,
    ) = match opened {
        Err(e) => {
            return Err(DecodeError::HeicDecode(e));
        },
        Ok(opened) => opened,
    };
    let orientation: Option<RgbaOrientationTransform> = if auxiliary_alpha.is_none() {
        match rgba_orientation_transform_from_primary_transforms(
            grid.descriptor.output_width,
            grid.descriptor.output_height,
            transforms,
        ) {
            Err(e) => {
                return Err(DecodeError::TransformGuard(e));
            },
            Ok(orientation) => orientation,
        }
    } else {
        None
    };
    if source_bit_depth <= 8 {
        let (finished, Ghost(tiles)) = finish_heic_grid_rgba_decode::<u8, ScaleToU8, D, F>(
            grid,
            transforms,
            auxiliary_alpha,
            first_tile,
            &reference,
            orientation,
            "RGBA8",
            decode_tile,
            float_kernel,
        );
        proof {
            lemma_opening(*grid, opening, tiles);
        }
        let result: Result<DecodedRgbaImage, DecodeError> = match finished {
            Err(e) => Err(e),
            Ok((width, height, pixels)) => Ok(
                DecodedRgbaImage {
                    width,
                    height,
                    source_bit_depth,
                    pixels: DecodedRgbaPixels::U8(pixels),
                    icc_profile,
                },
            ),
        };
        assert(rgba_grid_decoded(
            *grid,
            tiles,
            transforms@,
            auxiliary_alpha,
            icc_profile,
            *float_kernel,
            result,
        ));
        return result;
    }
    let (finished, Ghost(tiles)) = finish_heic_grid_rgba_decode::<u16, ScaleToU16, D, F>(
        grid,
        transforms,
        auxiliary_alpha,
        first_tile,
        &reference,
        orientation,
        "RGBA16",
        decode_tile,
        float_kernel,
    );
    proof {
        lemma_opening(*grid, opening, tiles);
    }
    let result: Result<DecodedRgbaImage, DecodeError> = match finished {
        Err(e) => Err(e),
        Ok((width, height, pixels)) => Ok(
            DecodedRgbaImage {
                width,
                height,
                source_bit_depth,
                pixels: DecodedRgbaPixels::U16(pixels),
                icc_profile,
            },
        ),
    };
    assert(rgba_grid_decoded(
        *grid,
        tiles,
        transforms@,
        auxiliary_alpha,
        icc_profile,
        *float_kernel,
        result,
    ));
    result
}

/// The error for a grid that is stored with another bit depth than the
/// buffer.
pub open spec fn grid_storage_mismatch(stored: u8, asked: u8) -> DecodeError {
    DecodeError::Unsupported(
        Wording::Template(
            Detail::Two(
                "HEIC grid storage is RGBA{}, not RGBA{}",
                Arg::Num(stored as i128),
                Arg::Num(asked as i128),
            ),
        ),
    )
}

/// Why a grid cannot be written into a buffer, if that shows before anything
/// is written.
pub open spec fn grid_buffer_refused(
    grid: HeicGrid,
    tiles: Seq<Result<DecodedHeicImage, DecodeHeicError>>,
    transforms: Seq<PrimaryItemTransformProperty>,
    alpha: Option<&HeicAuxiliaryAlphaPlane>,
    asked: u8,
    actual: int,
    stage: &'static str,
) -> Option<DecodeError> {
    let descriptor = grid.descriptor;
    let width = descriptor.output_width;
    let height = descriptor.output_height;
    match grid_opening(grid, tiles) {
        Err(e) => Some(DecodeError::HeicDecode(e)),
        Ok((reference, depth)) => if storage_depth(depth) != asked {
            Some(grid_storage_mismatch(storage_depth(depth), asked))
        } else {
            match output_error(transforms, width, height, actual, stage) {
                Some(e) => Some(DecodeError::TransformGuard(e)),
                None => match first(
                    match alpha {
                        None => None,
                        Some(plane) => alpha_error(plane, width, height),
                    },
                    gap_error(descriptor, reference, 4, "RGBA"),
                ) {
                    Some(e) => Some(DecodeError::HeicDecode(e)),
                    None => None,
                },
            }
        },
    }
}

/// Why a grid cannot be written into a buffer, if it cannot.
pub open spec fn grid_buffer_error(
    grid: HeicGrid,
    tiles: Seq<Result<DecodedHeicImage, DecodeHeicError>>,
    transforms: Seq<PrimaryItemTransformProperty>,
    alpha: Option<&HeicAuxiliaryAlphaPlane>,
    asked: u8,
    actual: int,
    stage: &'static str,
) -> Option<DecodeError> {
    match grid_buffer_refused(grid, tiles, transforms, alpha, asked, actual, stage) {
        Some(e) => Some(e),
        None => match tiles_error(
            grid.descriptor,
            grid_opening(grid, tiles)->Ok_0.0,
            tiles,
            4,
            "RGBA",
            tiles.len(),
        ) {
            Some(e) => Some(DecodeError::HeicDecode(e)),
            None => None,
        },
    }
}

/// Whether a buffer of `before` holds what a grid left in it, a tile of which
/// failed: the tiles before that one, and beside them the colour of the gap,
/// where the grid has one, or what was there.
pub open spec fn grid_buffer_begun<
    T: Copy,
    S: SampleScale<T>,
    F: Fn(PreparedYcbcrToRgb, i32, i32, i32) -> (u16, u16, u16),
>(
    grid: HeicGrid,
    tiles: Seq<Result<DecodedHeicImage, DecodeHeicError>>,
    transforms: Seq<PrimaryItemTransformProperty>,
    alpha: Option<&HeicAuxiliaryAlphaPlane>,
    before: Seq<T>,
    float_kernel: F,
    samples: Seq<T>,
) -> bool {
    let view = GridView { tiles: tile_views(tiles.drop_last()), ..grid_view(grid, tiles) };
    let width = grid.descriptor.output_width;
    let height = grid.descriptor.output_height;
    let size = transformed_size(transforms, width, height, transforms.len())->Ok_0;
    let from = sources(transforms, width, height, transforms.len());
    let covered = tiles_cover(grid.descriptor, view.reference);
    &&& painted::<T, S, F>(
        view,
        !covered,
        float_kernel,
        4,
        samples,
        size,
        from,
        grid_opacity::<T, S>(alpha, width),
    )
    &&& covered ==> untouched(view, 4, before, samples, size.0 as int, from)
}

/// Whether the decoding of a grid into a buffer gave `result` and left
/// `samples`, for some outcomes of decoding its tiles.
pub open spec fn grid_buffer_decoded<
    T: Copy,
    S: SampleScale<T>,
    F: Fn(PreparedYcbcrToRgb, i32, i32, i32) -> (u16, u16, u16),
>(
    grid: HeicGrid,
    tiles: Seq<Result<DecodedHeicImage, DecodeHeicError>>,
    transforms: Seq<PrimaryItemTransformProperty>,
    alpha: Option<&HeicAuxiliaryAlphaPlane>,
    asked: u8,
    before: Seq<T>,
    stage: &'static str,
    float_kernel: F,
    result: Result<(), DecodeError>,
    samples: Seq<T>,
) -> bool {
    let actual = before.len() as int;
    &&& samples.len() == before.len()
    &&& grid_buffer_refused(grid, tiles, transforms, alpha, asked, actual, stage) is Some
        ==> samples == before
    &&& match grid_buffer_error(grid, tiles, transforms, alpha, asked, actual, stage) {
        Some(e) => {
            &&& result == Err::<(), DecodeError>(e)
            &&& grid_buffer_refused(grid, tiles, transforms, alpha, asked, actual, stage) is None
                ==> grid_buffer_begun::<T, S, F>(
                grid,
                tiles,
                transforms,
                alpha,
                before,
                float_kernel,
                samples,
            )
        },
        None => {
            &&& result is Ok
            &&& tiles.len() == grid.tile_count
            &&& transformed_size(
                transforms,
                grid.descriptor.output_width,
                grid.descriptor.output_height,
                transforms.len(),
            ) matches Ok((width, height))
            &&& grid_shown::<T, S, F>(
                grid_view(grid, tiles),
                transforms,
                alpha,
                float_kernel,
                4,
                (width, height, samples),
            )
        },
    }
}

/// Gives every pixel of a planned image the opacity of the place that it
/// shows.
fn seed_alpha<T: Copy, S: SampleScale<T>, O: RgbaSampleOutput<T> + ?Sized>(
    out: &mut O,
    order: ByteOrder,
    plan: &RgbaTransformPlan,
    alpha: &HeicAuxiliaryAlphaPlane,
)
    requires
        plan.wf(),
        old(out).samples(order).len() == 4 * (plan.destination_width * plan.destination_height),
        alpha.samples@.len() == plan.source_width * plan.source_height,
        1 <= alpha.bit_depth <= 16,
    ensures
        final(out).samples(order).len() == old(out).samples(order).len(),
        final(out).rest() == old(out).rest(),
        forall|i: int|
            0 <= i < old(out).samples(order).len() ==> #[trigger] final(out).samples(order)[i]
                == if i % 4 == 3 {
                grid_opacity::<T, S>(Some(alpha), plan.source_width)(
                    planned(plan)(place_of(i / 4, plan.destination_width as int)),
                )
            } else {
                old(out).samples(order)[i]
            },
{
    let ghost before = out.samples(order);
    let ghost opacity = grid_opacity::<T, S>(Some(alpha), plan.source_width);
    let total: usize = out.sample_len();
    let pixels: usize = total / 4;
    let alpha_total: usize = alpha.samples.len();
    let width: usize = plan.destination_width as usize;
    let source_width: usize = plan.source_width as usize;
    let mut k: usize = 0;
    while k < pixels
        invariant
            k <= pixels,
            plan.wf(),
            pixels == plan.destination_width * plan.destination_height,
            total == 4 * pixels,
            width == plan.destination_width,
            source_width == plan.source_width,
            before.len() == total,
            out.samples(order).len() == total,
            out.rest() == old(out).rest(),
            alpha_total == alpha.samples@.len(),
            alpha.samples@.len() == plan.source_width * plan.source_height,
            1 <= alpha.bit_depth <= 16,
            opacity == grid_opacity::<T, S>(Some(alpha), plan.source_width),
            forall|i: int|
                0 <= i < before.len() ==> #[trigger] out.samples(order)[i] == if i % 4 == 3 && i
                    < 4 * k {
                    opacity(planned(plan)(place_of(i / 4, plan.destination_width as int)))
                } else {
                    before[i]
                },
        decreases pixels - k,
    {
        proof {
            lemma_place_of(
                k as int,
                plan.destination_width as int,
                plan.destination_height as int,
            );
        }
        let x: usize = k % width;
        let y: usize = k / width;
        let (source_x, source_y): (usize, usize) = plan.source_pixel(x, y);
        proof {
            lemma_index_of(
                (source_x as int, source_y as int),
                plan.source_width as int,
                plan.source_height as int,
            );
            assert(0 <= source_y * source_width) by (nonlinear_arith);
            assert((4 * k + 3) / 4 == k as int);
        }
        let sample: T = S::scale(
            alpha.samples[source_y * source_width + source_x],
            alpha.bit_depth,
        );
        out.write_sample(order, 4 * k + 3, sample);
        k = k + 1;
    }
}

/// The surface of a plan on which only some tiles were painted holds those of
/// the grid behind its transforms.
proof fn lemma_planned_begun<
    T: Copy,
    S: SampleScale<T>,
    F: Fn(PreparedYcbcrToRgb, i32, i32, i32) -> (u16, u16, u16),
>(
    grid: HeicGrid,
    tiles: Seq<Result<DecodedHeicImage, DecodeHeicError>>,
    plan: &RgbaTransformPlan,
    transforms: Seq<PrimaryItemTransformProperty>,
    alpha: Option<&HeicAuxiliaryAlphaPlane>,
    before: Seq<T>,
    float_kernel: F,
    samples: Seq<T>,
)
    requires
        plan.plans(
            transforms,
            grid.descriptor.output_width,
            grid.descriptor.output_height,
        ),
        plan.wf(),
        before.len() == 4 * (plan.destination_width * plan.destination_height),
        ({
            let view = GridView {
                tiles: tile_views(tiles.drop_last()),
                ..grid_view(grid, tiles)
            };
            let covered = tiles_cover(grid.descriptor, view.reference);
            &&& painted::<T, S, F>(
                view,
                !covered,
                float_kernel,
                4,
                samples,
                (plan.destination_width, plan.destination_height),
                planned(plan),
                grid_opacity::<T, S>(alpha, grid.descriptor.output_width),
            )
            &&& covered ==> untouched(
                view,
                4,
                before,
                samples,
                plan.destination_width as int,
                planned(plan),
            )
        }),
    ensures
        grid_buffer_begun::<T, S, F>(
            grid,
            tiles,
            transforms,
            alpha,
            before,
            float_kernel,
            samples,
        ),
{
    let view = GridView { tiles: tile_views(tiles.drop_last()), ..grid_view(grid, tiles) };
    let width = grid.descriptor.output_width;
    let height = grid.descriptor.output_height;
    let size = (plan.destination_width, plan.destination_height);
    let from = planned(plan);
    let all = sources(transforms, width, height, transforms.len());
    let covered = tiles_cover(grid.descriptor, view.reference);
    lemma_plan_is_exact(plan, transforms, width, height);
    assert forall|place: (int, int)| inside(place, size.0, size.1) implies #[trigger] from(place)
        == all(place) by {
        lemma_plan_places(plan, transforms, width, height, place);
    }
    lemma_painted_same::<T, S, F>(
        view,
        !covered,
        float_kernel,
        4,
        samples,
        size,
        from,
        all,
        grid_opacity::<T, S>(alpha, width),
    );
    if covered {
        assert forall|i: int|
            0 <= i < before.len() && !view.covered(
                all(place_of(i / 4, size.0 as int)),
                view.tiles.len() as int,
            ) implies #[trigger] samples[i] == before[i] by {
            lemma_place_of(i / 4, size.0 as int, size.1 as int);
            assert(from(place_of(i / 4, size.0 as int)) == all(place_of(i / 4, size.0 as int)));
        }
    }
}

/// Decodes a grid into a buffer of some storage bit depth. The tiles are
/// decoded one after another, by `decode_tile`. Where one of them fails, those
/// before it stay in the buffer.
pub fn decode_primary_heic_grid_to_rgba_output<
    T: Copy,
    S: SampleScale<T>,
    O: RgbaSampleOutput<T> + ?Sized,
    D: Fn(usize) -> Result<DecodedHeicImage, DecodeHeicError>,
    F: Fn(PreparedYcbcrToRgb, i32, i32, i32) -> (u16, u16, u16),
>(
    grid: &HeicGrid,
    transforms: &[PrimaryItemTransformProperty],
    auxiliary_alpha: Option<&HeicAuxiliaryAlphaPlane>,
    out: &mut O,
    order: ByteOrder,
    storage_bit_depth: u8,
    sample_count_stage: &'static str,
    decode_tile: &D,
    float_kernel: &F,
) -> (result: Result<(), DecodeError>)
    requires
        transforms_wf(transforms@),
        kernel_ready(*float_kernel),
        forall|k: usize| k < grid.tile_count ==> #[trigger] decode_tile.requires((k,)),
    ensures
        final(out).samples(order).len() == old(out).samples(order).len(),
        final(out).rest() == old(out).rest(),
        exists|tiles: Seq<Result<DecodedHeicImage, DecodeHeicError>>|
            {
                &&& #[trigger] produced(*decode_tile, tiles)
                &&& tiles_tried(grid.descriptor, grid.tile_count as int, tiles.len() as int)
                &&& grid_buffer_decoded::<T, S, F>(
                    *grid,
                    tiles,
                    transforms@,
                    auxiliary_alpha,
                    storage_bit_depth,
                    old(out).samples(order),
                    sample_count_stage,
                    *float_kernel,
                    result,
                    final(out).samples(order),
                )
            },
{
    let descriptor: &HeicGridDescriptor = &grid.descriptor;
    let width: u32 = descriptor.output_width;
    let (opened, Ghost(opening)) = open_grid(grid, decode_tile);
    let (first_tile, reference, source_bit_depth): (
        DecodedHeicImage,
        HeicGridTileReference,
        u8,
    ) = match opened {
        Err(e) => {
            return Err(DecodeError::HeicDecode(e));
        },
        Ok(opened) => opened,
    };
    let stored: u8 = heic_storage_bit_depth(source_bit_depth);
    if stored != storage_bit_depth {
        return Err(
            DecodeError::Unsupported(
                Wording::Template(
                    Detail::Two(
                        "HEIC grid storage is RGBA{}, not RGBA{}",
                        Arg::Num(stored as i128),
                        Arg::Num(storage_bit_depth as i128),
                    ),
                ),
            ),
        );
    }
    let actual: usize = out.sample_len();
    let plan: RgbaTransformPlan = match plan_output(
        width,
        descriptor.output_height,
        transforms,
        actual,
        sample_count_stage,
    ) {
        Err(e) => {
            return Err(DecodeError::TransformGuard(e));
        },
        Ok(plan) => plan,
    };
    if let Some(plane) = auxiliary_alpha {
        match validate_auxiliary_alpha_plane(plane, width, descriptor.output_height) {
            Err(e) => {
                return Err(DecodeError::HeicDecode(e));
            },
            Ok(_) => {},
        }
    }
    let surface: GridSurface<'_> = GridSurface::Planned(&plan);
    proof {
        lemma_plan_is_exact(&plan, transforms@, width, descriptor.output_height);
    }
    let filled: bool = match fill_gap::<T, S, O, F>(
        descriptor,
        &reference,
        &surface,
        out,
        order,
        4,
        "RGBA",
        float_kernel,
    ) {
        Err(e) => {
            return Err(DecodeError::HeicDecode(e));
        },
        Ok(filled) => filled,
    };
    let ghost none = GridView {
        descriptor: *descriptor,
        reference,
        tiles: Seq::empty(),
    };
    if let Some(plane) = auxiliary_alpha {
        if filled {
            let ghost before = out.samples(order);
            seed_alpha::<T, S, O>(out, order, &plan, plane);
            proof {
                lemma_painted_opacity::<T, S, F>(
                    none,
                    *float_kernel,
                    before,
                    out.samples(order),
                    (plan.destination_width, plan.destination_height),
                    planned(&plan),
                    grid_opacity::<T, S>(None, width),
                    grid_opacity::<T, S>(auxiliary_alpha, width),
                );
            }
        } else {
            proof {
                lemma_nothing_painted::<T, S, F>(
                    none,
                    *float_kernel,
                    out.samples(order),
                    &plan,
                    grid_opacity::<T, S>(auxiliary_alpha, width),
                );
            }
        }
    }
    let (pasted, Ghost(tiles)) = paste_heic_grid_tiles::<T, S, O, D, F>(
        descriptor,
        &reference,
        first_tile,
        &surface,
        out,
        order,
        auxiliary_alpha,
        4,
        "RGBA",
        grid.tile_count,
        decode_tile,
        float_kernel,
        Ghost(filled),
    );
    proof {
        lemma_opening(*grid, opening, tiles);
        if pasted is Ok {
            lemma_planned_shown::<T, S, F>(
                grid_view(*grid, tiles),
                filled,
                &plan,
                transforms@,
                auxiliary_alpha,
                *float_kernel,
                4,
                out.samples(order),
            );
        } else {
            lemma_planned_begun::<T, S, F>(
                *grid,
                tiles,
                &plan,
                transforms@,
                auxiliary_alpha,
                old(out).samples(order),
                *float_kernel,
                out.samples(order),
            );
        }
    }
    let result: Result<(), DecodeError> = match pasted {
        Err(e) => Err(DecodeError::HeicDecode(e)),
        Ok(()) => Ok(()),
    };
    assert(grid_buffer_decoded::<T, S, F>(
        *grid,
        tiles,
        transforms@,
        auxiliary_alpha,
        storage_bit_depth,
        old(out).samples(order),
        sample_count_stage,
        *float_kernel,
        result,
        out.samples(order),
    ));
    result
}

/// A canvas that was not filled shows a grid without tiles, whatever it holds.
proof fn lemma_nothing_painted<
    T: Copy,
    S: SampleScale<T>,
    F: Fn(PreparedYcbcrToRgb, i32, i32, i32) -> (u16, u16, u16),
>(
    grid: GridView,
    float_kernel: F,
    samples: Seq<T>,
    plan: &RgbaTransformPlan,
    opacity: spec_fn((int, int)) -> T,
)
    requires
        grid.tiles.len() == 0,
        0 < grid.reference.tile_width,
        0 < grid.reference.tile_height,
        crate::transform::paste::plan_is_exact(plan),
        samples.len() == 4 * (plan.destination_width * plan.destination_height),
    ensures
        painted::<T, S, F>(
            grid,
            false,
            float_kernel,
            4,
            samples,
            (plan.destination_width, plan.destination_height),
            planned(plan),
            opacity,
        ),
{
    let width = plan.destination_width as int;
    assert forall|k: int|
        0 <= k < plan.destination_width * plan.destination_height implies !grid.covered(
        planned(plan)(#[trigger] place_of(k, width)),
        0,
    ) by {
        lemma_place_of(k, width, plan.destination_height as int);
        let place = planned(plan)(place_of(k, width));
        let (c, r) = grid.cell(place);
        super::canvas::lemma_cell(place.0, grid.reference.tile_width as int, c);
        super::canvas::lemma_cell(place.1, grid.reference.tile_height as int, r);
        assert(0 <= r * grid.descriptor.columns + c) by (nonlinear_arith)
            requires
                0 <= r,
                0 <= c,
        ;
    }
}

/// Decodes a grid into a buffer of eight bits.
pub fn decode_primary_heic_grid_to_rgba8_slice<
    D: Fn(usize) -> Result<DecodedHeicImage, DecodeHeicError>,
    F: Fn(PreparedYcbcrToRgb, i32, i32, i32) -> (u16, u16, u16),
>(
    grid: &HeicGrid,
    transforms: &[PrimaryItemTransformProperty],
    auxiliary_alpha: Option<&HeicAuxiliaryAlphaPlane>,
    out: &mut [u8],
    decode_tile: &D,
    float_kernel: &F,
) -> (result: Result<(), DecodeError>)
    requires
        transforms_wf(transforms@),
        kernel_ready(*float_kernel),
        forall|k: usize| k < grid.tile_count ==> #[trigger] decode_tile.requires((k,)),
    ensures
        final(out)@.len() == old(out)@.len(),
        exists|tiles: Seq<Result<DecodedHeicImage, DecodeHeicError>>|
            {
                &&& #[trigger] produced(*decode_tile, tiles)
                &&& tiles_tried(grid.descriptor, grid.tile_count as int, tiles.len() as int)
                &&& grid_buffer_decoded::<u8, ScaleToU8, F>(
                    *grid,
                    tiles,
                    transforms@,
                    auxiliary_alpha,
                    8,
                    old(out)@,
                    "HEIC grid RGBA8 image adapter output",
                    *float_kernel,
                    result,
                    final(out)@,
                )
            },
{
    decode_primary_heic_grid_to_rgba_output::<u8, ScaleToU8, [u8], D, F>(
        grid,
        transforms,
        auxiliary_alpha,
        out,
        ByteOrder::LittleEndian,
        8,
        "HEIC grid RGBA8 image adapter output",
        decode_tile,
        float_kernel,
    )
}

/// Decodes a grid into a buffer of sixteen bits, each sample in the byte order
/// of the machine.
pub fn decode_primary_heic_grid_to_rgba16_native_endian_bytes<
    D: Fn(usize) -> Result<DecodedHeicImage, DecodeHeicError>,
    F: Fn(PreparedYcbcrToRgb, i32, i32, i32) -> (u16, u16, u16),
>(
    grid: &HeicGrid,
    transforms: &[PrimaryItemTransformProperty],
    auxiliary_alpha: Option<&HeicAuxiliaryAlphaPlane>,
    out: &mut [u8],
    decode_tile: &D,
    float_kernel: &F,
) -> (result: Result<(), DecodeError>)
    requires
        transforms_wf(transforms@),
        kernel_ready(*float_kernel),
        forall|k: usize| k < grid.tile_count ==> #[trigger] decode_tile.requires((k,)),
    ensures
        final(out)@.len() == old(out)@.len(),
        unpaired(final(out)@) == unpaired(old(out)@),
        exists|tiles: Seq<Result<DecodedHeicImage, DecodeHeicError>>|
            {
                &&& #[trigger] produced(*decode_tile, tiles)
                &&& tiles_tried(grid.descriptor, grid.tile_count as int, tiles.len() as int)
                &&& grid_buffer_decoded::<u16, ScaleToU16, F>(
                    *grid,
                    tiles,
                    transforms@,
                    auxiliary_alpha,
                    16,
                    paired(old(out)@, machine_order()),
                    "HEIC grid RGBA16 image adapter byte output",
                    *float_kernel,
                    result,
                    paired(final(out)@, machine_order()),
                )
            },
{
    let order: ByteOrder = native_byte_order();
    let ghost before = out@;
    assert(paired(out@, order).len() == out@.len() as int / 2);
    let result = decode_primary_heic_grid_to_rgba_output::<u16, ScaleToU16, [u8], D, F>(
        grid,
        transforms,
        auxiliary_alpha,
        out,
        order,
        16,
        "HEIC grid RGBA16 image adapter byte output",
        decode_tile,
        float_kernel,
    );
    proof {
        lemma_paired_length(before, order);
        lemma_paired_length(out@, order);
        assert(RgbaSampleOutput::<u16>::samples(out, order) == paired(out@, order));
    }
    result
}

} // verus!
