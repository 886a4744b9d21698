//! How many tiles of a grid may be decoded at once.
use vstd::prelude::*;
use vstd::slice::slice_subrange;

verus! {

/// The most tiles that are decoded at once.
pub const MAX_GRID_TILE_DECODE_THREADS: usize = 8;

/// The most bytes that the tiles decoded at once may need, by their estimates.
pub const GRID_TILE_DECODE_MEMORY_BUDGET: u64 = 67_108_864;

/// The bytes that the first `count` tiles need, by their estimates; a tile
/// needs at least one.
pub open spec fn bytes_needed(estimates: Seq<Option<u64>>, count: nat) -> int
    decreases count,
{
    if count == 0 {
        0
    } else {
        let last = estimates[count - 1]->0;
        bytes_needed(estimates, (count - 1) as nat) + if last == 0 {
            1
        } else {
            last as int
        }
    }
}

/// Whether the first `count` tiles may be decoded at once: every one of them
/// has an estimate, and where there are several, they keep to the budget.
pub open spec fn may_decode(estimates: Seq<Option<u64>>, count: nat) -> bool {
    &&& forall|k: int| 0 <= k < count ==> (#[trigger] estimates[k]) is Some
    &&& count <= 1 || bytes_needed(estimates, count) <= GRID_TILE_DECODE_MEMORY_BUDGET
}

/// The most tiles that there are threads for.
pub open spec fn thread_limit(estimates: Seq<Option<u64>>, available_threads: usize) -> int {
    let threads = if available_threads == 0 {
        1
    } else {
        available_threads as int
    };
    if threads < estimates.len() {
        threads
    } else {
        estimates.len() as int
    }
}

/// More tiles need more bytes.
proof fn lemma_more_bytes(estimates: Seq<Option<u64>>, few: nat, many: nat)
    requires
        few <= many,
    ensures
        bytes_needed(estimates, few) + (many - few) <= bytes_needed(estimates, many),
        0 <= bytes_needed(estimates, few),
    decreases many,
{
    if few < many {
        lemma_more_bytes(estimates, few, (many - 1) as nat);
    } else if few > 0 {
        lemma_more_bytes(estimates, (few - 1) as nat, (many - 1) as nat);
    }
}

/// The number of tiles to decode at once: as many as may be, and at least one.
pub fn heic_grid_tile_decode_window_from_estimates(
    estimates: &[Option<u64>],
    available_threads: usize,
) -> (window: usize)
    ensures
        1 <= window,
        window > 1 ==> window <= thread_limit(estimates@, available_threads) && may_decode(
            estimates@,
            window as nat,
        ),
        forall|more: nat|
            window < more <= thread_limit(estimates@, available_threads) ==> !(
            #[trigger] may_decode(estimates@, more)),
{
    let threads: usize = if available_threads == 0 {
        1
    } else {
        available_threads
    };
    let limit: usize = if threads < estimates.len() {
        threads
    } else {
        estimates.len()
    };
    let mut window: usize = 0;
    let mut bytes: u64 = 0;
    while window < limit
        invariant_except_break
            limit == thread_limit(estimates@, available_threads),
            limit <= estimates@.len(),
            window <= limit,
            may_decode(estimates@, window as nat),
            bytes == bytes_needed(estimates@, window as nat),
            bytes < GRID_TILE_DECODE_MEMORY_BUDGET,
        ensures
            window <= limit,
            may_decode(estimates@, window as nat),
            forall|more: nat|
                window < more <= limit && more > 1 ==> !(#[trigger] may_decode(
                    estimates@,
                    more,
                )),
        decreases limit - window,
    {
        let tile_bytes: u64 = match estimates[window] {
            None => {
                assert forall|more: nat| window < more <= limit implies !(#[trigger] may_decode(
                    estimates@,
                    more,
                )) by {
                    assert(!(estimates@[window as int] is Some));
                }
                break;
            },
            Some(bytes) => bytes,
        };
        let needed: u64 = if tile_bytes == 0 {
            1
        } else {
            tile_bytes
        };
        let next: u64 = bytes.saturating_add(needed);
        if window > 0 && next > GRID_TILE_DECODE_MEMORY_BUDGET {
            proof {
                assert forall|more: nat| window < more <= limit implies !(#[trigger] may_decode(
                    estimates@,
                    more,
                )) by {
                    lemma_more_bytes(estimates@, (window + 1) as nat, more);
                }
            }
            break;
        }
        window = window + 1;
        if next >= GRID_TILE_DECODE_MEMORY_BUDGET {
            proof {
                assert forall|more: nat| window < more <= limit implies !(#[trigger] may_decode(
                    estimates@,
                    more,
                )) by {
                    lemma_more_bytes(estimates@, window as nat, more);
                }
            }
            break;
        }
        bytes = next;
    }
    if window == 0 {
        1
    } else {
        window
    }
}

/// Whether a number of tiles is the one to decode at once, of tiles that are
/// left: the most that the machine's threads and the budget allow.
pub open spec fn is_window(
    estimates: Seq<Option<u64>>,
    machine_threads: usize,
    window: usize,
) -> bool {
    &&& 1 <= window <= MAX_GRID_TILE_DECODE_THREADS
    &&& window > 1 ==> window <= estimates.len() && window <= machine_threads && may_decode(
        estimates,
        window as nat,
    )
    &&& forall|more: nat|
        window < more <= estimates.len() && more <= machine_threads && more
            <= MAX_GRID_TILE_DECODE_THREADS ==> !(#[trigger] may_decode(estimates, more))
}

/// The number of tiles to decode at once, of those that are left, with as many
/// threads as the machine gives. A single tile needs no window.
pub fn heic_grid_tile_decode_window(estimates: &[Option<u64>], machine_threads: usize) -> (window:
    usize)
    ensures
        is_window(estimates@, machine_threads, window),
{
    if estimates.len() <= 1 {
        return 1;
    }
    let threads: usize = if machine_threads < MAX_GRID_TILE_DECODE_THREADS {
        machine_threads
    } else {
        MAX_GRID_TILE_DECODE_THREADS
    };
    heic_grid_tile_decode_window_from_estimates(estimates, threads)
}

/// The tiles of the first batches together.
pub open spec fn tiles_before(batches: Seq<usize>, count: int) -> int
    decreases count,
{
    if count <= 0 {
        0
    } else {
        tiles_before(batches, count - 1) + batches[count - 1]
    }
}

/// Earlier batches do not depend on the later ones.
proof fn lemma_tiles_before(batches: Seq<usize>, more: usize, count: int)
    requires
        0 <= count <= batches.len(),
    ensures
        tiles_before(batches.push(more), count) == tiles_before(batches, count),
    decreases count,
{
    if count > 0 {
        lemma_tiles_before(batches, more, count - 1);
    }
}

/// Whether a batch is a window of the tiles that the earlier ones leave.
pub open spec fn is_batch(
    estimates: Seq<Option<u64>>,
    machine_threads: usize,
    batches: Seq<usize>,
    k: int,
) -> bool {
    &&& 0 <= tiles_before(batches, k) < estimates.len()
    &&& is_window(estimates.skip(tiles_before(batches, k)), machine_threads, batches[k])
}

/// How many tiles to decode at once, batch by batch. The batches follow each
/// other and hold every tile once.
pub fn heic_grid_tile_batches(estimates: &[Option<u64>], machine_threads: usize) -> (batches: Vec<
    usize,
>)
    ensures
        tiles_before(batches@, batches@.len() as int) == estimates@.len(),
        forall|k: int|
            0 <= k < batches@.len() ==> #[trigger] is_batch(
                estimates@,
                machine_threads,
                batches@,
                k,
            ),
{
    let mut batches: Vec<usize> = Vec::new();
    let total: usize = estimates.len();
    let mut next: usize = 0;
    while next < total
        invariant
            next <= total,
            total == estimates@.len(),
            next == tiles_before(batches@, batches@.len() as int),
            forall|k: int|
                0 <= k < batches@.len() ==> #[trigger] is_batch(
                    estimates@,
                    machine_threads,
                    batches@,
                    k,
                ),
        decreases total - next,
    {
        let left: &[Option<u64>] = slice_subrange(estimates, next, total);
        assert(left@ =~= estimates@.skip(next as int));
        let window: usize = heic_grid_tile_decode_window(left, machine_threads);
        let ghost earlier = batches@;
        batches.push(window);
        proof {
            lemma_tiles_before(earlier, window, earlier.len() as int);
            assert forall|k: int| 0 <= k < batches@.len() implies #[trigger] is_batch(
                estimates@,
                machine_threads,
                batches@,
                k,
            ) by {
                lemma_tiles_before(earlier, window, k);
                if k < earlier.len() {
                    assert(is_batch(estimates@, machine_threads, earlier, k));
                }
            }
        }
        next = next + window;
    }
    batches
}

} // verus!
