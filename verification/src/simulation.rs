//! Simulation constants, the xorshift generator, the attraction-matrix memory
//! layout, and the integer bookkeeping around the particle buffers and the
//! spatial-grid compute passes.

use vstd::prelude::*;

verus! {

/// Maximum number of species supported by the attraction matrix and palette.
pub const MAX_SPECIES: usize = 16;

/// Maximum number of permanent field attractors.
pub const MAX_ATTRACTORS: usize = 64;

/// Hard cap on the particle buffer.
pub const MAX_PARTICLES: usize = 2_000_000;

/// Fewest particles a requested count is raised to.
pub const MIN_REQUESTED_PARTICLES: usize = 100;

/// Capacity of the spatial-grid cell buffers.
pub const MAX_GRID_CELLS: usize = 300_000;

/// Block count of the parallel prefix scan: one per 256 cells, plus a sentinel.
pub const MAX_PREFIX_BLOCKS: usize = (MAX_GRID_CELLS + 255) / 256 + 1;

/// Largest grid side whose square fits in [`MAX_GRID_CELLS`].
pub const MAX_GRID_SIDE: u64 = 547;

/// Smallest grid side the passes use.
pub const MIN_GRID_SIDE: u64 = 5;

/// Length of the attraction layout: a `MAX_SPECIES × MAX_SPECIES` particle
/// matrix followed by one wall row of `MAX_SPECIES` entries.
pub const ATTRACTION_LEN: usize = 272;

/// Offset of the wall row in the attraction layout.
pub const WALL_ROW: usize = 256;

/// Default species colours as packed sRGB `0xFF_BB_GG_RR` words.
pub const PALETTE_DEFAULT: [u32; 16] = [
    0xFF8585EF,
    0xFF85EF85,
    0xFFEF9885,
    0xFF7AE5EF,
    0xFFEF7AD0,
    0xFFEAEA7A,
    0xFF7ABDF4,
    0xFFDBA8F4,
    0xFF85C4F4,
    0xFFABEF85,
    0xFF85EFCF,
    0xFFEFD485,
    0xFFD485EF,
    0xFF85B8EF,
    0xFFEF8585,
    0xFFB8F485,
];

// ── Random numbers ───────────────────────────────────────────────────────────

/// Seed of every freshly created generator.
pub const RNG_SEED: u32 = 0xDEAD_BEEF;

/// One xorshift32 step: `x ^= x << 13; x ^= x >> 17; x ^= x << 5`.
pub open spec fn xorshift32(x: u32) -> u32 {
    let a = x ^ (x << 13u32);
    let b = a ^ (a >> 17u32);
    b ^ (b << 5u32)
}

/// A xorshift32 step never reaches zero from a nonzero state, so the
/// generator can never get stuck at zero.
pub proof fn lemma_xorshift32_nonzero(x: u32)
    requires
        x != 0,
    ensures
        xorshift32(x) != 0,
{
    let a = x ^ (x << 13u32);
    assert(a != 0) by (bit_vector)
        requires
            x != 0,
            a == x ^ (x << 13u32),
    ;
    let b = a ^ (a >> 17u32);
    assert(b != 0) by (bit_vector)
        requires
            a != 0,
            b == a ^ (a >> 17u32),
    ;
    let c = b ^ (b << 5u32);
    assert(c != 0) by (bit_vector)
        requires
            b != 0,
            c == b ^ (b << 5u32),
    ;
}

/// Xorshift32 pseudo-random generator; fast and non-cryptographic.
pub struct Rng(u32);

impl Rng {
    /// The generator's current state.
    pub closed spec fn state(&self) -> u32 {
        self.0
    }

    #[verifier::type_invariant]
    spec fn nonzero(&self) -> bool {
        self.0 != 0
    }

    /// A generator in its fixed initial state.
    pub fn new() -> (r: Self)
        ensures
            r.state() == RNG_SEED,
    {
        Rng(0xDEAD_BEEF)
    }

    /// Advance the state by one xorshift32 step and return the new state,
    /// which is never zero.
    pub fn next_u32(&mut self) -> (r: u32)
        ensures
            r == xorshift32(old(self).state()),
            final(self).state() == r,
            r != 0,
    {
        proof {
            use_type_invariant(&*self);
            lemma_xorshift32_nonzero(self.0);
        }
        let x = self.0;
        let a = x ^ (x << 13u32);
        let b = a ^ (a >> 17u32);
        let c = b ^ (b << 5u32);
        self.0 = c;
        c
    }
}

/// State of a fresh generator after `k` draws.
pub open spec fn rng_state_after(k: nat) -> u32
    decreases k,
{
    if k == 0 {
        RNG_SEED
    } else {
        xorshift32(rng_state_after((k - 1) as nat))
    }
}

/// A fresh generator never reaches the zero state, however many values it
/// hands out, so its sequence never gets stuck.
pub proof fn lemma_rng_never_stuck(k: nat)
    ensures
        rng_state_after(k) != 0,
    decreases k,
{
    if k > 0 {
        lemma_rng_never_stuck((k - 1) as nat);
        lemma_xorshift32_nonzero(rng_state_after((k - 1) as nat));
    }
}

/// Species of a spawned particle: the locked species, or a draw of the
/// generator reduced modulo the species count.
pub fn pick_species(rng: &mut Rng, locked: Option<usize>, species_count: usize) -> (r: usize)
    requires
        locked is None ==> species_count > 0,
    ensures
        match locked {
            Some(s) => r == s && final(rng).state() == old(rng).state(),
            None => r == xorshift32(old(rng).state()) as usize % species_count
                && final(rng).state() == xorshift32(old(rng).state()),
        },
{
    match locked {
        Some(s) => s,
        None => (rng.next_u32() as usize) % species_count,
    }
}

// ── Colours ──────────────────────────────────────────────────────────────────

/// The packed sRGB word `0xFF_BB_GG_RR` for channels `(r, g, b)`.
pub open spec fn packed_srgb(r: u8, g: u8, b: u8) -> u32 {
    0xFF00_0000u32 | ((b as u32) << 16u32) | ((g as u32) << 8u32) | (r as u32)
}

/// Pack sRGB channel bytes as `0xFF_BB_GG_RR`; the alpha byte is always `0xFF`
/// and each channel can be read back from its byte.
pub fn pack_srgb(r: u8, g: u8, b: u8) -> (p: u32)
    ensures
        p == packed_srgb(r, g, b),
        (p >> 24u32) & 0xFFu32 == 0xFFu32,
        p & 0xFFu32 == r as u32,
        (p >> 8u32) & 0xFFu32 == g as u32,
        (p >> 16u32) & 0xFFu32 == b as u32,
{
    let p = 0xFF00_0000u32 | ((b as u32) << 16u32) | ((g as u32) << 8u32) | (r as u32);
    assert((p >> 24u32) & 0xFFu32 == 0xFFu32 && p & 0xFFu32 == r as u32 && (p >> 8u32) & 0xFFu32
        == g as u32 && (p >> 16u32) & 0xFFu32 == b as u32) by (bit_vector)
        requires
            p == 0xFF00_0000u32 | ((b as u32) << 16u32) | ((g as u32) << 8u32) | (r as u32),
    ;
    p
}

/// The `(r, g, b)` channel bytes of a packed `0xFF_BB_GG_RR` word.
pub fn unpack_srgb(p: u32) -> (c: (u8, u8, u8))
    ensures
        c.0 as u32 == p & 0xFFu32,
        c.1 as u32 == (p >> 8u32) & 0xFFu32,
        c.2 as u32 == (p >> 16u32) & 0xFFu32,
{
    assert(p & 0xFFu32 < 256 && (p >> 8u32) & 0xFFu32 < 256 && (p >> 16u32) & 0xFFu32 < 256)
        by (bit_vector);
    ((p & 0xFF) as u8, ((p >> 8u32) & 0xFF) as u8, ((p >> 16u32) & 0xFF) as u8)
}

/// Unpacking a packed colour gives its channels back.
pub proof fn lemma_srgb_round_trip(r: u8, g: u8, b: u8)
    ensures
        packed_srgb(r, g, b) & 0xFFu32 == r as u32,
        (packed_srgb(r, g, b) >> 8u32) & 0xFFu32 == g as u32,
        (packed_srgb(r, g, b) >> 16u32) & 0xFFu32 == b as u32,
        (packed_srgb(r, g, b) >> 24u32) & 0xFFu32 == 0xFFu32,
{
    let p = packed_srgb(r, g, b);
    assert((p >> 24u32) & 0xFFu32 == 0xFFu32 && p & 0xFFu32 == r as u32 && (p >> 8u32) & 0xFFu32
        == g as u32 && (p >> 16u32) & 0xFFu32 == b as u32) by (bit_vector)
        requires
            p == 0xFF00_0000u32 | ((b as u32) << 16u32) | ((g as u32) << 8u32) | (r as u32),
    ;
}

// ── Attraction layout ────────────────────────────────────────────────────────

pub open spec fn min_nat(a: nat, b: nat) -> nat {
    if a <= b {
        a
    } else {
        b
    }
}

/// The active `n × n` block of a full layout, row-major: entry `k` is row
/// `k / n`, column `k % n` of the 16-column matrix.
pub open spec fn active_block<T>(n: nat, full: Seq<T>) -> Seq<T> {
    Seq::new(n * n, |k: int| full[(k / n as int) * MAX_SPECIES as int + k % n as int])
}

/// The full layout built from a compact `pn × pn` matrix for `n` active
/// species: cell `(i, j)` of the first `min(n, pn)` rows and columns takes
/// `compact[i * pn + j]` when that entry exists; wall entry `s` takes
/// `wall[s]` when given; everything else is `zero`.
pub open spec fn expanded_layout<T>(
    compact: Seq<T>,
    pn: nat,
    n: nat,
    wall: Option<Seq<T>>,
    zero: T,
) -> Seq<T> {
    Seq::new(
        ATTRACTION_LEN as nat,
        |p: int|
            if p < WALL_ROW {
                let i = p / MAX_SPECIES as int;
                let j = p % MAX_SPECIES as int;
                let m = min_nat(n, pn) as int;
                if i < m && j < m && i * pn + j < compact.len() {
                    compact[i * pn + j]
                } else {
                    zero
                }
            } else {
                let s = p - WALL_ROW;
                match wall {
                    Some(w) => if s < w.len() {
                        w[s]
                    } else {
                        zero
                    },
                    None => zero,
                }
            },
    )
}

/// Build the full attraction layout (16 × 16 matrix plus wall row) from a
/// compact `preset_species × preset_species` matrix and an optional wall row,
/// for `species` active species.  Entries outside the copied block are `zero`.
pub fn expand_attraction<T: Copy>(
    compact: &Vec<T>,
    preset_species: usize,
    species: usize,
    wall: Option<&Vec<T>>,
    zero: T,
) -> (r: Vec<T>)
    requires
        preset_species <= MAX_SPECIES,
        species <= MAX_SPECIES,
    ensures
        r@ == expanded_layout(
            compact@,
            preset_species as nat,
            species as nat,
            match wall {
                Some(w) => Some(w@),
                None => None,
            },
            zero,
        ),
{
    let ghost wv: Option<Seq<T>> = match wall {
        Some(w) => Some(w@),
        None => None,
    };
    let ghost target = expanded_layout(compact@, preset_species as nat, species as nat, wv, zero);
    let m = if species <= preset_species {
        species
    } else {
        preset_species
    };
    let mut r: Vec<T> = Vec::new();
    let mut p: usize = 0;
    while p < ATTRACTION_LEN
        invariant
            p <= ATTRACTION_LEN,
            preset_species <= MAX_SPECIES,
            m == min_nat(species as nat, preset_species as nat),
            wv == (match wall {
                Some(w) => Some(w@),
                None => None::<Seq<T>>,
            }),
            target == expanded_layout(compact@, preset_species as nat, species as nat, wv, zero),
            r@ == target.subrange(0, p as int),
        decreases ATTRACTION_LEN - p,
    {
        let val = if p < WALL_ROW {
            let i = p / MAX_SPECIES;
            let j = p % MAX_SPECIES;
            if i < m && j < m {
                assert(i * preset_species + j < 256) by (nonlinear_arith)
                    requires
                        i < 16,
                        j < 16,
                        preset_species <= 16,
                ;
                let idx = i * preset_species + j;
                if idx < compact.len() {
                    compact[idx]
                } else {
                    zero
                }
            } else {
                zero
            }
        } else {
            let s = p - WALL_ROW;
            match wall {
                Some(w) => if s < w.len() {
                    w[s]
                } else {
                    zero
                },
                None => zero,
            }
        };
        r.push(val);
        proof {
            assert(target[p as int] == val);
            assert(r@ =~= target.subrange(0, p + 1));
        }
        p = p + 1;
    }
    proof {
        assert(target.subrange(0, ATTRACTION_LEN as int) =~= target);
    }
    r
}

/// The active `species × species` block of a full attraction layout, as a
/// compact row-major matrix.
pub fn compact_attraction<T: Copy>(full: &Vec<T>, species: usize) -> (r: Vec<T>)
    requires
        species <= MAX_SPECIES,
        full@.len() == ATTRACTION_LEN,
    ensures
        r@ == active_block(species as nat, full@),
{
    let ghost target = active_block(species as nat, full@);
    assert(species * species <= 256) by (nonlinear_arith)
        requires
            species <= 16,
    ;
    let total = species * species;
    let mut r: Vec<T> = Vec::new();
    let mut k: usize = 0;
    while k < total
        invariant
            species <= MAX_SPECIES,
            total == species * species,
            full@.len() == ATTRACTION_LEN,
            k <= total,
            target == active_block(species as nat, full@),
            r@ == target.subrange(0, k as int),
        decreases total - k,
    {
        let i = k / species;
        let j = k % species;
        assert(i * 16 + j < 272) by (nonlinear_arith)
            requires
                i == k / species,
                j == k % species,
                k < species * species,
                species <= 16,
                species > 0,
        ;
        let v = full[i * MAX_SPECIES + j];
        r.push(v);
        proof {
            assert(r@ =~= target.subrange(0, k + 1));
        }
        k = k + 1;
    }
    proof {
        assert(target.subrange(0, total as int) =~= target);
    }
    r
}

/// The wall row of a full attraction layout.
pub fn wall_row<T: Copy>(full: &Vec<T>) -> (r: Vec<T>)
    requires
        full@.len() == ATTRACTION_LEN,
    ensures
        r@ == full@.subrange(WALL_ROW as int, ATTRACTION_LEN as int),
{
    let mut r: Vec<T> = Vec::new();
    let mut p: usize = WALL_ROW;
    while p < ATTRACTION_LEN
        invariant
            WALL_ROW <= p <= ATTRACTION_LEN,
            full@.len() == ATTRACTION_LEN,
            r@ == full@.subrange(WALL_ROW as int, p as int),
        decreases ATTRACTION_LEN - p,
    {
        r.push(full[p]);
        proof {
            assert(r@ =~= full@.subrange(WALL_ROW as int, p + 1));
        }
        p = p + 1;
    }
    r
}

/// Saving the active block of a layout and loading it back restores the
/// compact matrix: `compact_attraction` undoes `expand_attraction`.
pub proof fn lemma_compact_expand_round_trip<T>(compact: Seq<T>, n: nat, wall: Option<Seq<T>>, zero: T)
    requires
        n <= MAX_SPECIES,
        compact.len() == n * n,
    ensures
        active_block(n, expanded_layout(compact, n, n, wall, zero)) == compact,
{
    let full = expanded_layout(compact, n, n, wall, zero);
    let blk = active_block(n, full);
    assert forall|k: int| 0 <= k < n * n implies #[trigger] blk[k] == compact[k] by {
        let i = k / n as int;
        let j = k % n as int;
        assert(k == i * n + j && 0 <= i < n && 0 <= j < n) by (nonlinear_arith)
            requires
                0 <= k < n * n,
                i == k / n as int,
                j == k % n as int,
        ;
        let p = i * 16 + j;
        assert(0 <= p < 256) by (nonlinear_arith)
            requires
                0 <= i < n,
                0 <= j < n,
                n <= 16,
                p == i * 16 + j,
        ;
        vstd::arithmetic::div_mod::lemma_fundamental_div_mod_converse(p, 16, i, j);
        assert(full[p] == compact[k]);
    }
    assert(blk =~= compact);
}

/// Loading a saved layout back keeps the active block and the wall row of
/// the layout it was saved from: `expand_attraction` undoes
/// `compact_attraction` on every entry that a saved session holds.
pub proof fn lemma_expand_compact_round_trip<T>(full: Seq<T>, n: nat, zero: T)
    requires
        n <= MAX_SPECIES,
        full.len() == ATTRACTION_LEN,
    ensures
        ({
            let back = expanded_layout(
                active_block(n, full),
                n,
                n,
                Some(full.subrange(WALL_ROW as int, ATTRACTION_LEN as int)),
                zero,
            );
            &&& back.len() == ATTRACTION_LEN
            &&& forall|i: int, j: int|
                0 <= i < n && 0 <= j < n ==> #[trigger] back[i * 16 + j] == full[i * 16 + j]
            &&& forall|s: int| WALL_ROW <= s < ATTRACTION_LEN ==> #[trigger] back[s] == full[s]
        }),
{
    let blk = active_block(n, full);
    let back = expanded_layout(
        blk,
        n,
        n,
        Some(full.subrange(WALL_ROW as int, ATTRACTION_LEN as int)),
        zero,
    );
    assert forall|i: int, j: int| 0 <= i < n && 0 <= j < n implies #[trigger] back[i * 16 + j]
        == full[i * 16 + j] by {
        let p = i * 16 + j;
        assert(0 <= p < 256) by (nonlinear_arith)
            requires
                0 <= i < n,
                0 <= j < n,
                n <= 16,
                p == i * 16 + j,
        ;
        vstd::arithmetic::div_mod::lemma_fundamental_div_mod_converse(p, 16, i, j);
        let k = i * n + j;
        assert(0 <= k < n * n) by (nonlinear_arith)
            requires
                0 <= i < n,
                0 <= j < n,
                k == i * n + j,
        ;
        vstd::arithmetic::div_mod::lemma_fundamental_div_mod_converse(k, n as int, i, j);
        assert(blk[k] == full[p]);
    }
}

// ── Particle bookkeeping ─────────────────────────────────────────────────────

/// Number of entries of `s` equal to `k`.
pub open spec fn count_of(s: Seq<u32>, k: int) -> nat
    decreases s.len(),
{
    if s.len() == 0 {
        0
    } else {
        count_of(s.drop_last(), k) + if s.last() == k {
            1nat
        } else {
            0nat
        }
    }
}

proof fn lemma_count_of_bound(s: Seq<u32>, k: int)
    ensures
        count_of(s, k) <= s.len(),
    decreases s.len(),
{
    if s.len() > 0 {
        lemma_count_of_bound(s.drop_last(), k);
    }
}

/// Per-species particle counts: entry `k` is the number of particles whose
/// species is `k`; species outside `0..species_count` are not counted.
pub fn species_counts(species: &Vec<u32>, species_count: usize) -> (r: Vec<usize>)
    ensures
        r@.len() == species_count,
        forall|k: int| 0 <= k < species_count ==> #[trigger] r@[k] == count_of(species@, k),
{
    let mut counts: Vec<usize> = Vec::new();
    let mut k: usize = 0;
    while k < species_count
        invariant
            k <= species_count,
            counts@.len() == k,
            forall|q: int| 0 <= q < k ==> #[trigger] counts@[q] == 0,
        decreases species_count - k,
    {
        counts.push(0);
        k = k + 1;
    }
    let mut i: usize = 0;
    while i < species.len()
        invariant
            i <= species@.len(),
            counts@.len() == species_count,
            forall|q: int|
                0 <= q < species_count ==> #[trigger] counts@[q] == count_of(
                    species@.subrange(0, i as int),
                    q,
                ),
        decreases species.len() - i,
    {
        let s = species[i] as usize;
        proof {
            assert(species@.subrange(0, i + 1).drop_last() =~= species@.subrange(0, i as int));
            lemma_count_of_bound(species@.subrange(0, i as int), s as int);
        }
        if s < counts.len() {
            let c = counts[s];
            counts.set(s, c + 1);
        }
        i = i + 1;
    }
    proof {
        assert(species@.subrange(0, species@.len() as int) =~= species@);
    }
    counts
}

/// The species layout of an equal respawn: particle `i` of `n` gets species
/// `i % species_count`.
pub open spec fn equal_species_layout(n: nat, species_count: nat) -> Seq<u32> {
    Seq::new(n, |i: int| (i % species_count as int) as u32)
}

/// Species of `n` particles distributed equally over `species_count` species
/// (round-robin), as a respawn without random fractions lays them out.
pub fn equal_species(n: usize, species_count: usize) -> (r: Vec<u32>)
    requires
        0 < species_count <= MAX_SPECIES,
    ensures
        r@ == equal_species_layout(n as nat, species_count as nat),
{
    let mut r: Vec<u32> = Vec::new();
    let mut i: usize = 0;
    while i < n
        invariant
            0 < species_count <= MAX_SPECIES,
            i <= n,
            r@ == equal_species_layout(i as nat, species_count as nat),
        decreases n - i,
    {
        r.push((i % species_count) as u32);
        proof {
            assert(r@ =~= equal_species_layout((i + 1) as nat, species_count as nat));
        }
        i = i + 1;
    }
    r
}

/// An equal respawn gives every species `n / c` particles, and one more to
/// each of the first `n % c` species: populations differ by at most one.
pub proof fn lemma_equal_species_counts(n: nat, c: nat, k: int)
    requires
        0 < c <= MAX_SPECIES,
        0 <= k < c,
    ensures
        count_of(equal_species_layout(n, c), k) == n / c + if k < (n % c) as int {
            1nat
        } else {
            0nat
        },
    decreases n,
{
    if n > 0 {
        let m = (n - 1) as nat;
        lemma_equal_species_counts(m, c, k);
        let s = equal_species_layout(n, c);
        assert(s.drop_last() =~= equal_species_layout(m, c));
        let q = m / c;
        let r = m % c;
        assert(s.last() == r as u32);
        assert((r as u32) as int == r);
        assert(count_of(s, k) == count_of(equal_species_layout(m, c), k) + if r == k {
            1nat
        } else {
            0nat
        });
        assert(m == q * c + r && 0 <= r < c) by (nonlinear_arith)
            requires
                q == m / c,
                r == m % c,
                c > 0,
        ;
        if r + 1 < c {
            vstd::arithmetic::div_mod::lemma_fundamental_div_mod_converse(
                n as int,
                c as int,
                q as int,
                (r + 1) as int,
            );
            assert(n / c == q && n % c == r + 1);
        } else {
            assert(n == (q + 1) * c + 0) by (nonlinear_arith)
                requires
                    n == m + 1,
                    m == q * c + r,
                    r + 1 == c,
            ;
            vstd::arithmetic::div_mod::lemma_fundamental_div_mod_converse(
                n as int,
                c as int,
                (q + 1) as int,
                0,
            );
            assert(n / c == q + 1 && n % c == 0);
        }
    } else {
        assert(equal_species_layout(n, c).len() == 0);
        vstd::arithmetic::div_mod::lemma_fundamental_div_mod_converse(0, c as int, 0, 0);
    }
}

/// Number of particles a spawn batch may add to a buffer holding
/// `gpu_count` particles: none once the buffer is full, else the batch size
/// capped by the free room.
pub fn spawn_budget(gpu_count: u32, batch_size: u32) -> (r: u32)
    ensures
        gpu_count >= MAX_PARTICLES ==> r == 0,
        gpu_count < MAX_PARTICLES ==> r == if batch_size <= MAX_PARTICLES - gpu_count {
            batch_size as int
        } else {
            MAX_PARTICLES - gpu_count
        },
        gpu_count >= MAX_PARTICLES || gpu_count + r <= MAX_PARTICLES,
{
    let max: u32 = 2_000_000;
    if gpu_count >= max {
        return 0;
    }
    let room = max - gpu_count;
    if batch_size <= room {
        batch_size
    } else {
        room
    }
}

/// Append `item` to the permanent attractor list unless it already holds
/// [`MAX_ATTRACTORS`] entries.
pub fn add_attractor<T>(list: &mut Vec<T>, item: T)
    ensures
        old(list)@.len() < MAX_ATTRACTORS ==> final(list)@ == old(list)@.push(item),
        old(list)@.len() >= MAX_ATTRACTORS ==> final(list)@ == old(list)@,
{
    if list.len() < MAX_ATTRACTORS {
        list.push(item);
    }
}

/// How many of `spawned` new particles each species receives: all of them
/// to a locked species that has a counter, else an even share (the first
/// `spawned % species_count` species get one more).
pub open spec fn spawn_share(
    k: int,
    spawned: nat,
    locked: Option<usize>,
    n_counters: nat,
    species_count: nat,
) -> nat {
    match locked {
        Some(s) if s < n_counters => if k == s {
            spawned
        } else {
            0
        },
        _ => spawned / species_count + if k < (spawned % species_count) as int {
            1nat
        } else {
            0nat
        },
    }
}

/// Credit `spawned` freshly spawned particles to the per-species counters:
/// all to the locked species when it has a counter, else spread evenly over
/// the species.
pub fn credit_spawned(
    counts: &mut Vec<usize>,
    spawned: usize,
    locked: Option<usize>,
    species_count: usize,
)
    requires
        species_count > 0 || (locked matches Some(s) && s < old(counts)@.len()),
        forall|k: int| 0 <= k < old(counts)@.len() ==> #[trigger] old(counts)@[k] + spawned <= usize::MAX,
    ensures
        final(counts)@.len() == old(counts)@.len(),
        forall|k: int|
            0 <= k < old(counts)@.len() ==> #[trigger] final(counts)@[k] == old(counts)@[k]
                + spawn_share(k, spawned as nat, locked, old(counts)@.len(), species_count as nat),
{
    let len = counts.len();
    let ghost old_counts = counts@;
    match locked {
        Some(s) => {
            if s < len {
                let c = counts[s];
                counts.set(s, c + spawned);
                return;
            }
        },
        None => {},
    }
    let per = spawned / species_count;
    let rem = spawned % species_count;
    let mut k: usize = 0;
    while k < len
        invariant
            len == counts@.len(),
            len == old_counts.len(),
            species_count > 0,
            per == spawned / species_count,
            rem == spawned % species_count,
            !(locked matches Some(s) && s < len),
            forall|q: int| 0 <= q < len ==> #[trigger] old_counts[q] + spawned <= usize::MAX,
            forall|q: int|
                0 <= q < k ==> #[trigger] counts@[q] == old_counts[q] + spawn_share(
                    q,
                    spawned as nat,
                    locked,
                    len as nat,
                    species_count as nat,
                ),
            forall|q: int| k <= q < len ==> #[trigger] counts@[q] == old_counts[q],
        decreases len - k,
    {
        let extra: usize = if k < rem {
            1
        } else {
            0
        };
        assert(per + extra <= spawned) by (nonlinear_arith)
            requires
                per == spawned / species_count,
                rem == spawned % species_count,
                species_count > 0,
                extra <= 1,
                extra == 1 ==> rem > 0,
        ;
        let c = counts[k];
        counts.set(k, c + per + extra);
        k = k + 1;
    }
}

/// Total of the even shares of `spawned` over the first `m` of `c` species.
pub open spec fn even_share_total(spawned: nat, c: nat, m: nat) -> nat
    decreases m,
{
    if m == 0 {
        0
    } else {
        even_share_total(spawned, c, (m - 1) as nat) + spawn_share(
            m - 1,
            spawned,
            None,
            0,
            c,
        )
    }
}

proof fn lemma_even_share_prefix(s: nat, c: nat, m: nat)
    requires
        c > 0,
        m <= c,
    ensures
        even_share_total(s, c, m) == m * (s / c) + min_nat(m, s % c),
    decreases m,
{
    if m > 0 {
        lemma_even_share_prefix(s, c, (m - 1) as nat);
        let q = s / c;
        let mm = m as int;
        assert((mm - 1) * q + q == mm * q) by (nonlinear_arith);
        assert(((m - 1) as nat) * q == (mm - 1) * q);
        assert(spawn_share(m - 1, s, None, 0, c) == q + if m - 1 < (s % c) as int {
            1nat
        } else {
            0nat
        });
        assert(min_nat(m, s % c) == min_nat((m - 1) as nat, s % c) + if m - 1 < (s % c) as int {
            1nat
        } else {
            0nat
        });
        assert(even_share_total(s, c, m) == even_share_total(s, c, (m - 1) as nat) + spawn_share(
            m - 1,
            s,
            None,
            0,
            c,
        ));
        assert(even_share_total(s, c, m) == mm * q + min_nat(m, s % c));
    } else {
        let q = s / c;
        assert(0 * q == 0);
    }
}

/// Spreading `spawned` particles evenly over `c` species hands out exactly
/// `spawned` particles: the per-species counters keep summing to the total.
pub proof fn lemma_even_shares_sum_to_spawned(spawned: nat, c: nat)
    requires
        c > 0,
    ensures
        even_share_total(spawned, c, c) == spawned,
{
    lemma_even_share_prefix(spawned, c, c);
    assert(c * (spawned / c) + spawned % c == spawned) by (nonlinear_arith)
        requires
            c > 0,
    ;
}

// ── Spatial-grid dispatch ────────────────────────────────────────────────────

/// Workgroup and buffer sizes of one frame of the spatial-grid passes.
#[derive(Clone, Copy, Debug)]
pub struct GridDispatch {
    /// Cells per grid side.
    pub grid_w: u64,
    /// Cells in use, `grid_w²`.
    pub n_cells: u64,
    /// Workgroups of 64 threads for the per-particle passes.
    pub workgroups: u32,
    /// Workgroups of 256 cells for the block scan.
    pub n_blocks: u32,
    /// Workgroups of 256 threads for the propagation pass, covering the
    /// sentinel cell at index `n_cells` too.
    pub propagate_groups: u32,
}

pub open spec fn ceil_div(a: int, b: int) -> int {
    (a + b - 1) / b
}

/// Dispatch sizes for `n_particles` particles on a grid of `grid_side`
/// cells per side (raised to at least [`MIN_GRID_SIDE`]).
pub fn grid_dispatch(n_particles: u32, grid_side: u64) -> (d: GridDispatch)
    requires
        grid_side <= MAX_GRID_SIDE,
    ensures
        d.grid_w == if grid_side < MIN_GRID_SIDE {
            MIN_GRID_SIDE
        } else {
            grid_side
        },
        d.n_cells == d.grid_w * d.grid_w,
        d.n_cells <= MAX_GRID_CELLS,
        d.workgroups == ceil_div(n_particles as int, 64),
        d.n_blocks == ceil_div(d.n_cells as int, 256),
        d.propagate_groups == (d.n_cells + 256) / 256,
        d.workgroups * 64 >= n_particles,
        d.n_blocks * 256 >= d.n_cells,
        d.n_blocks + 1 <= MAX_PREFIX_BLOCKS,
        d.propagate_groups * 256 > d.n_cells,
{
    let grid_w: u64 = if grid_side < 5 {
        5
    } else {
        grid_side
    };
    assert(grid_w * grid_w <= 547 * 547) by (nonlinear_arith)
        requires
            grid_w <= 547,
    ;
    let n_cells = grid_w * grid_w;
    let ghost np = n_particles as int;
    assert(((np + 63) / 64) * 64 >= np && (np + 63) / 64 <= u32::MAX) by (nonlinear_arith)
        requires
            0 <= np <= u32::MAX,
    ;
    let ghost nc = n_cells as int;
    assert(((nc + 255) / 256) * 256 >= nc && (nc + 255) / 256 + 1 <= 1173 && ((nc + 256) / 256)
        * 256 > nc) by (nonlinear_arith)
        requires
            0 <= nc <= 299209,
    ;
    let workgroups = #[verifier::truncate] (((n_particles as u64 + 63) / 64) as u32);
    let n_blocks = ((n_cells + 255) / 256) as u32;
    let propagate_groups = ((n_cells + 256) / 256) as u32;
    GridDispatch { grid_w, n_cells, workgroups, n_blocks, propagate_groups }
}

/// A requested particle count held to `[MIN_REQUESTED_PARTICLES, MAX_PARTICLES]`.
pub open spec fn particle_count_clamped(n: nat) -> nat {
    if n < MIN_REQUESTED_PARTICLES {
        MIN_REQUESTED_PARTICLES as nat
    } else if n > MAX_PARTICLES {
        MAX_PARTICLES as nat
    } else {
        n
    }
}

/// The particle count to run for a requested count (from the command line
/// or from a density applied to a resized world): at least
/// `MIN_REQUESTED_PARTICLES` and at most `MAX_PARTICLES`.
pub fn clamp_particle_count(n: usize) -> (r: usize)
    ensures
        r == particle_count_clamped(n as nat),
        100 <= r <= 2_000_000,
        100 <= n <= 2_000_000 ==> r == n,
        n < 100 ==> r == 100,
        n > 2_000_000 ==> r == 2_000_000,
{
    if n < MIN_REQUESTED_PARTICLES {
        MIN_REQUESTED_PARTICLES
    } else if n > MAX_PARTICLES {
        MAX_PARTICLES
    } else {
        n
    }
}

} // verus!
