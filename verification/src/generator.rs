use vstd::prelude::*;
use rand::Rng;
use rand::SeedableRng;
use crate::errors::GenError;
use crate::field::CellState;
use crate::field::Field;
use crate::field::valid_dims;

verus! {

#[verifier::external_type_specification]
#[verifier::external_body]
pub struct ExStdRng(rand::rngs::StdRng);

/// The value of the `k`-th draw (in 1..=99, see `draw`) taken from a
/// generator seeded with `seed`. Uninterpreted: it stands for whatever the
/// pinned pseudo-random algorithm computes, which is a function of the seed
/// and the position alone.
pub uninterp spec fn draw_at(seed: u64, k: nat) -> u8;

/// Relies on `rand::rngs::StdRng::seed_from_u64` (a pure pseudo-random
/// generator construction): the returned generator's entire output stream
/// is determined by `seed`.
#[verifier::external_body]
fn seeded_rng(seed: u64) -> rand::rngs::StdRng {
    rand::rngs::StdRng::seed_from_u64(seed)
}

/// A pseudo-random source constructed from an explicit seed, so that a
/// generation run is reproducible. `drawn` tracks how many values have been
/// taken, tying each draw to its position in the seeded stream.
pub(crate) struct RandomSource {
    rng: rand::rngs::StdRng,
    seed: u64,
    drawn: Ghost<nat>,
}

impl RandomSource {
    /// The seed this source was built from.
    pub(crate) closed spec fn spec_seed(self) -> u64 {
        self.seed
    }

    /// How many draws have been taken from this source.
    pub(crate) closed spec fn spec_drawn(self) -> nat {
        self.drawn@
    }

    /// Builds a source whose future draws are `draw_at(seed, 0)`,
    /// `draw_at(seed, 1)`, and so on.
    pub(crate) fn new(seed: u64) -> (r: RandomSource)
        ensures
            r.spec_seed() == seed,
            r.spec_drawn() == 0,
    {
        RandomSource { rng: seeded_rng(seed), seed, drawn: Ghost(0) }
    }

    /// Relies on `rand::Rng::gen_range(1..100)` over `StdRng`: the sampled
    /// value lies in 1..=99, and, the generator being a deterministic
    /// algorithm advanced only by its own draws, the value is a function of
    /// the seed and of how many draws preceded it.
    #[verifier::external_body]
    pub(crate) fn draw(&mut self) -> (r: u8)
        ensures
            final(self).spec_seed() == old(self).spec_seed(),
            final(self).spec_drawn() == old(self).spec_drawn() + 1,
            r == draw_at(old(self).spec_seed(), old(self).spec_drawn()),
            1 <= r <= 99,
    {
        self.rng.gen_range(1..100)
    }
}

/// The cell that a generation run with wall probability `p` (percent)
/// assigns from the draw at position `k`: a wall exactly when the draw
/// reaches the threshold `100 - p`, so that `p` of the 100 percent-points
/// land on walls.
pub open spec fn init_cell(seed: u64, k: nat, p: u8) -> CellState {
    if draw_at(seed, k) as int >= 100 - p as int {
        CellState::Wall
    } else {
        CellState::Floor
    }
}

/// What `generate` promises of a successful result: well-formed, the
/// requested dimensions, and every cell fixed by the seed, its row-major
/// position, and the wall probability.
pub open spec fn generated_from(f: Field, width: usize, height: usize, p: u8, seed: u64) -> bool {
    &&& f.wf()
    &&& f.width == width
    &&& f.height == height
    &&& forall|k: int| 0 <= k < f.cells@.len() ==> f.cells@[k] == init_cell(seed, k as nat, p)
}

/// Produces an initial field by sampling each cell independently from a
/// source seeded with `seed`, in row-major order: cell `k` is a wall
/// exactly when the `k`-th draw reaches the threshold derived from
/// `wall_probability_percent`. Rejects a probability over 100 and
/// dimensions that are zero or too large to address.
pub fn generate(width: usize, height: usize, wall_probability_percent: u8, seed: u64) -> (r: Result<
    Field,
    GenError,
>)
    ensures
        (r is Ok) <==> valid_dims(width as int, height as int) && wall_probability_percent <= 100,
        r matches Ok(f) ==> generated_from(f, width, height, wall_probability_percent, seed),
        r matches Err(e) ==> e == GenError::InvalidConfiguration,
{
    if wall_probability_percent > 100 {
        return Err(GenError::InvalidConfiguration);
    }
    if width == 0 || height == 0 {
        return Err(GenError::InvalidConfiguration);
    }
    let total: usize = match width.checked_mul(height) {
        Some(t) => t,
        None => {
            return Err(GenError::InvalidConfiguration);
        },
    };
    match total.checked_mul(3) {
        Some(_) => (),
        None => {
            return Err(GenError::InvalidConfiguration);
        },
    };
    let threshold: u8 = 100 - wall_probability_percent;
    let mut source = RandomSource::new(seed);
    let mut cells: Vec<CellState> = Vec::new();
    let mut k: usize = 0;
    while k < total
        invariant
            k <= total,
            cells@.len() == k,
            source.spec_seed() == seed,
            source.spec_drawn() == k,
            threshold as int == 100 - wall_probability_percent as int,
            forall|j: int|
                0 <= j < k ==> cells@[j] == init_cell(seed, j as nat, wall_probability_percent),
        decreases total - k,
    {
        let d = source.draw();
        if d >= threshold {
            cells.push(CellState::Wall);
        } else {
            cells.push(CellState::Floor);
        }
        k = k + 1;
    }
    Ok(Field { width, height, cells })
}

/// Determinism: two fields generated from identical arguments are
/// identical, cell for cell — the contract of `generate` fixes every cell
/// from the seed alone.
pub proof fn lemma_generate_deterministic(
    f1: Field,
    f2: Field,
    width: usize,
    height: usize,
    p: u8,
    seed: u64,
)
    requires
        generated_from(f1, width, height, p, seed),
        generated_from(f2, width, height, p, seed),
    ensures
        f1.width == f2.width,
        f1.height == f2.height,
        f1.cells@ == f2.cells@,
{
    assert(f1.cells@ =~= f2.cells@);
}

} // verus!
