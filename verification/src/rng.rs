//! The one source of randomness: seedable and deterministic.
use rand::Rng as RandRng;
use rand::SeedableRng;
use rand_pcg::Pcg64Mcg;
use vstd::prelude::*;

verus! {

/// The model of a generator: its view is all that its future draws depend on.
pub trait DrawModel: View + Sized {
    /// The value drawn below `n` from the state `s`, and the state after the draw.
    spec fn draw(s: Self::V, n: u32) -> (u32, Self::V);
}

/// A deterministic generator, with the dice that the tables are looked up by.
pub trait Rng: DrawModel {
    /// A uniform integer in `0..n`.
    fn next_u32_below(&mut self, n: u32) -> (r: u32)
        requires
            n > 0,
        ensures
            (r, final(self)@) == Self::draw(old(self)@, n),
            r < n,
    ;

    /// One six-sided die, `1..=6`.
    fn d6(&mut self) -> (r: u32)
        ensures
            (r as int, final(self)@) == die::<Self>(old(self)@),
            1 <= r <= 6,
    {
        self.next_u32_below(6) + 1
    }

    /// The sum of `count` six-sided dice, modulo 2^32.
    fn roll_sum(&mut self, count: u32) -> (r: u32)
        ensures
            r as int == dice::<Self>(old(self)@, count as nat).0 % 0x1_0000_0000,
            final(self)@ == dice::<Self>(old(self)@, count as nat).1,
            count <= 0x2aaa_aaaa ==> count <= r <= 6 * count,
    {
        let mut sum: u32 = 0;
        let mut i: u32 = 0;
        let ghost s = self@;
        while i < count
            invariant
                i <= count,
                sum as int == dice::<Self>(s, i as nat).0 % 0x1_0000_0000,
                self@ == dice::<Self>(s, i as nat).1,
                count <= 0x2aaa_aaaa ==> i <= sum <= 6 * i,
            decreases count - i,
        {
            let d: u32 = self.d6();
            sum = ((sum as u64 + d as u64) % 0x1_0000_0000) as u32;
            i += 1;
        }
        sum
    }
}

/// One die from the state `s`: the value `1..=6` and the state after it.
pub open spec fn die<R: DrawModel>(s: R::V) -> (int, R::V) {
    let d = R::draw(s, 6);
    (d.0 + 1, d.1)
}

/// The sum of `count` dice from the state `s`, and the state after them.
pub open spec fn dice<R: DrawModel>(s: R::V, count: nat) -> (int, R::V)
    decreases count,
{
    if count == 0 {
        (0, s)
    } else {
        let rest = dice::<R>(s, (count - 1) as nat);
        let d = die::<R>(rest.1);
        (rest.0 + d.0, d.1)
    }
}

#[verifier::external_type_specification]
#[verifier::external_body]
pub struct ExPcg64Mcg(Pcg64Mcg);

/// The internal state of a `Pcg64Mcg`.
pub uninterp spec fn pcg_state(g: Pcg64Mcg) -> u128;

/// The state that `Pcg64Mcg::seed_from_u64` starts from.
pub uninterp spec fn pcg_seeded(seed: u64) -> u128;

/// What `gen_range(0..n)` draws from a generator in a given state, and the state it leaves.
pub uninterp spec fn pcg_below(state: u128, n: u32) -> (u32, u128);

/// `SeedableRng::seed_from_u64` of `Pcg64Mcg`: the new generator's state depends on the seed
/// alone.
#[verifier::external_body]
fn pcg_from_seed(seed: u64) -> (g: Pcg64Mcg)
    ensures
        pcg_state(g) == pcg_seeded(seed),
{
    Pcg64Mcg::seed_from_u64(seed)
}

/// `Rng::gen_range` of a `Pcg64Mcg` over `0..n`: a value below `n`; the value and the state after
/// the draw depend on the state before it and on `n` alone. The range must not be empty.
#[verifier::external_body]
fn pcg_gen_below(g: &mut Pcg64Mcg, n: u32) -> (r: u32)
    requires
        n > 0,
    ensures
        (r, pcg_state(*final(g))) == pcg_below(pcg_state(*old(g)), n),
        r < n,
{
    g.gen_range(0..n)
}

/// The PCG generator. Two generators built from one seed draw the same values.
pub struct PcgRng {
    inner: Pcg64Mcg,
}

impl View for PcgRng {
    type V = u128;

    closed spec fn view(&self) -> u128 {
        pcg_state(self.inner)
    }
}

impl PcgRng {
    pub fn from_seed(seed: u64) -> (r: Self)
        ensures
            r@ == pcg_seeded(seed),
    {
        PcgRng { inner: pcg_from_seed(seed) }
    }
}

impl DrawModel for PcgRng {
    open spec fn draw(s: u128, n: u32) -> (u32, u128) {
        pcg_below(s, n)
    }
}

impl Rng for PcgRng {
    fn next_u32_below(&mut self, n: u32) -> (r: u32) {
        pcg_gen_below(&mut self.inner, n)
    }
}

} // verus!
