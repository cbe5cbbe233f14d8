use crate::world::generation::random::{spec_unsigned, unsigned, Seed};
use vstd::arithmetic::div_mod::lemma_fundamental_div_mod_converse;
use vstd::prelude::*;

verus! {

/// A field of noise over the horizontal plane of the world. A sample is a
/// fraction of one, in steps of one 65536th: the sample `s` stands for
/// `s / 65536`.
pub trait NoiseFn {
    /// Whether the field can be sampled.
    spec fn wf(&self) -> bool;

    /// The sample at the world position `(x, y)`.
    spec fn spec_get(&self, x: i64, y: i64) -> u16;

    /// Computes the sample at the world position `(x, y)`.
    fn get(&self, x: i64, y: i64) -> (sample: u16)
        requires
            self.wf(),
        ensures
            sample == self.spec_get(x, y),
    ;
}

/// Scrambles the bits of `value`.
pub open spec fn spec_mix(value: u64) -> u64 {
    let a = (value ^ (value >> 30)).wrapping_mul(0xbf58_476d_1ce4_e5b9);
    let b = (a ^ (a >> 27)).wrapping_mul(0x94d0_49bb_1331_11eb);
    b ^ (b >> 31)
}

/// Scrambles the bits of `value`.
fn mix(value: u64) -> (mixed: u64)
    ensures
        mixed == spec_mix(value),
{
    let a = (value ^ (value >> 30)).wrapping_mul(0xbf58_476d_1ce4_e5b9);
    let b = (a ^ (a >> 27)).wrapping_mul(0x94d0_49bb_1331_11eb);
    b ^ (b >> 31)
}

/// The value that the lattice of `seed` holds at its point `(x, y)`.
pub open spec fn spec_lattice(seed: u32, x: u64, y: u64) -> u16 {
    let a = spec_mix(seed as u64);
    let b = spec_mix(a.wrapping_add(x));
    let c = spec_mix(b.wrapping_add(y));
    (c / 0x1_0000_0000_0000) as u16
}

/// The value that the lattice of `seed` holds at its point `(x, y)`.
fn lattice(seed: u32, x: u64, y: u64) -> (value: u16)
    ensures
        value == spec_lattice(seed, x, y),
{
    let a = mix(seed as u64);
    let b = mix(a.wrapping_add(x));
    let c = mix(b.wrapping_add(y));
    (c / 0x1_0000_0000_0000) as u16
}

/// What lies between `low` and `high`, `weight` parts of `period` on the
/// way from the one to the other, times `period`.
pub open spec fn spec_blend(low: int, high: int, weight: int, period: int) -> int {
    low * (period - weight) + high * weight
}

/// A blend of two samples is at most the greatest sample times the period.
pub proof fn lemma_blend_bound(low: int, high: int, weight: int, period: int, bound: int)
    requires
        0 <= low <= bound,
        0 <= high <= bound,
        0 <= weight < period,
    ensures
        0 <= spec_blend(low, high, weight, period) <= bound * period,
{
    assert(0 <= low * (period - weight) <= bound * (period - weight)) by (nonlinear_arith)
        requires
            0 <= low <= bound,
            0 < period - weight,
    ;
    assert(0 <= high * weight <= bound * weight) by (nonlinear_arith)
        requires
            0 <= high <= bound,
            0 <= weight,
    ;
    assert(bound * (period - weight) + bound * weight == bound * period) by (nonlinear_arith);
}

/// The noise of one lattice of `seed` whose points lie `period` apart: the
/// values at the four points around `(x, y)`, blended by how near each is.
pub open spec fn spec_value(seed: u32, period: u32, x: i64, y: i64) -> u16 {
    let p = period as int;
    let cell_x = spec_unsigned((x as int / p) as i64);
    let cell_y = spec_unsigned((y as int / p) as i64);
    let next_x = cell_x.wrapping_add(1);
    let next_y = cell_y.wrapping_add(1);
    let top = spec_blend(
        spec_lattice(seed, cell_x, cell_y) as int,
        spec_lattice(seed, next_x, cell_y) as int,
        x as int % p,
        p,
    );
    let bottom = spec_blend(
        spec_lattice(seed, cell_x, next_y) as int,
        spec_lattice(seed, next_x, next_y) as int,
        x as int % p,
        p,
    );
    (spec_blend(top, bottom, y as int % p, p) / (p * p)) as u16
}

/// `value` divided by `period`, rounded down, and what is left.
fn floor_div_mod(value: i64, period: u32) -> (result: (i64, u32))
    requires
        period > 0,
    ensures
        result.0 == value as int / period as int,
        result.1 == value as int % period as int,
{
    let p: i64 = period as i64;
    if value >= 0 {
        let quotient: i64 = value / p;
        let rest: i64 = value % p;
        (quotient, rest as u32)
    } else {
        let mirrored: i64 = -(value + 1);
        let q: i64 = mirrored / p;
        let r: i64 = mirrored % p;
        let quotient: i64 = -q - 1;
        let rest: i64 = p - 1 - r;
        proof {
            assert(mirrored == q * p + r) by {
                vstd::arithmetic::div_mod::lemma_fundamental_div_mod(mirrored as int, p as int);
                assert(q * p == p * q) by (nonlinear_arith);
            }
            assert(value == quotient * p + rest) by (nonlinear_arith)
                requires
                    mirrored == q * p + r,
                    mirrored == -(value + 1),
                    quotient == -q - 1,
                    rest == p - 1 - r,
            ;
            lemma_fundamental_div_mod_converse(value as int, p as int, quotient as int, rest as int);
        }
        (quotient, rest as u32)
    }
}

/// Computes the noise of one lattice of `seed` whose points lie `period`
/// apart.
pub fn value(seed: u32, period: u32, x: i64, y: i64) -> (sample: u16)
    requires
        period > 0,
    ensures
        sample == spec_value(seed, period, x, y),
{
    let (qx, fx) = floor_div_mod(x, period);
    let (qy, fy) = floor_div_mod(y, period);
    let cell_x: u64 = unsigned(qx);
    let cell_y: u64 = unsigned(qy);
    let next_x: u64 = cell_x.wrapping_add(1);
    let next_y: u64 = cell_y.wrapping_add(1);
    let v00: u16 = lattice(seed, cell_x, cell_y);
    let v10: u16 = lattice(seed, next_x, cell_y);
    let v01: u16 = lattice(seed, cell_x, next_y);
    let v11: u16 = lattice(seed, next_x, next_y);
    let p: u128 = period as u128;
    proof {
        lemma_blend_bound(v00 as int, v10 as int, fx as int, p as int, 65535);
        lemma_blend_bound(v01 as int, v11 as int, fx as int, p as int, 65535);
        let top = spec_blend(v00 as int, v10 as int, fx as int, p as int);
        let bottom = spec_blend(v01 as int, v11 as int, fx as int, p as int);
        lemma_blend_bound(top, bottom, fy as int, p as int, 65535 * p);
        assert(65535 * p * p <= 65535 * 0xffff_ffff * 0xffff_ffff) by (nonlinear_arith)
            requires
                0 < p <= 0xffff_ffff,
        ;
        assert(65535 * p <= 65535 * 0xffff_ffff);
        assert(0 < p * p <= 0xffff_ffff * 0xffff_ffff) by (nonlinear_arith)
            requires
                0 < p <= 0xffff_ffff,
        ;
        assert(spec_blend(top, bottom, fy as int, p as int) / (p * p) <= 65535) by {
            assert(spec_blend(top, bottom, fy as int, p as int) <= 65535 * (p * p))
                by (nonlinear_arith)
                requires
                    spec_blend(top, bottom, fy as int, p as int) <= 65535 * p * p,
            ;
            vstd::arithmetic::div_mod::lemma_div_is_ordered(
                spec_blend(top, bottom, fy as int, p as int),
                65535 * (p * p),
                p * p,
            );
            vstd::arithmetic::div_mod::lemma_div_multiples_vanish(65535, p * p);
            assert(65535 * (p * p) == (p * p) * 65535) by (nonlinear_arith);
        }
        assert(0 <= spec_blend(top, bottom, fy as int, p as int) / (p * p)) by {
            vstd::arithmetic::div_mod::lemma_div_pos_is_pos(
                spec_blend(top, bottom, fy as int, p as int),
                p * p,
            );
        }
    }
    let wx: u128 = fx as u128;
    let wy: u128 = fy as u128;
    let top: u128 = v00 as u128 * (p - wx) + v10 as u128 * wx;
    let bottom: u128 = v01 as u128 * (p - wx) + v11 as u128 * wx;
    let blended: u128 = top * (p - wy) + bottom * wy;
    (blended / (p * p)) as u16
}

/// How a layered noise is put together.
#[derive(Clone, Copy, Debug, PartialEq, Eq, Structural)]
pub struct LayeredNoiseOptions {
    /// The number of layers.
    pub octaves: u8,
    /// The distance between the lattice points of the first layer.
    pub scale: u32,
    /// The weight of a layer, in hundredths of the weight of the layer
    /// before it.
    pub persistence: u8,
    /// By how much the lattice of a layer is finer than that of the layer
    /// before it, in tenths.
    pub lacunarity: u8,
    /// The seed of the first layer.
    pub seed: Seed,
}

impl LayeredNoiseOptions {
    pub fn new(octaves: u8, scale: u32, persistence: u8, lacunarity: u8, seed: Seed) -> (options:
        Self)
        ensures
            options == (LayeredNoiseOptions { octaves, scale, persistence, lacunarity, seed }),
    {
        Self { octaves, scale, persistence, lacunarity, seed }
    }

    /// The distance between the lattice points of the layer `layer`.
    pub open spec fn spec_period(&self, layer: nat) -> int
        decreases layer,
    {
        if layer == 0 {
            self.scale as int
        } else {
            let finer = self.spec_period((layer - 1) as nat) * 10 / (self.lacunarity as int);
            if finer < 1 {
                1
            } else {
                finer
            }
        }
    }

    /// The weight of the layer `layer`.
    pub open spec fn spec_amplitude(&self, layer: nat) -> int
        decreases layer,
    {
        if layer == 0 {
            65536
        } else {
            self.spec_amplitude((layer - 1) as nat) * self.persistence / 100
        }
    }

    /// The sample of the layer `layer` alone at `(x, y)`.
    pub open spec fn spec_layer(&self, layer: nat, x: i64, y: i64) -> u16 {
        spec_value(self.seed.0.wrapping_add(layer as u32), self.spec_period(layer) as u32, x, y)
    }

    /// The weighted sum of the samples of the first `layers` layers.
    pub open spec fn spec_total(&self, layers: nat, x: i64, y: i64) -> int
        decreases layers,
    {
        if layers == 0 {
            0
        } else {
            let layer = (layers - 1) as nat;
            self.spec_total(layer, x, y) + self.spec_layer(layer, x, y) * self.spec_amplitude(
                layer,
            )
        }
    }

    /// The sum of the weights of the first `layers` layers.
    pub open spec fn spec_norm(&self, layers: nat) -> int
        decreases layers,
    {
        if layers == 0 {
            0
        } else {
            self.spec_norm((layers - 1) as nat) + self.spec_amplitude((layers - 1) as nat)
        }
    }
}

/// Noise in layers: each layer is the noise of a lattice of its own, finer
/// and of less weight than the layer before it.
#[derive(Clone, Copy, Debug, PartialEq, Eq, Structural)]
pub struct LayeredNoise {
    pub options: LayeredNoiseOptions,
}

impl LayeredNoise {
    pub fn new(options: LayeredNoiseOptions) -> (noise: Self)
        ensures
            noise.options == options,
    {
        Self { options }
    }
}

impl NoiseFn for LayeredNoise {
    /// The first lattice has a distance between its points, no layer weighs
    /// more than the layer before it, and no lattice is coarser than the one
    /// before it.
    open spec fn wf(&self) -> bool {
        &&& self.options.scale > 0
        &&& self.options.persistence <= 100
        &&& self.options.lacunarity >= 10
    }

    /// The weighted mean of the samples of the layers.
    open spec fn spec_get(&self, x: i64, y: i64) -> u16 {
        let layers = self.options.octaves as nat;
        if self.options.spec_norm(layers) == 0 {
            0
        } else {
            (self.options.spec_total(layers, x, y) / self.options.spec_norm(layers)) as u16
        }
    }

    fn get(&self, x: i64, y: i64) -> (sample: u16) {
        let options = self.options;
        let mut total: u64 = 0;
        let mut norm: u64 = 0;
        let mut period: u32 = options.scale;
        let mut amplitude: u64 = 65536;
        let mut layer: u8 = 0;
        while layer < options.octaves
            invariant
                self.wf(),
                options == self.options,
                layer <= options.octaves,
                period == options.spec_period(layer as nat),
                amplitude == options.spec_amplitude(layer as nat),
                total == options.spec_total(layer as nat, x, y),
                norm == options.spec_norm(layer as nat),
                0 < period <= options.scale,
                amplitude <= 65536,
                norm <= 65536 * layer,
                total <= 65535 * norm,
            decreases options.octaves - layer,
        {
            let sample: u16 = value(options.seed.0.wrapping_add(layer as u32), period, x, y);
            assert(sample * amplitude <= 65535 * amplitude) by (nonlinear_arith)
                requires
                    sample <= 65535,
                    0 <= amplitude,
            ;
            total = total + sample as u64 * amplitude;
            norm = norm + amplitude;
            let finer: u64 = period as u64 * 10 / (options.lacunarity as u64);
            assert(finer <= period) by {
                assert(period * 10 <= period * options.lacunarity) by (nonlinear_arith)
                    requires
                        0 <= period,
                        10 <= options.lacunarity,
                ;
                vstd::arithmetic::div_mod::lemma_div_is_ordered(
                    period * 10,
                    period * options.lacunarity,
                    options.lacunarity as int,
                );
                vstd::arithmetic::div_mod::lemma_div_multiples_vanish(
                    period as int,
                    options.lacunarity as int,
                );
                assert(period * options.lacunarity == options.lacunarity * period)
                    by (nonlinear_arith);
            }
            period = if finer < 1 {
                1
            } else {
                finer as u32
            };
            assert(amplitude * options.persistence / 100 <= amplitude) by {
                assert(amplitude * options.persistence <= amplitude * 100) by (nonlinear_arith)
                    requires
                        0 <= amplitude,
                        options.persistence <= 100,
                ;
                vstd::arithmetic::div_mod::lemma_div_is_ordered(
                    amplitude * options.persistence,
                    amplitude * 100,
                    100,
                );
            }
            assert(amplitude * options.persistence <= 65536 * 100) by (nonlinear_arith)
                requires
                    0 <= amplitude <= 65536,
                    options.persistence <= 100,
            ;
            amplitude = amplitude * (options.persistence as u64) / 100;
            layer = layer + 1;
        }
        if norm == 0 {
            0
        } else {
            assert(total / norm <= 65535) by {
                vstd::arithmetic::div_mod::lemma_div_is_ordered(
                    total as int,
                    65535 * norm,
                    norm as int,
                );
                vstd::arithmetic::div_mod::lemma_div_multiples_vanish(65535, norm as int);
                assert(65535 * norm == norm * 65535) by (nonlinear_arith);
            }
            (total / norm) as u16
        }
    }
}

/// The position that lies `offset` further along an axis than `position`,
/// or the last position of the axis.
pub open spec fn spec_shift(position: i64, offset: u32) -> i64 {
    if position + offset > i64::MAX {
        i64::MAX
    } else {
        (position + offset) as i64
    }
}

/// Two layered noises of which the second bends the first: the first is
/// sampled at a position that the second has moved along the x axis, by up
/// to `weight` blocks.
#[derive(Clone, Copy, Debug, PartialEq, Eq, Structural)]
pub struct CombinedNoise {
    pub first: LayeredNoise,
    pub second: LayeredNoise,
    pub weight: u32,
}

impl CombinedNoise {
    pub fn new(first: LayeredNoiseOptions, second: LayeredNoiseOptions, weight: u32) -> (noise:
        Self)
        ensures
            noise.first.options == first,
            noise.second.options == second,
            noise.weight == weight,
    {
        Self { first: LayeredNoise::new(first), second: LayeredNoise::new(second), weight }
    }

    /// By how many blocks the second noise moves the position `(x, y)`.
    pub open spec fn spec_offset(&self, x: i64, y: i64) -> u32 {
        (self.second.spec_get(x, y) * self.weight / 65536) as u32
    }
}

impl NoiseFn for CombinedNoise {
    open spec fn wf(&self) -> bool {
        self.first.wf() && self.second.wf()
    }

    open spec fn spec_get(&self, x: i64, y: i64) -> u16 {
        self.first.spec_get(spec_shift(x, self.spec_offset(x, y)), y)
    }

    fn get(&self, x: i64, y: i64) -> (sample: u16) {
        let bend: u16 = self.second.get(x, y);
        assert(bend * self.weight <= 65535 * 0xffff_ffff) by (nonlinear_arith)
            requires
                bend <= 65535,
                self.weight <= 0xffff_ffff,
        ;
        let offset: u64 = bend as u64 * (self.weight as u64) / 65536;
        let shifted: i64 = if x as i128 + offset as i128 > i64::MAX as i128 {
            i64::MAX
        } else {
            (x as i128 + offset as i128) as i64
        };
        self.first.get(shifted, y)
    }
}

} // verus!
