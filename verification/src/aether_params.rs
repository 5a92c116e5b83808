//! The parameters of Aether, and the changes that a preset, a reset or a text field makes.

use crate::aether_library::{flat_bands, harman_flat, B1, B10000, B1200, B300, B4000};
use crate::aether_preset::{AetherProfile, Band, ProfileModel, B0_7, B100, B105, B60};
use crate::host::ParamValue;
use crate::level::Level;
use vstd::arithmetic::div_mod::{lemma_mod_self_0, lemma_small_mod};
use vstd::prelude::*;

verus! {

/// The bit pattern of `20.0`, the lowest frequency of a band.
pub const FREQ_MIN_BITS: u32 = 0x41a0_0000;

/// The bit pattern of `20000.0`, the highest frequency of a band.
pub const FREQ_MAX_BITS: u32 = 0x469c_4000;

/// The bit pattern of `-12.0`, the lowest gain of a band.
pub const GAIN_MIN_BITS: u32 = 0xc140_0000;

/// The bit pattern of `12.0`, the highest gain of a band.
pub const GAIN_MAX_BITS: u32 = 0x4140_0000;

/// The bit pattern of `0.3`, the lowest quality of a band.
pub const Q_MIN_BITS: u32 = 0x3e99_999a;

/// The bit pattern of `8.0`, the highest quality of a band.
pub const Q_MAX_BITS: u32 = 0x4100_0000;

/// A parameter.
#[derive(Clone, Copy, Debug, PartialEq, Eq, Structural)]
pub enum AetherParam {
    BandFreq(usize),
    BandGain(usize),
    BandQ(usize),
    BandType(usize),
    Blend,
    CfAngle,
    CfAmount,
    CfRealism,
    Gain,
    Bypass,
}

/// A parameter and its new value.
pub type Setting = (AetherParam, ParamValue);

/// What the parameters stand at.
pub struct AetherParams {
    pub bands: [Band; 5],
    pub cf_angle: Level,
    pub cf_amount: Level,
    pub cf_realism: i32,
    pub blend: Level,
    pub gain: Level,
    pub bypass: bool,
}

/// The profile that the parameters stand at, under a name.
pub open spec fn profile_at(params: AetherParams, name: Seq<char>) -> ProfileModel {
    ProfileModel {
        name,
        bands: params.bands@,
        cf_angle: params.cf_angle,
        cf_amount: params.cf_amount,
        cf_realism: params.cf_realism,
        blend: params.blend,
        gain: params.gain,
    }
}

/// The profile that the parameters stand at, under the name.
pub fn profile_from_params(params: &AetherParams, name: &String) -> (r: AetherProfile)
    ensures
        r@ == profile_at(*params, name@),
{
    AetherProfile {
        name: name.clone(),
        bands: params.bands,
        cf_angle: params.cf_angle,
        cf_amount: params.cf_amount,
        cf_realism: params.cf_realism,
        blend: params.blend,
        gain: params.gain,
    }
}

/// The changes that bring the first `n` bands to the given ones.
pub open spec fn band_settings(bands: Seq<Band>, n: nat) -> Seq<Setting>
    decreases n,
{
    if n == 0 {
        Seq::empty()
    } else {
        let b = (n - 1) as usize;
        let band = bands[n - 1];
        band_settings(bands, (n - 1) as nat).push(
            (AetherParam::BandFreq(b), ParamValue::Number(band.1)),
        ).push((AetherParam::BandGain(b), ParamValue::Number(band.2))).push(
            (AetherParam::BandQ(b), ParamValue::Number(band.3)),
        ).push((AetherParam::BandType(b), ParamValue::Choice(band.0)))
    }
}

/// The changes that bring all parameters but the bypass to a profile.
pub open spec fn profile_settings(p: ProfileModel) -> Seq<Setting> {
    band_settings(p.bands, 5).push((AetherParam::Blend, ParamValue::Number(p.blend))).push(
        (AetherParam::CfAngle, ParamValue::Number(p.cf_angle)),
    ).push((AetherParam::CfAmount, ParamValue::Number(p.cf_amount))).push(
        (AetherParam::CfRealism, ParamValue::Choice(p.cf_realism)),
    ).push((AetherParam::Gain, ParamValue::Number(p.gain)))
}

/// Appends the changes that bring the bands to the given ones.
fn push_bands(list: &mut Vec<Setting>, bands: &[Band; 5])
    requires
        old(list)@.len() == 0,
    ensures
        final(list)@ == band_settings(bands@, 5),
{
    proof {
        assert(list@ =~= band_settings(bands@, 0));
    }
    for b in 0..5usize
        invariant
            bands@.len() == 5,
            list@ == band_settings(bands@, b as nat),
    {
        let band: Band = bands[b];
        list.push((AetherParam::BandFreq(b), ParamValue::Number(band.1)));
        list.push((AetherParam::BandGain(b), ParamValue::Number(band.2)));
        list.push((AetherParam::BandQ(b), ParamValue::Number(band.3)));
        list.push((AetherParam::BandType(b), ParamValue::Choice(band.0)));
    }
}

/// The changes that bring the parameters to a profile, in order.
pub fn apply_profile(p: &AetherProfile) -> (r: Vec<Setting>)
    ensures
        r@ == profile_settings(p@),
{
    let mut r: Vec<Setting> = Vec::new();
    push_bands(&mut r, &p.bands);
    r.push((AetherParam::Blend, ParamValue::Number(p.blend)));
    r.push((AetherParam::CfAngle, ParamValue::Number(p.cf_angle)));
    r.push((AetherParam::CfAmount, ParamValue::Number(p.cf_amount)));
    r.push((AetherParam::CfRealism, ParamValue::Choice(p.cf_realism)));
    r.push((AetherParam::Gain, ParamValue::Number(p.gain)));
    r
}

/// Where each band starts: its frequency, its quality and its type.
pub open spec fn band_start(b: int) -> (Level, Level, i32) {
    if b == 0 {
        (Level { bits: B105 }, Level { bits: B0_7 }, 1)
    } else if b == 1 {
        (Level { bits: B300 }, Level { bits: B1 }, 2)
    } else if b == 2 {
        (Level { bits: B1200 }, Level { bits: B1 }, 2)
    } else if b == 3 {
        (Level { bits: B4000 }, Level { bits: B1 }, 2)
    } else {
        (Level { bits: B10000 }, Level { bits: B0_7 }, 3)
    }
}

/// Where each band starts.
fn start_of(b: usize) -> (r: (Level, Level, i32))
    ensures
        r == band_start(b as int),
{
    if b == 0 {
        (Level { bits: B105 }, Level { bits: B0_7 }, 1)
    } else if b == 1 {
        (Level { bits: B300 }, Level { bits: B1 }, 2)
    } else if b == 2 {
        (Level { bits: B1200 }, Level { bits: B1 }, 2)
    } else if b == 3 {
        (Level { bits: B4000 }, Level { bits: B1 }, 2)
    } else {
        (Level { bits: B10000 }, Level { bits: B0_7 }, 3)
    }
}

/// The changes that bring the first `n` bands back to their start.
pub open spec fn band_resets(n: nat) -> Seq<Setting>
    decreases n,
{
    if n == 0 {
        Seq::empty()
    } else {
        let b = (n - 1) as usize;
        let (freq, q, kind) = band_start(n - 1);
        band_resets((n - 1) as nat).push((AetherParam::BandFreq(b), ParamValue::Number(freq))).push(
            (AetherParam::BandGain(b), ParamValue::Number(Level { bits: 0 })),
        ).push((AetherParam::BandQ(b), ParamValue::Number(q))).push(
            (AetherParam::BandType(b), ParamValue::Choice(kind)),
        )
    }
}

/// The changes of a reset; `bypass` tells whether it also ends the bypass.
pub open spec fn reset_settings(bypass: bool) -> Seq<Setting> {
    let all = band_resets(5).push((AetherParam::Blend, ParamValue::Number(Level { bits: B100 }))).push(
        (AetherParam::CfAngle, ParamValue::Number(Level { bits: B60 })),
    ).push((AetherParam::CfAmount, ParamValue::Number(Level { bits: 0 }))).push(
        (AetherParam::CfRealism, ParamValue::Choice(0)),
    ).push((AetherParam::Gain, ParamValue::Number(Level { bits: 0 })));
    if bypass {
        all.push((AetherParam::Bypass, ParamValue::Switch(false)))
    } else {
        all
    }
}

/// The changes of a reset, in order; `bypass` tells whether it also ends the bypass.
pub fn reset_all(bypass: bool) -> (r: Vec<Setting>)
    ensures
        r@ == reset_settings(bypass),
{
    let zero: Level = Level { bits: 0 };
    let mut r: Vec<Setting> = Vec::new();
    proof {
        assert(r@ =~= band_resets(0));
    }
    for b in 0..5usize
        invariant
            r@ == band_resets(b as nat),
            zero == (Level { bits: 0 }),
    {
        let (freq, q, kind) = start_of(b);
        r.push((AetherParam::BandFreq(b), ParamValue::Number(freq)));
        r.push((AetherParam::BandGain(b), ParamValue::Number(zero)));
        r.push((AetherParam::BandQ(b), ParamValue::Number(q)));
        r.push((AetherParam::BandType(b), ParamValue::Choice(kind)));
    }
    r.push((AetherParam::Blend, ParamValue::Number(Level { bits: B100 })));
    r.push((AetherParam::CfAngle, ParamValue::Number(Level { bits: B60 })));
    r.push((AetherParam::CfAmount, ParamValue::Number(zero)));
    r.push((AetherParam::CfRealism, ParamValue::Choice(0)));
    r.push((AetherParam::Gain, ParamValue::Number(zero)));
    if bypass {
        r.push((AetherParam::Bypass, ParamValue::Switch(false)));
    }
    r
}

/// A reset sets what the built-in preset sets.
pub proof fn law_a_reset_is_the_built_in_preset()
    ensures
        reset_settings(false) == profile_settings(harman_flat()),
        reset_settings(true) == profile_settings(harman_flat()).push(
            (AetherParam::Bypass, ParamValue::Switch(false)),
        ),
{
    lemma_resets(5);
}

proof fn lemma_resets(n: nat)
    requires
        n <= 5,
    ensures
        band_resets(n) == band_settings(flat_bands(), n),
    decreases n,
{
    if n > 0 {
        lemma_resets((n - 1) as nat);
    }
}

/// The lowest and the highest value of a text field of a band: 0 is the frequency, 1 the gain,
/// any other the quality.
pub open spec fn field_range(f: int) -> (Level, Level) {
    if f == 0 {
        (Level { bits: FREQ_MIN_BITS }, Level { bits: FREQ_MAX_BITS })
    } else if f == 1 {
        (Level { bits: GAIN_MIN_BITS }, Level { bits: GAIN_MAX_BITS })
    } else {
        (Level { bits: Q_MIN_BITS }, Level { bits: Q_MAX_BITS })
    }
}

/// The parameter behind a text field of a band.
pub open spec fn field_param(b: usize, f: int) -> AetherParam {
    if f == 0 {
        AetherParam::BandFreq(b)
    } else if f == 1 {
        AetherParam::BandGain(b)
    } else {
        AetherParam::BandQ(b)
    }
}

/// The change that a number in a text field makes: the number, held inside the field's range.
pub open spec fn field_setting(b: usize, f: int, v: Level) -> Setting {
    let (lo, hi) = field_range(f);
    (field_param(b, f), ParamValue::Number(v.clamped(lo, hi)))
}

/// The change that the number `v` in the text field `f` of the band `b` makes.
pub fn edit_field(b: usize, f: usize, v: Level) -> (r: Setting)
    ensures
        r == field_setting(b, f as int, v),
{
    if f == 0 {
        let v: Level = v.clamp(Level { bits: FREQ_MIN_BITS }, Level { bits: FREQ_MAX_BITS });
        (AetherParam::BandFreq(b), ParamValue::Number(v))
    } else if f == 1 {
        let v: Level = v.clamp(Level { bits: GAIN_MIN_BITS }, Level { bits: GAIN_MAX_BITS });
        (AetherParam::BandGain(b), ParamValue::Number(v))
    } else {
        let v: Level = v.clamp(Level { bits: Q_MIN_BITS }, Level { bits: Q_MAX_BITS });
        (AetherParam::BandQ(b), ParamValue::Number(v))
    }
}

/// The remainder of a division that rounds towards zero.
pub open spec fn remainder(a: int, b: int) -> int
    recommends
        b > 0,
{
    if a >= 0 {
        a % b
    } else {
        -((-a) % b)
    }
}

/// The choice behind `n` among `count`.
pub fn next_choice(n: i32, count: i32) -> (r: i32)
    requires
        n < i32::MAX,
        count > 0,
    ensures
        r == remainder(n + 1, count as int),
        0 <= n < count ==> r == (if n + 1 == count {
            0
        } else {
            n + 1
        }),
{
    let a: i32 = n + 1;
    proof {
        if 0 <= a < count {
            lemma_small_mod(a as nat, count as nat);
        } else if a == count {
            lemma_mod_self_0(count as int);
        }
    }
    if a >= 0 {
        a % count
    } else {
        -((-a) % count)
    }
}

/// How many filter types a band can have.
pub const TYPES: i32 = 4;

/// How many degrees of realism the crossfeed has.
pub const REALISMS: i32 = 3;

/// Cycling through the choices comes back to the first one it left.
pub proof fn law_cycling_comes_back(n: int)
    ensures
        0 <= n < 4 ==> remainder(remainder(remainder(remainder(n + 1, 4) + 1, 4) + 1, 4) + 1, 4)
            == n,
        0 <= n < 3 ==> remainder(remainder(remainder(n + 1, 3) + 1, 3) + 1, 3) == n,
{
}

} // verus!
