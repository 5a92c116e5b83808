//! What the meters, the spectrum and the curves draw.

use crate::level::Level;
use crate::scope::{goniometer_dots, correlation_zone, dot_at, draw_count, Correlation, Dot, Frame};
use vstd::prelude::*;
use vstd::string::*;

verus! {

/// The bit pattern of `-6.0`: a meter is hot above it.
pub const HOT_BITS: u32 = 0xc0c0_0000;

/// The bit pattern of `-60.0`, the foot of a meter.
pub const METER_FOOT_BITS: u32 = 0xc270_0000;

/// The bit pattern of `0.08`: a balance nearer to the middle counts as centred.
pub const CENTRED_BITS: u32 = 0x3da3_d70a;

/// The bit pattern of `1.0`.
pub const ONE_BITS: u32 = 0x3f80_0000;

/// The bit pattern of `-1.0`.
pub const MINUS_ONE_BITS: u32 = 0xbf80_0000;

/// How many samples a goniometer draws at most.
pub const MAX_DOTS: usize = 2048;

/// The bit pattern of `20.0`, the lowest frequency drawn.
pub const LOWEST_HZ_BITS: u32 = 0x41a0_0000;

/// The bit pattern of `20000.0`, the highest frequency drawn.
pub const HIGHEST_HZ_BITS: u32 = 0x469c_4000;

/// The bit pattern of `1e-12`, the faintest power that is shown.
pub const POWER_MIN_BITS: u32 = 0x2b8c_bccc;

/// The bit pattern of `-90.0`, the lowest level of a smoothed spectrum.
pub const SHOWN_MIN_BITS: u32 = 0xc2b4_0000;

/// The bit pattern of `12.0`, the highest level of a smoothed spectrum.
pub const SHOWN_MAX_BITS: u32 = 0x4140_0000;

/// How many steps a smoothed spectrum has; it has one point more.
pub const STEPS: usize = 480;

/// How a bar of a meter is coloured.
#[derive(Clone, Copy, Debug, PartialEq, Eq, Structural)]
pub enum MeterZone {
    Over,
    Hot,
    Normal,
}

/// How a level is coloured.
pub open spec fn zone_of(peak: Level) -> MeterZone {
    if peak.above(Level { bits: 0 }) {
        MeterZone::Over
    } else if peak.above(Level { bits: HOT_BITS }) {
        MeterZone::Hot
    } else {
        MeterZone::Normal
    }
}

/// A bar of a meter: its colour, and whether its held peak is drawn.
#[derive(Clone, Copy, Debug, PartialEq, Eq, Structural)]
pub struct MeterBar {
    pub zone: MeterZone,
    pub hold_shown: bool,
}

/// The bar of a channel.
pub open spec fn bar_of(peak: Level, hold: Level) -> MeterBar {
    MeterBar { zone: zone_of(peak), hold_shown: hold.above(Level { bits: METER_FOOT_BITS }) }
}

/// The meter of both channels.
#[derive(Clone, Copy, Debug, PartialEq, Eq, Structural)]
pub struct StereoMeterView {
    pub peak_l: Level,
    pub peak_r: Level,
    pub hold_l: Level,
    pub hold_r: Level,
    pub balance: Level,
}

fn make_bar(peak: Level, hold: Level) -> (r: MeterBar)
    ensures
        r == bar_of(peak, hold),
{
    MeterBar {
        zone: if peak.gt(Level { bits: 0 }) {
            MeterZone::Over
        } else if peak.gt(Level { bits: HOT_BITS }) {
            MeterZone::Hot
        } else {
            MeterZone::Normal
        },
        hold_shown: hold.gt(Level { bits: METER_FOOT_BITS }),
    }
}

impl StereoMeterView {
    /// A meter at the given levels.
    pub fn new(
        peak_l: Level,
        peak_r: Level,
        hold_l: Level,
        hold_r: Level,
        balance: Level,
    ) -> (r: StereoMeterView)
        ensures
            r == (StereoMeterView { peak_l, peak_r, hold_l, hold_r, balance }),
    {
        StereoMeterView { peak_l, peak_r, hold_l, hold_r, balance }
    }

    /// The bars of both channels.
    pub fn bars(&self) -> (r: (MeterBar, MeterBar))
        ensures
            r == (bar_of(self.peak_l, self.hold_l), bar_of(self.peak_r, self.hold_r)),
    {
        (make_bar(self.peak_l, self.hold_l), make_bar(self.peak_r, self.hold_r))
    }

    /// The balance that is drawn, and whether it counts as centred.
    pub fn cursor(&self) -> (r: (Level, bool))
        ensures
            r.0 == self.balance.clamped(
                Level { bits: MINUS_ONE_BITS },
                Level { bits: ONE_BITS },
            ),
            r.1 == (Level { bits: CENTRED_BITS }).above(r.0.absolute()),
    {
        let b: Level = self.balance.clamp(Level { bits: MINUS_ONE_BITS }, Level { bits: ONE_BITS });
        (b, (Level { bits: CENTRED_BITS }).gt(b.abs()))
    }
}

/// A level under a meter; `text` is the level with one decimal.
pub fn fmt_db(v: Level, text: &str) -> (r: String)
    ensures
        r@ == (if (Level { bits: METER_FOOT_BITS }).at_least(v) {
            "-inf"@
        } else {
            text@
        }),
{
    if (Level { bits: METER_FOOT_BITS }).ge(v) {
        "-inf".to_owned()
    } else {
        text.to_owned()
    }
}

/// A scope that draws the last samples as dots.
pub struct GoniometerView {
    pub samples: Vec<Frame>,
    pub write_pos: usize,
    pub correlation: Level,
}

impl GoniometerView {
    /// A scope on the given ring of samples.
    pub fn new(samples: Vec<Frame>, write_pos: usize, correlation: Level) -> (r: GoniometerView)
        ensures
            r == (GoniometerView { samples, write_pos, correlation }),
    {
        GoniometerView { samples, write_pos, correlation }
    }

    /// The dots to draw, the oldest first.
    pub fn dots(&self) -> (r: Vec<Dot>)
        ensures
            self.samples@.len() == 0 ==> r@.len() == 0,
            self.samples@.len() > 0 ==> r@ == Seq::new(
                draw_count(self.samples@.len() as int, MAX_DOTS as int) as nat,
                |k: int|
                    dot_at(
                        self.write_pos as int % self.samples@.len() as int,
                        self.samples@.len() as int,
                        draw_count(self.samples@.len() as int, MAX_DOTS as int),
                        k,
                    ),
            ),
    {
        goniometer_dots(self.samples.len(), self.write_pos, MAX_DOTS)
    }

    /// The correlation that is shown, and where it stands.
    pub fn correlation_mark(&self) -> (r: (Level, Correlation))
        ensures
            r.0 == self.correlation.clamped(
                Level { bits: MINUS_ONE_BITS },
                Level { bits: ONE_BITS },
            ),
            r.1 == (if r.0.above(Level { bits: 0x3f33_3333 }) {
                Correlation::Good
            } else if r.0.at_least(Level { bits: 0 }) {
                Correlation::Fair
            } else {
                Correlation::Bad
            }),
    {
        let c: Level = self.correlation.clamp(
            Level { bits: MINUS_ONE_BITS },
            Level { bits: ONE_BITS },
        );
        (c, correlation_zone(c))
    }
}

/// A correlation as text: a plus in front where it is not negative.  `text` is the correlation with
/// two decimals.
pub fn correlation_text(corr: Level, text: &str) -> (r: String)
    ensures
        r@ == (if corr.at_least(Level { bits: 0 }) {
            "+"@ + text@
        } else {
            text@
        }),
{
    if corr.ge(Level { bits: 0 }) {
        let mut r: String = "+".to_owned();
        r.append(text);
        r
    } else {
        text.to_owned()
    }
}

/// A colour: red, green and blue.
pub type Rgb = (u8, u8, u8);

/// A curve of a spectrum and its look.
pub struct SpectrumCurve {
    pub spectrum: Vec<Level>,
    pub color: Rgb,
    pub fill_alpha: Level,
    pub line_alpha: Level,
    pub line_width: Level,
}

/// The frame of a spectrum: its range, its rate, and its grid.
pub struct SpectrumConfig {
    pub min_db: Level,
    pub max_db: Level,
    pub sample_rate: Level,
    pub fft_size: usize,
    pub db_grid: Vec<Level>,
    pub freq_grid: Vec<Level>,
}

impl Default for SpectrumConfig {
    /// From -70 to -18 dB at 44.1 kHz.
    fn default() -> (r: SpectrumConfig)
        ensures
            r.min_db == (Level { bits: 0xc28c_0000 }),
            r.max_db == (Level { bits: 0xc190_0000 }),
            r.sample_rate == (Level { bits: 0x472c_4400 }),
            r.fft_size == 2048,
            r.db_grid@ == seq![
                Level { bits: 0xc28c_0000 },
                Level { bits: 0xc248_0000 },
                Level { bits: 0xc1f0_0000 },
                Level { bits: 0xc190_0000 },
            ],
            r.freq_grid@ == seq![
                Level { bits: 0x42c8_0000 },
                Level { bits: 0x447a_0000 },
                Level { bits: 0x461c_4000 },
            ],
    {
        let r: SpectrumConfig = SpectrumConfig {
            min_db: Level { bits: 0xc28c_0000 },
            max_db: Level { bits: 0xc190_0000 },
            sample_rate: Level { bits: 0x472c_4400 },
            fft_size: 2048,
            db_grid: vec![
                Level { bits: 0xc28c_0000 },
                Level { bits: 0xc248_0000 },
                Level { bits: 0xc1f0_0000 },
                Level { bits: 0xc190_0000 },
            ],
            freq_grid: vec![
                Level { bits: 0x42c8_0000 },
                Level { bits: 0x447a_0000 },
                Level { bits: 0x461c_4000 },
            ],
        };
        proof {
            assert(r.db_grid@ =~= seq![
                Level { bits: 0xc28c_0000 },
                Level { bits: 0xc248_0000 },
                Level { bits: 0xc1f0_0000 },
                Level { bits: 0xc190_0000 },
            ]);
            assert(r.freq_grid@ =~= seq![
                Level { bits: 0x42c8_0000 },
                Level { bits: 0x447a_0000 },
                Level { bits: 0x461c_4000 },
            ]);
        }
        r
    }
}

/// A spectrum with its curves, its collisions and its resonances.
pub struct SpectrumView {
    pub curves: Vec<SpectrumCurve>,
    pub config: SpectrumConfig,
    pub resonance_peaks: Vec<(usize, Level)>,
    pub masking: Vec<Level>,
}

/// Whether a frequency is drawn.
pub open spec fn audible(freq: Level) -> bool {
    freq.at_least(Level { bits: LOWEST_HZ_BITS }) && (Level { bits: HIGHEST_HZ_BITS }).at_least(freq)
}

/// Which frequencies are drawn.
pub open spec fn audible_marks(freqs: Seq<Level>) -> Seq<bool> {
    Seq::new(freqs.len(), |k: int| audible(freqs[k]))
}

fn is_audible(freq: Level) -> (r: bool)
    ensures
        r == audible(freq),
{
    freq.ge(Level { bits: LOWEST_HZ_BITS }) && (Level { bits: HIGHEST_HZ_BITS }).ge(freq)
}

/// Those of the numbers below `n` that `shown` marks, in order.
pub open spec fn marked(shown: Seq<bool>, n: nat) -> Seq<usize>
    decreases n,
{
    if n == 0 {
        Seq::empty()
    } else if shown[n - 1] {
        marked(shown, (n - 1) as nat).push((n - 1) as usize)
    } else {
        marked(shown, (n - 1) as nat)
    }
}

impl SpectrumView {
    /// The spectrum of the given parts.
    pub fn new(data: SpectrumView) -> (r: SpectrumView)
        ensures
            r == data,
    {
        data
    }

    /// The curves that are drawn: those with a spectrum.
    pub fn drawn_curves(&self) -> (r: Vec<usize>)
        ensures
            r@ == marked(
                Seq::new(self.curves@.len(), |i: int| self.curves@[i].spectrum@.len() > 0),
                self.curves@.len(),
            ),
    {
        let ghost shown = Seq::new(
            self.curves@.len(),
            |i: int| self.curves@[i].spectrum@.len() > 0,
        );
        let mut r: Vec<usize> = Vec::new();
        for i in 0..self.curves.len()
            invariant
                shown == Seq::new(
                    self.curves@.len(),
                    |i: int| self.curves@[i].spectrum@.len() > 0,
                ),
                r@ == marked(shown, i as nat),
        {
            if self.curves[i].spectrum.len() > 0 {
                r.push(i);
            }
        }
        r
    }

    /// Whether the collision in a bin at that frequency is drawn: unless it is at or below the foot
    /// of the spectrum, or not audible.
    pub open spec fn masking_shown(self, k: int, freq: Level) -> bool {
        !self.config.min_db.at_least(self.masking@[k]) && audible(freq)
    }

    /// Which bins have a collision that is drawn, given the frequencies of the bins.
    pub open spec fn masking_marks(self, freqs: Seq<Level>) -> Seq<bool> {
        Seq::new(self.masking@.len(), |k: int| self.masking_shown(k, freqs[k]))
    }

    /// The bins whose collisions are drawn; `freq` gives the frequency of a bin.
    pub fn drawn_masking<F: Fn(usize) -> Level>(&self, freq: F) -> (r: Vec<usize>)
        requires
            forall|k: usize| call_requires(freq, (k,)),
        ensures
            exists|freqs: Seq<Level>|
                {
                    &&& freqs.len() == self.masking@.len()
                    &&& forall|k: int|
                        0 <= k < freqs.len() ==> call_ensures(
                            freq,
                            (k as usize,),
                            #[trigger] freqs[k],
                        )
                    &&& r@ == marked(#[trigger] self.masking_marks(freqs), self.masking@.len())
                },
    {
        let mut freqs: Vec<Level> = Vec::new();
        for k in 0..self.masking.len()
            invariant
                forall|k: usize| call_requires(freq, (k,)),
                freqs@.len() == k,
                forall|i: int| 0 <= i < k ==> call_ensures(freq, (i as usize,), #[trigger] freqs@[i]),
        {
            freqs.push(freq(k));
        }
        let mut r: Vec<usize> = Vec::new();
        for k in 0..self.masking.len()
            invariant
                freqs@.len() == self.masking@.len(),
                r@ == marked(self.masking_marks(freqs@), k as nat),
        {
            if !self.config.min_db.ge(self.masking[k]) && is_audible(freqs[k]) {
                r.push(k);
            }
        }
        r
    }

    /// The resonances that are drawn, by their place in the list; `freq` gives the frequency of a
    /// bin.
    pub fn drawn_resonances<F: Fn(usize) -> Level>(&self, freq: F) -> (r: Vec<usize>)
        requires
            forall|k: usize| call_requires(freq, (k,)),
        ensures
            exists|freqs: Seq<Level>|
                {
                    &&& freqs.len() == self.resonance_peaks@.len()
                    &&& forall|k: int|
                        0 <= k < freqs.len() ==> call_ensures(
                            freq,
                            (self.resonance_peaks@[k].0,),
                            #[trigger] freqs[k],
                        )
                    &&& r@ == marked(#[trigger] audible_marks(freqs), freqs.len())
                },
    {
        let mut freqs: Vec<Level> = Vec::new();
        for k in 0..self.resonance_peaks.len()
            invariant
                forall|k: usize| call_requires(freq, (k,)),
                freqs@.len() == k,
                forall|i: int|
                    0 <= i < k ==> call_ensures(
                        freq,
                        (self.resonance_peaks@[i].0,),
                        #[trigger] freqs@[i],
                    ),
        {
            freqs.push(freq(self.resonance_peaks[k].0));
        }
        let mut r: Vec<usize> = Vec::new();
        for k in 0..freqs.len()
            invariant
                r@ == marked(audible_marks(freqs@), k as nat),
        {
            if is_audible(freqs[k]) {
                r.push(k);
            }
        }
        r
    }
}

/// The closures that a spectrum is smoothed with, as they work on floating point numbers.
pub struct SmoothMath<
    P: Fn(Level) -> Level,
    B: Fn(&Vec<Level>, usize) -> (Level, Level),
    D: Fn(Level) -> Level,
    T: Fn(Level, Level, Level) -> Level,
> {
    /// The power of a level.
    pub power: P,
    /// The place of a step, and the average of the powers around it.
    pub bands: B,
    /// The level of a power.
    pub decibel: D,
    /// Three neighbouring levels mixed.
    pub taps: T,
}

/// A level held between those that are shown.
pub open spec fn shown_level(l: Level) -> Level {
    l.clamped(Level { bits: SHOWN_MIN_BITS }, Level { bits: SHOWN_MAX_BITS })
}

/// The powers of a spectrum: the lowest bin, which holds what does not swing, counts for none.
pub open spec fn powers_of<P: Fn(Level) -> Level>(
    spectrum: Seq<Level>,
    power: P,
    powers: Seq<Level>,
) -> bool {
    &&& powers.len() == spectrum.len()
    &&& powers.len() > 0 ==> powers[0] == (Level { bits: 0 })
    &&& forall|k: int|
        1 <= k < spectrum.len() ==> call_ensures(power, (spectrum[k],), #[trigger] powers[k])
}

/// Whether `first` holds the levels around each step: the average power there, no fainter than
/// can be shown, as a level that can be shown.
pub open spec fn band_levels<
    B: Fn(&Vec<Level>, usize) -> (Level, Level),
    D: Fn(Level) -> Level,
>(
    powers: Vec<Level>,
    bands: B,
    decibel: D,
    averages: Seq<(Level, Level)>,
    levels: Seq<Level>,
    first: Seq<(Level, Level)>,
) -> bool {
    &&& averages.len() == STEPS + 1
    &&& levels.len() == STEPS + 1
    &&& first.len() == STEPS + 1
    &&& forall|i: int|
        0 <= i <= STEPS ==> call_ensures(bands, (&powers, i as usize), #[trigger] averages[i])
    &&& forall|i: int|
        0 <= i <= STEPS ==> call_ensures(
            decibel,
            (averages[i].1.larger(Level { bits: POWER_MIN_BITS }),),
            #[trigger] levels[i],
        )
    &&& forall|i: int|
        0 <= i <= STEPS ==> #[trigger] first[i] == (averages[i].0, shown_level(levels[i]))
}

/// Whether `r` is `first` with each inner point mixed with its neighbours.
pub open spec fn tapped<T: Fn(Level, Level, Level) -> Level>(
    first: Seq<(Level, Level)>,
    taps: T,
    mixed: Seq<Level>,
    r: Seq<(Level, Level)>,
) -> bool {
    &&& mixed.len() == STEPS + 1
    &&& r.len() == STEPS + 1
    &&& r[0] == first[0]
    &&& r[STEPS as int] == first[STEPS as int]
    &&& forall|i: int|
        0 < i < STEPS ==> call_ensures(
            taps,
            (first[i - 1].1, first[i].1, first[i + 1].1),
            #[trigger] mixed[i],
        )
    &&& forall|i: int|
        0 < i < STEPS ==> #[trigger] r[i] == (first[i].0, shown_level(mixed[i]))
}

/// Whether `r` is a spectrum smoothed in two passes.
pub open spec fn smoothed<
    P: Fn(Level) -> Level,
    B: Fn(&Vec<Level>, usize) -> (Level, Level),
    D: Fn(Level) -> Level,
    T: Fn(Level, Level, Level) -> Level,
>(spectrum: Seq<Level>, math: SmoothMath<P, B, D, T>, r: Seq<(Level, Level)>) -> bool {
    exists|
        powers: Vec<Level>,
        averages: Seq<(Level, Level)>,
        levels: Seq<Level>,
        first: Seq<(Level, Level)>,
        mixed: Seq<Level>,
    |
        {
            &&& powers_of(spectrum, math.power, powers@)
            &&& #[trigger] band_levels(powers, math.bands, math.decibel, averages, levels, first)
            &&& #[trigger] tapped(first, math.taps, mixed, r)
        }
}

/// A spectrum smoothed over fractions of an octave, as points from the lowest to the highest
/// frequency; nothing where there is no spectrum.
///
/// A spectrum of the lowest bin alone has nothing to smooth.
pub fn smooth_spectrum_third_octave<
    P: Fn(Level) -> Level,
    B: Fn(&Vec<Level>, usize) -> (Level, Level),
    D: Fn(Level) -> Level,
    T: Fn(Level, Level, Level) -> Level,
>(spectrum: &Vec<Level>, math: &SmoothMath<P, B, D, T>) -> (r: Vec<(Level, Level)>)
    requires
        spectrum@.len() != 1,
        forall|l: Level| call_requires(math.power, (l,)),
        forall|v: &Vec<Level>, i: usize|
            v@.len() == spectrum@.len() && i <= STEPS ==> call_requires(math.bands, (v, i)),
        forall|l: Level| call_requires(math.decibel, (l,)),
        forall|a: Level, b: Level, c: Level| call_requires(math.taps, (a, b, c)),
    ensures
        spectrum@.len() == 0 ==> r@.len() == 0,
        spectrum@.len() > 0 ==> smoothed(spectrum@, *math, r@),
{
    let mut r: Vec<(Level, Level)> = Vec::new();
    if spectrum.len() == 0 {
        return r;
    }
    let mut powers: Vec<Level> = vec![Level { bits: 0 }];
    for k in 1..spectrum.len()
        invariant
            forall|l: Level| call_requires(math.power, (l,)),
            powers@.len() == k,
            powers@[0] == (Level { bits: 0 }),
            forall|i: int|
                1 <= i < k ==> call_ensures(math.power, (spectrum@[i],), #[trigger] powers@[i]),
    {
        powers.push((math.power)(spectrum[k]));
    }
    let ghost mut averages: Seq<(Level, Level)> = Seq::empty();
    let ghost mut levels: Seq<Level> = Seq::empty();
    let mut first: Vec<(Level, Level)> = Vec::new();
    for i in 0..STEPS + 1
        invariant
            powers@.len() == spectrum@.len(),
            forall|v: &Vec<Level>, i: usize|
                v@.len() == spectrum@.len() && i <= STEPS ==> call_requires(math.bands, (v, i)),
            forall|l: Level| call_requires(math.decibel, (l,)),
            first@.len() == i,
            averages.len() == i,
            levels.len() == i,
            forall|k: int|
                0 <= k < i ==> call_ensures(
                    math.bands,
                    (&powers, k as usize),
                    #[trigger] averages[k],
                ),
            forall|k: int|
                0 <= k < i ==> call_ensures(
                    math.decibel,
                    (averages[k].1.larger(Level { bits: POWER_MIN_BITS }),),
                    #[trigger] levels[k],
                ),
            forall|k: int|
                0 <= k < i ==> #[trigger] first@[k] == (averages[k].0, shown_level(levels[k])),
    {
        let average: (Level, Level) = (math.bands)(&powers, i);
        let level: Level = (math.decibel)(average.1.max(Level { bits: POWER_MIN_BITS }));
        first.push(
            (
                average.0,
                level.clamp(Level { bits: SHOWN_MIN_BITS }, Level { bits: SHOWN_MAX_BITS }),
            ),
        );
        proof {
            averages = averages.push(average);
            levels = levels.push(level);
        }
    }
    let ghost mut mixed: Seq<Level> = Seq::empty();
    for i in 0..STEPS + 1
        invariant
            first@.len() == STEPS + 1,
            forall|a: Level, b: Level, c: Level| call_requires(math.taps, (a, b, c)),
            r@.len() == i,
            mixed.len() == i,
            i > 0 ==> r@[0] == first@[0],
            i > STEPS ==> r@[STEPS as int] == first@[STEPS as int],
            forall|k: int|
                0 < k < i && k < STEPS ==> call_ensures(
                    math.taps,
                    (first@[k - 1].1, first@[k].1, first@[k + 1].1),
                    #[trigger] mixed[k],
                ),
            forall|k: int|
                0 < k < i && k < STEPS ==> #[trigger] r@[k] == (
                    first@[k].0,
                    shown_level(mixed[k]),
                ),
    {
        if i == 0 || i == STEPS {
            r.push(first[i]);
            proof {
                mixed = mixed.push(first@[i as int].1);
            }
        } else {
            let level: Level = (math.taps)(first[i - 1].1, first[i].1, first[i + 1].1);
            r.push(
                (
                    first[i].0,
                    level.clamp(Level { bits: SHOWN_MIN_BITS }, Level { bits: SHOWN_MAX_BITS }),
                ),
            );
            proof {
                mixed = mixed.push(level);
            }
        }
    }
    proof {
        assert(powers_of(spectrum@, math.power, powers@));
        assert(band_levels(powers, math.bands, math.decibel, averages, levels, first@));
        assert(tapped(first@, math.taps, mixed, r@));
    }
    r
}

/// The lowest bin never leaks into the curve: spectra that differ in it alone are smoothed alike.
pub proof fn law_the_lowest_bin_does_not_count<
    P: Fn(Level) -> Level,
    B: Fn(&Vec<Level>, usize) -> (Level, Level),
    D: Fn(Level) -> Level,
    T: Fn(Level, Level, Level) -> Level,
>(s: Seq<Level>, t: Seq<Level>, math: SmoothMath<P, B, D, T>, r: Seq<(Level, Level)>)
    requires
        s.len() == t.len(),
        forall|k: int| 1 <= k < s.len() ==> s[k] == t[k],
    ensures
        smoothed(s, math, r) <==> smoothed(t, math, r),
{
    lemma_lowest_bin(s, t, math, r);
    lemma_lowest_bin(t, s, math, r);
}

proof fn lemma_lowest_bin<
    P: Fn(Level) -> Level,
    B: Fn(&Vec<Level>, usize) -> (Level, Level),
    D: Fn(Level) -> Level,
    T: Fn(Level, Level, Level) -> Level,
>(s: Seq<Level>, t: Seq<Level>, math: SmoothMath<P, B, D, T>, r: Seq<(Level, Level)>)
    requires
        s.len() == t.len(),
        forall|k: int| 1 <= k < s.len() ==> s[k] == t[k],
    ensures
        smoothed(s, math, r) ==> smoothed(t, math, r),
{
    if smoothed(s, math, r) {
        let (powers, averages, levels, first, mixed): (
            Vec<Level>,
            Seq<(Level, Level)>,
            Seq<Level>,
            Seq<(Level, Level)>,
            Seq<Level>,
        ) = choose|
            powers: Vec<Level>,
            averages: Seq<(Level, Level)>,
            levels: Seq<Level>,
            first: Seq<(Level, Level)>,
            mixed: Seq<Level>,
        |
            {
                &&& powers_of(s, math.power, powers@)
                &&& #[trigger] band_levels(
                    powers,
                    math.bands,
                    math.decibel,
                    averages,
                    levels,
                    first,
                )
                &&& #[trigger] tapped(first, math.taps, mixed, r)
            };
        assert(powers_of(t, math.power, powers@));
        assert(band_levels(powers, math.bands, math.decibel, averages, levels, first));
        assert(tapped(first, math.taps, mixed, r));
    }
}

/// Whether a level lies between -90 and 12 dB.
pub open spec fn in_shown_range(l: Level) -> bool {
    l.at_least(Level { bits: SHOWN_MIN_BITS }) && (Level { bits: SHOWN_MAX_BITS }).at_least(l)
}

/// Every level of a smoothed spectrum lies between -90 and 12 dB, where the level of a power that
/// is not too small is a number, and levels in that range are mixed to numbers.
pub proof fn law_smoothed_levels_lie_in_range<
    P: Fn(Level) -> Level,
    B: Fn(&Vec<Level>, usize) -> (Level, Level),
    D: Fn(Level) -> Level,
    T: Fn(Level, Level, Level) -> Level,
>(s: Seq<Level>, math: SmoothMath<P, B, D, T>, r: Seq<(Level, Level)>, i: int)
    requires
        smoothed(s, math, r),
        forall|l: Level, d: Level|
            l.at_least(Level { bits: POWER_MIN_BITS }) && #[trigger] call_ensures(
                math.decibel,
                (l,),
                d,
            ) ==> !d.nan(),
        forall|a: Level, b: Level, c: Level, m: Level|
            in_shown_range(a) && in_shown_range(b) && in_shown_range(c) && #[trigger] call_ensures(
                math.taps,
                (a, b, c),
                m,
            ) ==> !m.nan(),
        0 <= i <= STEPS,
    ensures
        r.len() == STEPS + 1,
        in_shown_range(r[i].1),
{
    let (powers, averages, levels, first, mixed): (
        Vec<Level>,
        Seq<(Level, Level)>,
        Seq<Level>,
        Seq<(Level, Level)>,
        Seq<Level>,
    ) = choose|
        powers: Vec<Level>,
        averages: Seq<(Level, Level)>,
        levels: Seq<Level>,
        first: Seq<(Level, Level)>,
        mixed: Seq<Level>,
    |
        {
            &&& powers_of(s, math.power, powers@)
            &&& #[trigger] band_levels(powers, math.bands, math.decibel, averages, levels, first)
            &&& #[trigger] tapped(first, math.taps, mixed, r)
        };
    assert forall|k: int| 0 <= k <= STEPS implies in_shown_range((#[trigger] first[k]).1) by {
        assert(first[k] == (averages[k].0, shown_level(levels[k])));
        let a = averages[k].1.larger(Level { bits: POWER_MIN_BITS });
        assert(a.at_least(Level { bits: POWER_MIN_BITS }));
        assert(call_ensures(math.decibel, (a,), levels[k]));
        assert(!levels[k].nan());
    }
    if 0 < i < STEPS {
        assert(r[i] == (first[i].0, shown_level(mixed[i])));
        assert(in_shown_range(first[i - 1].1) && in_shown_range(first[i].1) && in_shown_range(
            first[i + 1].1,
        ));
        assert(call_ensures(math.taps, (first[i - 1].1, first[i].1, first[i + 1].1), mixed[i]));
    } else {
        assert(r[i] == first[i]);
    }
}

/// The curve of an equaliser.
pub struct EqCurveView {
    pub points: Vec<(Level, Level)>,
    pub db_min: Level,
    pub db_max: Level,
}

impl EqCurveView {
    /// A curve from -12 to 12 dB.
    pub fn new(points: Vec<(Level, Level)>) -> (r: EqCurveView)
        ensures
            r == (EqCurveView {
                points,
                db_min: Level { bits: 0xc140_0000 },
                db_max: Level { bits: 0x4140_0000 },
            }),
    {
        EqCurveView { points, db_min: Level { bits: 0xc140_0000 }, db_max: Level { bits: 0x4140_0000 } }
    }

    /// Whether anything is drawn at that width: not without points, nor on less than two pixels.
    pub fn is_drawn(&self, width: Level) -> (r: bool)
        ensures
            r == (self.points@.len() > 0 && !(Level { bits: 0x4000_0000 }).above(width)),
    {
        self.points.len() > 0 && !(Level { bits: 0x4000_0000 }).gt(width)
    }
}

/// Five levels.
pub type Five = [Level; 5];

/// The spectrum of Equilibrium: the levels of its bands, beside a target or beside what it has
/// listened to.
#[derive(Clone, Copy)]
pub struct EqSpectrumView {
    pub band_levels: Five,
    pub target_levels: Five,
    pub target_tolerances: Five,
    pub listen_levels: Five,
    pub listen_tolerances: Five,
    pub listen_level_min: Five,
    pub listen_level_max: Five,
    pub listen_samples: Level,
}

/// What a band spectrum draws.
#[derive(Clone, Copy, Debug, PartialEq, Eq, Structural)]
pub struct BandLayers {
    /// The bars of the bands.
    pub bars: bool,
    /// Whether the bars stand back.
    pub dimmed: bool,
    /// The target and its corridor.
    pub target: bool,
    /// What was listened to.
    pub listened: bool,
}

impl EqSpectrumView {
    /// The spectrum of the given parts.
    pub fn new(data: EqSpectrumView) -> (r: EqSpectrumView)
        ensures
            r == data,
    {
        data
    }

    /// What is drawn; `average` is the average of the band levels.
    pub fn layers(&self, average: Level) -> (r: BandLayers)
        ensures
            r == (BandLayers {
                bars: !(Level { bits: 0xc28c_0000 }).at_least(average),
                dimmed: self.listen_samples.above(Level { bits: 0 }),
                target: (Level { bits: 0x42c8_0000 }).at_least(self.listen_samples),
                listened: self.listen_samples.above(Level { bits: 0x42c8_0000 }),
            }),
            !(r.target && r.listened),
    {
        BandLayers {
            bars: !(Level { bits: 0xc28c_0000 }).ge(average),
            dimmed: self.listen_samples.gt(Level { bits: 0 }),
            target: (Level { bits: 0x42c8_0000 }).ge(self.listen_samples),
            listened: self.listen_samples.gt(Level { bits: 0x42c8_0000 }),
        }
    }
}

/// The levels, each raised to a floor.
pub fn floored(levels: &Five, floor: Level) -> (r: Vec<Level>)
    ensures
        r@ == Seq::new(5, |i: int| levels@[i].larger(floor)),
{
    let mut r: Vec<Level> = Vec::new();
    for i in 0..5usize
        invariant
            levels@.len() == 5,
            r@ == Seq::new(i as nat, |k: int| levels@[k].larger(floor)),
    {
        r.push(levels[i].max(floor));
        proof {
            assert(r@ =~= Seq::new(i as nat + 1, |k: int| levels@[k].larger(floor)));
        }
    }
    r
}

} // verus!
