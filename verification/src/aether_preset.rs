//! Aether presets: Markdown documents with one table row per parameter.

use crate::level::Level;
use crate::text::{
    buffers, chars_of, contains, copy_range, decimal, find_digit, first_digit, has_prefix, has_text, is_text,
    lower_text, lowered, pieces, push_decimal, split, starts_with, string_of, trim, trimmed,
};
use vstd::prelude::*;
use vstd::string::*;

verus! {

/// What one row of a preset document sets.
#[derive(Clone, Copy, Debug, PartialEq, Eq, Structural)]
pub enum PresetKey {
    BandType(usize),
    BandFreq(usize),
    BandGain(usize),
    BandQ(usize),
    CfAngle,
    CfAmount,
    CfRealism,
    Blend,
    Gain,
    Title,
}

/// One row of a preset document: what it sets, and to which text.
pub struct PresetRow {
    pub key: PresetKey,
    pub text: String,
}

/// One equaliser band: filter type, frequency, gain and quality.
pub type Band = (i32, Level, Level, Level);

/// All settings of Aether under a name.
pub struct AetherProfile {
    pub name: String,
    pub bands: [Band; 5],
    pub cf_angle: Level,
    pub cf_amount: Level,
    pub cf_realism: i32,
    pub blend: Level,
    pub gain: Level,
}

/// The values of a profile.
pub struct ProfileModel {
    pub name: Seq<char>,
    pub bands: Seq<Band>,
    pub cf_angle: Level,
    pub cf_amount: Level,
    pub cf_realism: i32,
    pub blend: Level,
    pub gain: Level,
}

impl View for AetherProfile {
    type V = ProfileModel;

    open spec fn view(&self) -> ProfileModel {
        ProfileModel {
            name: self.name@,
            bands: self.bands@,
            cf_angle: self.cf_angle,
            cf_amount: self.cf_amount,
            cf_realism: self.cf_realism,
            blend: self.blend,
            gain: self.gain,
        }
    }
}

impl View for PresetRow {
    type V = (PresetKey, Seq<char>);

    open spec fn view(&self) -> (PresetKey, Seq<char>) {
        (self.key, self.text@)
    }
}

/// The models of a list of rows.
pub open spec fn row_models(rows: Seq<PresetRow>) -> Seq<(PresetKey, Seq<char>)> {
    rows.map_values(|r: PresetRow| r@)
}

/// The band that a digit in a row's name picks: one based, held inside the five bands.
pub open spec fn band_index(digit: nat) -> usize {
    if digit == 0 {
        0
    } else if digit > 5 {
        4
    } else {
        (digit - 1) as usize
    }
}

/// What a row with the given name sets, if anything.
///
/// Names are matched without regard to the case of `A` to `Z`.  Of the other letters
/// with a small form none turns into a letter of these words in the places it would need.
pub open spec fn key_of(name: Seq<char>) -> Option<PresetKey> {
    let s = lowered(name);
    if starts_with(s, "eq"@) {
        match first_digit(s) {
            Some(d) => if contains(s, "type"@) {
                Some(PresetKey::BandType(band_index(d)))
            } else if contains(s, "freq"@) {
                Some(PresetKey::BandFreq(band_index(d)))
            } else if contains(s, "gain"@) {
                Some(PresetKey::BandGain(band_index(d)))
            } else {
                Some(PresetKey::BandQ(band_index(d)))
            },
            None => None,
        }
    } else if s == "crossfeed angle"@ {
        Some(PresetKey::CfAngle)
    } else if s == "crossfeed amount"@ {
        Some(PresetKey::CfAmount)
    } else if s == "crossfeed realism"@ {
        Some(PresetKey::CfRealism)
    } else if s == "blend"@ {
        Some(PresetKey::Blend)
    } else if s == "gain"@ {
        Some(PresetKey::Gain)
    } else {
        None
    }
}

/// A heading without its leading `# ` marks.
pub open spec fn without_marks(s: Seq<char>) -> Seq<char>
    decreases s.len(),
{
    if s.len() >= 2 && s[0] == '#' && s[1] == ' ' {
        without_marks(s.skip(2))
    } else {
        s
    }
}

/// What one trimmed line of a document sets, if anything.
pub open spec fn line_row(t: Seq<char>) -> Option<(PresetKey, Seq<char>)> {
    if t.len() > 0 && t[0] == '|' {
        let parts = pieces(t, '|');
        if parts.len() >= 4 {
            match key_of(trimmed(parts[1])) {
                Some(key) => Some((key, trimmed(parts[2]))),
                None => None,
            }
        } else {
            None
        }
    } else if t.len() >= 2 && t[0] == '#' && t[1] == ' ' {
        Some((PresetKey::Title, trimmed(without_marks(t))))
    } else {
        None
    }
}

/// What the lines of a document set, in order.
pub open spec fn rows_of_lines(lines: Seq<Seq<char>>) -> Seq<(PresetKey, Seq<char>)>
    decreases lines.len(),
{
    if lines.len() == 0 {
        Seq::empty()
    } else {
        let before = rows_of_lines(lines.drop_last());
        match line_row(trimmed(lines.last())) {
            Some(row) => before.push(row),
            None => before,
        }
    }
}

/// What a document sets, in order.
pub open spec fn rows_of(content: Seq<char>) -> Seq<(PresetKey, Seq<char>)> {
    rows_of_lines(pieces(content, '\n'))
}

/// What the row with the name sets.
pub fn row_key(name: &Vec<char>) -> (r: Option<PresetKey>)
    ensures
        r == key_of(name@),
{
    let s: Vec<char> = lower_text(name);
    if has_prefix(&s, "eq") {
        let digit: usize = match find_digit(&s) {
            Some(d) => d,
            None => return None,
        };
        let band: usize = if digit == 0 {
            0
        } else if digit > 5 {
            4
        } else {
            digit - 1
        };
        if has_text(&s, "type") {
            Some(PresetKey::BandType(band))
        } else if has_text(&s, "freq") {
            Some(PresetKey::BandFreq(band))
        } else if has_text(&s, "gain") {
            Some(PresetKey::BandGain(band))
        } else {
            Some(PresetKey::BandQ(band))
        }
    } else if is_text(&s, "crossfeed angle") {
        Some(PresetKey::CfAngle)
    } else if is_text(&s, "crossfeed amount") {
        Some(PresetKey::CfAmount)
    } else if is_text(&s, "crossfeed realism") {
        Some(PresetKey::CfRealism)
    } else if is_text(&s, "blend") {
        Some(PresetKey::Blend)
    } else if is_text(&s, "gain") {
        Some(PresetKey::Gain)
    } else {
        None
    }
}

/// The heading without its leading marks.
fn strip_marks(t: &Vec<char>) -> (r: Vec<char>)
    ensures
        r@ == without_marks(t@),
{
    let mut from: usize = 0;
    proof {
        assert(t@.skip(0) == t@);
    }
    while t.len() - from >= 2 && t[from] == '#' && t[from + 1] == ' '
        invariant
            from <= t.len(),
            without_marks(t@) == without_marks(t@.skip(from as int)),
        decreases t.len() - from,
    {
        proof {
            let now = t@.skip(from as int);
            assert(now[0] == t@[from as int] && now[1] == t@[from + 1]);
            assert(now.skip(2) == t@.skip(from + 2));
        }
        from = from + 2;
    }
    proof {
        let now = t@.skip(from as int);
        if t.len() - from >= 2 {
            assert(now[0] == t@[from as int] && now[1] == t@[from + 1]);
        }
        assert(t@.subrange(from as int, t@.len() as int) == now);
    }
    copy_range(t, from, t.len())
}

/// What the trimmed line sets.
pub fn read_line(t: &Vec<char>) -> (r: Option<PresetRow>)
    ensures
        match line_row(t@) {
            Some(row) => r is Some && r->0@ == row,
            None => r is None,
        },
{
    if t.len() > 0 && t[0] == '|' {
        let parts: Vec<Vec<char>> = split(t, '|');
        proof {
            assert(buffers(parts@).len() == parts@.len());
        }
        if parts.len() < 4 {
            return None;
        }
        proof {
            assert(buffers(parts@)[1] == parts@[1]@);
            assert(buffers(parts@)[2] == parts@[2]@);
        }
        let name: Vec<char> = trim(&parts[1]);
        match row_key(&name) {
            Some(key) => Some(PresetRow { key, text: string_of(&trim(&parts[2])) }),
            None => None,
        }
    } else if t.len() >= 2 && t[0] == '#' && t[1] == ' ' {
        let title: Vec<char> = trim(&strip_marks(t));
        Some(PresetRow { key: PresetKey::Title, text: string_of(&title) })
    } else {
        None
    }
}

/// What the document sets, in order.
pub fn preset_rows(content: &str) -> (r: Vec<PresetRow>)
    ensures
        row_models(r@) == rows_of(content@),
{
    let chars: Vec<char> = chars_of(content);
    let lines: Vec<Vec<char>> = split(&chars, '\n');
    let mut r: Vec<PresetRow> = Vec::new();
    let ghost all = buffers(lines@);
    proof {
        assert(row_models(r@) == rows_of_lines(all.take(0)));
    }
    for i in 0..lines.len()
        invariant
            all == buffers(lines@),
            row_models(r@) == rows_of_lines(all.take(i as int)),
    {
        proof {
            assert(all.take(i as int + 1).drop_last() == all.take(i as int));
            assert(all.take(i as int + 1).last() == lines@[i as int]@);
        }
        let t: Vec<char> = trim(&lines[i]);
        match read_line(&t) {
            Some(row) => {
                let ghost before = r@;
                r.push(row);
                proof {
                    assert(row_models(r@) == row_models(before).push(row@));
                }
            },
            None => {},
        }
    }
    proof {
        assert(all.take(all.len() as int) == all);
    }
    r
}

/// The bit pattern of `105.0`.
pub const B105: u32 = 0x42d2_0000;

/// The bit pattern of `0.7`.
pub const B0_7: u32 = 0x3f33_3333;

/// The bit pattern of `60.0`.
pub const B60: u32 = 0x4270_0000;

/// The bit pattern of `100.0`.
pub const B100: u32 = 0x42c8_0000;

/// The filter type that a label names.
pub open spec fn type_code(label: Seq<char>) -> i32 {
    if label == "LSC"@ || label == "LS"@ {
        1
    } else if label == "PK"@ || label == "PEQ"@ {
        2
    } else if label == "HSC"@ || label == "HS"@ {
        3
    } else {
        0
    }
}

/// The crossfeed realism that a label names.
pub open spec fn realism_code(label: Seq<char>) -> i32 {
    if label == "LIFELIKE"@ {
        1
    } else if label == "HYPERREAL"@ || label == "HYPERREALISTIC"@ {
        2
    } else {
        0
    }
}

/// A profile under construction: its values, and which bands have a frequency and a gain.
pub struct DraftModel {
    pub profile: ProfileModel,
    pub has_freq: Seq<bool>,
    pub has_gain: Seq<bool>,
}

/// The band that every band of a document starts from.
pub open spec fn start_band() -> Band {
    (1, Level { bits: B105 }, Level { bits: 0 }, Level { bits: B0_7 })
}

/// The profile that every document starts from.
pub open spec fn start_draft() -> DraftModel {
    DraftModel {
        profile: ProfileModel {
            name: Seq::empty(),
            bands: seq![start_band(), start_band(), start_band(), start_band(), start_band()],
            cf_angle: Level { bits: B60 },
            cf_amount: Level { bits: 0 },
            cf_realism: 0,
            blend: Level { bits: B100 },
            gain: Level { bits: 0 },
        },
        has_freq: seq![false, false, false, false, false],
        has_gain: seq![false, false, false, false, false],
    }
}

/// The draft after one more row; `number` is the row's text read as a number, where it is one.
pub open spec fn draft_with(
    d: DraftModel,
    key: PresetKey,
    text: Seq<char>,
    number: Option<Level>,
) -> DraftModel {
    let p = d.profile;
    match key {
        PresetKey::BandType(b) => {
            let old = p.bands[b as int];
            DraftModel {
                profile: ProfileModel {
                    bands: p.bands.update(b as int, (type_code(text), old.1, old.2, old.3)),
                    ..p
                },
                ..d
            }
        },
        PresetKey::BandFreq(b) => match number {
            Some(v) => {
                let old = p.bands[b as int];
                DraftModel {
                    profile: ProfileModel {
                        bands: p.bands.update(b as int, (old.0, v, old.2, old.3)),
                        ..p
                    },
                    has_freq: d.has_freq.update(b as int, true),
                    ..d
                }
            },
            None => d,
        },
        PresetKey::BandGain(b) => match number {
            Some(v) => {
                let old = p.bands[b as int];
                DraftModel {
                    profile: ProfileModel {
                        bands: p.bands.update(b as int, (old.0, old.1, v, old.3)),
                        ..p
                    },
                    has_gain: d.has_gain.update(b as int, true),
                    ..d
                }
            },
            None => d,
        },
        PresetKey::BandQ(b) => match number {
            Some(v) => {
                let old = p.bands[b as int];
                DraftModel {
                    profile: ProfileModel {
                        bands: p.bands.update(b as int, (old.0, old.1, old.2, v)),
                        ..p
                    },
                    ..d
                }
            },
            None => d,
        },
        PresetKey::CfAngle => match number {
            Some(v) => DraftModel { profile: ProfileModel { cf_angle: v, ..p }, ..d },
            None => d,
        },
        PresetKey::CfAmount => match number {
            Some(v) => DraftModel { profile: ProfileModel { cf_amount: v, ..p }, ..d },
            None => d,
        },
        PresetKey::CfRealism => DraftModel {
            profile: ProfileModel { cf_realism: realism_code(text), ..p },
            ..d
        },
        PresetKey::Blend => match number {
            Some(v) => DraftModel { profile: ProfileModel { blend: v, ..p }, ..d },
            None => d,
        },
        PresetKey::Gain => match number {
            Some(v) => DraftModel { profile: ProfileModel { gain: v, ..p }, ..d },
            None => d,
        },
        PresetKey::Title => DraftModel { profile: ProfileModel { name: text, ..p }, ..d },
    }
}

/// The draft after a list of rows with the numbers that their texts stand for.
pub open spec fn drafted(
    rows: Seq<(PresetKey, Seq<char>)>,
    numbers: Seq<Option<Level>>,
) -> DraftModel
    decreases rows.len(),
{
    if rows.len() == 0 {
        start_draft()
    } else {
        draft_with(
            drafted(rows.drop_last(), numbers),
            rows.last().0,
            rows.last().1,
            numbers[rows.len() - 1],
        )
    }
}

/// Whether every band of a draft has a frequency and a gain.
pub open spec fn complete(d: DraftModel) -> bool {
    &&& forall|b: int| 0 <= b < 5 ==> #[trigger] d.has_freq[b]
    &&& forall|b: int| 0 <= b < 5 ==> #[trigger] d.has_gain[b]
}

/// Whether every row names a band that exists.
pub open spec fn rows_in_range(rows: Seq<(PresetKey, Seq<char>)>) -> bool {
    forall|i: int| 0 <= i < rows.len() ==> key_in_range((#[trigger] rows[i]).0)
}

/// Whether a key names a band that exists.
pub open spec fn key_in_range(key: PresetKey) -> bool {
    match key {
        PresetKey::BandType(b) => b < 5,
        PresetKey::BandFreq(b) => b < 5,
        PresetKey::BandGain(b) => b < 5,
        PresetKey::BandQ(b) => b < 5,
        _ => true,
    }
}

/// The profile that a list of rows describes: none unless every band has frequency and gain.
pub open spec fn profile_of(
    rows: Seq<(PresetKey, Seq<char>)>,
    numbers: Seq<Option<Level>>,
) -> Option<ProfileModel> {
    if complete(drafted(rows, numbers)) {
        Some(drafted(rows, numbers).profile)
    } else {
        None
    }
}

/// The rows of a document name bands that exist.
pub proof fn law_rows_name_existing_bands(content: Seq<char>)
    ensures
        rows_in_range(rows_of(content)),
{
    lemma_lines_in_range(pieces(content, '\n'));
}

proof fn lemma_lines_in_range(lines: Seq<Seq<char>>)
    ensures
        rows_in_range(rows_of_lines(lines)),
    decreases lines.len(),
{
    if lines.len() > 0 {
        lemma_lines_in_range(lines.drop_last());
    }
}

/// A draft always has five bands.
pub proof fn lemma_draft_shape(rows: Seq<(PresetKey, Seq<char>)>, numbers: Seq<Option<Level>>)
    requires
        rows_in_range(rows),
    ensures
        drafted(rows, numbers).profile.bands.len() == 5,
        drafted(rows, numbers).has_freq.len() == 5,
        drafted(rows, numbers).has_gain.len() == 5,
    decreases rows.len(),
{
    if rows.len() > 0 {
        assert(key_in_range(rows[rows.len() - 1].0));
        lemma_draft_shape(rows.drop_last(), numbers);
    }
}

/// The filter type that the label names.
pub fn band_type_code(label: &String) -> (r: i32)
    ensures
        r == type_code(label@),
{
    let v: Vec<char> = chars_of(label.as_str());
    if is_text(&v, "LSC") || is_text(&v, "LS") {
        1
    } else if is_text(&v, "PK") || is_text(&v, "PEQ") {
        2
    } else if is_text(&v, "HSC") || is_text(&v, "HS") {
        3
    } else {
        0
    }
}

/// The crossfeed realism that the label names.
pub fn realism_label_code(label: &String) -> (r: i32)
    ensures
        r == realism_code(label@),
{
    let v: Vec<char> = chars_of(label.as_str());
    if is_text(&v, "LIFELIKE") {
        1
    } else if is_text(&v, "HYPERREAL") || is_text(&v, "HYPERREALISTIC") {
        2
    } else {
        0
    }
}

/// The profile that the rows describe; `numbers` holds each row's text read as a number.
pub fn build_profile(rows: &Vec<PresetRow>, numbers: &Vec<Option<Level>>) -> (r: Option<
    AetherProfile,
>)
    requires
        rows_in_range(row_models(rows@)),
        rows.len() == numbers.len(),
    ensures
        match profile_of(row_models(rows@), numbers@) {
            Some(p) => r is Some && r->0@ == p,
            None => r is None,
        },
{
    let zero: Level = Level { bits: 0 };
    let first: Band = (1, Level { bits: B105 }, zero, Level { bits: B0_7 });
    let mut p: AetherProfile = AetherProfile {
        name: String::new(),
        bands: [first, first, first, first, first],
        cf_angle: Level { bits: B60 },
        cf_amount: zero,
        cf_realism: 0,
        blend: Level { bits: B100 },
        gain: zero,
    };
    let mut has_freq: [bool; 5] = [false, false, false, false, false];
    let mut has_gain: [bool; 5] = [false, false, false, false, false];
    let ghost models = row_models(rows@);
    proof {
        assert(p@.bands =~= start_draft().profile.bands);
        assert(has_freq@ =~= start_draft().has_freq);
        assert(has_gain@ =~= start_draft().has_gain);
        assert(models.take(0).len() == 0);
    }
    for i in 0..rows.len()
        invariant
            models == row_models(rows@),
            rows_in_range(models),
            rows.len() == numbers.len(),
            p@ == drafted(models.take(i as int), numbers@).profile,
            has_freq@ == drafted(models.take(i as int), numbers@).has_freq,
            has_gain@ == drafted(models.take(i as int), numbers@).has_gain,
    {
        let ghost d = drafted(models.take(i as int), numbers@);
        proof {
            assert(models.take(i as int + 1).drop_last() == models.take(i as int));
            assert(models.take(i as int + 1).last() == models[i as int]);
            assert(models[i as int] == rows@[i as int]@);
            assert(key_in_range(models[i as int].0));
            lemma_draft_shape(models.take(i as int), numbers@);
        }
        let ghost old_p = p@;
        match rows[i].key {
            PresetKey::BandType(b) => {
                let code: i32 = band_type_code(&rows[i].text);
                let was: Band = p.bands[b];
                p.bands[b] = (code, was.1, was.2, was.3);
            },
            PresetKey::BandFreq(b) => {
                if let Some(v) = numbers[i] {
                    let was: Band = p.bands[b];
                    p.bands[b] = (was.0, v, was.2, was.3);
                    has_freq[b] = true;
                }
            },
            PresetKey::BandGain(b) => {
                if let Some(v) = numbers[i] {
                    let was: Band = p.bands[b];
                    p.bands[b] = (was.0, was.1, v, was.3);
                    has_gain[b] = true;
                }
            },
            PresetKey::BandQ(b) => {
                if let Some(v) = numbers[i] {
                    let was: Band = p.bands[b];
                    p.bands[b] = (was.0, was.1, was.2, v);
                }
            },
            PresetKey::CfAngle => {
                if let Some(v) = numbers[i] {
                    p.cf_angle = v;
                }
            },
            PresetKey::CfAmount => {
                if let Some(v) = numbers[i] {
                    p.cf_amount = v;
                }
            },
            PresetKey::CfRealism => {
                p.cf_realism = realism_label_code(&rows[i].text);
            },
            PresetKey::Blend => {
                if let Some(v) = numbers[i] {
                    p.blend = v;
                }
            },
            PresetKey::Gain => {
                if let Some(v) = numbers[i] {
                    p.gain = v;
                }
            },
            PresetKey::Title => {
                p.name = rows[i].text.clone();
            },
        }
        proof {
            let next = draft_with(d, models[i as int].0, models[i as int].1, numbers@[i as int]);
            assert(next == drafted(models.take(i as int + 1), numbers@));
            assert(p@.bands =~= next.profile.bands);
        }
    }
    proof {
        assert(models.take(models.len() as int) == models);
        lemma_draft_shape(models, numbers@);
    }
    let ghost d = drafted(models, numbers@);
    if has_freq[0] && has_freq[1] && has_freq[2] && has_freq[3] && has_freq[4] && has_gain[0]
        && has_gain[1] && has_gain[2] && has_gain[3] && has_gain[4] {
        proof {
            assert(complete(d));
        }
        Some(p)
    } else {
        proof {
            assert(!complete(d)) by {
                if complete(d) {
                    assert(d.has_freq[0] && d.has_freq[1] && d.has_freq[2] && d.has_freq[3]
                        && d.has_freq[4]);
                    assert(d.has_gain[0] && d.has_gain[1] && d.has_gain[2] && d.has_gain[3]
                        && d.has_gain[4]);
                }
            }
        }
        None
    }
}

/// Whether `numbers` is what the reader `number` gives for the texts of the rows.
pub open spec fn read_by<F: Fn(&String) -> Option<Level>>(
    number: F,
    rows: Seq<PresetRow>,
    numbers: Seq<Option<Level>>,
) -> bool {
    &&& numbers.len() == rows.len()
    &&& forall|i: int|
        0 <= i < rows.len() ==> call_ensures(number, (&(#[trigger] rows[i]).text,), numbers[i])
}

/// Whether the name found in a document is that of Aether.
pub open spec fn names_aether(plugin: Option<String>) -> bool {
    plugin is Some && plugin->0@ == "aether"@
}

/// The profile of a preset document.
///
/// `plugin` is the plugin name that the front matter of the document gives, and `number`
/// reads a text as a number.  A document of another plugin, or one that leaves a band
/// without frequency or gain, holds no profile.
pub fn parse_aether_preset<F: Fn(&String) -> Option<Level>>(
    plugin: &Option<String>,
    content: &str,
    number: F,
) -> (r: Option<AetherProfile>)
    requires
        forall|t: &String| call_requires(number, (t,)),
    ensures
        !names_aether(*plugin) ==> r is None,
        names_aether(*plugin) ==> exists|rows: Seq<PresetRow>, numbers: Seq<Option<Level>>|
            #![trigger read_by(number, rows, numbers)]
            {
                &&& row_models(rows) == rows_of(content@)
                &&& read_by(number, rows, numbers)
                &&& match profile_of(rows_of(content@), numbers) {
                    Some(p) => r is Some && r->0@ == p,
                    None => r is None,
                }
            },
{
    match plugin {
        Some(name) => {
            if !is_text(&chars_of(name.as_str()), "aether") {
                return None;
            }
        },
        None => return None,
    }
    let rows: Vec<PresetRow> = preset_rows(content);
    let mut numbers: Vec<Option<Level>> = Vec::new();
    for i in 0..rows.len()
        invariant
            forall|t: &String| call_requires(number, (t,)),
            numbers.len() == i,
            forall|k: int|
                0 <= k < i ==> call_ensures(number, (&(#[trigger] rows@[k]).text,), numbers@[k]),
    {
        numbers.push(number(&rows[i].text));
    }
    proof {
        law_rows_name_existing_bands(content@);
        assert(read_by(number, rows@, numbers@));
    }
    build_profile(&rows, &numbers)
}

/// The profile under the name it is listed by: its own, or else that of its file.
pub fn listed_profile(profile: AetherProfile, stem: &Option<String>) -> (r: AetherProfile)
    ensures
        r@ == (ProfileModel {
            name: if profile.name@.len() > 0 {
                profile.name@
            } else if stem is Some {
                stem->0@
            } else {
                "Unnamed"@
            },
            ..profile@
        }),
{
    let mut p: AetherProfile = profile;
    if p.name.as_str().is_empty() {
        p.name = match stem {
            Some(s) => s.clone(),
            None => "Unnamed".to_owned(),
        };
    }
    p
}

/// The settings of one band as text.
pub struct BandTexts {
    pub kind: String,
    pub freq: String,
    pub gain: String,
    pub q: String,
}

/// All settings of Aether as text.
pub struct ProfileTexts {
    pub bands: Vec<BandTexts>,
    pub cf_angle: String,
    pub cf_amount: String,
    pub cf_realism: String,
    pub blend: String,
    pub gain: String,
}

/// The lines of a document, each with its end.
pub open spec fn joined(lines: Seq<Seq<char>>) -> Seq<char>
    decreases lines.len(),
{
    if lines.len() == 0 {
        Seq::empty()
    } else {
        joined(lines.drop_last()) + lines.last() + seq!['\n']
    }
}

/// The warning that a preset document opens with, in its short or its full form.
pub open spec fn warning_line(full: bool) -> Seq<char> {
    if full {
        "> Warning: Do NOT modify column names or table structure. Plugin requires exact format for import. Only the NUMBERS may be changed."@
    } else {
        "> Warning: Do NOT modify column names or table structure."@
    }
}

/// The lines in front of the first row of a preset document.
pub open spec fn header_lines(full: bool) -> Seq<Seq<char>> {
    seq![
        "---"@,
        "plugin: aether"@,
        "type: preset"@,
        "---"@,
        ""@,
        warning_line(full),
        ""@,
        "## Parameter"@,
        ""@,
        "| Parameter | Wert | Einheit |"@,
        "|---|---|---|"@,
    ]
}

/// A row of a preset document; `tail` closes the value and holds the unit.
pub open spec fn row_line(name: Seq<char>, value: Seq<char>, tail: Seq<char>) -> Seq<char> {
    "| "@ + name + " | "@ + value + tail
}

/// The name of a row of the band `b`.
pub open spec fn band_name(b: nat, what: Seq<char>) -> Seq<char> {
    "EQ"@ + decimal(b + 1) + what
}

/// The rows of the first `n` bands.
pub open spec fn band_lines(bands: Seq<BandTexts>, n: nat) -> Seq<Seq<char>>
    decreases n,
{
    if n == 0 {
        Seq::empty()
    } else {
        let b = (n - 1) as nat;
        let t = bands[b as int];
        band_lines(bands, b).push(row_line(band_name(b, " Type"@), t.kind@, " | |"@)).push(
            row_line(band_name(b, " Freq"@), t.freq@, " | Hz |"@),
        ).push(row_line(band_name(b, " Gain"@), t.gain@, " | dB |"@)).push(
            row_line(band_name(b, " Q"@), t.q@, " | |"@),
        )
    }
}

/// The lines of a preset document.
pub open spec fn profile_lines(t: ProfileTexts, full: bool) -> Seq<Seq<char>> {
    (header_lines(full) + band_lines(t.bands@, t.bands@.len())).push(
        row_line("Crossfeed Angle"@, t.cf_angle@, " | ° |"@),
    ).push(row_line("Crossfeed Amount"@, t.cf_amount@, " | % |"@)).push(
        row_line("Crossfeed Realism"@, t.cf_realism@, " | |"@),
    ).push(row_line("Blend"@, t.blend@, " | % |"@)).push(
        row_line("Gain"@, t.gain@, " | dB |"@),
    )
}

/// Appends a line and its end.
fn push_line(s: &mut String, line: &str)
    ensures
        final(s)@ == old(s)@ + line@ + seq!['\n'],
{
    s.append(line);
    s.push('\n');
}

/// Appends a row and its end.
fn push_row(s: &mut String, name: &str, value: &String, tail: &str)
    ensures
        final(s)@ == old(s)@ + row_line(name@, value@, tail@) + seq!['\n'],
{
    s.append("| ");
    s.append(name);
    s.append(" | ");
    s.append(value.as_str());
    s.append(tail);
    s.push('\n');
    proof {
        assert(s@ =~= old(s)@ + row_line(name@, value@, tail@) + seq!['\n']);
    }
}

/// The name of a row of the band `b`.
fn band_row_name(b: usize, what: &str) -> (r: String)
    requires
        b < 0xffff,
    ensures
        r@ == band_name(b as nat, what@),
{
    let mut r: String = "EQ".to_owned();
    push_decimal(&mut r, b as u64 + 1);
    r.append(what);
    r
}

proof fn lemma_joined_push(lines: Seq<Seq<char>>, line: Seq<char>)
    ensures
        joined(lines.push(line)) == joined(lines) + line + seq!['\n'],
{
    assert(lines.push(line).drop_last() == lines);
}

/// The preset document of the given settings; `full` asks for the full warning.
pub fn build_profile_md(t: &ProfileTexts, full: bool) -> (r: String)
    requires
        t.bands.len() == 5,
    ensures
        r@ == joined(profile_lines(*t, full)),
{
    let mut s: String = String::new();
    let ghost mut lines: Seq<Seq<char>> = Seq::empty();
    let header: Vec<&str> = vec![
        "---",
        "plugin: aether",
        "type: preset",
        "---",
        "",
        if full {
            "> Warning: Do NOT modify column names or table structure. Plugin requires exact format for import. Only the NUMBERS may be changed."
        } else {
            "> Warning: Do NOT modify column names or table structure."
        },
        "",
        "## Parameter",
        "",
        "| Parameter | Wert | Einheit |",
        "|---|---|---|",
    ];
    for i in 0..header.len()
        invariant
            header@.len() == header_lines(full).len(),
            forall|k: int| 0 <= k < header@.len() ==> (#[trigger] header@[k])@ == header_lines(full)[k],
            lines == header_lines(full).take(i as int),
            s@ == joined(lines),
    {
        push_line(&mut s, header[i]);
        proof {
            lemma_joined_push(lines, header@[i as int]@);
            lines = lines.push(header@[i as int]@);
            assert(lines == header_lines(full).take(i as int + 1));
        }
    }
    proof {
        assert(lines == header_lines(full) + band_lines(t.bands@, 0));
    }
    for b in 0..t.bands.len()
        invariant
            t.bands.len() == 5,
            lines == header_lines(full) + band_lines(t.bands@, b as nat),
            s@ == joined(lines),
    {
        let ghost before = lines;
        push_row(&mut s, band_row_name(b, " Type").as_str(), &t.bands[b].kind, " | |");
        push_row(&mut s, band_row_name(b, " Freq").as_str(), &t.bands[b].freq, " | Hz |");
        push_row(&mut s, band_row_name(b, " Gain").as_str(), &t.bands[b].gain, " | dB |");
        push_row(&mut s, band_row_name(b, " Q").as_str(), &t.bands[b].q, " | |");
        proof {
            let x = t.bands@[b as int];
            let l1 = row_line(band_name(b as nat, " Type"@), x.kind@, " | |"@);
            let l2 = row_line(band_name(b as nat, " Freq"@), x.freq@, " | Hz |"@);
            let l3 = row_line(band_name(b as nat, " Gain"@), x.gain@, " | dB |"@);
            let l4 = row_line(band_name(b as nat, " Q"@), x.q@, " | |"@);
            lemma_joined_push(lines, l1);
            lemma_joined_push(lines.push(l1), l2);
            lemma_joined_push(lines.push(l1).push(l2), l3);
            lemma_joined_push(lines.push(l1).push(l2).push(l3), l4);
            lines = lines.push(l1).push(l2).push(l3).push(l4);
            assert(lines =~= header_lines(full) + band_lines(t.bands@, b as nat + 1));
        }
    }
    push_row(&mut s, "Crossfeed Angle", &t.cf_angle, " | ° |");
    push_row(&mut s, "Crossfeed Amount", &t.cf_amount, " | % |");
    push_row(&mut s, "Crossfeed Realism", &t.cf_realism, " | |");
    push_row(&mut s, "Blend", &t.blend, " | % |");
    push_row(&mut s, "Gain", &t.gain, " | dB |");
    proof {
        let l1 = row_line("Crossfeed Angle"@, t.cf_angle@, " | ° |"@);
        let l2 = row_line("Crossfeed Amount"@, t.cf_amount@, " | % |"@);
        let l3 = row_line("Crossfeed Realism"@, t.cf_realism@, " | |"@);
        let l4 = row_line("Blend"@, t.blend@, " | % |"@);
        let l5 = row_line("Gain"@, t.gain@, " | dB |"@);
        lemma_joined_push(lines, l1);
        lemma_joined_push(lines.push(l1), l2);
        lemma_joined_push(lines.push(l1).push(l2), l3);
        lemma_joined_push(lines.push(l1).push(l2).push(l3), l4);
        lemma_joined_push(lines.push(l1).push(l2).push(l3).push(l4), l5);
    }
    s
}

} // verus!
