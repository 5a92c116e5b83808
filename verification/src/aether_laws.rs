//! What holds of every preset that Aether applies, saves, reads and lists.

use crate::aether_library::{
    built_in, copy_profile, entries, find_entry, find_listed, find_profile, found,
    harman_flat_profile, is_built_in, may_hold, names_of, opt_profile, place_of, profile_in,
    profiles_in, scan_aether_presets, scan_of, start_needs_scan, resolve_last_preset,
    PendingPresets, PresetEntry, PresetFile,
};
use crate::aether_params::{
    apply_profile, band_resets, band_settings, edit_field, next_choice, profile_from_params,
    profile_settings, reset_all, AetherParam, AetherParams, Setting,
};
use crate::aether_preset::{
    band_type_code, build_profile, build_profile_md, listed_profile, names_aether,
    parse_aether_preset, preset_rows, profile_of, read_by, realism_label_code, row_models, rows_of,
    AetherProfile, Band, PresetRow, ProfileModel, ProfileTexts,
};
use crate::aether_preset_laws::{
    all_read, band_read, band_rows, fits, law_document_holds_the_profile,
    law_saved_profile_reads_back, profile_rows, read_profile,
};
use crate::host::ParamValue;
use crate::level::Level;
use crate::text::first_place;
use crate::vault::opt_text;
use vstd::prelude::*;
use vstd::string::*;

verus! {

/// What a parameter stands at.
pub open spec fn stands_at(a: AetherParams, p: AetherParam) -> ParamValue {
    match p {
        AetherParam::BandFreq(b) => ParamValue::Number(a.bands@[b as int].1),
        AetherParam::BandGain(b) => ParamValue::Number(a.bands@[b as int].2),
        AetherParam::BandQ(b) => ParamValue::Number(a.bands@[b as int].3),
        AetherParam::BandType(b) => ParamValue::Choice(a.bands@[b as int].0),
        AetherParam::Blend => ParamValue::Number(a.blend),
        AetherParam::CfAngle => ParamValue::Number(a.cf_angle),
        AetherParam::CfAmount => ParamValue::Number(a.cf_amount),
        AetherParam::CfRealism => ParamValue::Choice(a.cf_realism),
        AetherParam::Gain => ParamValue::Number(a.gain),
        AetherParam::Bypass => ParamValue::Switch(a.bypass),
    }
}

/// Whether parameters stand at what a list of changes sets.
pub open spec fn changes_made(a: AetherParams, list: Seq<Setting>) -> bool {
    forall|i: int| 0 <= i < list.len() ==> stands_at(a, (#[trigger] list[i]).0) == list[i].1
}

/// Whether two profiles hold the same, whatever their names.
pub open spec fn same_settings(p: AetherProfile, q: AetherProfile) -> bool {
    &&& forall|b: int| 0 <= b < 5 ==> #[trigger] p.bands@[b] == q.bands@[b]
    &&& p.cf_angle == q.cf_angle
    &&& p.cf_amount == q.cf_amount
    &&& p.cf_realism == q.cf_realism
    &&& p.blend == q.blend
    &&& p.gain == q.gain
}

proof fn lemma_band_settings(bands: Seq<Band>, n: nat, b: int)
    requires
        0 <= b < n <= 5,
    ensures
        band_settings(bands, n).len() == 4 * n,
        band_settings(bands, n)[4 * b] == (
            AetherParam::BandFreq(b as usize),
            ParamValue::Number(bands[b].1),
        ),
        band_settings(bands, n)[4 * b + 1] == (
            AetherParam::BandGain(b as usize),
            ParamValue::Number(bands[b].2),
        ),
        band_settings(bands, n)[4 * b + 2] == (
            AetherParam::BandQ(b as usize),
            ParamValue::Number(bands[b].3),
        ),
        band_settings(bands, n)[4 * b + 3] == (
            AetherParam::BandType(b as usize),
            ParamValue::Choice(bands[b].0),
        ),
    decreases n,
{
    if n > 1 {
        lemma_band_settings(bands, (n - 1) as nat, 0);
        if b < n - 1 {
            lemma_band_settings(bands, (n - 1) as nat, b);
        }
    } else {
        assert(band_settings(bands, 0).len() == 0);
    }
}

/// Applying a profile and reading the parameters back gives the profile: whatever the parameters
/// stood at, once every change is made they hold what the profile holds.
pub proof fn law_an_applied_profile_reads_back(
    p: &AetherProfile,
    changes: Vec<Setting>,
    after: &AetherParams,
    name: &String,
    q: AetherProfile,
)
    requires
        call_ensures(apply_profile, (p,), changes),
        changes_made(*after, changes@),
        call_ensures(profile_from_params, (after, name), q),
    ensures
        same_settings(q, *p),
        q.name@ == name@,
{
    let list = changes@;
    assert(list == profile_settings(p@));
    lemma_band_settings(p.bands@, 5, 0);
    assert(stands_at(*after, list[20].0) == list[20].1);
    assert(stands_at(*after, list[21].0) == list[21].1);
    assert(stands_at(*after, list[22].0) == list[22].1);
    assert(stands_at(*after, list[23].0) == list[23].1);
    assert(stands_at(*after, list[24].0) == list[24].1);
    assert forall|b: int| 0 <= b < 5 implies #[trigger] q.bands@[b] == p.bands@[b] by {
        lemma_band_settings(p.bands@, 5, b);
        assert(stands_at(*after, list[4 * b].0) == list[4 * b].1);
        assert(stands_at(*after, list[4 * b + 1].0) == list[4 * b + 1].1);
        assert(stands_at(*after, list[4 * b + 2].0) == list[4 * b + 2].1);
        assert(stands_at(*after, list[4 * b + 3].0) == list[4 * b + 3].1);
        assert(q@.bands == after.bands@);
    }
    assert(q@.cf_angle == after.cf_angle);
}

/// A profile changes each of its 25 parameters once and never the bypass.
pub proof fn law_a_profile_changes_every_parameter_once(
    p: &AetherProfile,
    changes: Vec<Setting>,
    i: int,
    j: int,
)
    requires
        call_ensures(apply_profile, (p,), changes),
        0 <= i < j < changes@.len(),
    ensures
        changes@.len() == 25,
        changes@[i].0 != changes@[j].0,
        changes@[i].0 != AetherParam::Bypass,
        changes@[j].0 != AetherParam::Bypass,
{
    let list = changes@;
    lemma_band_settings(p.bands@, 5, 0);
    lemma_band_settings(p.bands@, 5, 1);
    lemma_band_settings(p.bands@, 5, 2);
    lemma_band_settings(p.bands@, 5, 3);
    lemma_band_settings(p.bands@, 5, 4);
    let a = i / 4;
    let b = j / 4;
    if a < 5 {
        lemma_band_settings(p.bands@, 5, a);
        assert(i == 4 * a || i == 4 * a + 1 || i == 4 * a + 2 || i == 4 * a + 3);
    } else {
        assert(i == 20 || i == 21 || i == 22 || i == 23 || i == 24);
    }
    if b < 5 {
        lemma_band_settings(p.bands@, 5, b);
        assert(j == 4 * b || j == 4 * b + 1 || j == 4 * b + 2 || j == 4 * b + 3);
    } else {
        assert(j == 20 || j == 21 || j == 22 || j == 23 || j == 24);
    }
}

/// A profile taken from the parameters holds what they stand at, each in its own place.
pub proof fn law_a_profile_holds_the_parameters(
    a: &AetherParams,
    name: &String,
    q: AetherProfile,
)
    requires
        call_ensures(profile_from_params, (a, name), q),
    ensures
        q.name@ == name@,
        q.bands@ == a.bands@,
        q.cf_angle == a.cf_angle,
        q.cf_amount == a.cf_amount,
        q.cf_realism == a.cf_realism,
        q.blend == a.blend,
        q.gain == a.gain,
{
    assert(q@.bands == a.bands@);
}

proof fn lemma_band_resets(n: nat, b: int)
    requires
        0 <= b < n <= 5,
    ensures
        band_resets(n).len() == 4 * n,
        band_resets(n)[4 * b].0 == AetherParam::BandFreq(b as usize),
        band_resets(n)[4 * b + 1] == (
            AetherParam::BandGain(b as usize),
            ParamValue::Number(Level { bits: 0 }),
        ),
        band_resets(n)[4 * b + 2].0 == AetherParam::BandQ(b as usize),
        band_resets(n)[4 * b + 3].0 == AetherParam::BandType(b as usize),
    decreases n,
{
    if n > 1 {
        lemma_band_resets((n - 1) as nat, 0);
        if b < n - 1 {
            lemma_band_resets((n - 1) as nat, b);
        }
    } else {
        assert(band_resets(0).len() == 0);
    }
}

/// After a reset the parameters hold the built-in preset: no band boosts or cuts, there is no
/// crossfeed, the blend is full and the gain is 0 dB.  The bypass ends where that is asked for and
/// is left alone where it is not.
pub proof fn law_a_reset_leaves_the_sound_flat(
    bypass: bool,
    changes: Vec<Setting>,
    after: &AetherParams,
    name: &String,
    q: AetherProfile,
    flat: AetherProfile,
    b: int,
)
    requires
        call_ensures(reset_all, (bypass,), changes),
        changes_made(*after, changes@),
        call_ensures(profile_from_params, (after, name), q),
        call_ensures(harman_flat_profile, (), flat),
        0 <= b < 5,
    ensures
        same_settings(q, flat),
        after.bands@[b].2.bits == 0,
        after.cf_amount.bits == 0,
        after.cf_realism == 0,
        after.cf_angle.bits == 0x4270_0000,
        after.blend.bits == 0x42c8_0000,
        after.gain.bits == 0,
        bypass ==> !after.bypass,
        !bypass ==> forall|i: int|
            0 <= i < changes@.len() ==> (#[trigger] changes@[i]).0 != AetherParam::Bypass,
{
    let list = changes@;
    crate::aether_params::law_a_reset_is_the_built_in_preset();
    let first = profile_settings(flat@);
    assert(flat@ == crate::aether_library::harman_flat());
    lemma_band_settings(flat.bands@, 5, 0);
    assert(first.len() == 25);
    assert forall|i: int| 0 <= i < 25 implies stands_at(*after, (#[trigger] first[i]).0)
        == first[i].1 by {
        assert(list[i] == first[i]);
        assert(stands_at(*after, list[i].0) == list[i].1);
    }
    if bypass {
        assert(list[25] == (AetherParam::Bypass, ParamValue::Switch(false)));
        assert(stands_at(*after, list[25].0) == list[25].1);
    } else {
        assert forall|i: int| 0 <= i < list.len() implies (#[trigger] list[i]).0
            != AetherParam::Bypass by {
            let a = i / 4;
            if a < 5 {
                lemma_band_settings(flat.bands@, 5, a);
                assert(i == 4 * a || i == 4 * a + 1 || i == 4 * a + 2 || i == 4 * a + 3);
            } else {
                assert(i == 20 || i == 21 || i == 22 || i == 23 || i == 24);
            }
        }
    }
    assert(stands_at(*after, first[20].0) == first[20].1);
    assert(stands_at(*after, first[21].0) == first[21].1);
    assert(stands_at(*after, first[22].0) == first[22].1);
    assert(stands_at(*after, first[23].0) == first[23].1);
    assert(stands_at(*after, first[24].0) == first[24].1);
    assert forall|k: int| 0 <= k < 5 implies #[trigger] q.bands@[k] == flat.bands@[k] by {
        lemma_band_settings(flat.bands@, 5, k);
        assert(stands_at(*after, first[4 * k].0) == first[4 * k].1);
        assert(stands_at(*after, first[4 * k + 1].0) == first[4 * k + 1].1);
        assert(stands_at(*after, first[4 * k + 2].0) == first[4 * k + 2].1);
        assert(stands_at(*after, first[4 * k + 3].0) == first[4 * k + 3].1);
        assert(q@.bands == after.bands@);
    }
    assert(q@.bands == after.bands@);
    assert(q.bands@[b] == flat.bands@[b]);
    assert(flat@.bands[b].2.bits == 0);
}

/// The built-in preset: a low shelf, three peaks and a high shelf, all at 0 dB.
pub proof fn law_the_built_in_preset_is_flat(p: AetherProfile)
    requires
        call_ensures(harman_flat_profile, (), p),
    ensures
        p.name@ == "Harman Flat"@,
        p.bands@[0] == (1i32, Level { bits: 0x42d2_0000 }, Level { bits: 0 }, Level { bits: 0x3f33_3333 }),
        p.bands@[1] == (2i32, Level { bits: 0x4396_0000 }, Level { bits: 0 }, Level { bits: 0x3f80_0000 }),
        p.bands@[2] == (2i32, Level { bits: 0x4496_0000 }, Level { bits: 0 }, Level { bits: 0x3f80_0000 }),
        p.bands@[3] == (2i32, Level { bits: 0x457a_0000 }, Level { bits: 0 }, Level { bits: 0x3f80_0000 }),
        p.bands@[4] == (3i32, Level { bits: 0x461c_4000 }, Level { bits: 0 }, Level { bits: 0x3f33_3333 }),
        p.cf_angle.bits == 0x4270_0000,
        p.cf_amount.bits == 0,
        p.cf_realism == 0,
        p.blend.bits == 0x42c8_0000,
        p.gain.bits == 0,
{
    assert(p@.bands == crate::aether_library::flat_bands());
}

/// A number in a text field sets its own parameter: as it is inside the range of the field, else
/// the end of the range that it is past.
pub proof fn law_a_field_sets_its_parameter_in_range(b: usize, f: usize, v: Level, r: Setting)
    requires
        call_ensures(edit_field, (b, f, v), r),
        !v.nan(),
    ensures
        f == 0 ==> r.0 == AetherParam::BandFreq(b),
        f == 1 ==> r.0 == AetherParam::BandGain(b),
        f >= 2 ==> r.0 == AetherParam::BandQ(b),
        ({
            let lo = if f == 0 {
                Level { bits: 0x41a0_0000 }
            } else if f == 1 {
                Level { bits: 0xc140_0000 }
            } else {
                Level { bits: 0x3e99_999a }
            };
            let hi = if f == 0 {
                Level { bits: 0x469c_4000 }
            } else if f == 1 {
                Level { bits: 0x4140_0000 }
            } else {
                Level { bits: 0x4100_0000 }
            };
            &&& lo.above(v) ==> r.1 == ParamValue::Number(lo)
            &&& v.above(hi) ==> r.1 == ParamValue::Number(hi)
            &&& v.at_least(lo) && hi.at_least(v) ==> r.1 == ParamValue::Number(v)
        }),
{
}

/// The next choice is one further, and the first behind the last.
pub proof fn law_choices_go_round(n: i32, count: i32, r: i32)
    requires
        0 <= n < count,
        n < i32::MAX,
        call_ensures(next_choice, (n, count), r),
    ensures
        n + 1 < count ==> r == n + 1,
        n + 1 == count ==> r == 0,
{
}

/// The labels of filter types and of the realism, each with its number; any other label is that of
/// the first.
pub proof fn law_labels_have_their_numbers(label: &String, kind: i32, realism: i32)
    requires
        call_ensures(band_type_code, (label,), kind),
        call_ensures(realism_label_code, (label,), realism),
    ensures
        label@ == "LSC"@ ==> kind == 1,
        label@ == "LS"@ && label@ != "PK"@ && label@ != "PEQ"@ ==> kind == 1,
        kind == 1 ==> label@ == "LSC"@ || label@ == "LS"@,
        kind == 2 ==> label@ == "PK"@ || label@ == "PEQ"@,
        kind == 3 ==> label@ == "HSC"@ || label@ == "HS"@,
        label@ == "PK"@ || label@ == "PEQ"@ ==> kind == 2,
        label@ == "HSC"@ || label@ == "HS"@ ==> kind == 3,
        0 <= kind <= 3,
        label@ == "LIFELIKE"@ ==> realism == 1,
        label@ == "HYPERREAL"@ || label@ == "HYPERREALISTIC"@ ==> realism == 2,
        realism == 1 ==> label@ == "LIFELIKE"@,
        realism == 2 ==> label@ == "HYPERREAL"@ || label@ == "HYPERREALISTIC"@,
        0 <= realism <= 2,
{
    reveal_strlit("LSC");
    reveal_strlit("LS");
    reveal_strlit("PK");
    reveal_strlit("PEQ");
    reveal_strlit("HSC");
    reveal_strlit("HS");
    reveal_strlit("LIFELIKE");
    reveal_strlit("HYPERREAL");
    reveal_strlit("HYPERREALISTIC");
    assert("PK"@.len() == 2 && "PEQ"@.len() == 3);
    if label@ == "PK"@ {
        assert(label@[0] == 'P');
    }
    if label@ == "PEQ"@ {
        assert(label@[0] == 'P');
    }
    if label@ == "HSC"@ {
        assert(label@[0] == 'H');
    }
    if label@ == "HS"@ {
        assert(label@[0] == 'H');
    }
    if label@ == "LSC"@ {
        assert(label@[0] == 'L');
    }
    if label@ == "LS"@ {
        assert(label@[0] == 'L');
    }
    if label@ == "LIFELIKE"@ {
        assert(label@[0] == 'L');
    }
    if label@ == "HYPERREAL"@ {
        assert(label@[0] == 'H');
    }
    if label@ == "HYPERREALISTIC"@ {
        assert(label@[0] == 'H');
    }
}

proof fn lemma_band_rows(t: ProfileTexts, n: nat, b: int)
    requires
        0 <= b < n <= 5,
        t.bands@.len() == 5,
    ensures
        band_rows(t.bands@, n).len() == 4 * n,
        band_rows(t.bands@, n)[4 * b].1 == t.bands@[b].kind@,
        band_rows(t.bands@, n)[4 * b + 1].1 == t.bands@[b].freq@,
        band_rows(t.bands@, n)[4 * b + 2].1 == t.bands@[b].gain@,
        band_rows(t.bands@, n)[4 * b + 3].1 == t.bands@[b].q@,
    decreases n,
{
    if n > 1 {
        lemma_band_rows(t, (n - 1) as nat, 0);
        if b < n - 1 {
            lemma_band_rows(t, (n - 1) as nat, b);
        }
    } else {
        assert(band_rows(t.bands@, 0).len() == 0);
    }
}

/// A profile that is written as a document and parsed again is the same profile: every number is
/// what its own text reads as, and types and realism are what their labels name.  `read` is how
/// texts read as numbers.
pub proof fn law_a_written_document_parses_to_its_profile<F: Fn(&String) -> Option<Level>>(
    t: &ProfileTexts,
    full: bool,
    md: String,
    plugin: &Option<String>,
    content: &str,
    number: F,
    read: spec_fn(Seq<char>) -> Level,
    r: Option<AetherProfile>,
    b: int,
    kind: i32,
    realism: i32,
)
    requires
        fits(*t),
        call_ensures(build_profile_md, (t, full), md),
        content@ == md@,
        plugin is Some && plugin->0@ == "aether"@,
        forall|x: &String, v: Option<Level>| #[trigger]
            call_ensures(number, (x,), v) ==> v == Some(read(x@)),
        call_ensures(parse_aether_preset::<F>, (plugin, content, number), r),
        0 <= b < 5,
        call_ensures(band_type_code, (&t.bands@[b].kind,), kind),
        call_ensures(realism_label_code, (&t.cf_realism,), realism),
    ensures
        r is Some,
        r->0.name@.len() == 0,
        r->0.bands@[b].0 == kind,
        r->0.bands@[b].1 == read(t.bands@[b].freq@),
        r->0.bands@[b].2 == read(t.bands@[b].gain@),
        r->0.bands@[b].3 == read(t.bands@[b].q@),
        r->0.cf_angle == read(t.cf_angle@),
        r->0.cf_amount == read(t.cf_amount@),
        r->0.cf_realism == realism,
        r->0.blend == read(t.blend@),
        r->0.gain == read(t.gain@),
{
    assert(names_aether(*plugin));
    let (rows, numbers) = choose|rows: Seq<PresetRow>, numbers: Seq<Option<Level>>|
        #![trigger read_by(number, rows, numbers)]
        {
            &&& row_models(rows) == rows_of(content@)
            &&& read_by(number, rows, numbers)
            &&& match profile_of(rows_of(content@), numbers) {
                Some(p) => r is Some && r->0@ == p,
                None => r is None,
            }
        };
    law_document_holds_the_profile(*t, full);
    let all = profile_rows(*t);
    lemma_band_rows(*t, 5, 0);
    assert(all.len() == 25);
    assert(row_models(rows) == all);
    assert(row_models(rows).len() == rows.len());
    assert forall|i: int| 0 <= i < 25 implies #[trigger] numbers[i] == Some(read(all[i].1)) by {
        assert(row_models(rows)[i] == rows[i]@);
        assert(call_ensures(number, (&rows[i].text,), numbers[i]));
    }
    assert(all_read(numbers)) by {
        assert(numbers[20] is Some && numbers[21] is Some && numbers[23] is Some && numbers[24] is Some);
        assert forall|k: int| 0 <= k < 5 implies #[trigger] band_read(numbers, k) by {
            assert(numbers[4 * k + 1] is Some && numbers[4 * k + 2] is Some && numbers[4 * k + 3]
                is Some);
        }
    }
    law_saved_profile_reads_back(*t, full, numbers);
    let want = read_profile(*t, numbers);
    assert(r->0@ == want);
    lemma_band_rows(*t, 5, b);
    assert(numbers[4 * b + 1] == Some(read(all[4 * b + 1].1)));
    assert(numbers[4 * b + 2] == Some(read(all[4 * b + 2].1)));
    assert(numbers[4 * b + 3] == Some(read(all[4 * b + 3].1)));
    assert(numbers[20] == Some(read(all[20].1)));
    assert(numbers[21] == Some(read(all[21].1)));
    assert(numbers[23] == Some(read(all[23].1)));
    assert(numbers[24] == Some(read(all[24].1)));
    assert(r->0@.bands[b] == want.bands[b]);
}

/// A document of another plugin holds no profile.
pub proof fn law_documents_of_other_plugins_hold_nothing<F: Fn(&String) -> Option<Level>>(
    plugin: &Option<String>,
    content: &str,
    number: F,
    r: Option<AetherProfile>,
)
    requires
        plugin is None || plugin->0@ != "aether"@,
        call_ensures(parse_aether_preset::<F>, (plugin, content, number), r),
    ensures
        r is None,
{
}

/// A profile is listed under its own name, or that of its file, or as unnamed; nothing else of it
/// changes.
pub proof fn law_a_listed_profile_keeps_its_settings(
    p: AetherProfile,
    stem: &Option<String>,
    r: AetherProfile,
)
    requires
        call_ensures(listed_profile, (p, stem), r),
    ensures
        same_settings(r, p),
        p.name@.len() > 0 ==> r.name@ == p.name@,
        p.name@.len() == 0 && stem is Some ==> r.name@ == stem->0@,
        p.name@.len() == 0 && stem is None ==> r.name@ == "Unnamed"@,
{
    assert(r@.bands == p@.bands);
}

/// A copy of a profile is the profile.
pub proof fn law_a_copy_is_the_profile(p: &AetherProfile, r: AetherProfile)
    requires
        call_ensures(copy_profile, (p,), r),
    ensures
        same_settings(r, *p),
        r.name@ == p.name@,
{
    assert(r@.bands == p@.bands);
}

proof fn lemma_earliest(list: Seq<Seq<char>>, text: Seq<char>, n: nat)
    requires
        n <= list.len(),
    ensures
        match first_place(list, text, n) {
            Some(k) => 0 <= k < n && list[k] == text && forall|i: int|
                0 <= i < k ==> #[trigger] list[i] != text,
            None => forall|i: int| 0 <= i < n ==> #[trigger] list[i] != text,
        },
    decreases n,
{
    if n > 0 {
        lemma_earliest(list, text, (n - 1) as nat);
    }
}

/// A preset is looked up by its name: the first of that name is found, and none only where there
/// is none of it.
pub proof fn law_a_name_finds_its_first_preset(
    list: &Vec<PresetEntry>,
    name: &String,
    r: Option<usize>,
    p: Option<AetherProfile>,
)
    requires
        call_ensures(find_entry, (list, name), r),
        call_ensures(find_listed, (list, name), p),
    ensures
        r is Some <==> p is Some,
        match r {
            Some(k) => {
                &&& k < list@.len()
                &&& list@[k as int].name@ == name@
                &&& forall|i: int| 0 <= i < k ==> (#[trigger] list@[i]).name@ != name@
                &&& same_settings(p->0, list@[k as int].profile)
                &&& p->0.name@ == list@[k as int].profile.name@
            },
            None => forall|i: int| 0 <= i < list@.len() ==> (#[trigger] list@[i]).name@ != name@,
        },
{
    let names = names_of(entries(list@));
    lemma_earliest(names, name@, list@.len());
    assert forall|i: int| 0 <= i < list@.len() implies #[trigger] names[i] == list@[i].name@ by {
        assert(entries(list@)[i] == list@[i]@);
    }
    match r {
        Some(k) => {
            assert(place_of(entries(list@), name@) == Some(k as int));
            assert(p->0@ == entries(list@)[k as int].profile);
            assert(p->0@.bands == list@[k as int].profile@.bands);
            assert forall|i: int| 0 <= i < k implies (#[trigger] list@[i]).name@ != name@ by {
                assert(names[i] != name@);
            }
        },
        None => {
            assert forall|i: int| 0 <= i < list@.len() implies (#[trigger] list@[i]).name@
                != name@ by {
                assert(names[i] != name@);
            }
        },
    }
}

/// The preset of a name is the built-in one for its name, and else the first of that name in the
/// folder; there is none only where neither has it.
pub proof fn law_a_preset_is_built_in_or_from_the_folder(
    name: &String,
    scanned: &Vec<PresetEntry>,
    r: Option<AetherProfile>,
    flat: AetherProfile,
    at: Option<usize>,
    here: bool,
)
    requires
        call_ensures(find_profile, (name, scanned), r),
        call_ensures(harman_flat_profile, (), flat),
        call_ensures(find_entry, (scanned, name), at),
        call_ensures(is_built_in, (name,), here),
    ensures
        here <==> name@ == "Harman Flat"@,
        name@ == "Harman Flat"@ ==> r is Some && same_settings(r->0, flat),
        name@ != "Harman Flat"@ && at is Some ==> r is Some && same_settings(
            r->0,
            scanned@[at->0 as int].profile,
        ),
        name@ != "Harman Flat"@ && at is None ==> r is None,
{
    let s = entries(scanned@);
    let all = built_in() + s;
    lemma_earliest(names_of(built_in()), name@, 1);
    lemma_earliest(names_of(all), name@, all.len());
    lemma_earliest(names_of(s), name@, s.len());
    assert(names_of(built_in())[0] == "Harman Flat"@);
    assert(names_of(all)[0] == "Harman Flat"@);
    assert forall|i: int| 0 <= i < s.len() implies #[trigger] names_of(s)[i] == names_of(all)[i
        + 1] by {}
    match place_of(all, name@) {
        Some(k) => {
            if k == 0 {
                assert(r->0@ == all[0].profile);
                assert(r->0@.bands == flat@.bands);
            } else {
                assert(names_of(all)[0] != name@);
                assert(names_of(s)[k - 1] == name@);
                match place_of(s, name@) {
                    Some(m) => {
                        assert(names_of(s)[m] == names_of(all)[m + 1]);
                        if m < k - 1 {
                            assert(names_of(all)[m + 1] != name@);
                        }
                        if k - 1 < m {
                            assert(names_of(s)[k - 1] != name@);
                        }
                        assert(all[k] == s[k - 1]);
                        assert(s[m] == scanned@[m]@);
                        assert(r->0@.bands == scanned@[m].profile@.bands);
                    },
                    None => {},
                }
            }
        },
        None => {
            assert(names_of(all)[0] != name@);
            match place_of(s, name@) {
                Some(m) => {
                    assert(names_of(all)[m + 1] == name@);
                },
                None => {},
            }
        },
    }
}

/// The preset to start with is the copy that was kept where it has the name of the last one used,
/// else the preset of that name; without a last one there is none.
pub proof fn law_the_last_preset_comes_back(
    last: &Option<String>,
    kept: Option<AetherProfile>,
    scanned: &Vec<PresetEntry>,
    r: Option<AetherProfile>,
    other: Option<AetherProfile>,
)
    requires
        call_ensures(resolve_last_preset, (last, kept, scanned), r),
        last is Some ==> call_ensures(find_profile, (&last->0, scanned), other),
    ensures
        last is None ==> r is None,
        last is Some && kept is Some && kept->0.name@ == last->0@ ==> r is Some && same_settings(
            r->0,
            kept->0,
        ) && r->0.name@ == kept->0.name@,
        last is Some && !(kept is Some && kept->0.name@ == last->0@) ==> (r is Some <==> other
            is Some) && (r is Some ==> same_settings(r->0, other->0)),
{
    if last is Some {
        if kept is Some && kept->0.name@ == last->0@ {
            assert(kept->0@.name == last->0@);
            assert(r->0@ == kept->0@);
            assert(r->0@.bands == kept->0@.bands);
        } else if r is Some {
            assert(opt_profile(r) == opt_profile(other));
            assert(r->0@.bands == other->0@.bands);
        }
    }
}

proof fn lemma_scan(files: Seq<PresetFile>, profiles: Seq<Option<ProfileModel>>, n: nat)
    requires
        n <= files.len() == profiles.len(),
    ensures
        forall|i: int|
            0 <= i < scan_of(files, profiles, n).len() ==> exists|k: int|
                0 <= k < n && #[trigger] profiles[k] is Some && (#[trigger] scan_of(
                    files,
                    profiles,
                    n,
                )[i]).path == Some(files[k].path@),
    decreases n,
{
    if n > 0 {
        lemma_scan(files, profiles, (n - 1) as nat);
        let before = scan_of(files, profiles, (n - 1) as nat);
        let now = scan_of(files, profiles, n);
        assert forall|i: int| 0 <= i < now.len() implies exists|k: int|
            0 <= k < n && #[trigger] profiles[k] is Some && (#[trigger] now[i]).path == Some(
                files[k].path@,
            ) by {
            if i < before.len() {
                assert(now[i] == before[i]);
                let k = choose|k: int|
                    0 <= k < n - 1 && #[trigger] profiles[k] is Some && before[i].path == Some(
                        files[k].path@,
                    );
                assert(profiles[k] is Some && now[i].path == Some(files[k].path@));
            } else {
                assert(profiles[n - 1] is Some && now[i].path == Some(files[n - 1].path@));
            }
        }
    }
}

/// Only Markdown documents of Aether that could be read are listed, each with the path of its
/// file.
pub proof fn law_only_documents_of_aether_are_listed<F: Fn(&String) -> Option<Level>>(
    files: &Vec<PresetFile>,
    number: F,
    r: Vec<PresetEntry>,
    i: int,
)
    requires
        call_ensures(scan_aether_presets::<F>, (files, number), r),
        0 <= i < r@.len(),
    ensures
        exists|k: int|
            0 <= k < files@.len() && r@[i].path is Some && r@[i].path->0@ == (
            #[trigger] files@[k]).path@ && files@[k].extension is Some && files@[k].extension->0@
                == "md"@ && files@[k].plugin is Some && files@[k].plugin->0@ == "aether"@
                && files@[k].content is Some,
{
    let profiles = choose|profiles: Seq<Option<ProfileModel>>|
        #![trigger scan_of(files@, profiles, files@.len())]
        profiles_in(number, files@, profiles) && entries(r@) == scan_of(
            files@,
            profiles,
            files@.len(),
        );
    lemma_scan(files@, profiles, files@.len());
    assert(entries(r@)[i] == r@[i]@);
    let k = choose|k: int|
        0 <= k < files@.len() && #[trigger] profiles[k] is Some && scan_of(
            files@,
            profiles,
            files@.len(),
        )[i].path == Some(files@[k].path@);
    assert(profile_in(number, files@[k], profiles[k]));
    assert(may_hold(files@[k]));
    assert(opt_text(r@[i].path) == Some(files@[k].path@));
}

/// The start looks into the folder only for a preset that has neither a copy of its name nor is
/// built in.
pub proof fn law_the_start_looks_only_for_what_is_unknown(
    last: &Option<String>,
    kept: &Option<AetherProfile>,
    r: bool,
)
    requires
        call_ensures(start_needs_scan, (last, kept), r),
    ensures
        r <==> last is Some && last->0@ != "Harman Flat"@ && !(kept is Some && kept->0.name@
            == last->0@),
{
    if last is Some {
        lemma_earliest(names_of(built_in()), last->0@, 1);
        assert(names_of(built_in())[0] == "Harman Flat"@);
        if kept is Some {
            assert(kept->0@.name == kept->0.name@);
        }
    }
}

/// Calling off the scans under way gives the next number, which all later results must bear, and
/// drops what has arrived.
pub proof fn law_a_new_scan_calls_off_the_old(p: &mut PendingPresets, r: u32)
    requires
        call_ensures(PendingPresets::bump_generation, (p,), r),
    ensures
        final(p).generation == r,
        old(p).generation < u32::MAX ==> r == old(p).generation + 1,
        old(p).generation == u32::MAX ==> r == 0,
        !final(p).ready,
        final(p).presets is None,
{
    assert(final(p)@.presets is None);
    assert(final(p)@.ready == final(p).ready);
    assert(final(p)@.generation == final(p).generation);
}

/// What a scan delivers is taken over once, and only where it bears the number that is waited for.
pub proof fn law_a_result_is_taken_over_once(
    p: &mut PendingPresets,
    scan: u32,
    list: Vec<PresetEntry>,
    u: (),
    q: &mut PendingPresets,
    r: Option<Vec<PresetEntry>>,
)
    requires
        call_ensures(PendingPresets::deliver, (p, scan, list), u),
        call_ensures(PendingPresets::drain, (q,), r),
    ensures
        final(p).ready,
        final(p).generation == old(p).generation,
        final(p).presets is Some,
        (final(p).presets->0).0 == scan,
        entries((final(p).presets->0).1@) == entries(list@),
        !final(q).ready,
        final(q).generation == old(q).generation,
        r is Some <==> old(q).ready && old(q).presets is Some && (old(q).presets->0).0
            == old(q).generation,
        r is Some ==> entries(r->0@) == entries((old(q).presets->0).1@),
{
    assert(final(p)@.ready == final(p).ready);
    assert(final(p)@.generation == final(p).generation);
    assert(old(p)@.generation == old(p).generation);
    assert(final(q)@.ready == final(q).ready);
    assert(final(q)@.generation == final(q).generation);
    assert(old(q)@.generation == old(q).generation);
    assert(old(q)@.ready == old(q).ready);
}

/// A list of presets holds what its entries hold, field by field.
pub proof fn law_entries_hold_their_fields(list: Seq<PresetEntry>, other: Seq<PresetEntry>, i: int)
    requires
        entries(list) == entries(other),
        0 <= i < list.len(),
    ensures
        list.len() == other.len(),
        list[i].name@ == other[i].name@,
        list[i].path is Some <==> other[i].path is Some,
        list[i].path is Some ==> list[i].path->0@ == other[i].path->0@,
        same_settings(list[i].profile, other[i].profile),
        list[i].profile.name@ == other[i].profile.name@,
{
    assert(entries(list).len() == list.len());
    assert(entries(other).len() == other.len());
    assert(entries(list)[i] == list[i]@);
    assert(entries(other)[i] == other[i]@);
    assert(list[i]@ == other[i]@);
    assert(list[i].profile@.bands == other[i].profile@.bands);
}

/// A file lists the profile that its rows describe, with their numbers, under its own name or that of
/// the file.
pub proof fn law_a_file_lists_the_profile_of_its_rows<F: Fn(&String) -> Option<Level>>(
    files: &Vec<PresetFile>,
    number: F,
    r: Vec<PresetEntry>,
    content: &str,
    rows: Vec<PresetRow>,
    numbers: Vec<Option<Level>>,
    built: Option<AetherProfile>,
)
    requires
        call_ensures(scan_aether_presets::<F>, (files, number), r),
        files@.len() == 1,
        files@[0].extension is Some && files@[0].extension->0@ == "md"@,
        files@[0].plugin is Some && files@[0].plugin->0@ == "aether"@,
        files@[0].content is Some && files@[0].content->0@ == content@,
        call_ensures(preset_rows, (content,), rows),
        numbers@.len() == rows@.len(),
        forall|i: int|
            0 <= i < rows@.len() ==> call_ensures(number, (&rows@[i].text,), #[trigger] numbers@[i]),
        forall|s: String, t: String, a: Option<Level>, b: Option<Level>|
            s@ == t@ && #[trigger] call_ensures(number, (&s,), a) && #[trigger] call_ensures(
                number,
                (&t,),
                b,
            ) ==> a == b,
        call_ensures(build_profile, (&rows, &numbers), built),
    ensures
        r@.len() == (if built is Some {
            1int
        } else {
            0
        }),
        built is Some ==> r@[0].path is Some && r@[0].path->0@ == files@[0].path@,
        built is Some && built->0.name@.len() > 0 ==> r@[0].name@ == built->0.name@,
        built is Some && built->0.name@.len() == 0 && files@[0].stem is Some ==> r@[0].name@
            == files@[0].stem->0@,
        built is Some ==> r@[0].profile.bands@ == built->0.bands@ && r@[0].profile.gain
            == built->0.gain && r@[0].profile.blend == built->0.blend && r@[0].profile.cf_angle
            == built->0.cf_angle && r@[0].profile.cf_amount == built->0.cf_amount
            && r@[0].profile.cf_realism == built->0.cf_realism,
{
    let f = files@[0];
    let profiles = choose|profiles: Seq<Option<ProfileModel>>|
        #![trigger scan_of(files@, profiles, files@.len())]
        profiles_in(number, files@, profiles) && entries(r@) == scan_of(
            files@,
            profiles,
            files@.len(),
        );
    assert(profile_in(number, f, profiles[0]));
    assert(may_hold(f));
    let (rows2, numbers2) = choose|rows: Seq<PresetRow>, numbers: Seq<Option<Level>>|
        #![trigger read_by(number, rows, numbers)]
        {
            &&& row_models(rows) == rows_of(f.content->0@)
            &&& read_by(number, rows, numbers)
            &&& profiles[0] == profile_of(rows_of(f.content->0@), numbers)
        };
    let m = row_models(rows@);
    assert(m == rows_of(content@));
    assert(m.len() == rows@.len());
    assert(row_models(rows2).len() == rows2.len());
    assert forall|i: int| 0 <= i < numbers2.len() implies numbers2[i] == numbers@[i] by {
        assert(row_models(rows2)[i] == m[i]);
        assert(m[i] == rows@[i]@);
        assert(row_models(rows2)[i] == rows2[i]@);
        assert(rows2[i].text@ == rows@[i].text@);
        assert(call_ensures(number, (&rows@[i].text,), numbers@[i]));
        assert(call_ensures(number, (&rows2[i].text,), numbers2[i]));
    }
    assert(numbers2 =~= numbers@);
    crate::aether_preset::law_rows_name_existing_bands(content@);
    reveal_with_fuel(scan_of, 2);
    let e = entries(r@);
    assert(e.len() == r@.len());
    if built is Some {
        assert(profiles[0] == Some(built->0@));
        assert(e[0] == r@[0]@);
    }
}

} // verus!
