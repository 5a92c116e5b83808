//! The presets that Aether offers: the built-in one, and those of the preset folder, which is
//! scanned in the background.

use crate::aether_preset::{
    listed_profile, names_aether, parse_aether_preset, profile_of, read_by, row_models, rows_of,
    AetherProfile, Band,
    PresetRow, ProfileModel, B0_7, B100, B105, B60,
};
use crate::level::Level;
use crate::text::{first_place, lemma_first_place, lemma_first_place_stays};
use crate::vault::{copy_path, opt_text};
use vstd::prelude::*;
use vstd::string::*;

verus! {

/// The bit pattern of `300.0`.
pub const B300: u32 = 0x4396_0000;

/// The bit pattern of `1200.0`.
pub const B1200: u32 = 0x4496_0000;

/// The bit pattern of `4000.0`.
pub const B4000: u32 = 0x457a_0000;

/// The bit pattern of `10000.0`.
pub const B10000: u32 = 0x461c_4000;

/// The bit pattern of `1.0`.
pub const B1: u32 = 0x3f80_0000;

/// A preset on offer: its name, the file it came from, and what it sets.  The built-in preset
/// comes from no file.
pub struct PresetEntry {
    pub name: String,
    pub path: Option<String>,
    pub profile: AetherProfile,
}

/// The values of a preset on offer.
pub struct EntryModel {
    pub name: Seq<char>,
    pub path: Option<Seq<char>>,
    pub profile: ProfileModel,
}

impl View for PresetEntry {
    type V = EntryModel;

    open spec fn view(&self) -> EntryModel {
        EntryModel { name: self.name@, path: opt_text(self.path), profile: self.profile@ }
    }
}

/// The values of a list of presets.
pub open spec fn entries(v: Seq<PresetEntry>) -> Seq<EntryModel> {
    v.map_values(|e: PresetEntry| e@)
}

/// The names of a list of presets.
pub open spec fn names_of(list: Seq<EntryModel>) -> Seq<Seq<char>> {
    list.map_values(|e: EntryModel| e.name)
}

/// The five bands of the built-in preset.
pub open spec fn flat_bands() -> Seq<Band> {
    let zero = Level { bits: 0 };
    seq![
        (1i32, Level { bits: B105 }, zero, Level { bits: B0_7 }),
        (2i32, Level { bits: B300 }, zero, Level { bits: B1 }),
        (2i32, Level { bits: B1200 }, zero, Level { bits: B1 }),
        (2i32, Level { bits: B4000 }, zero, Level { bits: B1 }),
        (3i32, Level { bits: B10000 }, zero, Level { bits: B0_7 }),
    ]
}

/// The built-in preset.
pub open spec fn harman_flat() -> ProfileModel {
    ProfileModel {
        name: "Harman Flat"@,
        bands: flat_bands(),
        cf_angle: Level { bits: B60 },
        cf_amount: Level { bits: 0 },
        cf_realism: 0,
        blend: Level { bits: B100 },
        gain: Level { bits: 0 },
    }
}

/// The built-in preset as it is listed.
pub open spec fn built_in() -> Seq<EntryModel> {
    seq![EntryModel { name: "Harman Flat"@, path: None, profile: harman_flat() }]
}

/// The built-in preset.
pub fn harman_flat_profile() -> (r: AetherProfile)
    ensures
        r@ == harman_flat(),
{
    let zero: Level = Level { bits: 0 };
    let r: AetherProfile = AetherProfile {
        name: "Harman Flat".to_owned(),
        bands: [
            (1, Level { bits: B105 }, zero, Level { bits: B0_7 }),
            (2, Level { bits: B300 }, zero, Level { bits: B1 }),
            (2, Level { bits: B1200 }, zero, Level { bits: B1 }),
            (2, Level { bits: B4000 }, zero, Level { bits: B1 }),
            (3, Level { bits: B10000 }, zero, Level { bits: B0_7 }),
        ],
        cf_angle: Level { bits: B60 },
        cf_amount: zero,
        cf_realism: 0,
        blend: Level { bits: B100 },
        gain: zero,
    };
    proof {
        assert(r@.bands =~= flat_bands());
    }
    r
}

/// The presets that are there without a folder.
pub fn default_presets() -> (r: Vec<PresetEntry>)
    ensures
        entries(r@) == built_in(),
{
    let entry: PresetEntry = PresetEntry {
        name: "Harman Flat".to_owned(),
        path: None,
        profile: harman_flat_profile(),
    };
    let mut r: Vec<PresetEntry> = Vec::new();
    r.push(entry);
    proof {
        assert(entries(r@) =~= built_in());
    }
    r
}

/// A copy of a profile.
pub fn copy_profile(p: &AetherProfile) -> (r: AetherProfile)
    ensures
        r@ == p@,
{
    AetherProfile {
        name: p.name.clone(),
        bands: p.bands,
        cf_angle: p.cf_angle,
        cf_amount: p.cf_amount,
        cf_realism: p.cf_realism,
        blend: p.blend,
        gain: p.gain,
    }
}

/// A copy of a preset on offer.
pub fn copy_entry(e: &PresetEntry) -> (r: PresetEntry)
    ensures
        r@ == e@,
{
    PresetEntry {
        name: e.name.clone(),
        path: copy_path(&e.path),
        profile: copy_profile(&e.profile),
    }
}

/// Appends copies of presets to a list.
pub fn append_entries(list: &mut Vec<PresetEntry>, more: &Vec<PresetEntry>)
    ensures
        entries(final(list)@) == entries(old(list)@) + entries(more@),
{
    let ghost before = entries(list@);
    for i in 0..more.len()
        invariant
            before == entries(old(list)@),
            entries(list@) == before + entries(more@).take(i as int),
    {
        let ghost so_far = list@;
        let entry: PresetEntry = copy_entry(&more[i]);
        list.push(entry);
        proof {
            assert(entries(list@) =~= entries(so_far).push(entry@));
            assert(entries(more@).take(i as int + 1) =~= entries(more@).take(i as int).push(entry@));
        }
    }
    proof {
        assert(entries(more@).take(more@.len() as int) =~= entries(more@));
    }
}

/// A copy of a list of presets.
pub fn copy_entries(list: &Vec<PresetEntry>) -> (r: Vec<PresetEntry>)
    ensures
        entries(r@) == entries(list@),
{
    let mut r: Vec<PresetEntry> = Vec::new();
    append_entries(&mut r, list);
    proof {
        assert(entries(r@) =~= entries(list@));
    }
    r
}

/// The names under which presets are offered: the built-in one, then those of the folder.
pub open spec fn offered(scanned: Seq<EntryModel>) -> Seq<Seq<char>> {
    names_of(built_in() + scanned)
}

/// The place of the first preset of that name.
pub open spec fn place_of(list: Seq<EntryModel>, name: Seq<char>) -> Option<int> {
    first_place(names_of(list), name, list.len())
}

/// The first preset of that name.
pub open spec fn found(list: Seq<EntryModel>, name: Seq<char>) -> Option<ProfileModel> {
    match place_of(list, name) {
        Some(k) => Some(list[k].profile),
        None => None,
    }
}

/// What an optional profile holds.
pub open spec fn opt_profile(p: Option<AetherProfile>) -> Option<ProfileModel> {
    match p {
        Some(x) => Some(x@),
        None => None,
    }
}

/// The place of the first preset of that name.
pub fn find_entry(list: &Vec<PresetEntry>, name: &String) -> (r: Option<usize>)
    ensures
        match place_of(entries(list@), name@) {
            Some(k) => r is Some && r->0 == k && 0 <= k < list@.len(),
            None => r is None,
        },
{
    let ghost names = names_of(entries(list@));
    for i in 0..list.len()
        invariant
            names == names_of(entries(list@)),
            first_place(names, name@, i as nat) is None,
    {
        proof {
            assert(names[i as int] == list@[i as int].name@);
        }
        if list[i].name == *name {
            proof {
                lemma_first_place_stays(names, name@, i as nat + 1, list@.len());
            }
            return Some(i);
        }
    }
    None
}

/// The first preset of that name in a list.
pub fn find_listed(list: &Vec<PresetEntry>, name: &String) -> (r: Option<AetherProfile>)
    ensures
        opt_profile(r) == found(entries(list@), name@),
{
    match find_entry(list, name) {
        Some(k) => Some(copy_profile(&list[k].profile)),
        None => None,
    }
}

proof fn lemma_found_in_either(a: Seq<EntryModel>, b: Seq<EntryModel>, name: Seq<char>, n: nat)
    requires
        n <= b.len(),
    ensures
        first_place(names_of(a + b), name, a.len()) == place_of(a, name),
        first_place(names_of(a + b), name, a.len() + n) == match place_of(a, name) {
            Some(k) => Some(k),
            None => match first_place(names_of(b), name, n) {
                Some(k) => Some(k + a.len()),
                None => None,
            },
        },
    decreases n,
{
    lemma_front(a, b, name, a.len());
    if n > 0 {
        lemma_found_in_either(a, b, name, (n - 1) as nat);
        assert(names_of(a + b)[a.len() + n - 1] == names_of(b)[n - 1]);
    }
}

proof fn lemma_front(a: Seq<EntryModel>, b: Seq<EntryModel>, name: Seq<char>, n: nat)
    requires
        n <= a.len(),
    ensures
        first_place(names_of(a + b), name, n) == first_place(names_of(a), name, n),
    decreases n,
{
    if n > 0 {
        lemma_front(a, b, name, (n - 1) as nat);
        assert(names_of(a + b)[n - 1] == names_of(a)[n - 1]);
    }
}

/// The preset of that name: the built-in one, or the first of the folder.  `scanned` lists the
/// presets of the folder and is empty where there is no folder.
pub fn find_profile(name: &String, scanned: &Vec<PresetEntry>) -> (r: Option<AetherProfile>)
    ensures
        opt_profile(r) == found(built_in() + entries(scanned@), name@),
{
    let defaults: Vec<PresetEntry> = default_presets();
    proof {
        let s = entries(scanned@);
        lemma_found_in_either(built_in(), s, name@, s.len());
        lemma_first_place(names_of(built_in()), name@, 1);
        lemma_first_place(names_of(s), name@, s.len());
    }
    match find_listed(&defaults, name) {
        Some(p) => Some(p),
        None => find_listed(scanned, name),
    }
}

/// The preset to start with: the last one used, from its copy where that is of the same name,
/// else from the presets on offer.
pub open spec fn starting(
    last: Option<Seq<char>>,
    kept: Option<ProfileModel>,
    scanned: Seq<EntryModel>,
) -> Option<ProfileModel> {
    match last {
        Some(name) => if kept is Some && kept->0.name == name {
            kept
        } else {
            found(built_in() + scanned, name)
        },
        None => None,
    }
}

/// The preset to start with.  `last` is the name of the last one used, `kept` the copy that was
/// kept of it.
pub fn resolve_last_preset(
    last: &Option<String>,
    kept: Option<AetherProfile>,
    scanned: &Vec<PresetEntry>,
) -> (r: Option<AetherProfile>)
    ensures
        opt_profile(r) == starting(opt_text(*last), opt_profile(kept), entries(scanned@)),
{
    match last {
        Some(name) => {
            if let Some(p) = kept {
                if p.name == *name {
                    return Some(p);
                }
            }
            find_profile(name, scanned)
        },
        None => None,
    }
}

/// Whether a preset of that name is built in.
pub fn is_built_in(name: &String) -> (r: bool)
    ensures
        r == (place_of(built_in(), name@) is Some),
{
    let defaults: Vec<PresetEntry> = default_presets();
    match find_entry(&defaults, name) {
        Some(_) => true,
        None => false,
    }
}

/// Whether the preset to start with is sought in the folder: the last one used has no copy of its
/// name and is not built in.
pub open spec fn sought(last: Option<Seq<char>>, kept: Option<ProfileModel>) -> bool {
    match last {
        Some(name) => !(kept is Some && kept->0.name == name) && place_of(built_in(), name) is None,
        None => false,
    }
}

/// Whether the preset to start with is sought in the folder.
pub fn start_needs_scan(last: &Option<String>, kept: &Option<AetherProfile>) -> (r: bool)
    ensures
        r == sought(opt_text(*last), opt_profile(*kept)),
{
    match last {
        Some(name) => {
            if let Some(p) = kept {
                if p.name == *name {
                    return false;
                }
            }
            !is_built_in(name)
        },
        None => false,
    }
}

/// A preset that is built in is found whatever the folder holds.
pub proof fn law_built_in_presets_need_no_folder(
    name: Seq<char>,
    scanned: Seq<EntryModel>,
    other: Seq<EntryModel>,
)
    requires
        place_of(built_in(), name) is Some,
    ensures
        found(built_in() + scanned, name) is Some,
        found(built_in() + scanned, name) == found(built_in() + other, name),
{
    lemma_found_in_either(built_in(), scanned, name, scanned.len());
    lemma_found_in_either(built_in(), other, name, other.len());
    lemma_first_place(names_of(built_in()), name, built_in().len());
}

/// Where the preset to start with is not sought in the folder, what the folder holds does not
/// matter.
pub proof fn law_known_presets_start_without_the_folder(
    last: Option<Seq<char>>,
    kept: Option<ProfileModel>,
    scanned: Seq<EntryModel>,
    other: Seq<EntryModel>,
)
    requires
        !sought(last, kept),
    ensures
        starting(last, kept, scanned) == starting(last, kept, other),
{
    if last is Some && place_of(built_in(), last->0) is Some {
        law_built_in_presets_need_no_folder(last->0, scanned, other);
    }
}

/// A file of the preset folder as far as it could be read.
pub struct PresetFile {
    pub path: String,
    pub stem: Option<String>,
    pub extension: Option<String>,
    /// The plugin that the document names.
    pub plugin: Option<String>,
    pub content: Option<String>,
}

/// Whether a file can hold a preset of Aether.
pub open spec fn may_hold(f: PresetFile) -> bool {
    &&& opt_text(f.extension) == Some("md"@)
    &&& f.content is Some
    &&& names_aether(f.plugin)
}

/// Whether `p` is the profile in a file, with its numbers read by `number`.
pub open spec fn profile_in<F: Fn(&String) -> Option<Level>>(
    number: F,
    f: PresetFile,
    p: Option<ProfileModel>,
) -> bool {
    if may_hold(f) {
        exists|rows: Seq<PresetRow>, numbers: Seq<Option<Level>>|
            #![trigger read_by(number, rows, numbers)]
            {
                &&& row_models(rows) == rows_of(f.content->0@)
                &&& read_by(number, rows, numbers)
                &&& p == profile_of(rows_of(f.content->0@), numbers)
            }
    } else {
        p is None
    }
}

/// Whether `profiles` holds the profile in each file.
pub open spec fn profiles_in<F: Fn(&String) -> Option<Level>>(
    number: F,
    files: Seq<PresetFile>,
    profiles: Seq<Option<ProfileModel>>,
) -> bool {
    &&& profiles.len() == files.len()
    &&& forall|i: int|
        0 <= i < files.len() ==> profile_in(number, files[i], #[trigger] profiles[i])
}

/// The profile of a file as it is listed.
pub open spec fn listed(f: PresetFile, p: ProfileModel) -> EntryModel {
    let name = if p.name.len() > 0 {
        p.name
    } else if f.stem is Some {
        f.stem->0@
    } else {
        "Unnamed"@
    };
    EntryModel { name, path: Some(f.path@), profile: ProfileModel { name, ..p } }
}

/// The presets of the first `n` files, given the profile in each.
pub open spec fn scan_of(
    files: Seq<PresetFile>,
    profiles: Seq<Option<ProfileModel>>,
    n: nat,
) -> Seq<EntryModel>
    decreases n,
{
    if n == 0 {
        Seq::empty()
    } else {
        let before = scan_of(files, profiles, (n - 1) as nat);
        match profiles[n - 1] {
            Some(p) => before.push(listed(files[n - 1], p)),
            None => before,
        }
    }
}

/// The presets in a folder, in the order of its files; `number` reads a text as a number.
pub fn scan_aether_presets<F: Fn(&String) -> Option<Level>>(
    files: &Vec<PresetFile>,
    number: F,
) -> (r: Vec<PresetEntry>)
    requires
        forall|t: &String| call_requires(number, (t,)),
    ensures
        exists|profiles: Seq<Option<ProfileModel>>|
            #![trigger scan_of(files@, profiles, files@.len())]
            profiles_in(number, files@, profiles) && entries(r@) == scan_of(
                files@,
                profiles,
                files@.len(),
            ),
{
    let mut r: Vec<PresetEntry> = Vec::new();
    let ghost mut profiles: Seq<Option<ProfileModel>> = Seq::empty();
    proof {
        assert(entries(r@) =~= scan_of(files@, profiles, 0));
    }
    for i in 0..files.len()
        invariant
            forall|t: &String| call_requires(number, (t,)),
            profiles.len() == i,
            forall|k: int|
                0 <= k < i ==> #[trigger] profile_in(number, files@[k], profiles[k]),
            entries(r@) == scan_of(files@, profiles, i as nat),
    {
        let read: Option<AetherProfile> = read_file(&files[i], &number);
        let ghost p = opt_profile(read);
        let ghost more = profiles.push(p);
        proof {
            assert(profile_in(number, files@[i as int], p));
            lemma_scan_same(files@, profiles, more, i as nat);
            assert forall|k: int| 0 <= k < i + 1 implies #[trigger] profile_in(
                number,
                files@[k],
                more[k],
            ) by {
                if k < i {
                    assert(profile_in(number, files@[k], profiles[k]));
                }
            }
        }
        let ghost before = entries(r@);
        if let Some(profile) = read {
            let profile: AetherProfile = listed_profile(profile, &files[i].stem);
            let entry: PresetEntry = PresetEntry {
                name: profile.name.clone(),
                path: Some(files[i].path.clone()),
                profile,
            };
            let ghost model = entry@;
            r.push(entry);
            proof {
                assert(model == listed(files@[i as int], p->0));
                assert(entries(r@) =~= before.push(model));
            }
        }
        proof {
            profiles = more;
        }
    }
    proof {
        assert(profiles_in(number, files@, profiles));
    }
    r
}

proof fn lemma_scan_same(
    files: Seq<PresetFile>,
    a: Seq<Option<ProfileModel>>,
    b: Seq<Option<ProfileModel>>,
    n: nat,
)
    requires
        forall|k: int| 0 <= k < n ==> #[trigger] a[k] == b[k],
    ensures
        scan_of(files, a, n) == scan_of(files, b, n),
    decreases n,
{
    if n > 0 {
        lemma_scan_same(files, a, b, (n - 1) as nat);
        assert(a[n - 1] == b[n - 1]);
    }
}

/// The profile in a file.
fn read_file<F: Fn(&String) -> Option<Level>>(f: &PresetFile, number: &F) -> (r: Option<
    AetherProfile,
>)
    requires
        forall|t: &String| call_requires(*number, (t,)),
    ensures
        profile_in(*number, *f, opt_profile(r)),
{
    match &f.extension {
        Some(x) => {
            if *x != "md".to_owned() {
                return None;
            }
        },
        None => return None,
    }
    match &f.content {
        Some(c) => {
            let inner = |t: &String| -> (v: Option<Level>)
                ensures
                    call_ensures(*number, (t,), v),
                { number(t) };
            let r: Option<AetherProfile> = parse_aether_preset(&f.plugin, c.as_str(), inner);
            proof {
                if names_aether(f.plugin) {
                    let (rows, numbers) = choose|rows: Seq<PresetRow>, numbers: Seq<Option<Level>>|
                        #![trigger read_by(inner, rows, numbers)]
                        {
                            &&& row_models(rows) == rows_of(c@)
                            &&& read_by(inner, rows, numbers)
                            &&& match profile_of(rows_of(c@), numbers) {
                                Some(p) => r is Some && r->0@ == p,
                                None => r is None,
                            }
                        };
                    assert(read_by(*number, rows, numbers));
                }
            }
            r
        },
        None => None,
    }
}

/// The result of a background scan on its way to the panel, and the number of the scan that the
/// panel waits for.
pub struct PendingPresets {
    pub ready: bool,
    pub generation: u32,
    pub presets: Option<(u32, Vec<PresetEntry>)>,
}

/// The values of a pending scan.
pub struct PendingModel {
    pub ready: bool,
    pub generation: u32,
    pub presets: Option<(u32, Seq<EntryModel>)>,
}

impl View for PendingPresets {
    type V = PendingModel;

    open spec fn view(&self) -> PendingModel {
        PendingModel {
            ready: self.ready,
            generation: self.generation,
            presets: match self.presets {
                Some((scan, list)) => Some((scan, entries(list@))),
                None => None,
            },
        }
    }
}

impl PendingModel {
    /// The number of the next scan.
    pub open spec fn next(self) -> u32 {
        if self.generation == u32::MAX {
            0
        } else {
            (self.generation + 1) as u32
        }
    }

    /// After the scans under way are called off.
    pub open spec fn bumped(self) -> PendingModel {
        PendingModel { ready: false, generation: self.next(), presets: None }
    }

    /// After a scan has delivered what it found.
    pub open spec fn delivered(self, scan: u32, list: Seq<EntryModel>) -> PendingModel {
        PendingModel { ready: true, presets: Some((scan, list)), ..self }
    }

    /// What the panel takes over: the presets of the scan that it waits for.
    pub open spec fn arrived(self) -> Option<Seq<EntryModel>> {
        match self.presets {
            Some((scan, list)) => if self.ready && scan == self.generation {
                Some(list)
            } else {
                None
            },
            None => None,
        }
    }

    /// After the panel has looked.
    pub open spec fn drained(self) -> PendingModel {
        PendingModel { ready: false, ..self }
    }
}

impl PendingPresets {
    /// Nothing has arrived; the first scan is under way.
    pub fn new() -> (r: PendingPresets)
        ensures
            r@ == (PendingModel { ready: false, generation: 1, presets: None }),
    {
        PendingPresets { ready: false, generation: 1, presets: None }
    }

    /// Calls off the scans under way and gives the number of the next one.
    pub fn bump_generation(&mut self) -> (r: u32)
        ensures
            final(self)@ == old(self)@.bumped(),
            r == old(self)@.next(),
    {
        let new: u32 = self.generation.wrapping_add(1);
        self.generation = new;
        self.ready = false;
        self.presets = None;
        new
    }

    /// Takes in what the scan of that number found.
    pub fn deliver(&mut self, scan: u32, list: Vec<PresetEntry>)
        ensures
            final(self)@ == old(self)@.delivered(scan, entries(list@)),
    {
        self.presets = Some((scan, list));
        self.ready = true;
    }

    /// Hands over what has arrived, once, where it comes from the scan that is waited for.
    pub fn drain(&mut self) -> (r: Option<Vec<PresetEntry>>)
        ensures
            final(self)@ == old(self)@.drained(),
            match old(self)@.arrived() {
                Some(list) => r is Some && entries(r->0@) == list,
                None => r is None,
            },
    {
        let ready: bool = self.ready;
        self.ready = false;
        if !ready {
            return None;
        }
        match &self.presets {
            Some((scan, list)) => if *scan == self.generation {
                Some(copy_entries(list))
            } else {
                None
            },
            None => None,
        }
    }
}

/// What a scan that was called off delivers is never taken over; what the scan that replaced it
/// delivers is, and only once.
pub proof fn law_stale_scans_are_ignored(
    p: PendingModel,
    scan: u32,
    stale: Seq<EntryModel>,
    fresh: Seq<EntryModel>,
)
    requires
        scan != p.next(),
    ensures
        p.bumped().arrived() is None,
        p.bumped().delivered(scan, stale).arrived() is None,
        p.bumped().delivered(scan, stale).delivered(p.next(), fresh).arrived() == Some(fresh),
        p.bumped().delivered(p.next(), fresh).drained().arrived() is None,
{
}

/// The scan that was waited for is called off by the next one.
pub proof fn law_every_scan_has_its_own_number(p: PendingModel)
    ensures
        p.bumped().generation != p.generation,
        p.bumped().next() != p.generation,
{
}

/// The built-in preset is found whatever the folder holds.
pub proof fn law_the_built_in_preset_is_always_there(scanned: Seq<EntryModel>)
    ensures
        found(built_in() + scanned, "Harman Flat"@) == Some(harman_flat()),
{
    let all = built_in() + scanned;
    assert(names_of(all)[0] == "Harman Flat"@);
    assert(first_place(names_of(all), "Harman Flat"@, 1) == Some(0int)) by {
        assert(first_place(names_of(all), "Harman Flat"@, 0) is None);
    }
    lemma_first_place_stays(names_of(all), "Harman Flat"@, 1, all.len());
}

/// A name finds a preset exactly where it is on offer.
pub proof fn law_names_on_offer_are_found(scanned: Seq<EntryModel>, name: Seq<char>)
    ensures
        offered(scanned).contains(name) <==> found(built_in() + scanned, name) is Some,
{
    let all = built_in() + scanned;
    lemma_first_place(names_of(all), name, all.len());
    match place_of(all, name) {
        Some(k) => {
            assert(offered(scanned)[k] == name);
        },
        None => {
            if offered(scanned).contains(name) {
                let k = choose|k: int| 0 <= k < offered(scanned).len() && offered(scanned)[k] == name;
                assert(names_of(all)[k] == name);
            }
        },
    }
}

} // verus!
