//! Snapshots: the phases of a capture, and the names of the files it is saved to.

use crate::text::{
    all_digits, chars_of, copy_range, decimal, digit_char, has_prefix, is_text, number_of,
    padded, padded_text, parse_u32, parsed_u32, starts_with, texts, zeros,
};
use vstd::prelude::*;
use vstd::string::*;

verus! {

/// Which spectrum a phase of the capture gives.
#[derive(Clone, Copy, Debug, PartialEq, Eq, Structural)]
pub enum SnapMode {
    Stereo,
    Mono,
    Delta,
}

/// What is fed into the capture.
#[derive(Clone, Copy, Debug, PartialEq, Eq, Structural)]
pub enum SnapSource {
    /// Nothing is captured.
    Idle,
    /// The sum of both output channels.
    Sum,
    /// The output sum less the input sum.
    Difference,
    /// Silence.
    Silence,
}

/// Whether a capture runs, and where it stands: 0 is idle, 1 to 3 are its phases.
#[derive(Clone, Copy, Debug, PartialEq, Eq, Structural)]
pub struct SnapState {
    pub phase: u32,
    pub active: bool,
}

/// What is captured in a phase.
pub open spec fn source_of(phase: u32) -> SnapSource {
    if phase == 0 {
        SnapSource::Idle
    } else if phase == 1 || phase == 2 {
        SnapSource::Sum
    } else if phase == 3 {
        SnapSource::Difference
    } else {
        SnapSource::Silence
    }
}

/// Which spectrum a phase gives.
pub open spec fn mode_of(phase: u32) -> SnapMode {
    if phase == 1 {
        SnapMode::Stereo
    } else if phase == 2 {
        SnapMode::Mono
    } else {
        SnapMode::Delta
    }
}

/// The phase behind a phase: the last one ends the capture.
pub open spec fn phase_after(phase: u32) -> u32 {
    if phase < 3 {
        (phase + 1) as u32
    } else {
        0
    }
}

/// What is captured in the phase.
pub fn snap_source(phase: u32) -> (r: SnapSource)
    ensures
        r == source_of(phase),
{
    if phase == 0 {
        SnapSource::Idle
    } else if phase == 1 || phase == 2 {
        SnapSource::Sum
    } else if phase == 3 {
        SnapSource::Difference
    } else {
        SnapSource::Silence
    }
}

/// How many frames are averaged in the phase.
pub fn snap_threshold(phase: u32) -> (r: u32)
    ensures
        r == (if phase == 2 || phase == 3 {
            30u32
        } else {
            60
        }),
{
    if phase == 2 || phase == 3 {
        30
    } else {
        60
    }
}

/// Which spectrum the phase gives.
pub fn snap_mode(phase: u32) -> (r: SnapMode)
    ensures
        r == mode_of(phase),
{
    if phase == 1 {
        SnapMode::Stereo
    } else if phase == 2 {
        SnapMode::Mono
    } else {
        SnapMode::Delta
    }
}

impl SnapState {
    /// Whether the output is summed to mono: while the mono spectrum is captured, or as set.
    pub open spec fn plays_mono(self, set: bool) -> bool {
        self.phase == 2 || set
    }

    /// Whether the difference is played: while its spectrum is captured, or as set.
    pub open spec fn plays_delta(self, set: bool) -> bool {
        self.phase == 3 || set
    }

    /// The state once the spectrum of the phase is complete.
    pub open spec fn after_capture(self) -> SnapState {
        SnapState {
            phase: phase_after(self.phase),
            active: self.active && phase_after(self.phase) != 0,
        }
    }

    /// Whether the output is summed to mono.
    pub fn mono(self, set: bool) -> (r: bool)
        ensures
            r == self.plays_mono(set),
    {
        if self.phase == 2 {
            true
        } else {
            set
        }
    }

    /// Whether the difference is played.
    pub fn delta(self, set: bool) -> (r: bool)
        ensures
            r == self.plays_delta(set),
    {
        if self.phase == 3 {
            true
        } else {
            set
        }
    }

    /// Takes the complete spectrum of the phase: gives which one it is and goes on.
    pub fn captured(&mut self) -> (r: SnapMode)
        ensures
            r == mode_of(old(self).phase),
            *final(self) == old(self).after_capture(),
    {
        let mode: SnapMode = snap_mode(self.phase);
        let next: u32 = if self.phase < 3 {
            self.phase + 1
        } else {
            0
        };
        self.phase = next;
        if next == 0 {
            self.active = false;
        }
        mode
    }
}

/// A capture started at its first phase gives the stereo, the mono and the difference
/// spectrum in this order, and is over after the third.
pub proof fn law_capture_runs_through_three_phases(s: SnapState)
    requires
        s.phase == 1,
        s.active,
    ensures
        ({
            let t = s.after_capture();
            let u = t.after_capture();
            let v = u.after_capture();
            &&& mode_of(s.phase) == SnapMode::Stereo
            &&& t.active && mode_of(t.phase) == SnapMode::Mono
            &&& u.active && mode_of(u.phase) == SnapMode::Delta
            &&& !v.active && v.phase == 0 && source_of(v.phase) == SnapSource::Idle
        }),
{
}

/// The number of a snapshot file, where the name is that of one.
pub open spec fn snap_number(name: Seq<char>) -> Option<u32> {
    let n = name.len() as int;
    if starts_with(name, "SNAPSHOT-"@) && n >= 12 && name.subrange(n - 3, n) == ".md"@ {
        parsed_u32(name.subrange(9, n - 3))
    } else {
        None
    }
}

/// The highest number of a snapshot file among names, 0 where there is none.
pub open spec fn highest_number(names: Seq<Seq<char>>) -> u32
    decreases names.len(),
{
    if names.len() == 0 {
        0
    } else {
        let before = highest_number(names.drop_last());
        match snap_number(names.last()) {
            Some(n) => if n > before {
                n
            } else {
                before
            },
            None => before,
        }
    }
}

/// The name of the snapshot file with a number.
pub open spec fn snap_name(n: nat) -> Seq<char> {
    "SNAPSHOT-"@ + padded(n, 3) + ".md"@
}

/// The number of a snapshot file.
pub fn read_snap_number(name: &String) -> (r: Option<u32>)
    ensures
        r == snap_number(name@),
{
    let v: Vec<char> = chars_of(name.as_str());
    let n: usize = v.len();
    if n < 12 || !has_prefix(&v, "SNAPSHOT-") {
        return None;
    }
    if !is_text(&copy_range(&v, n - 3, n), ".md") {
        return None;
    }
    parse_u32(&copy_range(&v, 9, n - 3))
}

/// The highest number of a snapshot file among the names.
pub fn highest_snapshot(names: &Vec<String>) -> (r: u32)
    ensures
        r == highest_number(texts(names@)),
{
    let mut highest: u32 = 0;
    let ghost all = texts(names@);
    proof {
        assert(all.take(0).len() == 0);
    }
    for i in 0..names.len()
        invariant
            all == texts(names@),
            highest == highest_number(all.take(i as int)),
    {
        proof {
            assert(all.take(i as int + 1).drop_last() == all.take(i as int));
            assert(all.take(i as int + 1).last() == names@[i as int]@);
        }
        if let Some(n) = read_snap_number(&names[i]) {
            if n > highest {
                highest = n;
            }
        }
    }
    proof {
        assert(all.take(all.len() as int) == all);
    }
    highest
}

/// The name of the next snapshot file in a folder that holds files of the given names.
pub fn snap_filename(names: &Vec<String>) -> (r: String)
    requires
        highest_number(texts(names@)) < u32::MAX,
    ensures
        r@ == snap_name((highest_number(texts(names@)) + 1) as nat),
{
    let n: u32 = highest_snapshot(names);
    let mut r: String = "SNAPSHOT-".to_owned();
    r.append(padded_text(n as u64 + 1, 3).as_str());
    r.append(".md");
    r
}

proof fn lemma_decimal_digits(n: nat)
    ensures
        decimal(n).len() > 0,
        all_digits(decimal(n)),
        number_of(decimal(n)) == n,
    decreases n,
{
    if n < 10 {
        let s = decimal(n);
        assert(s == seq![digit_char(n)]);
        assert(s.drop_last() == Seq::<char>::empty());
        assert(s.last() as u32 == 48 + n);
        assert(number_of(s.drop_last()) == 0);
    } else {
        lemma_decimal_digits(n / 10);
        let s = decimal(n);
        let d = n % 10;
        assert(s.drop_last() == decimal(n / 10));
        assert(s.last() == digit_char(d));
        assert(digit_char(d) as u32 == 48 + d);
        assert forall|i: int| 0 <= i < s.len() implies '0' <= #[trigger] s[i] && s[i] <= '9' by {
            if i < s.len() - 1 {
                assert(s[i] == decimal(n / 10)[i]);
            }
        }
    }
}

proof fn lemma_leading_zeros(k: nat, s: Seq<char>)
    ensures
        number_of(zeros(k) + s) == number_of(s),
    decreases s.len(), k,
{
    if s.len() > 0 {
        lemma_leading_zeros(k, s.drop_last());
        assert((zeros(k) + s).drop_last() == zeros(k) + s.drop_last());
    } else if k > 0 {
        lemma_leading_zeros((k - 1) as nat, s);
        assert((zeros(k) + s).drop_last() == zeros((k - 1) as nat) + s);
        assert((zeros(k) + s).last() == '0');
    } else {
        assert(zeros(0) + s == s);
    }
}

/// The number of a snapshot file is the one its name was made of.
pub proof fn law_snapshot_number_reads_back(n: nat)
    requires
        n <= u32::MAX,
    ensures
        snap_number(snap_name(n)) == Some(n as u32),
{
    reveal_strlit("SNAPSHOT-");
    reveal_strlit(".md");
    lemma_decimal_digits(n);
    let digits = padded(n, 3);
    if decimal(n).len() < 3 {
        lemma_leading_zeros((3 - decimal(n).len()) as nat, decimal(n));
    }
    assert(all_digits(digits) && digits.len() >= 3) by {
        assert forall|i: int| 0 <= i < digits.len() implies '0' <= #[trigger] digits[i]
            && digits[i] <= '9' by {
            if decimal(n).len() < 3 {
                let k = 3 - decimal(n).len();
                if i >= k {
                    assert(digits[i] == decimal(n)[i - k]);
                }
            }
        }
    }
    assert(number_of(digits) == n);
    let name = snap_name(n);
    let len = name.len() as int;
    assert(name.take(9) =~= "SNAPSHOT-"@);
    assert(name.subrange(len - 3, len) =~= ".md"@);
    assert(name.subrange(9, len - 3) =~= digits);
    assert(digits[0] != '+');
}

proof fn lemma_none_higher(names: Seq<Seq<char>>, i: int)
    requires
        0 <= i < names.len(),
    ensures
        match snap_number(names[i]) {
            Some(n) => n <= highest_number(names),
            None => true,
        },
    decreases names.len(),
{
    if i < names.len() - 1 {
        lemma_none_higher(names.drop_last(), i);
        assert(names.drop_last()[i] == names[i]);
    }
}

/// A new snapshot never takes the name of a file that is there.
pub proof fn law_snapshot_names_are_new(names: Seq<Seq<char>>)
    requires
        highest_number(names) < u32::MAX,
    ensures
        !names.contains(snap_name((highest_number(names) + 1) as nat)),
{
    let n = (highest_number(names) + 1) as nat;
    law_snapshot_number_reads_back(n);
    if names.contains(snap_name(n)) {
        let i = choose|i: int| 0 <= i < names.len() && names[i] == snap_name(n);
        lemma_none_higher(names, i);
    }
}

} // verus!
