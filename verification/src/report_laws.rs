//! What holds of what is written about findings.

use crate::equilibrium_report::{table_bin, table_rows, SnapTexts};
use crate::mode::mode_name;
use crate::report::{
    area_line, area_row, escaped, format_masking_text, format_resonance_text, group_line, group_row,
    law_quoted_names_read_back, masking_section, own_line, own_row, resonance_section,
    snap_markdown, snapshot_name, snapshot_note, unescaped, yaml_name, Finding,
};
use crate::text::{join, join_texts, lacks, trim_string};
use vstd::prelude::*;
use vstd::string::*;

verus! {

proof fn lemma_one_more(list: Seq<Seq<char>>, x: Seq<char>, sep: Seq<char>)
    ensures
        list.len() == 0 ==> join_texts(list.push(x), sep) == x,
        list.len() > 0 ==> join_texts(list.push(x), sep) == join_texts(list, sep) + sep + x,
{
    assert(list.push(x).drop_last() =~= list);
}

/// Whether a line is that of a finding: where it lies, how strong it is, and the names behind it,
/// in brackets where there are any.
pub open spec fn told_of(
    head: Seq<char>,
    unit: Seq<char>,
    between: Seq<char>,
    f: Finding,
    names: Seq<char>,
    line: Seq<char>,
) -> bool {
    if f.names@.len() == 0 {
        line == head + f.hz@ + between + f.level@ + unit
    } else {
        line == head + f.hz@ + between + f.level@ + unit + " ("@ + names + ")"@
    }
}

/// One more finding of the own signal is one more line of the panel.
pub proof fn law_an_own_resonance_is_a_line(
    a: &Vec<Finding>,
    b: &Vec<Finding>,
    none: &Vec<Finding>,
    f: Finding,
    ra: String,
    rb: String,
)
    requires
        b@ == a@.push(f),
        none@.len() == 0,
        call_ensures(format_resonance_text, (a, none), ra),
        call_ensures(format_resonance_text, (b, none), rb),
    ensures
        a@.len() == 0 ==> ra@ == "No resonances detected"@,
        a@.len() == 0 ==> rb@ == "Own: "@ + f.hz@ + " Hz "@ + f.level@,
        a@.len() > 0 ==> rb@ == ra@ + "\n"@ + ("Own: "@ + f.hz@ + " Hz "@ + f.level@),
{
    let la = a@.map_values(|f: Finding| own_line(f));
    let lb = b@.map_values(|f: Finding| own_line(f));
    let ln = none@.map_values(|f: Finding| group_line(f));
    assert(lb =~= la.push(own_line(f)));
    assert(la + ln =~= la);
    assert(lb + ln =~= lb);
    lemma_one_more(la, own_line(f), "\n"@);
}

/// One more finding of the group is one more line behind those of the own signal, with the tracks
/// behind it in brackets.
pub proof fn law_a_group_resonance_is_a_line(
    own: &Vec<Finding>,
    a: &Vec<Finding>,
    b: &Vec<Finding>,
    f: Finding,
    names: String,
    ra: String,
    rb: String,
)
    requires
        b@ == a@.push(f),
        call_ensures(join, (&f.names, ", "), names),
        call_ensures(format_resonance_text, (own, a), ra),
        call_ensures(format_resonance_text, (own, b), rb),
    ensures
        exists|line: Seq<char>| #[trigger]
            told_of("Group: "@, Seq::empty(), " Hz "@, f, names@, line) && (own@.len() == 0
                && a@.len() == 0 ==> rb@ == line) && (own@.len() > 0 || a@.len() > 0 ==> rb@ == ra@
                + "\n"@ + line),
{
    let lo = own@.map_values(|f: Finding| own_line(f));
    let la = a@.map_values(|f: Finding| group_line(f));
    let lb = b@.map_values(|f: Finding| group_line(f));
    assert(lo + lb =~= (lo + la).push(group_line(f)));
    lemma_one_more(lo + la, group_line(f), "\n"@);
    let head = "Group: "@ + f.hz@ + " Hz "@ + f.level@;
    assert(head + Seq::<char>::empty() =~= head);
    assert(told_of("Group: "@, Seq::empty(), " Hz "@, f, names@, group_line(f)));
}

/// One more masking area is one more line, with the tracks that collide in brackets; the standalone
/// mode has none, nor is there one without relays.
pub proof fn law_a_masking_area_is_a_line(
    mode: i64,
    relays: usize,
    a: &Vec<Finding>,
    b: &Vec<Finding>,
    f: Finding,
    names: String,
    ra: String,
    rb: String,
)
    requires
        b@ == a@.push(f),
        call_ensures(join, (&f.names, "-"), names),
        call_ensures(format_masking_text, (mode, relays, a), ra),
        call_ensures(format_masking_text, (mode, relays, b), rb),
    ensures
        mode == 0 ==> ra@ == "Standalone — no masking"@,
        mode != 0 && (relays == 0 || a@.len() == 0) ==> ra@ == "No masking detected"@,
        mode != 0 && relays > 0 ==> exists|line: Seq<char>| #[trigger]
            told_of(Seq::empty(), " dB"@, " Hz  "@, f, names@, line) && (a@.len() == 0 ==> rb@ == line)
                && (a@.len() > 0 ==> rb@ == ra@ + "\n"@ + line),
{
    let la = a@.map_values(|f: Finding| area_line(f));
    let lb = b@.map_values(|f: Finding| area_line(f));
    assert(lb =~= la.push(area_line(f)));
    lemma_one_more(la, area_line(f), "\n"@);
    assert(Seq::<char>::empty() + f.hz@ =~= f.hz@);
    assert(told_of(Seq::empty(), " dB"@, " Hz  "@, f, names@, area_line(f)));
}

/// A name is quoted where it holds a colon, a hash, a quote or a line break, and only there; it
/// reads back from its quotes.
pub proof fn law_a_name_is_quoted_where_it_must(name: &String, r: String, i: int)
    requires
        call_ensures(yaml_name, (name,), r),
        0 <= i < name@.len(),
    ensures
        name@[i] == ':' || name@[i] == '#' || name@[i] == '"' || name@[i] == '\'' || name@[i] == '\n'
            ==> r@.len() >= name@.len() + 2 && r@[0] == '"' && r@.last() == '"',
        r@ != name@ ==> r@.len() >= 2 && exists|k: int|
            0 <= k < name@.len() && (#[trigger] name@[k] == ':' || name@[k] == '#' || name@[k] == '"'
                || name@[k] == '\'' || name@[k] == '\n'),
        r@ != name@ && lacks(name@, '\\') ==> unescaped(r@.subrange(1, r@.len() - 1)) == name@,
{
    lemma_escaped_is_longer(name@);
    if name@[i] == ':' || name@[i] == '#' || name@[i] == '"' || name@[i] == '\'' || name@[i]
        == '\n' {
        assert(crate::report::special(name@[i]));
    }
    if r@ != name@ {
        assert(r@ == seq!['"'] + escaped(name@) + seq!['"']);
        let k = choose|k: int| 0 <= k < name@.len() && crate::report::special(#[trigger] name@[k]);
        assert(name@[k] == ':' || name@[k] == '#' || name@[k] == '"' || name@[k] == '\'' || name@[k]
            == '\n');
        assert(r@.subrange(1, r@.len() - 1) =~= escaped(name@));
        if lacks(name@, '\\') {
            law_quoted_names_read_back(name@);
        }
    }
}

proof fn lemma_escaped_is_longer(s: Seq<char>)
    ensures
        escaped(s).len() >= s.len(),
    decreases s.len(),
{
    if s.len() > 0 {
        lemma_escaped_is_longer(s.drop_last());
    }
}

/// A snapshot is under the name of the instance without the white space around it, or under that of
/// the plugin.
pub proof fn law_a_snapshot_has_a_name(name: &String, t: String, r: String)
    requires
        call_ensures(trim_string, (name,), t),
        call_ensures(snapshot_name, (name,), r),
    ensures
        t@.len() > 0 ==> r@ == t@,
        t@.len() == 0 ==> r@ == "Lucent"@,
{
}

/// A snapshot begins with its name, its rate, its mode and its sensitivity, in this order.
pub proof fn law_a_snapshot_tells_its_settings(
    name: &String,
    own: &Vec<Finding>,
    group: &Vec<Finding>,
    areas: &Vec<Finding>,
    rate: &str,
    sensitivity: &str,
    mode: i64,
    r: String,
    shown: String,
    quoted: String,
    word: String,
)
    requires
        call_ensures(snap_markdown, (name, own, group, areas, rate, sensitivity, mode), r),
        call_ensures(snapshot_name, (name,), shown),
        call_ensures(yaml_name, (&shown,), quoted),
        call_ensures(mode_name, (mode,), word),
    ensures
        exists|rest: Seq<char>|
            r@ == #[trigger] ("---\nplugin: lucent\nname: "@ + quoted@
                + "\ntype: snapshot\nsample_rate: "@ + rate@ + "\nanalyze_mode: "@ + word@
                + "\nsensitivity_pct: "@ + sensitivity@ + "\n---\n\n# Lucent Snapshot — "@ + shown@
                + "\n\n"@ + rest),
{
    let rest = snapshot_note() + "## Resonance\n"@ + resonance_section(shown@, own@, group@)
        + "\n\n## Masking\n"@ + masking_section(mode, areas@) + "\n"@;
    assert(r@ =~= "---\nplugin: lucent\nname: "@ + quoted@ + "\ntype: snapshot\nsample_rate: "@ + rate@
        + "\nanalyze_mode: "@ + word@ + "\nsensitivity_pct: "@ + sensitivity@
        + "\n---\n\n# Lucent Snapshot — "@ + shown@ + "\n\n"@ + rest);
}

/// Without findings a snapshot tells so in each of its sections.
pub proof fn law_an_empty_snapshot_tells_so(
    name: &String,
    none: &Vec<Finding>,
    rate: &str,
    sensitivity: &str,
    mode: i64,
    r: String,
)
    requires
        none@.len() == 0,
        call_ensures(snap_markdown, (name, none, none, none, rate, sensitivity, mode), r),
    ensures
        mode == 0 ==> ends_in(
            r@,
            "## Resonance\n"@ + "_No resonances detected at current sensitivity._"@
                + "\n\n## Masking\n"@ + "_Standalone — no masking._"@ + "\n"@,
        ),
        mode != 0 ==> ends_in(
            r@,
            "## Resonance\n"@ + "_No resonances detected at current sensitivity._"@
                + "\n\n## Masking\n"@ + "_No masking areas detected at current sensitivity._"@
                + "\n"@,
        ),
{
    let shown = crate::report::shown_name(name@);
    let head = "---\nplugin: lucent\nname: "@ + crate::report::yaml_scalar(shown)
        + "\ntype: snapshot\nsample_rate: "@ + rate@ + "\nanalyze_mode: "@ + crate::mode::mode_word(
        mode,
    ) + "\nsensitivity_pct: "@ + sensitivity@ + "\n---\n\n# Lucent Snapshot — "@ + shown + "\n\n"@
        + snapshot_note();
    let tail = "## Resonance\n"@ + "_No resonances detected at current sensitivity._"@
        + "\n\n## Masking\n"@ + masking_section(mode, none@) + "\n"@;
    assert(r@ =~= head + tail);
}

/// Whether a text ends in another.
pub open spec fn ends_in(s: Seq<char>, tail: Seq<char>) -> bool {
    exists|head: Seq<char>| s == #[trigger] (head + tail)
}

/// One more resonance of the group is one more row behind the others, and one more area is one more
/// row of the masking: its frequency, its strength and its tracks.
pub proof fn law_a_finding_is_a_row_of_the_snapshot(
    name: &String,
    own: &Vec<Finding>,
    a: &Vec<Finding>,
    b: &Vec<Finding>,
    f: Finding,
    areas: &Vec<Finding>,
    c: &Vec<Finding>,
    g: Finding,
    rate: &str,
    sensitivity: &str,
    mode: i64,
    ra: String,
    rb: String,
    rc: String,
    members: String,
    maskers: String,
)
    requires
        b@ == a@.push(f),
        a@.len() > 0,
        c@ == areas@.push(g),
        areas@.len() > 0,
        mode != 0,
        call_ensures(join, (&f.names, ", "), members),
        call_ensures(join, (&g.names, " / "), maskers),
        call_ensures(snap_markdown, (name, own, a, areas, rate, sensitivity, mode), ra),
        call_ensures(snap_markdown, (name, own, b, areas, rate, sensitivity, mode), rb),
        call_ensures(snap_markdown, (name, own, a, c, rate, sensitivity, mode), rc),
    ensures
        exists|head: Seq<char>, tail: Seq<char>|
            ra@ == head + tail && rb@ == #[trigger] (head + ("\n| Group | "@ + f.hz@ + " | "@ + f.level@
                + " | "@ + members@ + " |"@) + tail),
        exists|head: Seq<char>, tail: Seq<char>|
            ra@ == head + tail && rc@ == #[trigger] (head + ("\n| "@ + g.hz@ + " | "@ + g.level@
                + " | "@ + maskers@ + " |"@) + tail),
{
    reveal_strlit("\n");
    reveal_strlit("\n| Group | ");
    reveal_strlit("| Group | ");
    reveal_strlit("\n| ");
    reveal_strlit("| ");
    let shown = crate::report::shown_name(name@);
    let front = "---\nplugin: lucent\nname: "@ + crate::report::yaml_scalar(shown)
        + "\ntype: snapshot\nsample_rate: "@ + rate@ + "\nanalyze_mode: "@ + crate::mode::mode_word(
        mode,
    ) + "\nsensitivity_pct: "@ + sensitivity@ + "\n---\n\n# Lucent Snapshot — "@ + shown + "\n\n"@
        + snapshot_note() + "## Resonance\n"@;
    let lo = own@.map_values(|f: Finding| own_row(shown, f));
    let la = a@.map_values(|f: Finding| group_row(f));
    let lb = b@.map_values(|f: Finding| group_row(f));
    assert(lo + lb =~= (lo + la).push(group_row(f)));
    lemma_one_more(lo + la, group_row(f), "\n"@);
    let sa = resonance_section(shown, own@, a@);
    let sb = resonance_section(shown, own@, b@);
    let row = "\n| Group | "@ + f.hz@ + " | "@ + f.level@ + " | "@ + members@ + " |"@;
    assert("\n"@ + group_row(f) =~= row);
    assert(sb =~= sa + row);
    let tail = "\n\n## Masking\n"@ + masking_section(mode, areas@) + "\n"@;
    assert(ra@ =~= (front + sa) + tail);
    assert(rb@ =~= (front + sa) + row + tail);
    let ma = areas@.map_values(|f: Finding| area_row(f));
    let mc = c@.map_values(|f: Finding| area_row(f));
    assert(mc =~= ma.push(area_row(g)));
    lemma_one_more(ma, area_row(g), "\n"@);
    let area = "\n| "@ + g.hz@ + " | "@ + g.level@ + " | "@ + maskers@ + " |"@;
    assert("\n"@ + area_row(g) =~= area);
    let head = front + sa + "\n\n## Masking\n"@ + masking_section(mode, areas@);
    assert(masking_section(mode, c@) =~= masking_section(mode, areas@) + area);
    assert(ra@ =~= head + "\n"@);
    assert(rc@ =~= head + area + "\n"@);
}

/// One more resonance of the own signal is one more row, under the name of the instance.
pub proof fn law_an_own_finding_is_a_row_of_the_snapshot(
    name: &String,
    shown: String,
    a: &Vec<Finding>,
    b: &Vec<Finding>,
    f: Finding,
    none: &Vec<Finding>,
    areas: &Vec<Finding>,
    rate: &str,
    sensitivity: &str,
    mode: i64,
    ra: String,
    rb: String,
)
    requires
        b@ == a@.push(f),
        a@.len() > 0,
        none@.len() == 0,
        call_ensures(snapshot_name, (name,), shown),
        call_ensures(snap_markdown, (name, a, none, areas, rate, sensitivity, mode), ra),
        call_ensures(snap_markdown, (name, b, none, areas, rate, sensitivity, mode), rb),
    ensures
        exists|head: Seq<char>, tail: Seq<char>|
            ra@ == head + tail && rb@ == #[trigger] (head + ("\n| Own ("@ + shown@ + ") | "@ + f.hz@
                + " | "@ + f.level@ + " | |"@) + tail),
{
    reveal_strlit("\n");
    reveal_strlit("\n| Own (");
    reveal_strlit("| Own (");
    let front = "---\nplugin: lucent\nname: "@ + crate::report::yaml_scalar(shown@)
        + "\ntype: snapshot\nsample_rate: "@ + rate@ + "\nanalyze_mode: "@ + crate::mode::mode_word(
        mode,
    ) + "\nsensitivity_pct: "@ + sensitivity@ + "\n---\n\n# Lucent Snapshot — "@ + shown@ + "\n\n"@
        + snapshot_note() + "## Resonance\n"@;
    let la = a@.map_values(|f: Finding| own_row(shown@, f));
    let lb = b@.map_values(|f: Finding| own_row(shown@, f));
    let ln = none@.map_values(|f: Finding| group_row(f));
    assert(la + ln =~= la);
    assert(lb + ln =~= la.push(own_row(shown@, f)));
    lemma_one_more(la, own_row(shown@, f), "\n"@);
    let sa = resonance_section(shown@, a@, none@);
    let sb = resonance_section(shown@, b@, none@);
    let row = "\n| Own ("@ + shown@ + ") | "@ + f.hz@ + " | "@ + f.level@ + " | |"@;
    assert("\n"@ + own_row(shown@, f) =~= row);
    assert(sb =~= sa + row);
    let tail = "\n\n## Masking\n"@ + masking_section(mode, areas@) + "\n"@;
    assert(ra@ =~= (front + sa) + tail);
    assert(rb@ =~= (front + sa) + row + tail);
}

/// The twelve frequencies at which a spectrum is listed.
pub open spec fn listed_at(i: int) -> Seq<char> {
    if i == 0 {
        "20"@
    } else if i == 1 {
        "40"@
    } else if i == 2 {
        "80"@
    } else if i == 3 {
        "160"@
    } else if i == 4 {
        "315"@
    } else if i == 5 {
        "630"@
    } else if i == 6 {
        "1k"@
    } else if i == 7 {
        "2k"@
    } else if i == 8 {
        "5k"@
    } else if i == 9 {
        "10k"@
    } else if i == 10 {
        "16k"@
    } else {
        "20k"@
    }
}

/// The table of a spectrum: a row for each frequency, in their order.
pub open spec fn table_of(levels: Seq<String>, n: nat) -> Seq<char>
    decreases n,
{
    if n == 0 {
        Seq::empty()
    } else if n == 1 {
        "| "@ + listed_at(0) + " | "@ + levels[0]@ + " |"@
    } else {
        table_of(levels, (n - 1) as nat) + "\n"@ + ("| "@ + listed_at(n - 1) + " | "@ + levels[n
            - 1]@ + " |"@)
    }
}

proof fn lemma_table(levels: Seq<String>, n: nat)
    requires
        n <= 12,
    ensures
        join_texts(table_rows(levels).take(n as int), "\n"@) == table_of(levels, n),
    decreases n,
{
    let rows = table_rows(levels);
    if n > 0 {
        lemma_table(levels, (n - 1) as nat);
        let before = rows.take(n - 1);
        assert(rows.take(n as int) =~= before.push(rows[n - 1]));
        lemma_one_more(before, rows[n - 1], "\n"@);
        assert(rows[n - 1] == "| "@ + listed_at(n - 1) + " | "@ + levels[n - 1]@ + " |"@);
    } else {
        assert(rows.take(0) =~= Seq::<Seq<char>>::empty());
    }
}

/// A snapshot of Equilibrium tells the peaks of both channels, the correlation, the three spectra
/// at the listed frequencies, and the five bands from the lowest to the highest.
pub proof fn law_a_snapshot_of_equilibrium_tells_all_levels(t: &SnapTexts, r: String)
    requires
        call_ensures(crate::equilibrium_report::snap_markdown, (t,), r),
    ensures
        exists|head: Seq<char>, tail: Seq<char>|
            r@ == #[trigger] (head + tail) && head
                == "---\nplugin: equilibrium\ntype: snapshot\n---\n\n# Equilibrium Snapshot\n\n## Signal\n| | L | R |\n|--|--|--|\n| Peak | "@
                + t.peak_l@ + " dB | "@ + t.peak_r@ + " dB |\n| Korrelation | "@ + t.correlation@
                + " | |\n\n## Spektrum — Stereo\n| Hz | dB |\n|----|-----|\n"@ + table_of(t.stereo@, 12)
                + "\n\n## Spektrum — Mono\n| Hz | dB |\n|----|-----|\n"@ + table_of(t.mono@, 12)
                + "\n\n## Delta\n| Hz | dB |\n|----|-----|\n"@ + table_of(t.delta@, 12) && tail
                == "\n\n## 5-Band\n| Band | Pegel |\n|------|-------|\n| Low | "@ + t.bands@[0]@
                + " dB |\n| Bass | "@ + t.bands@[1]@ + " dB |\n| Mid | "@ + t.bands@[2]@
                + " dB |\n| Hi-Mid | "@ + t.bands@[3]@ + " dB |\n| High | "@ + t.bands@[4]@
                + " dB |\n"@,
{
    lemma_table(t.stereo@, 12);
    lemma_table(t.mono@, 12);
    lemma_table(t.delta@, 12);
    assert(table_rows(t.stereo@).take(12) =~= table_rows(t.stereo@));
    assert(table_rows(t.mono@).take(12) =~= table_rows(t.mono@));
    assert(table_rows(t.delta@).take(12) =~= table_rows(t.delta@));
    let head =
        "---\nplugin: equilibrium\ntype: snapshot\n---\n\n# Equilibrium Snapshot\n\n## Signal\n| | L | R |\n|--|--|--|\n| Peak | "@
        + t.peak_l@ + " dB | "@ + t.peak_r@ + " dB |\n| Korrelation | "@ + t.correlation@
        + " | |\n\n## Spektrum — Stereo\n| Hz | dB |\n|----|-----|\n"@ + table_of(t.stereo@, 12)
        + "\n\n## Spektrum — Mono\n| Hz | dB |\n|----|-----|\n"@ + table_of(t.mono@, 12)
        + "\n\n## Delta\n| Hz | dB |\n|----|-----|\n"@ + table_of(t.delta@, 12);
    let tail = "\n\n## 5-Band\n| Band | Pegel |\n|------|-------|\n| Low | "@ + t.bands@[0]@
        + " dB |\n| Bass | "@ + t.bands@[1]@ + " dB |\n| Mid | "@ + t.bands@[2]@
        + " dB |\n| Hi-Mid | "@ + t.bands@[3]@ + " dB |\n| High | "@ + t.bands@[4]@ + " dB |\n"@;
    assert(r@ =~= head + tail);
}

/// A frequency above the spectrum is listed at its last bin.
pub proof fn law_high_frequencies_have_the_last_bin(bin: usize, bins: usize, r: usize)
    requires
        bins > 0,
        call_ensures(table_bin, (bin, bins), r),
    ensures
        bin < bins ==> r == bin,
        bin >= bins ==> r == bins - 1,
{
}

} // verus!
