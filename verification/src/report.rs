//! What Lucent writes about its findings: the lines of its panels and its snapshot file.

use crate::mode::{mode_name, mode_word};
use crate::text::{chars_of, join, join_texts, lacks, string_of, texts, trim_string, trimmed};
use vstd::prelude::*;
use vstd::string::*;

verus! {

/// A finding as text: its frequency, its level and the tracks behind it.
pub struct Finding {
    pub hz: String,
    pub level: String,
    pub names: Vec<String>,
}

/// A finding of the own signal in the resonance panel.
pub open spec fn own_line(f: Finding) -> Seq<char> {
    "Own: "@ + f.hz@ + " Hz "@ + f.level@
}

/// A finding of the group in the resonance panel.
pub open spec fn group_line(f: Finding) -> Seq<char> {
    let head = "Group: "@ + f.hz@ + " Hz "@ + f.level@;
    if f.names@.len() == 0 {
        head
    } else {
        head + " ("@ + join_texts(texts(f.names@), ", "@) + ")"@
    }
}

/// A finding in the masking panel.
pub open spec fn area_line(f: Finding) -> Seq<char> {
    let head = f.hz@ + " Hz  "@ + f.level@ + " dB"@;
    if f.names@.len() == 0 {
        head
    } else {
        head + " ("@ + join_texts(texts(f.names@), "-"@) + ")"@
    }
}

/// The text of the resonance panel.
pub open spec fn resonance_panel(own: Seq<Finding>, group: Seq<Finding>) -> Seq<char> {
    if own.len() == 0 && group.len() == 0 {
        "No resonances detected"@
    } else {
        join_texts(
            own.map_values(|f: Finding| own_line(f)) + group.map_values(
                |f: Finding| group_line(f),
            ),
            "\n"@,
        )
    }
}

/// The text of the masking panel.
pub open spec fn masking_panel(mode: i64, relays: nat, areas: Seq<Finding>) -> Seq<char> {
    if mode == 0 {
        "Standalone — no masking"@
    } else if areas.len() == 0 || relays == 0 {
        "No masking detected"@
    } else {
        join_texts(areas.map_values(|f: Finding| area_line(f)), "\n"@)
    }
}

fn write_own_line(f: &Finding) -> (r: String)
    ensures
        r@ == own_line(*f),
{
    let mut r: String = "Own: ".to_owned();
    r.append(f.hz.as_str());
    r.append(" Hz ");
    r.append(f.level.as_str());
    r
}

fn write_group_line(f: &Finding) -> (r: String)
    ensures
        r@ == group_line(*f),
{
    let mut r: String = "Group: ".to_owned();
    r.append(f.hz.as_str());
    r.append(" Hz ");
    r.append(f.level.as_str());
    if f.names.len() > 0 {
        r.append(" (");
        r.append(join(&f.names, ", ").as_str());
        r.append(")");
    }
    r
}

fn write_area_line(f: &Finding) -> (r: String)
    ensures
        r@ == area_line(*f),
{
    let mut r: String = f.hz.clone();
    r.append(" Hz  ");
    r.append(f.level.as_str());
    r.append(" dB");
    if f.names.len() > 0 {
        r.append(" (");
        r.append(join(&f.names, "-").as_str());
        r.append(")");
    }
    r
}

/// The text of the resonance panel: the listed findings of the own signal and of the group.
pub fn format_resonance_text(own: &Vec<Finding>, group: &Vec<Finding>) -> (r: String)
    ensures
        r@ == resonance_panel(own@, group@),
{
    if own.len() == 0 && group.len() == 0 {
        return "No resonances detected".to_owned();
    }
    let mut lines: Vec<String> = Vec::new();
    let ghost first = own@.map_values(|f: Finding| own_line(f));
    let ghost second = group@.map_values(|f: Finding| group_line(f));
    for i in 0..own.len()
        invariant
            first == own@.map_values(|f: Finding| own_line(f)),
            texts(lines@) == first.take(i as int),
    {
        let ghost before = lines@;
        let line: String = write_own_line(&own[i]);
        lines.push(line);
        proof {
            assert(texts(lines@) =~= texts(before).push(first[i as int]));
            assert(first.take(i as int + 1) =~= first.take(i as int).push(first[i as int]));
        }
    }
    proof {
        assert(first.take(first.len() as int) == first);
        assert(second.take(0) =~= Seq::<Seq<char>>::empty());
        assert(first + second.take(0) =~= first);
    }
    for i in 0..group.len()
        invariant
            second == group@.map_values(|f: Finding| group_line(f)),
            texts(lines@) == first + second.take(i as int),
    {
        let ghost before = lines@;
        let line: String = write_group_line(&group[i]);
        lines.push(line);
        proof {
            assert(texts(lines@) =~= texts(before).push(second[i as int]));
            assert(first + second.take(i as int + 1) =~= (first + second.take(i as int)).push(
                second[i as int],
            ));
        }
    }
    proof {
        assert(second.take(second.len() as int) == second);
    }
    join(&lines, "\n")
}

/// The text of the masking panel: the listed areas.
pub fn format_masking_text(mode: i64, relays: usize, areas: &Vec<Finding>) -> (r: String)
    ensures
        r@ == masking_panel(mode, relays as nat, areas@),
{
    if mode == 0 {
        return "Standalone — no masking".to_owned();
    }
    if areas.len() == 0 || relays == 0 {
        return "No masking detected".to_owned();
    }
    let mut lines: Vec<String> = Vec::new();
    let ghost all = areas@.map_values(|f: Finding| area_line(f));
    for i in 0..areas.len()
        invariant
            all == areas@.map_values(|f: Finding| area_line(f)),
            texts(lines@) == all.take(i as int),
    {
        let ghost before = lines@;
        let line: String = write_area_line(&areas[i]);
        lines.push(line);
        proof {
            assert(texts(lines@) =~= texts(before).push(all[i as int]));
            assert(all.take(i as int + 1) =~= all.take(i as int).push(all[i as int]));
        }
    }
    proof {
        assert(all.take(all.len() as int) == all);
    }
    join(&lines, "\n")
}

/// Whether a character makes a plain YAML scalar unsafe.
pub open spec fn special(c: char) -> bool {
    c == ':' || c == '#' || c == '"' || c == '\'' || c == '\n'
}

/// Whether a name has to be quoted.
pub open spec fn needs_quotes(name: Seq<char>) -> bool {
    exists|i: int| 0 <= i < name.len() && special(#[trigger] name[i])
}

/// A text with a backslash before each double quote.
pub open spec fn escaped(s: Seq<char>) -> Seq<char>
    decreases s.len(),
{
    if s.len() == 0 {
        Seq::empty()
    } else if s.last() == '"' {
        escaped(s.drop_last()).push('\\').push('"')
    } else {
        escaped(s.drop_last()).push(s.last())
    }
}

/// A name as a YAML scalar.
pub open spec fn yaml_scalar(name: Seq<char>) -> Seq<char> {
    if needs_quotes(name) {
        seq!['"'] + escaped(name) + seq!['"']
    } else {
        name
    }
}

/// The name of an instance in its snapshot: its own, or that of the plugin where it has none.
pub open spec fn shown_name(name: Seq<char>) -> Seq<char> {
    if trimmed(name).len() == 0 {
        "Lucent"@
    } else {
        trimmed(name)
    }
}

/// The name as a YAML scalar.
pub fn yaml_name(name: &String) -> (r: String)
    ensures
        r@ == yaml_scalar(name@),
{
    let v: Vec<char> = chars_of(name.as_str());
    let mut quote: bool = false;
    let mut out: Vec<char> = Vec::new();
    proof {
        assert(v@.take(0) =~= Seq::<char>::empty());
    }
    for i in 0..v.len()
        invariant
            v@ == name@,
            out@ == escaped(v@.take(i as int)),
            quote == exists|k: int| 0 <= k < i && special(#[trigger] v@[k]),
    {
        let c: char = v[i];
        proof {
            assert(v@.take(i as int + 1).drop_last() == v@.take(i as int));
            assert(v@.take(i as int + 1).last() == c);
        }
        if c == '"' {
            out.push('\\');
        }
        out.push(c);
        if c == ':' || c == '#' || c == '"' || c == '\'' || c == '\n' {
            proof {
                assert(special(v@[i as int]));
            }
            quote = true;
        }
    }
    proof {
        assert(v@.take(v@.len() as int) == v@);
    }
    if quote {
        let mut r: String = String::new();
        r.push('"');
        r.append(string_of(&out).as_str());
        r.push('"');
        proof {
            assert(r@ =~= seq!['"'] + escaped(name@) + seq!['"']);
        }
        r
    } else {
        name.clone()
    }
}

/// The name of the instance in its snapshot.
pub fn snapshot_name(name: &String) -> (r: String)
    ensures
        r@ == shown_name(name@),
{
    let t: String = trim_string(name);
    if t.as_str().is_empty() {
        "Lucent".to_owned()
    } else {
        t
    }
}

/// A text with each backslash taken off that stands before a double quote.
pub open spec fn unescaped(s: Seq<char>) -> Seq<char>
    decreases s.len(),
{
    if s.len() == 0 {
        Seq::empty()
    } else if s.len() >= 2 && s.last() == '"' && s[s.len() - 2] == '\\' {
        unescaped(s.drop_last().drop_last()).push('"')
    } else {
        unescaped(s.drop_last()).push(s.last())
    }
}

/// A name without a backslash reads back from its quoted form.
pub proof fn law_quoted_names_read_back(name: Seq<char>)
    requires
        lacks(name, '\\'),
    ensures
        unescaped(escaped(name)) == name,
    decreases name.len(),
{
    if name.len() > 0 {
        let d = name.drop_last();
        assert(lacks(d, '\\')) by {
            assert forall|i: int| 0 <= i < d.len() implies #[trigger] d[i] != '\\' by {
                assert(d[i] == name[i]);
            }
        }
        law_quoted_names_read_back(d);
        let e = escaped(name);
        if name.last() == '"' {
            assert(e.drop_last().drop_last() =~= escaped(d));
            assert(e[e.len() - 2] == '\\');
        } else {
            assert(e.drop_last() =~= escaped(d));
            assert(name.last() == name[name.len() - 1]);
        }
        assert(d.push(name.last()) =~= name);
    } else {
        assert(unescaped(escaped(name)) =~= name);
    }
}

/// A row of the table of resonances for a finding of the own signal.
pub open spec fn own_row(name: Seq<char>, f: Finding) -> Seq<char> {
    "| Own ("@ + name + ") | "@ + f.hz@ + " | "@ + f.level@ + " | |"@
}

/// A row of the table of resonances for a finding of the group.
pub open spec fn group_row(f: Finding) -> Seq<char> {
    "| Group | "@ + f.hz@ + " | "@ + f.level@ + " | "@ + join_texts(texts(f.names@), ", "@)
        + " |"@
}

/// A row of the table of masking areas.
pub open spec fn area_row(f: Finding) -> Seq<char> {
    "| "@ + f.hz@ + " | "@ + f.level@ + " | "@ + join_texts(texts(f.names@), " / "@) + " |"@
}

/// The section of the resonances in a snapshot.
pub open spec fn resonance_section(
    name: Seq<char>,
    own: Seq<Finding>,
    group: Seq<Finding>,
) -> Seq<char> {
    if own.len() == 0 && group.len() == 0 {
        "_No resonances detected at current sensitivity._"@
    } else {
        "| Source | Hz | Score | Contributors |\n|--------|-----|-------|--------------|\n"@
            + join_texts(
            own.map_values(|f: Finding| own_row(name, f)) + group.map_values(
                |f: Finding| group_row(f),
            ),
            "\n"@,
        )
    }
}

/// The section of the masking areas in a snapshot.
pub open spec fn masking_section(mode: i64, areas: Seq<Finding>) -> Seq<char> {
    if mode == 0 {
        "_Standalone — no masking._"@
    } else if areas.len() == 0 {
        "_No masking areas detected at current sensitivity._"@
    } else {
        "| Hz | Amount (dB) | Maskers |\n|----|-------------|---------|\n"@ + join_texts(
            areas.map_values(|f: Finding| area_row(f)),
            "\n"@,
        )
    }
}

fn write_own_row(name: &String, f: &Finding) -> (r: String)
    ensures
        r@ == own_row(name@, *f),
{
    let mut r: String = "| Own (".to_owned();
    r.append(name.as_str());
    r.append(") | ");
    r.append(f.hz.as_str());
    r.append(" | ");
    r.append(f.level.as_str());
    r.append(" | |");
    r
}

fn write_group_row(f: &Finding) -> (r: String)
    ensures
        r@ == group_row(*f),
{
    let mut r: String = "| Group | ".to_owned();
    r.append(f.hz.as_str());
    r.append(" | ");
    r.append(f.level.as_str());
    r.append(" | ");
    r.append(join(&f.names, ", ").as_str());
    r.append(" |");
    r
}

fn write_area_row(f: &Finding) -> (r: String)
    ensures
        r@ == area_row(*f),
{
    let mut r: String = "| ".to_owned();
    r.append(f.hz.as_str());
    r.append(" | ");
    r.append(f.level.as_str());
    r.append(" | ");
    r.append(join(&f.names, " / ").as_str());
    r.append(" |");
    r
}

/// The section of the resonances in a snapshot.
fn write_resonance_section(name: &String, own: &Vec<Finding>, group: &Vec<Finding>) -> (r: String)
    ensures
        r@ == resonance_section(name@, own@, group@),
{
    if own.len() == 0 && group.len() == 0 {
        return "_No resonances detected at current sensitivity._".to_owned();
    }
    let mut rows: Vec<String> = Vec::new();
    let ghost first = own@.map_values(|f: Finding| own_row(name@, f));
    let ghost second = group@.map_values(|f: Finding| group_row(f));
    for i in 0..own.len()
        invariant
            first == own@.map_values(|f: Finding| own_row(name@, f)),
            texts(rows@) == first.take(i as int),
    {
        let ghost before = rows@;
        let row: String = write_own_row(name, &own[i]);
        rows.push(row);
        proof {
            assert(texts(rows@) =~= texts(before).push(first[i as int]));
            assert(first.take(i as int + 1) =~= first.take(i as int).push(first[i as int]));
        }
    }
    proof {
        assert(first.take(first.len() as int) == first);
        assert(first + second.take(0) =~= first);
    }
    for i in 0..group.len()
        invariant
            second == group@.map_values(|f: Finding| group_row(f)),
            texts(rows@) == first + second.take(i as int),
    {
        let ghost before = rows@;
        let row: String = write_group_row(&group[i]);
        rows.push(row);
        proof {
            assert(texts(rows@) =~= texts(before).push(second[i as int]));
            assert(first + second.take(i as int + 1) =~= (first + second.take(i as int)).push(
                second[i as int],
            ));
        }
    }
    proof {
        assert(second.take(second.len() as int) == second);
    }
    let mut r: String =
        "| Source | Hz | Score | Contributors |\n|--------|-----|-------|--------------|\n".to_owned();
    r.append(join(&rows, "\n").as_str());
    r
}

/// The section of the masking areas in a snapshot.
fn write_masking_section(mode: i64, areas: &Vec<Finding>) -> (r: String)
    ensures
        r@ == masking_section(mode, areas@),
{
    if mode == 0 {
        return "_Standalone — no masking._".to_owned();
    }
    if areas.len() == 0 {
        return "_No masking areas detected at current sensitivity._".to_owned();
    }
    let mut rows: Vec<String> = Vec::new();
    let ghost all = areas@.map_values(|f: Finding| area_row(f));
    for i in 0..areas.len()
        invariant
            all == areas@.map_values(|f: Finding| area_row(f)),
            texts(rows@) == all.take(i as int),
    {
        let ghost before = rows@;
        let row: String = write_area_row(&areas[i]);
        rows.push(row);
        proof {
            assert(texts(rows@) =~= texts(before).push(all[i as int]));
            assert(all.take(i as int + 1) =~= all.take(i as int).push(all[i as int]));
        }
    }
    proof {
        assert(all.take(all.len() as int) == all);
    }
    let mut r: String = "| Hz | Amount (dB) | Maskers |\n|----|-------------|---------|\n".to_owned();
    r.append(join(&rows, "\n").as_str());
    r
}

/// What a snapshot says of how to read it.
pub open spec fn snapshot_note() -> Seq<char> {
    "> Resonance score = detector strength (Sensitivity-gated). Masking dB = collision level after ERB smooth + persistence gate. Lists are **session max-hold** over analysis until SNAP (not one frame, not UI top-N). `name` = instance label from the Name field (multi-Lucent).\n\n"@
}

/// The snapshot file of Lucent.
pub open spec fn snapshot_text(
    name: Seq<char>,
    own: Seq<Finding>,
    group: Seq<Finding>,
    areas: Seq<Finding>,
    sample_rate: Seq<char>,
    sensitivity: Seq<char>,
    mode: i64,
) -> Seq<char> {
    let shown = shown_name(name);
    "---\nplugin: lucent\nname: "@ + yaml_scalar(shown) + "\ntype: snapshot\nsample_rate: "@
        + sample_rate + "\nanalyze_mode: "@ + mode_word(mode) + "\nsensitivity_pct: "@ + sensitivity
        + "\n---\n\n# Lucent Snapshot — "@ + shown + "\n\n"@ + snapshot_note()
        + "## Resonance\n"@ + resonance_section(shown, own, group) + "\n\n## Masking\n"@
        + masking_section(mode, areas) + "\n"@
}

/// The snapshot file of Lucent: all findings held, with the settings they were found with.
pub fn snap_markdown(
    instance_name: &String,
    own: &Vec<Finding>,
    group: &Vec<Finding>,
    areas: &Vec<Finding>,
    sample_rate: &str,
    sensitivity: &str,
    mode: i64,
) -> (r: String)
    ensures
        r@ == snapshot_text(
            instance_name@,
            own@,
            group@,
            areas@,
            sample_rate@,
            sensitivity@,
            mode,
        ),
{
    let name: String = snapshot_name(instance_name);
    let mut r: String = "---\nplugin: lucent\nname: ".to_owned();
    r.append(yaml_name(&name).as_str());
    r.append("\ntype: snapshot\nsample_rate: ");
    r.append(sample_rate);
    r.append("\nanalyze_mode: ");
    r.append(mode_name(mode).as_str());
    r.append("\nsensitivity_pct: ");
    r.append(sensitivity);
    r.append("\n---\n\n# Lucent Snapshot — ");
    r.append(name.as_str());
    r.append("\n\n");
    r.append(
        "> Resonance score = detector strength (Sensitivity-gated). Masking dB = collision level after ERB smooth + persistence gate. Lists are **session max-hold** over analysis until SNAP (not one frame, not UI top-N). `name` = instance label from the Name field (multi-Lucent).\n\n",
    );
    r.append("## Resonance\n");
    r.append(write_resonance_section(&name, own, group).as_str());
    r.append("\n\n## Masking\n");
    r.append(write_masking_section(mode, areas).as_str());
    r.append("\n");
    r
}

} // verus!
