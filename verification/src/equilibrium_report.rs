//! The snapshot file of Equilibrium.

use crate::text::{join, join_texts, texts};
use vstd::prelude::*;
use vstd::string::*;

verus! {

/// How many frequencies a spectrum is listed at.
pub const TABLE_ROWS: usize = 12;

/// What a snapshot shows, as text.
pub struct SnapTexts {
    pub peak_l: String,
    pub peak_r: String,
    pub correlation: String,
    /// The levels of the stereo spectrum at the listed frequencies.
    pub stereo: Vec<String>,
    /// The levels of the mono spectrum at the listed frequencies.
    pub mono: Vec<String>,
    /// The levels of the difference at the listed frequencies.
    pub delta: Vec<String>,
    /// The levels of the five bands.
    pub bands: Vec<String>,
}

/// The frequencies that a spectrum is listed at.
pub open spec fn frequencies() -> Seq<Seq<char>> {
    seq![
        "20"@,
        "40"@,
        "80"@,
        "160"@,
        "315"@,
        "630"@,
        "1k"@,
        "2k"@,
        "5k"@,
        "10k"@,
        "16k"@,
        "20k"@,
    ]
}

/// The frequency at a place of the list.
fn frequency(i: usize) -> (r: String)
    requires
        i < TABLE_ROWS,
    ensures
        r@ == frequencies()[i as int],
{
    let all: [&str; 12] = [
        "20",
        "40",
        "80",
        "160",
        "315",
        "630",
        "1k",
        "2k",
        "5k",
        "10k",
        "16k",
        "20k",
    ];
    all[i].to_owned()
}

/// A row of a spectrum's table.
pub open spec fn table_row(freq: Seq<char>, level: Seq<char>) -> Seq<char> {
    "| "@ + freq + " | "@ + level + " |"@
}

/// The rows of a spectrum's table.
pub open spec fn table_rows(levels: Seq<String>) -> Seq<Seq<char>> {
    Seq::new(TABLE_ROWS as nat, |i: int| table_row(frequencies()[i], levels[i]@))
}

/// The table of a spectrum.
fn write_table(levels: &Vec<String>) -> (r: String)
    requires
        levels.len() == TABLE_ROWS,
    ensures
        r@ == join_texts(table_rows(levels@), "\n"@),
{
    let mut rows: Vec<String> = Vec::new();
    let ghost all = table_rows(levels@);
    for i in 0..levels.len()
        invariant
            levels.len() == TABLE_ROWS,
            all == table_rows(levels@),
            texts(rows@) == all.take(i as int),
    {
        let ghost before = rows@;
        let mut row: String = "| ".to_owned();
        row.append(frequency(i).as_str());
        row.append(" | ");
        row.append(levels[i].as_str());
        row.append(" |");
        proof {
            assert(row@ == all[i as int]);
        }
        rows.push(row);
        proof {
            assert(texts(rows@) =~= texts(before).push(all[i as int]));
            assert(all.take(i as int + 1) =~= all.take(i as int).push(all[i as int]));
        }
    }
    proof {
        assert(all.take(all.len() as int) == all);
    }
    join(&rows, "\n")
}

/// The snapshot file of Equilibrium.
pub open spec fn snapshot_text(t: SnapTexts) -> Seq<char> {
    "---\nplugin: equilibrium\ntype: snapshot\n---\n\n# Equilibrium Snapshot\n\n## Signal\n| | L | R |\n|--|--|--|\n| Peak | "@
        + t.peak_l@ + " dB | "@ + t.peak_r@ + " dB |\n| Korrelation | "@ + t.correlation@
        + " | |\n\n## Spektrum — Stereo\n| Hz | dB |\n|----|-----|\n"@ + join_texts(
        table_rows(t.stereo@),
        "\n"@,
    ) + "\n\n## Spektrum — Mono\n| Hz | dB |\n|----|-----|\n"@ + join_texts(
        table_rows(t.mono@),
        "\n"@,
    ) + "\n\n## Delta\n| Hz | dB |\n|----|-----|\n"@ + join_texts(table_rows(t.delta@), "\n"@)
        + "\n\n## 5-Band\n| Band | Pegel |\n|------|-------|\n| Low | "@ + t.bands@[0]@
        + " dB |\n| Bass | "@ + t.bands@[1]@ + " dB |\n| Mid | "@ + t.bands@[2]@
        + " dB |\n| Hi-Mid | "@ + t.bands@[3]@ + " dB |\n| High | "@ + t.bands@[4]@ + " dB |\n"@
}

/// The snapshot file of Equilibrium.
pub fn snap_markdown(t: &SnapTexts) -> (r: String)
    requires
        t.stereo.len() == TABLE_ROWS,
        t.mono.len() == TABLE_ROWS,
        t.delta.len() == TABLE_ROWS,
        t.bands.len() == 5,
    ensures
        r@ == snapshot_text(*t),
{
    let mut r: String =
        "---\nplugin: equilibrium\ntype: snapshot\n---\n\n# Equilibrium Snapshot\n\n## Signal\n| | L | R |\n|--|--|--|\n| Peak | ".to_owned();
    r.append(t.peak_l.as_str());
    r.append(" dB | ");
    r.append(t.peak_r.as_str());
    r.append(" dB |\n| Korrelation | ");
    r.append(t.correlation.as_str());
    r.append(" | |\n\n## Spektrum — Stereo\n| Hz | dB |\n|----|-----|\n");
    r.append(write_table(&t.stereo).as_str());
    r.append("\n\n## Spektrum — Mono\n| Hz | dB |\n|----|-----|\n");
    r.append(write_table(&t.mono).as_str());
    r.append("\n\n## Delta\n| Hz | dB |\n|----|-----|\n");
    r.append(write_table(&t.delta).as_str());
    r.append("\n\n## 5-Band\n| Band | Pegel |\n|------|-------|\n| Low | ");
    r.append(t.bands[0].as_str());
    r.append(" dB |\n| Bass | ");
    r.append(t.bands[1].as_str());
    r.append(" dB |\n| Mid | ");
    r.append(t.bands[2].as_str());
    r.append(" dB |\n| Hi-Mid | ");
    r.append(t.bands[3].as_str());
    r.append(" dB |\n| High | ");
    r.append(t.bands[4].as_str());
    r.append(" dB |\n");
    r
}

/// The bin that stands for a frequency: the one it falls into, or the last one.
pub fn table_bin(bin: usize, bins: usize) -> (r: usize)
    requires
        bins > 0,
    ensures
        r == (if bin < bins {
            bin as int
        } else {
            bins - 1
        }),
        r < bins,
{
    if bin < bins {
        bin
    } else {
        bins - 1
    }
}

} // verus!
