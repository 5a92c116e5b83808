//! What is saved as a preset document is read back from it.

use crate::aether_preset::{
    band_index, band_lines, band_name, complete, draft_with, drafted, header_lines, joined,
    key_in_range, key_of, lemma_draft_shape, line_row, profile_lines, profile_of, realism_code,
    row_line, rows_in_range, rows_of, rows_of_lines, start_band, start_draft, type_code,
    warning_line, Band, BandTexts, DraftModel, PresetKey, ProfileModel, ProfileTexts,
};
use crate::level::Level;
use crate::text::{
    decimal, digit_char, digit_value, first_digit, lacks, lemma_lacks_pattern, lemma_pieces_join,
    lemma_pieces_whole, lemma_trim_spaced, lemma_trim_tidy, lower, lowered, occurs_at, pieces,
    starts_with, tidy, trimmed, white,
};
use vstd::prelude::*;
use vstd::string::*;

verus! {

/// A text that fits into a cell of a table: on one line, without a bar, without white
/// space at its ends.
pub open spec fn cell(s: Seq<char>) -> bool {
    lacks(s, '|') && lacks(s, '\n') && tidy(s)
}

proof fn lemma_lines_apart(lines: Seq<Seq<char>>)
    requires
        forall|i: int| 0 <= i < lines.len() ==> lacks(#[trigger] lines[i], '\n'),
    ensures
        pieces(joined(lines), '\n') == lines.push(Seq::empty()),
    decreases lines.len(),
{
    if lines.len() > 0 {
        let d = lines.drop_last();
        assert forall|i: int| 0 <= i < d.len() implies lacks(#[trigger] d[i], '\n') by {
            assert(d[i] == lines[i]);
        }
        lemma_lines_apart(d);
        let last = lines.last();
        assert(last == lines[lines.len() - 1]);
        lemma_pieces_whole(last, '\n');
        let x = joined(d) + last;
        let e = Seq::<char>::empty();
        lemma_pieces_whole(e, '\n');
        lemma_pieces_join(x, '\n', e);
        assert(joined(lines) == x + seq!['\n'] + e);
        if d.len() > 0 {
            let y = joined(d.drop_last()) + d.last();
            lemma_pieces_join(y, '\n', e);
            assert(joined(d) == y + seq!['\n'] + e);
            assert(pieces(y, '\n') + seq![e] == d.push(e));
            assert((pieces(y, '\n') + seq![e]).drop_last() == pieces(y, '\n'));
            assert(d.push(e).drop_last() == d);
            lemma_pieces_join(y, '\n', last);
            assert(x == y + seq!['\n'] + last);
            assert(pieces(x, '\n') =~= lines);
        } else {
            assert(x == last);
            assert(pieces(x, '\n') =~= lines);
        }
        assert(pieces(joined(lines), '\n') =~= lines.push(e));
    } else {
        assert(pieces(joined(lines), '\n') =~= lines.push(Seq::empty()));
    }
}

/// A document made of lines is read line by line.
pub proof fn law_document_reads_by_line(lines: Seq<Seq<char>>)
    requires
        forall|i: int| 0 <= i < lines.len() ==> lacks(#[trigger] lines[i], '\n'),
    ensures
        rows_of(joined(lines)) == rows_of_lines(lines),
{
    lemma_lines_apart(lines);
    let e = Seq::<char>::empty();
    lemma_trim_tidy(e);
    assert(lines.push(e).drop_last() == lines);
    assert(lines.push(e).last() == e);
}

proof fn lemma_rows_push(lines: Seq<Seq<char>>, line: Seq<char>)
    ensures
        rows_of_lines(lines.push(line)) == match line_row(trimmed(line)) {
            Some(row) => rows_of_lines(lines).push(row),
            None => rows_of_lines(lines),
        },
{
    assert(lines.push(line).drop_last() == lines);
}

/// The parts of a row between the bars.
proof fn lemma_row_parts(name: Seq<char>, value: Seq<char>, unit: Seq<char>)
    requires
        cell(name),
        cell(value),
        lacks(unit, '|'),
    ensures
        ({
            let line = row_line(name, value, " |"@ + unit + "|"@);
            &&& tidy(line)
            &&& line.len() > 0
            &&& line[0] == '|'
            &&& pieces(line, '|') == seq![
                Seq::<char>::empty(),
                seq![' '] + name + seq![' '],
                seq![' '] + value + seq![' '],
                unit,
                Seq::<char>::empty(),
            ]
        }),
{
    reveal_strlit("| ");
    reveal_strlit(" | ");
    reveal_strlit(" |");
    reveal_strlit("|");
    let line = row_line(name, value, " |"@ + unit + "|"@);
    let e = Seq::<char>::empty();
    let n = seq![' '] + name + seq![' '];
    let v = seq![' '] + value + seq![' '];
    let r3 = unit + seq!['|'] + e;
    let r2 = v + seq!['|'] + r3;
    let r1 = n + seq!['|'] + r2;
    assert(line =~= e + seq!['|'] + r1);
    assert(lacks(n, '|')) by {
        assert forall|i: int| 0 <= i < n.len() implies #[trigger] n[i] != '|' by {
            if 0 < i < n.len() - 1 {
                assert(n[i] == name[i - 1]);
            }
        }
    }
    assert(lacks(v, '|')) by {
        assert forall|i: int| 0 <= i < v.len() implies #[trigger] v[i] != '|' by {
            if 0 < i < v.len() - 1 {
                assert(v[i] == value[i - 1]);
            }
        }
    }
    lemma_pieces_whole(e, '|');
    lemma_pieces_whole(n, '|');
    lemma_pieces_whole(v, '|');
    lemma_pieces_whole(unit, '|');
    lemma_pieces_join(unit, '|', e);
    lemma_pieces_join(v, '|', r3);
    lemma_pieces_join(n, '|', r2);
    lemma_pieces_join(e, '|', r1);
    assert(line.last() == '|');
    assert(pieces(line, '|') =~= seq![e, n, v, unit, e]);
}

/// A row of the table sets what its name says to the text of its value.
pub proof fn law_row_reads_back(name: Seq<char>, value: Seq<char>, unit: Seq<char>)
    requires
        cell(name),
        cell(value),
        lacks(unit, '|'),
    ensures
        line_row(trimmed(row_line(name, value, " |"@ + unit + "|"@))) == match key_of(name) {
            Some(key) => Some((key, value)),
            None => None,
        },
{
    let line = row_line(name, value, " |"@ + unit + "|"@);
    lemma_row_parts(name, value, unit);
    lemma_trim_tidy(line);
    lemma_trim_spaced(name);
    lemma_trim_spaced(value);
    let parts = pieces(line, '|');
    assert(parts.len() == 5);
    assert(parts[1] == seq![' '] + name + seq![' ']);
    assert(parts[2] == seq![' '] + value + seq![' ']);
}

/// The lower case name of a row of a band, spelled out.
proof fn lemma_band_prefix(b: nat, what: Seq<char>)
    requires
        b < 5,
    ensures
        ({
            let name = band_name(b, what);
            let s = lowered(name);
            &&& name == seq!['E', 'Q', digit_char(b + 1)] + what
            &&& s == seq!['e', 'q', digit_char(b + 1)] + lowered(what)
            &&& starts_with(s, "eq"@)
            &&& first_digit(s) == Some(b + 1)
            &&& band_index(b + 1) == b
            &&& '1' <= digit_char(b + 1) <= '5'
        }),
{
    reveal_strlit("EQ");
    reveal_strlit("eq");
    let name = band_name(b, what);
    let s = lowered(name);
    assert(decimal(b + 1) == seq![digit_char(b + 1)]);
    assert(name =~= seq!['E', 'Q', digit_char(b + 1)] + what);
    assert(s =~= seq!['e', 'q', digit_char(b + 1)] + lowered(what));
    assert(s.take(2) =~= "eq"@);
    assert(digit_value(s[0]) is None);
    assert(s.skip(1)[0] == s[1]);
    assert(digit_value(s[1]) is None);
    assert(s.skip(1).skip(1)[0] == s[2]);
    assert(digit_value(s[2]) == Some(b + 1));
    assert(first_digit(s) == first_digit(s.skip(1)));
    assert(first_digit(s.skip(1)) == first_digit(s.skip(1).skip(1)));
}

proof fn lemma_key_type(b: nat)
    requires
        b < 5,
    ensures
        cell(band_name(b, " Type"@)),
        key_of(band_name(b, " Type"@)) == Some(PresetKey::BandType(b as usize)),
{
    reveal_strlit(" Type");
    reveal_strlit("type");
    lemma_band_prefix(b, " Type"@);
    let name = band_name(b, " Type"@);
    let s = lowered(name);
    assert(name[3] == ' ' && name[4] == 'T' && name[5] == 'y' && name[6] == 'p'
        && name[7] == 'e');
    assert(s.subrange(4, 8) =~= "type"@);
    assert(occurs_at(s, "type"@, 4));
}

proof fn lemma_key_freq(b: nat)
    requires
        b < 5,
    ensures
        cell(band_name(b, " Freq"@)),
        key_of(band_name(b, " Freq"@)) == Some(PresetKey::BandFreq(b as usize)),
{
    reveal_strlit(" Freq");
    reveal_strlit("freq");
    reveal_strlit("type");
    lemma_band_prefix(b, " Freq"@);
    let name = band_name(b, " Freq"@);
    let s = lowered(name);
    assert(name[3] == ' ' && name[4] == 'F' && name[5] == 'r' && name[6] == 'e'
        && name[7] == 'q');
    assert(s.subrange(4, 8) =~= "freq"@);
    assert(occurs_at(s, "freq"@, 4));
    lemma_lacks_pattern(s, "type"@);
}

proof fn lemma_key_gain(b: nat)
    requires
        b < 5,
    ensures
        cell(band_name(b, " Gain"@)),
        key_of(band_name(b, " Gain"@)) == Some(PresetKey::BandGain(b as usize)),
{
    reveal_strlit(" Gain");
    reveal_strlit("gain");
    reveal_strlit("freq");
    reveal_strlit("type");
    lemma_band_prefix(b, " Gain"@);
    let name = band_name(b, " Gain"@);
    let s = lowered(name);
    assert(name[3] == ' ' && name[4] == 'G' && name[5] == 'a' && name[6] == 'i'
        && name[7] == 'n');
    assert(s.subrange(4, 8) =~= "gain"@);
    assert(occurs_at(s, "gain"@, 4));
    lemma_lacks_pattern(s, "type"@);
    lemma_lacks_pattern(s, "freq"@);
}

proof fn lemma_key_q(b: nat)
    requires
        b < 5,
    ensures
        cell(band_name(b, " Q"@)),
        key_of(band_name(b, " Q"@)) == Some(PresetKey::BandQ(b as usize)),
{
    reveal_strlit(" Q");
    reveal_strlit("gain");
    reveal_strlit("freq");
    reveal_strlit("type");
    lemma_band_prefix(b, " Q"@);
    let name = band_name(b, " Q"@);
    let s = lowered(name);
    assert(name[3] == ' ' && name[4] == 'Q');
    lemma_lacks_pattern(s, "type"@);
    lemma_lacks_pattern(s, "freq"@);
    lemma_lacks_pattern(s, "gain"@);
}

proof fn lemma_key_rest()
    ensures
        cell("Crossfeed Angle"@),
        cell("Crossfeed Amount"@),
        cell("Crossfeed Realism"@),
        cell("Blend"@),
        cell("Gain"@),
        key_of("Crossfeed Angle"@) == Some(PresetKey::CfAngle),
        key_of("Crossfeed Amount"@) == Some(PresetKey::CfAmount),
        key_of("Crossfeed Realism"@) == Some(PresetKey::CfRealism),
        key_of("Blend"@) == Some(PresetKey::Blend),
        key_of("Gain"@) == Some(PresetKey::Gain),
{
    reveal_strlit("eq");
    reveal_strlit("Crossfeed Angle");
    reveal_strlit("Crossfeed Amount");
    reveal_strlit("Crossfeed Realism");
    reveal_strlit("Blend");
    reveal_strlit("Gain");
    reveal_strlit("crossfeed angle");
    reveal_strlit("crossfeed amount");
    reveal_strlit("crossfeed realism");
    reveal_strlit("blend");
    reveal_strlit("gain");
    lemma_not_eq(lowered("Crossfeed Angle"@));
    lemma_not_eq(lowered("Crossfeed Amount"@));
    lemma_not_eq(lowered("Crossfeed Realism"@));
    lemma_not_eq(lowered("Blend"@));
    lemma_not_eq(lowered("Gain"@));
    assert(lowered("Crossfeed Angle"@) =~= "crossfeed angle"@);
    assert(lowered("Crossfeed Amount"@) =~= "crossfeed amount"@);
    assert(lowered("Crossfeed Realism"@) =~= "crossfeed realism"@);
    assert(lowered("Blend"@) =~= "blend"@);
    assert(lowered("Gain"@) =~= "gain"@);
    assert("crossfeed amount"@ != "crossfeed angle"@) by {
        assert("crossfeed amount"@.len() != "crossfeed angle"@.len());
    }
    assert("crossfeed realism"@ != "crossfeed angle"@ && "crossfeed realism"@
        != "crossfeed amount"@) by {
        assert("crossfeed realism"@.len() == 17);
    }
    assert("blend"@.len() == 5 && "gain"@.len() == 4);
}

proof fn lemma_not_eq(s: Seq<char>)
    requires
        s.len() > 0,
        s[0] != 'e',
    ensures
        !starts_with(s, "eq"@),
{
    reveal_strlit("eq");
    if starts_with(s, "eq"@) {
        assert(s.take(2)[0] == s[0]);
    }
}

/// Whether a tail closes a row: it ends the value's cell and holds one more.
spec fn closes(tail: Seq<char>) -> bool {
    exists|unit: Seq<char>|
        #![trigger lacks(unit, '|')]
        lacks(unit, '|') && lacks(unit, '\n') && tail == " |"@ + unit + "|"@
}

proof fn lemma_tail(tail: Seq<char>, unit: Seq<char>)
    requires
        lacks(unit, '|'),
        lacks(unit, '\n'),
        tail == " |"@ + unit + "|"@,
    ensures
        closes(tail),
{
}

proof fn lemma_tails()
    ensures
        closes(" | |"@),
        closes(" | Hz |"@),
        closes(" | dB |"@),
        closes(" | % |"@),
        closes(" | ° |"@),
{
    reveal_strlit(" |");
    reveal_strlit("|");
    reveal_strlit(" | |");
    reveal_strlit(" | Hz |");
    reveal_strlit(" | dB |");
    reveal_strlit(" | % |");
    reveal_strlit(" | ° |");
    assert(" | |"@ =~= " |"@ + seq![' '] + "|"@);
    lemma_tail(" | |"@, seq![' ']);
    assert(" | Hz |"@ =~= " |"@ + seq![' ', 'H', 'z', ' '] + "|"@);
    lemma_tail(" | Hz |"@, seq![' ', 'H', 'z', ' ']);
    assert(" | dB |"@ =~= " |"@ + seq![' ', 'd', 'B', ' '] + "|"@);
    lemma_tail(" | dB |"@, seq![' ', 'd', 'B', ' ']);
    assert(" | % |"@ =~= " |"@ + seq![' ', '%', ' '] + "|"@);
    lemma_tail(" | % |"@, seq![' ', '%', ' ']);
    assert(" | ° |"@ =~= " |"@ + seq![' ', '°', ' '] + "|"@);
    lemma_tail(" | ° |"@, seq![' ', '°', ' ']);
}

/// A row is one line and sets its value.
proof fn lemma_row(name: Seq<char>, value: Seq<char>, tail: Seq<char>)
    requires
        cell(name),
        cell(value),
        closes(tail),
        key_of(name) is Some,
    ensures
        lacks(row_line(name, value, tail), '\n'),
        line_row(trimmed(row_line(name, value, tail))) == Some((key_of(name)->0, value)),
{
    let unit = choose|unit: Seq<char>|
        #![trigger lacks(unit, '|')]
        lacks(unit, '|') && lacks(unit, '\n') && tail == " |"@ + unit + "|"@;
    law_row_reads_back(name, value, unit);
    reveal_strlit("| ");
    reveal_strlit(" | ");
    reveal_strlit(" |");
    reveal_strlit("|");
    let line = row_line(name, value, tail);
    assert forall|i: int| 0 <= i < line.len() implies #[trigger] line[i] != '\n' by {
        let n = name.len() as int;
        let v = value.len() as int;
        if 2 <= i < 2 + n {
            assert(line[i] == name[i - 2]);
        } else if 5 + n <= i < 5 + n + v {
            assert(line[i] == value[i - 5 - n]);
        } else if 5 + n + v <= i {
            assert(line[i] == tail[i - 5 - n - v]);
            if 2 <= i - 5 - n - v < 2 + unit.len() {
                assert(line[i] == unit[i - 7 - n - v]);
            }
        }
    }
}

proof fn lemma_silent(lines: Seq<Seq<char>>)
    requires
        forall|i: int| 0 <= i < lines.len() ==> line_row(trimmed(#[trigger] lines[i])) is None,
    ensures
        rows_of_lines(lines) == Seq::<(PresetKey, Seq<char>)>::empty(),
    decreases lines.len(),
{
    if lines.len() > 0 {
        let d = lines.drop_last();
        assert forall|i: int| 0 <= i < d.len() implies line_row(
            trimmed(#[trigger] d[i]),
        ) is None by {
            assert(d[i] == lines[i]);
        }
        lemma_silent(d);
        assert(lines.last() == lines[lines.len() - 1]);
    }
}

proof fn lemma_plain_line(line: Seq<char>)
    requires
        tidy(line),
        line.len() > 0 ==> line[0] != '|' && line[0] != '#',
    ensures
        line_row(trimmed(line)) is None,
{
    lemma_trim_tidy(line);
}

/// The lines in front of the table set nothing.
proof fn lemma_header(full: bool)
    ensures
        rows_of_lines(header_lines(full)) == Seq::<(PresetKey, Seq<char>)>::empty(),
        forall|i: int| 0 <= i < header_lines(full).len() ==> lacks(#[trigger] header_lines(full)[i], '\n'),
{
    reveal_strlit("---");
    reveal_strlit("plugin: aether");
    reveal_strlit("type: preset");
    reveal_strlit("");
    reveal_strlit("> Warning: Do NOT modify column names or table structure.");
    reveal_strlit(
        "> Warning: Do NOT modify column names or table structure. Plugin requires exact format for import. Only the NUMBERS may be changed.",
    );
    reveal_strlit("## Parameter");
    lemma_plain_line("---"@);
    lemma_plain_line("plugin: aether"@);
    lemma_plain_line("type: preset"@);
    lemma_plain_line(""@);
    lemma_plain_line(warning_line(full));
    lemma_trim_tidy("## Parameter"@);
    lemma_table_head();
    lemma_table_rule();
    lemma_silent(header_lines(full));
}

proof fn lemma_table_head()
    ensures
        line_row(trimmed("| Parameter | Wert | Einheit |"@)) is None,
        lacks("| Parameter | Wert | Einheit |"@, '\n'),
{
    reveal_strlit("| Parameter | Wert | Einheit |");
    reveal_strlit("| ");
    reveal_strlit(" | ");
    reveal_strlit(" |");
    reveal_strlit("|");
    let name = seq!['P', 'a', 'r', 'a', 'm', 'e', 't', 'e', 'r'];
    let value = seq!['W', 'e', 'r', 't'];
    let unit = seq![' ', 'E', 'i', 'n', 'h', 'e', 'i', 't', ' '];
    assert("| Parameter | Wert | Einheit |"@ =~= row_line(name, value, " |"@ + unit + "|"@));
    law_row_reads_back(name, value, unit);
    let s = lowered(name);
    lemma_not_eq(s);
    reveal_strlit("crossfeed angle");
    reveal_strlit("crossfeed amount");
    reveal_strlit("crossfeed realism");
    reveal_strlit("blend");
    reveal_strlit("gain");
    assert(s.len() == 9);
}

proof fn lemma_table_rule()
    ensures
        line_row(trimmed("|---|---|---|"@)) is None,
        lacks("|---|---|---|"@, '\n'),
{
    reveal_strlit("|---|---|---|");
    let line = "|---|---|---|"@;
    let e = Seq::<char>::empty();
    let d = seq!['-', '-', '-'];
    lemma_trim_tidy(line);
    let r3 = d + seq!['|'] + e;
    let r2 = d + seq!['|'] + r3;
    let r1 = d + seq!['|'] + r2;
    assert(line =~= e + seq!['|'] + r1);
    lemma_pieces_whole(e, '|');
    lemma_pieces_whole(d, '|');
    lemma_pieces_join(d, '|', e);
    lemma_pieces_join(d, '|', r3);
    lemma_pieces_join(d, '|', r2);
    lemma_pieces_join(e, '|', r1);
    assert(pieces(line, '|') =~= seq![e, d, d, d, e]);
    assert(pieces(line, '|')[1] == d);
    lemma_trim_tidy(d);
    let s = lowered(d);
    lemma_not_eq(s);
    reveal_strlit("crossfeed angle");
    reveal_strlit("crossfeed amount");
    reveal_strlit("crossfeed realism");
    reveal_strlit("blend");
    reveal_strlit("gain");
    assert(s.len() == 3);
}

/// What the first `n` bands of a profile set.
pub open spec fn band_rows(bands: Seq<BandTexts>, n: nat) -> Seq<(PresetKey, Seq<char>)>
    decreases n,
{
    if n == 0 {
        Seq::empty()
    } else {
        let b = (n - 1) as nat;
        let t = bands[b as int];
        band_rows(bands, b).push((PresetKey::BandType(b as usize), t.kind@)).push(
            (PresetKey::BandFreq(b as usize), t.freq@),
        ).push((PresetKey::BandGain(b as usize), t.gain@)).push(
            (PresetKey::BandQ(b as usize), t.q@),
        )
    }
}

/// What a profile sets.
pub open spec fn profile_rows(t: ProfileTexts) -> Seq<(PresetKey, Seq<char>)> {
    band_rows(t.bands@, 5).push((PresetKey::CfAngle, t.cf_angle@)).push(
        (PresetKey::CfAmount, t.cf_amount@),
    ).push((PresetKey::CfRealism, t.cf_realism@)).push((PresetKey::Blend, t.blend@)).push(
        (PresetKey::Gain, t.gain@),
    )
}

/// Whether every setting fits into a cell of the table, and there are five bands.
pub open spec fn fits(t: ProfileTexts) -> bool {
    &&& t.bands@.len() == 5
    &&& forall|b: int|
        0 <= b < 5 ==> cell((#[trigger] t.bands@[b]).kind@) && cell(t.bands@[b].freq@) && cell(
            t.bands@[b].gain@,
        ) && cell(t.bands@[b].q@)
    &&& cell(t.cf_angle@)
    &&& cell(t.cf_amount@)
    &&& cell(t.cf_realism@)
    &&& cell(t.blend@)
    &&& cell(t.gain@)
}

/// Whether every line is one line and all of them together set the rows.
spec fn reads(lines: Seq<Seq<char>>, rows: Seq<(PresetKey, Seq<char>)>) -> bool {
    &&& rows_of_lines(lines) == rows
    &&& forall|i: int| 0 <= i < lines.len() ==> lacks(#[trigger] lines[i], '\n')
}

proof fn lemma_reads_push(
    lines: Seq<Seq<char>>,
    rows: Seq<(PresetKey, Seq<char>)>,
    name: Seq<char>,
    value: Seq<char>,
    tail: Seq<char>,
)
    requires
        reads(lines, rows),
        cell(name),
        cell(value),
        closes(tail),
        key_of(name) is Some,
    ensures
        reads(lines.push(row_line(name, value, tail)), rows.push((key_of(name)->0, value))),
{
    let line = row_line(name, value, tail);
    lemma_row(name, value, tail);
    lemma_rows_push(lines, line);
    assert forall|i: int| 0 <= i < lines.push(line).len() implies lacks(
        #[trigger] lines.push(line)[i],
        '\n',
    ) by {
        if i < lines.len() {
            assert(lines.push(line)[i] == lines[i]);
        }
    }
}

proof fn lemma_bands_read(t: ProfileTexts, full: bool, n: nat)
    requires
        fits(t),
        n <= 5,
    ensures
        reads(header_lines(full) + band_lines(t.bands@, n), band_rows(t.bands@, n)),
    decreases n,
{
    lemma_header(full);
    lemma_tails();
    if n == 0 {
        assert(header_lines(full) + band_lines(t.bands@, 0) =~= header_lines(full));
    } else {
        let b = (n - 1) as nat;
        lemma_bands_read(t, full, b);
        let x = t.bands@[b as int];
        let lines = header_lines(full) + band_lines(t.bands@, b);
        let rows = band_rows(t.bands@, b);
        lemma_key_type(b);
        lemma_key_freq(b);
        lemma_key_gain(b);
        lemma_key_q(b);
        let l1 = row_line(band_name(b, " Type"@), x.kind@, " | |"@);
        let l2 = row_line(band_name(b, " Freq"@), x.freq@, " | Hz |"@);
        let l3 = row_line(band_name(b, " Gain"@), x.gain@, " | dB |"@);
        let l4 = row_line(band_name(b, " Q"@), x.q@, " | |"@);
        let r1 = rows.push((PresetKey::BandType(b as usize), x.kind@));
        let r2 = r1.push((PresetKey::BandFreq(b as usize), x.freq@));
        let r3 = r2.push((PresetKey::BandGain(b as usize), x.gain@));
        lemma_reads_push(lines, rows, band_name(b, " Type"@), x.kind@, " | |"@);
        lemma_reads_push(lines.push(l1), r1, band_name(b, " Freq"@), x.freq@, " | Hz |"@);
        lemma_reads_push(lines.push(l1).push(l2), r2, band_name(b, " Gain"@), x.gain@, " | dB |"@);
        lemma_reads_push(
            lines.push(l1).push(l2).push(l3),
            r3,
            band_name(b, " Q"@),
            x.q@,
            " | |"@,
        );
        assert(header_lines(full) + band_lines(t.bands@, n) =~= lines.push(l1).push(l2).push(l3).push(
            l4,
        ));
    }
}

/// The document of a profile sets exactly the settings of the profile, in order.
pub proof fn law_document_holds_the_profile(t: ProfileTexts, full: bool)
    requires
        fits(t),
    ensures
        rows_of(joined(profile_lines(t, full))) == profile_rows(t),
{
    lemma_bands_read(t, full, 5);
    lemma_tails();
    lemma_key_rest();
    let l0 = header_lines(full) + band_lines(t.bands@, 5);
    let r0 = band_rows(t.bands@, 5);
    let l1 = l0.push(row_line("Crossfeed Angle"@, t.cf_angle@, " | ° |"@));
    let l2 = l1.push(row_line("Crossfeed Amount"@, t.cf_amount@, " | % |"@));
    let l3 = l2.push(row_line("Crossfeed Realism"@, t.cf_realism@, " | |"@));
    let l4 = l3.push(row_line("Blend"@, t.blend@, " | % |"@));
    let r1 = r0.push((PresetKey::CfAngle, t.cf_angle@));
    let r2 = r1.push((PresetKey::CfAmount, t.cf_amount@));
    let r3 = r2.push((PresetKey::CfRealism, t.cf_realism@));
    let r4 = r3.push((PresetKey::Blend, t.blend@));
    lemma_reads_push(l0, r0, "Crossfeed Angle"@, t.cf_angle@, " | ° |"@);
    lemma_reads_push(l1, r1, "Crossfeed Amount"@, t.cf_amount@, " | % |"@);
    lemma_reads_push(l2, r2, "Crossfeed Realism"@, t.cf_realism@, " | |"@);
    lemma_reads_push(l3, r3, "Blend"@, t.blend@, " | % |"@);
    lemma_reads_push(l4, r4, "Gain"@, t.gain@, " | dB |"@);
    law_document_reads_by_line(profile_lines(t, full));
}

/// Whether frequency, gain and quality of the band `b` were read as numbers.
pub open spec fn band_read(numbers: Seq<Option<Level>>, b: int) -> bool {
    numbers[4 * b + 1] is Some && numbers[4 * b + 2] is Some && numbers[4 * b + 3] is Some
}

/// Whether every row of a profile's document that holds a number was read as one.
pub open spec fn all_read(numbers: Seq<Option<Level>>) -> bool {
    &&& numbers.len() == 25
    &&& forall|b: int| 0 <= b < 5 ==> #[trigger] band_read(numbers, b)
    &&& numbers[20] is Some
    &&& numbers[21] is Some
    &&& numbers[23] is Some
    &&& numbers[24] is Some
}

/// The band `b` of a profile, from its texts and the numbers read from them.
pub open spec fn read_band(t: ProfileTexts, numbers: Seq<Option<Level>>, b: int) -> Band {
    (
        type_code(t.bands@[b].kind@),
        numbers[4 * b + 1]->0,
        numbers[4 * b + 2]->0,
        numbers[4 * b + 3]->0,
    )
}

/// A profile, from its texts and the numbers read from them.
pub open spec fn read_profile(t: ProfileTexts, numbers: Seq<Option<Level>>) -> ProfileModel {
    ProfileModel {
        name: Seq::empty(),
        bands: Seq::new(5, |b: int| read_band(t, numbers, b)),
        cf_angle: numbers[20]->0,
        cf_amount: numbers[21]->0,
        cf_realism: realism_code(t.cf_realism@),
        blend: numbers[23]->0,
        gain: numbers[24]->0,
    }
}

proof fn lemma_draft_push(
    rows: Seq<(PresetKey, Seq<char>)>,
    row: (PresetKey, Seq<char>),
    numbers: Seq<Option<Level>>,
)
    ensures
        drafted(rows.push(row), numbers) == draft_with(
            drafted(rows, numbers),
            row.0,
            row.1,
            numbers[rows.len() as int],
        ),
{
    assert(rows.push(row).drop_last() == rows);
}

proof fn lemma_bands_drafted(t: ProfileTexts, numbers: Seq<Option<Level>>, n: nat)
    requires
        t.bands@.len() == 5,
        all_read(numbers),
        n <= 5,
    ensures
        ({
            let d = drafted(band_rows(t.bands@, n), numbers);
            &&& band_rows(t.bands@, n).len() == 4 * n
            &&& d == DraftModel {
                profile: ProfileModel {
                    bands: Seq::new(
                        5,
                        |b: int|
                            if b < n {
                                read_band(t, numbers, b)
                            } else {
                                start_band()
                            },
                    ),
                    ..start_draft().profile
                },
                has_freq: Seq::new(5, |b: int| b < n),
                has_gain: Seq::new(5, |b: int| b < n),
            }
        }),
    decreases n,
{
    let want = |m: nat| Seq::new(
        5,
        |b: int|
            if b < m {
                read_band(t, numbers, b)
            } else {
                start_band()
            },
    );
    if n == 0 {
        let d = start_draft();
        assert(d.profile.bands =~= want(0));
        assert(d.has_freq =~= Seq::new(5, |b: int| b < 0));
        assert(d.has_gain =~= Seq::new(5, |b: int| b < 0));
    } else {
        let b = (n - 1) as nat;
        lemma_bands_drafted(t, numbers, b);
        let x = t.bands@[b as int];
        let r0 = band_rows(t.bands@, b);
        let r1 = r0.push((PresetKey::BandType(b as usize), x.kind@));
        let r2 = r1.push((PresetKey::BandFreq(b as usize), x.freq@));
        let r3 = r2.push((PresetKey::BandGain(b as usize), x.gain@));
        let r4 = r3.push((PresetKey::BandQ(b as usize), x.q@));
        assert(r4 == band_rows(t.bands@, n));
        assert(band_read(numbers, b as int));
        lemma_draft_push(r0, (PresetKey::BandType(b as usize), x.kind@), numbers);
        lemma_draft_push(r1, (PresetKey::BandFreq(b as usize), x.freq@), numbers);
        lemma_draft_push(r2, (PresetKey::BandGain(b as usize), x.gain@), numbers);
        lemma_draft_push(r3, (PresetKey::BandQ(b as usize), x.q@), numbers);
        let d = drafted(r4, numbers);
        assert(d.profile.bands =~= want(n));
        assert(d.has_freq =~= Seq::new(5, |k: int| k < n));
        assert(d.has_gain =~= Seq::new(5, |k: int| k < n));
    }
}

/// A profile saved as a document is the profile read from that document: the types and the
/// realism that its labels name, and each number as its text reads.
pub proof fn law_saved_profile_reads_back(t: ProfileTexts, full: bool, numbers: Seq<Option<Level>>)
    requires
        fits(t),
        all_read(numbers),
    ensures
        profile_of(rows_of(joined(profile_lines(t, full))), numbers) == Some(read_profile(t, numbers)),
{
    law_document_holds_the_profile(t, full);
    lemma_bands_drafted(t, numbers, 5);
    let r0 = band_rows(t.bands@, 5);
    let r1 = r0.push((PresetKey::CfAngle, t.cf_angle@));
    let r2 = r1.push((PresetKey::CfAmount, t.cf_amount@));
    let r3 = r2.push((PresetKey::CfRealism, t.cf_realism@));
    let r4 = r3.push((PresetKey::Blend, t.blend@));
    lemma_draft_push(r0, (PresetKey::CfAngle, t.cf_angle@), numbers);
    lemma_draft_push(r1, (PresetKey::CfAmount, t.cf_amount@), numbers);
    lemma_draft_push(r2, (PresetKey::CfRealism, t.cf_realism@), numbers);
    lemma_draft_push(r3, (PresetKey::Blend, t.blend@), numbers);
    lemma_draft_push(r4, (PresetKey::Gain, t.gain@), numbers);
    let d = drafted(profile_rows(t), numbers);
    assert(complete(d));
    assert(d.profile.bands =~= read_profile(t, numbers).bands);
}

/// Whether no row sets `key` to a text that reads as a number.
pub open spec fn never_set(
    rows: Seq<(PresetKey, Seq<char>)>,
    numbers: Seq<Option<Level>>,
    key: PresetKey,
) -> bool {
    forall|i: int| 0 <= i < rows.len() ==> (#[trigger] rows[i]).0 != key || numbers[i] is None
}

/// A document that leaves some band without a frequency or without a gain holds no profile.
pub proof fn law_unfinished_documents_hold_no_profile(
    rows: Seq<(PresetKey, Seq<char>)>,
    numbers: Seq<Option<Level>>,
    b: usize,
)
    requires
        b < 5,
        rows_in_range(rows),
        numbers.len() == rows.len(),
        never_set(rows, numbers, PresetKey::BandFreq(b)) || never_set(
            rows,
            numbers,
            PresetKey::BandGain(b),
        ),
    ensures
        profile_of(rows, numbers) is None,
{
    lemma_missing(rows, numbers, b);
    let d = drafted(rows, numbers);
    assert(!d.has_freq[b as int] || !d.has_gain[b as int]);
}

proof fn lemma_missing(
    rows: Seq<(PresetKey, Seq<char>)>,
    numbers: Seq<Option<Level>>,
    b: usize,
)
    requires
        b < 5,
        rows_in_range(rows),
        numbers.len() >= rows.len(),
    ensures
        never_set(rows, numbers, PresetKey::BandFreq(b)) ==> !drafted(
            rows,
            numbers,
        ).has_freq[b as int],
        never_set(rows, numbers, PresetKey::BandGain(b)) ==> !drafted(
            rows,
            numbers,
        ).has_gain[b as int],
    decreases rows.len(),
{
    if rows.len() > 0 {
        let d = rows.drop_last();
        assert forall|key: PresetKey| #[trigger] never_set(rows, numbers, key) implies never_set(
            d,
            numbers,
            key,
        ) by {
            assert forall|i: int| 0 <= i < d.len() implies (#[trigger] d[i]).0 != key
                || numbers[i] is None by {
                assert(d[i] == rows[i]);
            }
        }
        assert(rows_in_range(d));
        lemma_missing(d, numbers, b);
        lemma_draft_shape(d, numbers);
        let last = rows[rows.len() - 1];
        assert(rows.last() == last);
        assert(key_in_range(last.0));
    }
}

} // verus!
