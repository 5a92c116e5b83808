//! What holds of texts, of the names of files, of saved texts and of ticks.

use crate::saved_state::{fits, law_saved_texts_come_back, read_state, write_state};
use crate::snapshot::{
    highest_number, highest_snapshot, law_snapshot_names_are_new, read_snap_number, snap_filename,
    snap_mode, snap_name, snap_number, snap_source, snap_threshold, SnapMode, SnapSource, SnapState,
};
use crate::text::{
    all_digits, buffers, decimal, digit_char, find_digit, first_digit, first_place, has_prefix,
    has_text, is_text, is_white, join, join_texts, lemma_pieces_some, list_find, list_has,
    lower_text, names_equal, number_of, occurs_at, padded, padded_text, parse_u32, pieces,
    push_decimal, split, texts, trim, trim_string, trimmed, trimmed_back, trimmed_front, white,
    zeros,
};
use crate::ticker::{is_due, Ticker};
use crate::vault::{path_or_empty, vault_path_of};
use vstd::bytes::spec_u32_to_le_bytes;
use vstd::prelude::*;
use vstd::string::*;
use vstd::utf8::encode_utf8;

verus! {

/// The white space of Unicode, and nothing else, counts as white.
pub proof fn law_blanks_are_white(c: char, r: bool)
    requires
        call_ensures(is_white, (c,), r),
    ensures
        c == ' ' || c == '\t' || c == '\n' || c == '\r' ==> r,
        '!' <= c && c <= '~' ==> !r,
        c as u32 == 0xa0 || c as u32 == 0x3000 || 0x2000 <= c as u32 <= 0x200a ==> r,
        c as u32 == 0x200b || c as u32 == 0xfeff ==> !r,
{
}

proof fn lemma_front(s: Seq<char>) -> (a: int)
    ensures
        0 <= a <= s.len(),
        trimmed_front(s) == s.skip(a),
        forall|i: int| 0 <= i < a ==> white(#[trigger] s[i]),
        a < s.len() ==> !white(s[a]),
    decreases s.len(),
{
    if s.len() > 0 && white(s[0]) {
        let t = s.skip(1);
        let a = lemma_front(t);
        assert(t.skip(a) =~= s.skip(a + 1));
        assert forall|i: int| 0 <= i < a + 1 implies white(#[trigger] s[i]) by {
            if i > 0 {
                assert(t[i - 1] == s[i]);
            }
        }
        if a < t.len() {
            assert(t[a] == s[a + 1]);
        }
        a + 1
    } else {
        assert(s.skip(0) =~= s);
        0
    }
}

proof fn lemma_back(s: Seq<char>) -> (b: int)
    ensures
        0 <= b <= s.len(),
        trimmed_back(s) == s.take(b),
        forall|i: int| b <= i < s.len() ==> white(#[trigger] s[i]),
        b > 0 ==> !white(s[b - 1]),
    decreases s.len(),
{
    if s.len() > 0 && white(s.last()) {
        let t = s.drop_last();
        let b = lemma_back(t);
        assert(t.take(b) =~= s.take(b));
        assert forall|i: int| b <= i < s.len() implies white(#[trigger] s[i]) by {
            if i < t.len() {
                assert(t[i] == s[i]);
            }
        }
        b
    } else {
        assert(s.take(s.len() as int) =~= s);
        s.len() as int
    }
}

/// Whether one text is the other without the white space around it.
pub open spec fn cut_at(s: Seq<char>, r: Seq<char>, a: int, b: int) -> bool {
    &&& 0 <= a <= b <= s.len()
    &&& r == s.subrange(a, b)
    &&& forall|i: int| 0 <= i < a ==> white(#[trigger] s[i])
    &&& forall|i: int| b <= i < s.len() ==> white(#[trigger] s[i])
    &&& a < b ==> !white(s[a]) && !white(s[b - 1])
}

proof fn lemma_cut(s: Seq<char>)
    ensures
        exists|a: int, b: int| #[trigger] cut_at(s, trimmed(s), a, b),
{
    let a = lemma_front(s);
    let f = s.skip(a);
    let b = lemma_back(f);
    let r = trimmed(s);
    assert(r =~= s.subrange(a, a + b));
    assert forall|i: int| a + b <= i < s.len() implies white(#[trigger] s[i]) by {
        assert(f[i - a] == s[i]);
    }
    if b > 0 {
        assert(f[b - 1] == s[a + b - 1]);
        if a < s.len() {
            assert(!white(s[a]));
        }
    }
    assert(cut_at(s, r, a, a + b));
}

/// Trimming takes the white space off both ends and nothing else.
pub proof fn law_trimming_takes_only_white_space(s: &String, r: String, v: &Vec<char>, t: Vec<char>)
    requires
        call_ensures(trim_string, (s,), r),
        call_ensures(trim, (v,), t),
    ensures
        exists|a: int, b: int| #[trigger] cut_at(s@, r@, a, b),
        exists|a: int, b: int| #[trigger] cut_at(v@, t@, a, b),
{
    lemma_cut(s@);
    lemma_cut(v@);
}

/// The folder that a text names is the text without the white space around it.
pub proof fn law_a_folder_is_what_is_left(input: &String, r: Option<String>)
    requires
        call_ensures(vault_path_of, (input,), r),
    ensures
        r is Some ==> r->0@.len() > 0 && exists|a: int, b: int| #[trigger]
            cut_at(input@, r->0@, a, b),
        r is None ==> exists|a: int| #[trigger] cut_at(input@, Seq::empty(), a, a),
{
    lemma_cut(input@);
    let (a, b) = choose|a: int, b: int| #[trigger] cut_at(input@, trimmed(input@), a, b);
    if r is None {
        assert(trimmed(input@) =~= Seq::<char>::empty());
        assert(cut_at(input@, Seq::empty(), a, a));
    }
}

/// The folder as text: its characters, none where there is none.
pub proof fn law_no_folder_is_no_text(s: &Option<String>, r: String)
    requires
        call_ensures(path_or_empty, (s,), r),
    ensures
        *s is Some ==> r@ == (*s)->0@,
        *s is None ==> r@.len() == 0,
{
}

proof fn lemma_pieces(s: Seq<char>, sep: char)
    ensures
        join_texts(pieces(s, sep), seq![sep]) == s,
        forall|i: int, j: int|
            0 <= i < pieces(s, sep).len() && 0 <= j < pieces(s, sep)[i].len()
                ==> #[trigger] pieces(s, sep)[i][j] != sep,
    decreases s.len(),
{
    let p = pieces(s, sep);
    if s.len() == 0 {
        assert(join_texts(p, seq![sep]) =~= s);
    } else {
        let d = s.drop_last();
        lemma_pieces(d, sep);
        lemma_pieces_some(d, sep);
        let q = pieces(d, sep);
        if s.last() == sep {
            assert(p.drop_last() =~= q);
            assert(join_texts(p, seq![sep]) =~= s);
            assert forall|i: int, j: int| 0 <= i < p.len() && 0 <= j < p[i].len() implies
                #[trigger] p[i][j] != sep by {
                assert(p[i] == q[i]);
            }
        } else {
            assert(p.drop_last() =~= q.drop_last());
            assert(join_texts(p, seq![sep]) =~= join_texts(q, seq![sep]).push(s.last()));
            assert forall|i: int, j: int| 0 <= i < p.len() && 0 <= j < p[i].len() implies
                #[trigger] p[i][j] != sep by {
                if i < q.len() - 1 {
                    assert(p[i] == q[i]);
                    assert(q[i][j] != sep);
                } else if j < q.last().len() {
                    assert(q[q.len() - 1][j] != sep);
                }
            }
        }
    }
}

/// The parts of a text hold no separator, and joined by it they are the text.
pub proof fn law_parts_joined_are_the_text(v: &Vec<char>, sep: char, r: Vec<Vec<char>>, i: int, j: int)
    requires
        call_ensures(split, (v, sep), r),
    ensures
        join_texts(buffers(r@), seq![sep]) == v@,
        r@.len() > 0,
        0 <= i < r@.len() && 0 <= j < r@[i]@.len() ==> r@[i]@[j] != sep,
{
    lemma_pieces(v@, sep);
    lemma_pieces_some(v@, sep);
    assert(buffers(r@).len() == r@.len());
    if 0 <= i < r@.len() && 0 <= j < r@[i]@.len() {
        assert(buffers(r@)[i] == r@[i]@);
        assert(pieces(v@, sep)[i][j] != sep);
    }
}

/// Texts are joined with the separator between them and nowhere else.
pub proof fn law_a_separator_stands_between_texts(
    a: &Vec<String>,
    b: &Vec<String>,
    x: String,
    sep: &str,
    ra: String,
    rb: String,
)
    requires
        b@ == a@.push(x),
        call_ensures(join, (a, sep), ra),
        call_ensures(join, (b, sep), rb),
    ensures
        a@.len() == 0 ==> ra@.len() == 0 && rb@ == x@,
        a@.len() > 0 ==> rb@ == ra@ + sep@ + x@,
{
    assert(texts(b@) =~= texts(a@).push(x@));
    assert(texts(b@).drop_last() =~= texts(a@));
    if a@.len() == 0 {
        assert(texts(b@)[0] == x@);
    }
}

/// Capital letters become small ones; every other character stays.
pub proof fn law_only_capitals_become_small(v: &Vec<char>, r: Vec<char>, i: int)
    requires
        call_ensures(lower_text, (v,), r),
        0 <= i < v@.len(),
    ensures
        r@.len() == v@.len(),
        'A' <= v@[i] && v@[i] <= 'Z' ==> r@[i] as u32 == v@[i] as u32 + 32,
        !('A' <= v@[i] && v@[i] <= 'Z') ==> r@[i] == v@[i],
{
}

/// A text starts with a pattern, is a pattern and holds one, as its characters tell.
pub proof fn law_patterns_match_by_their_characters(
    v: &Vec<char>,
    pat: &str,
    prefix: bool,
    whole: bool,
    inside: bool,
    at: int,
)
    requires
        call_ensures(has_prefix, (v, pat), prefix),
        call_ensures(is_text, (v, pat), whole),
        call_ensures(has_text, (v, pat), inside),
    ensures
        prefix <==> pat@.len() <= v@.len() && forall|i: int|
            0 <= i < pat@.len() ==> #[trigger] v@[i] == pat@[i],
        whole <==> v@ == pat@,
        0 <= at <= v@.len() - pat@.len() && (forall|i: int|
            0 <= i < pat@.len() ==> #[trigger] v@[at + i] == pat@[i]) ==> inside,
        inside ==> pat@.len() <= v@.len(),
        pat@.len() > 0 && inside ==> v@.contains(pat@[0]),
{
    let n = pat@.len() as int;
    if pat@.len() <= v@.len() {
        assert forall|i: int| 0 <= i < n implies v@.take(n)[i] == #[trigger] v@[i] by {}
        if forall|i: int| 0 <= i < n ==> #[trigger] v@[i] == pat@[i] {
            assert(v@.take(n) =~= pat@);
        }
        if v@.take(n) == pat@ {
            assert forall|i: int| 0 <= i < n implies #[trigger] v@[i] == pat@[i] by {
                assert(v@.take(n)[i] == v@[i]);
            }
        }
    }
    if 0 <= at <= v@.len() - n && (forall|i: int|
        0 <= i < n ==> #[trigger] v@[at + i] == pat@[i]) {
        let sub = v@.subrange(at, at + n);
        assert forall|i: int| 0 <= i < n implies sub[i] == pat@[i] by {
            assert(v@[at + i] == pat@[i]);
        }
        assert(sub =~= pat@);
        assert(occurs_at(v@, pat@, at));
    }
    if inside && n > 0 {
        let p = choose|p: int| occurs_at(v@, pat@, p);
        assert(v@.subrange(p, p + n)[0] == v@[p]);
        assert(v@[p] == pat@[0]);
    }
}

proof fn lemma_digit(s: Seq<char>)
    ensures
        match first_digit(s) {
            Some(d) => exists|i: int|
                {
                    &&& 0 <= i < s.len()
                    &&& '0' <= #[trigger] s[i] && s[i] <= '9'
                    &&& d == s[i] as u32 - 48
                    &&& forall|k: int| 0 <= k < i ==> !('0' <= #[trigger] s[k] && s[k] <= '9')
                },
            None => forall|k: int| 0 <= k < s.len() ==> !('0' <= #[trigger] s[k] && s[k] <= '9'),
        },
    decreases s.len(),
{
    if s.len() > 0 {
        if '0' <= s[0] && s[0] <= '9' {
            assert('0' <= s[0]);
        } else {
            let t = s.skip(1);
            lemma_digit(t);
            match first_digit(t) {
                Some(d) => {
                    let i = choose|i: int|
                        {
                            &&& 0 <= i < t.len()
                            &&& '0' <= #[trigger] t[i] && t[i] <= '9'
                            &&& d == t[i] as u32 - 48
                            &&& forall|k: int|
                                0 <= k < i ==> !('0' <= #[trigger] t[k] && t[k] <= '9')
                        };
                    assert(s[i + 1] == t[i]);
                    assert forall|k: int| 0 <= k < i + 1 implies !('0' <= #[trigger] s[k] && s[k]
                        <= '9') by {
                        if k > 0 {
                            assert(t[k - 1] == s[k]);
                        }
                    }
                },
                None => {
                    assert forall|k: int| 0 <= k < s.len() implies !('0' <= #[trigger] s[k] && s[k]
                        <= '9') by {
                        if k > 0 {
                            assert(t[k - 1] == s[k]);
                        }
                    }
                },
            }
        }
    }
}

/// The digit that is found is the first one of the text.
pub proof fn law_the_first_digit_is_found(v: &Vec<char>, r: Option<usize>, k: int)
    requires
        call_ensures(find_digit, (v,), r),
    ensures
        r is Some ==> exists|i: int|
            {
                &&& 0 <= i < v@.len()
                &&& '0' <= #[trigger] v@[i] && v@[i] <= '9'
                &&& r->0 == v@[i] as u32 - 48
                &&& forall|m: int| 0 <= m < i ==> !('0' <= #[trigger] v@[m] && v@[m] <= '9')
            },
        r is None && 0 <= k < v@.len() ==> !('0' <= v@[k] && v@[k] <= '9'),
{
    lemma_digit(v@);
}

proof fn lemma_digits(n: nat)
    ensures
        decimal(n).len() > 0,
        all_digits(decimal(n)),
        number_of(decimal(n)) == n,
        decimal(n).len() > 1 ==> decimal(n)[0] != '0',
    decreases n,
{
    let s = decimal(n);
    if n < 10 {
        assert(s == seq![digit_char(n)]);
        assert(s.drop_last() == Seq::<char>::empty());
        assert(s.last() as u32 == 48 + n);
        assert(number_of(s.drop_last()) == 0);
    } else {
        lemma_digits(n / 10);
        let d = n % 10;
        assert(s.drop_last() == decimal(n / 10));
        assert(s.last() == digit_char(d));
        assert(digit_char(d) as u32 == 48 + d);
        assert forall|i: int| 0 <= i < s.len() implies '0' <= #[trigger] s[i] && s[i] <= '9' by {
            if i < s.len() - 1 {
                assert(s[i] == decimal(n / 10)[i]);
            }
        }
        assert(s[0] == decimal(n / 10)[0]);
        if decimal(n / 10).len() == 1 {
            let t = decimal(n / 10);
            if n / 10 >= 10 {
                lemma_digits(n / 100);
                assert(decimal(n / 10 / 10).len() >= 1);
                assert(t == decimal(n / 10 / 10).push(digit_char((n / 10) % 10)));
            }
            assert(t == seq![digit_char(n / 10)]);
            assert(digit_char(n / 10) as u32 == 48 + n / 10);
        }
    }
}

/// A number is appended as its digits, without zeros in front.
pub proof fn law_a_number_is_its_digits(s: &mut String, n: u64, u: ())
    requires
        call_ensures(push_decimal, (s, n), u),
    ensures
        exists|d: Seq<char>|
            {
                &&& final(s)@ == #[trigger] (old(s)@ + d)
                &&& d.len() > 0
                &&& all_digits(d)
                &&& number_of(d) == n
                &&& d.len() > 1 ==> d[0] != '0'
            },
{
    lemma_digits(n as nat);
    assert(final(s)@ == old(s)@ + decimal(n as nat));
}

proof fn lemma_zeros(k: nat, s: Seq<char>)
    ensures
        number_of(zeros(k) + s) == number_of(s),
    decreases s.len(), k,
{
    let t = zeros(k) + s;
    if s.len() == 0 {
        if k > 0 {
            lemma_zeros((k - 1) as nat, s);
            assert(t.drop_last() =~= zeros((k - 1) as nat) + s);
            assert(t.last() == '0');
        } else {
            assert(t =~= s);
        }
    } else {
        lemma_zeros(k, s.drop_last());
        assert(t.drop_last() =~= zeros(k) + s.drop_last());
        assert(t.last() == s.last());
    }
}

/// A number that is filled up keeps its value and has at least the width.
pub proof fn law_a_filled_number_keeps_its_value(n: u64, width: usize, r: String)
    requires
        call_ensures(padded_text, (n, width), r),
    ensures
        r@.len() >= width,
        all_digits(r@),
        number_of(r@) == n,
        r@.len() > width && r@.len() > 1 ==> r@[0] != '0',
{
    lemma_digits(n as nat);
    let d = decimal(n as nat);
    if d.len() < width {
        let z = zeros((width - d.len()) as nat);
        lemma_zeros((width - d.len()) as nat, d);
        assert forall|i: int| 0 <= i < r@.len() implies '0' <= #[trigger] r@[i] && r@[i] <= '9' by {
            if i < z.len() {
                assert(r@[i] == z[i]);
            } else {
                assert(r@[i] == d[i - z.len()]);
            }
        }
    }
}

/// A number is read from digits alone, with at most one plus in front.
pub proof fn law_only_digits_are_a_number(v: &Vec<char>, r: Option<u32>, i: int)
    requires
        call_ensures(parse_u32, (v,), r),
    ensures
        v@.len() == 0 ==> r is None,
        0 < i < v@.len() && !('0' <= v@[i] && v@[i] <= '9') ==> r is None,
        v@.len() > 0 && v@[0] != '+' && !('0' <= v@[0] && v@[0] <= '9') ==> r is None,
        v@.len() > 0 && all_digits(v@) && number_of(v@) <= u32::MAX ==> r == Some(
            number_of(v@) as u32,
        ),
        v@.len() > 1 && v@[0] == '+' && all_digits(v@.skip(1)) && number_of(v@.skip(1)) <= u32::MAX
            ==> r == Some(number_of(v@.skip(1)) as u32),
        v@.len() > 0 && all_digits(v@) && number_of(v@) > u32::MAX ==> r is None,
{
    if v@.len() > 0 && v@[0] == '+' {
        if 0 < i < v@.len() {
            assert(v@.skip(1)[i - 1] == v@[i]);
        }
        if all_digits(v@) {
            assert('0' <= v@[0]);
        }
    }
}

proof fn lemma_first(list: Seq<Seq<char>>, text: Seq<char>, n: nat)
    requires
        n <= list.len(),
    ensures
        match first_place(list, text, n) {
            Some(k) => 0 <= k < n && list[k] == text && forall|i: int|
                0 <= i < k ==> #[trigger] list[i] != text,
            None => forall|i: int| 0 <= i < n ==> #[trigger] list[i] != text,
        },
    decreases n,
{
    if n > 0 {
        lemma_first(list, text, (n - 1) as nat);
    }
}

/// A text is found at its first place in a list, and a list has it where it is found.
pub proof fn law_a_text_is_found_at_its_first_place(
    list: &Vec<String>,
    text: &String,
    place: Option<usize>,
    has: bool,
    i: int,
)
    requires
        call_ensures(list_find, (list, text), place),
        call_ensures(list_has, (list, text), has),
        0 <= i < list@.len(),
    ensures
        place is Some ==> place->0 < list@.len() && list@[place->0 as int]@ == text@,
        place is Some && i < place->0 ==> list@[i]@ != text@,
        place is None ==> list@[i]@ != text@,
        has == (place is Some),
{
    lemma_first(texts(list@), text@, list@.len());
    assert(texts(list@)[i] == list@[i]@);
    if place is Some {
        assert(texts(list@)[place->0 as int] == list@[place->0 as int]@);
    }
    if has {
        let k = choose|k: int| 0 <= k < texts(list@).len() && texts(list@)[k] == text@;
        assert(texts(list@)[k] == text@);
    }
}

/// Lists are equal where they are as long and hold the same texts in the same places.
pub proof fn law_lists_are_equal_by_their_texts(a: &Vec<String>, b: &Vec<String>, r: bool)
    requires
        call_ensures(names_equal, (a, b), r),
    ensures
        r <==> a@.len() == b@.len() && forall|i: int|
            0 <= i < a@.len() ==> (#[trigger] a@[i])@ == b@[i]@,
{
    let x = texts(a@);
    let y = texts(b@);
    assert(x.len() == a@.len() && y.len() == b@.len());
    if r {
        assert forall|i: int| 0 <= i < a@.len() implies (#[trigger] a@[i])@ == b@[i]@ by {
            assert(x[i] == y[i]);
        }
    }
    if a@.len() == b@.len() && forall|i: int|
        0 <= i < a@.len() ==> (#[trigger] a@[i])@ == b@[i]@ {
        assert forall|i: int| 0 <= i < x.len() implies x[i] == y[i] by {
            assert(a@[i]@ == b@[i]@);
        }
        assert(x =~= y);
    }
}

/// A tick is due once the interval has passed, never where the clock ran backwards, and the next
/// one counts from it.
pub proof fn law_ticks_wait_their_interval(
    last: u64,
    now: u64,
    interval: u64,
    due: bool,
    t: &mut Ticker,
    r: bool,
)
    requires
        call_ensures(is_due, (last, now, interval), due),
        call_ensures(Ticker::draw, (t, now), r),
        interval > 0,
    ensures
        due <==> now >= last + interval,
        old(t).interval_ns > 0 ==> (r <==> now >= old(t).last_ns + old(t).interval_ns),
        r ==> final(t).last_ns == now,
        !r ==> final(t).last_ns == old(t).last_ns,
        final(t).interval_ns == old(t).interval_ns,
{
}

/// The texts that are written are the texts that are read.
pub proof fn law_what_is_written_is_read(
    fields: &Vec<String>,
    bytes: Vec<u8>,
    data: &[u8],
    n: usize,
    r: Option<Vec<String>>,
    i: int,
)
    requires
        fields@.len() <= u32::MAX,
        forall|k: int| 0 <= k < fields@.len() ==> fits(#[trigger] fields@[k]@),
        call_ensures(write_state, (fields,), bytes),
        data@ == bytes@,
        n == fields@.len(),
        call_ensures(read_state, (data, n), r),
        0 <= i < fields@.len(),
    ensures
        r is Some,
        r->0@.len() == fields@.len(),
        r->0@[i]@ == fields@[i]@,
{
    let f = texts(fields@);
    assert forall|k: int| 0 <= k < f.len() implies fits(#[trigger] f[k]) by {
        assert(f[k] == fields@[k]@);
    }
    law_saved_texts_come_back(f);
    let g = texts(r->0@);
    assert(g == f);
    assert(g.len() == r->0@.len());
    assert(g[i] == r->0@[i]@);
    assert(f[i] == fields@[i]@);
}

/// The number of texts stands first, as four bytes; each text stands behind the length of its
/// field and its own length, in UTF-8.
pub proof fn law_a_text_stands_behind_its_lengths(
    a: &Vec<String>,
    b: &Vec<String>,
    x: String,
    ra: Vec<u8>,
    rb: Vec<u8>,
)
    requires
        b@ == a@.push(x),
        b@.len() <= u32::MAX,
        forall|k: int| 0 <= k < b@.len() ==> fits(#[trigger] b@[k]@),
        call_ensures(write_state, (a,), ra),
        call_ensures(write_state, (b,), rb),
    ensures
        ra@.len() >= 4,
        ra@.take(4) == spec_u32_to_le_bytes(a@.len() as u32),
        rb@.take(4) == spec_u32_to_le_bytes(b@.len() as u32),
        rb@.skip(4) == ra@.skip(4) + spec_u32_to_le_bytes((encode_utf8(x@).len() + 4) as u32)
            + spec_u32_to_le_bytes(encode_utf8(x@).len() as u32) + encode_utf8(x@),
{
    vstd::bytes::lemma_auto_spec_u32_to_from_le_bytes();
    let fa = texts(a@);
    let fb = texts(b@);
    assert(fb =~= fa.push(x@));
    assert(b@[b@.len() - 1] == x);
    lemma_fields_agree(fa, fb, fa.len());
    assert(fits(x@));
    let tail = spec_u32_to_le_bytes((encode_utf8(x@).len() + 4) as u32) + spec_u32_to_le_bytes(
        encode_utf8(x@).len() as u32,
    ) + encode_utf8(x@);
    assert(crate::saved_state::text_bytes(x@).len() == encode_utf8(x@).len() + 4);
    assert(crate::saved_state::field_bytes(x@) =~= tail);
    assert(ra@.take(4) =~= spec_u32_to_le_bytes(a@.len() as u32));
    assert(rb@.take(4) =~= spec_u32_to_le_bytes(b@.len() as u32));
    assert(rb@.skip(4) =~= ra@.skip(4) + tail);
    assert(ra@.skip(4) + tail =~= ra@.skip(4) + spec_u32_to_le_bytes(
        (encode_utf8(x@).len() + 4) as u32,
    ) + spec_u32_to_le_bytes(encode_utf8(x@).len() as u32) + encode_utf8(x@));
}

proof fn lemma_fields_agree(a: Seq<Seq<char>>, b: Seq<Seq<char>>, n: nat)
    requires
        n <= a.len(),
        n <= b.len(),
        forall|i: int| 0 <= i < n ==> a[i] == b[i],
    ensures
        crate::saved_state::fields_bytes(a, n) == crate::saved_state::fields_bytes(b, n),
    decreases n,
{
    if n > 0 {
        lemma_fields_agree(a, b, (n - 1) as nat);
        assert(a[n - 1] == b[n - 1]);
    }
}

/// Each phase of a capture takes its signal, for its number of frames, as its spectrum.
pub proof fn law_each_phase_has_its_spectrum(
    phase: u32,
    source: SnapSource,
    frames: u32,
    mode: SnapMode,
)
    requires
        call_ensures(snap_source, (phase,), source),
        call_ensures(snap_threshold, (phase,), frames),
        call_ensures(snap_mode, (phase,), mode),
    ensures
        phase == 0 ==> source == SnapSource::Idle,
        phase == 1 ==> source == SnapSource::Sum && frames == 60 && mode == SnapMode::Stereo,
        phase == 2 ==> source == SnapSource::Sum && frames == 30 && mode == SnapMode::Mono,
        phase == 3 ==> source == SnapSource::Difference && frames == 30 && mode == SnapMode::Delta,
        phase > 3 ==> source == SnapSource::Silence,
{
}

/// A complete phase gives its spectrum and leads on; the third ends the capture.
pub proof fn law_a_phase_leads_to_the_next(s: &mut SnapState, r: SnapMode)
    requires
        call_ensures(SnapState::captured, (s,), r),
    ensures
        old(s).phase < 3 ==> final(s).phase == old(s).phase + 1 && final(s).active == old(s).active,
        old(s).phase >= 3 ==> final(s).phase == 0 && !final(s).active,
        old(s).phase == 1 ==> r == SnapMode::Stereo,
        old(s).phase == 2 ==> r == SnapMode::Mono,
        old(s).phase == 3 ==> r == SnapMode::Delta,
{
}

/// A snapshot file is named `SNAPSHOT-`, its number with at least three digits, and `.md`.
pub proof fn law_snapshot_files_have_their_names(name: &String, r: Option<u32>)
    requires
        call_ensures(read_snap_number, (name,), r),
    ensures
        r is Some ==> name@.len() > 12 && name@.take(9) == "SNAPSHOT-"@ && name@.skip(
            name@.len() - 3,
        ) == ".md"@,
        name@.len() > 12 && name@.take(9) == "SNAPSHOT-"@ && name@.skip(name@.len() - 3) == ".md"@
            && all_digits(name@.subrange(9, name@.len() - 3)) && number_of(
            name@.subrange(9, name@.len() - 3),
        ) <= u32::MAX ==> r == Some(number_of(name@.subrange(9, name@.len() - 3)) as u32),
{
    reveal_strlit("SNAPSHOT-");
    reveal_strlit(".md");
    let n = name@.len() as int;
    if n >= 12 {
        assert(name@.skip(n - 3) =~= name@.subrange(n - 3, n));
        let d = name@.subrange(9, n - 3);
        if n > 12 && all_digits(d) {
            assert('0' <= d[0]);
        }
    }
}

proof fn lemma_highest(names: Seq<Seq<char>>)
    ensures
        forall|i: int|
            0 <= i < names.len() && snap_number(#[trigger] names[i]) is Some ==> snap_number(
                names[i],
            )->0 <= highest_number(names),
        highest_number(names) == 0 || exists|i: int|
            0 <= i < names.len() && snap_number(#[trigger] names[i]) == Some(highest_number(names)),
    decreases names.len(),
{
    if names.len() > 0 {
        let d = names.drop_last();
        lemma_highest(d);
        assert forall|i: int|
            0 <= i < names.len() && snap_number(#[trigger] names[i]) is Some implies snap_number(
            names[i],
        )->0 <= highest_number(names) by {
            if i < d.len() {
                assert(d[i] == names[i]);
            }
        }
        if highest_number(names) != 0 {
            if highest_number(names) == highest_number(d) {
                let i = choose|i: int|
                    0 <= i < d.len() && snap_number(#[trigger] d[i]) == Some(highest_number(d));
                assert(names[i] == d[i]);
            } else {
                assert(snap_number(names[names.len() - 1]) == Some(highest_number(names)));
            }
        }
    }
}

/// The highest number is that of a file that is there, and no file has a higher one; the next
/// snapshot has a name of its own, with the number behind it.
pub proof fn law_the_next_snapshot_follows_the_highest(
    names: &Vec<String>,
    highest: u32,
    next: String,
    i: int,
    number: Option<u32>,
)
    requires
        call_ensures(highest_snapshot, (names,), highest),
        highest < u32::MAX,
        call_ensures(snap_filename, (names,), next),
        0 <= i < names@.len(),
        call_ensures(read_snap_number, (&names@[i], ), number),
    ensures
        number is Some ==> number->0 <= highest,
        next@ != names@[i]@,
        next@ == "SNAPSHOT-"@ + padded((highest + 1) as nat, 3) + ".md"@,
        highest == 0 || exists|k: int|
            0 <= k < names@.len() && snap_number((#[trigger] names@[k])@) == Some(highest),
{
    let all = texts(names@);
    lemma_highest(all);
    assert(all[i] == names@[i]@);
    law_snapshot_names_are_new(all);
    assert(next@ == snap_name((highest_number(all) + 1) as nat));
    if highest != 0 {
        let k = choose|k: int|
            0 <= k < all.len() && snap_number(#[trigger] all[k]) == Some(highest_number(all));
        assert(all[k] == names@[k]@);
    }
}

} // verus!
