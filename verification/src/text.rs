//! Text as sequences of characters: trimming, splitting, comparing without
//! regard to case, and decimal numbers.

use vstd::prelude::*;
use vstd::string::*;

verus! {

/// `String::push`: the string grows by the one character at its end.
pub assume_specification[ String::push ](s: &mut String, c: char)
    ensures
        final(s)@ == old(s)@.push(c),
;

/// The characters of each string of a list.
pub open spec fn texts(v: Seq<String>) -> Seq<Seq<char>> {
    v.map_values(|s: String| s@)
}

/// The characters of each buffer of a list.
pub open spec fn buffers(v: Seq<Vec<char>>) -> Seq<Seq<char>> {
    v.map_values(|s: Vec<char>| s@)
}

/// Whether a character has the Unicode property White_Space.
pub open spec fn white(c: char) -> bool {
    let n = c as u32;
    ||| 0x09 <= n <= 0x0d
    ||| n == 0x20
    ||| n == 0x85
    ||| n == 0xa0
    ||| n == 0x1680
    ||| 0x2000 <= n <= 0x200a
    ||| n == 0x2028
    ||| n == 0x2029
    ||| n == 0x202f
    ||| n == 0x205f
    ||| n == 0x3000
}

/// A text without the white space in front.
pub open spec fn trimmed_front(s: Seq<char>) -> Seq<char>
    decreases s.len(),
{
    if s.len() > 0 && white(s[0]) {
        trimmed_front(s.skip(1))
    } else {
        s
    }
}

/// A text without the white space at its end.
pub open spec fn trimmed_back(s: Seq<char>) -> Seq<char>
    decreases s.len(),
{
    if s.len() > 0 && white(s.last()) {
        trimmed_back(s.drop_last())
    } else {
        s
    }
}

/// A text without the white space at either end.
pub open spec fn trimmed(s: Seq<char>) -> Seq<char> {
    trimmed_back(trimmed_front(s))
}

/// The parts of a text between the occurrences of a separator.
pub open spec fn pieces(s: Seq<char>, sep: char) -> Seq<Seq<char>>
    decreases s.len(),
{
    if s.len() == 0 {
        seq![Seq::<char>::empty()]
    } else {
        let before = pieces(s.drop_last(), sep);
        if s.last() == sep {
            before.push(Seq::<char>::empty())
        } else {
            before.drop_last().push(before.last().push(s.last()))
        }
    }
}

/// A letter of `A` to `Z` as its small letter, any other character as it is.
pub open spec fn lower(c: char) -> char {
    if 'A' <= c && c <= 'Z' {
        (c as u32 + 32) as char
    } else {
        c
    }
}

/// A text with every letter of `A` to `Z` made small.
pub open spec fn lowered(s: Seq<char>) -> Seq<char> {
    s.map_values(|c: char| lower(c))
}

/// Whether a text starts with a pattern.
pub open spec fn starts_with(s: Seq<char>, pat: Seq<char>) -> bool {
    s.len() >= pat.len() && s.take(pat.len() as int) == pat
}

/// Whether a pattern occurs in a text at a position.
pub open spec fn occurs_at(s: Seq<char>, pat: Seq<char>, at: int) -> bool {
    0 <= at && at + pat.len() <= s.len() && s.subrange(at, at + pat.len()) == pat
}

/// Whether a pattern occurs in a text.
pub open spec fn contains(s: Seq<char>, pat: Seq<char>) -> bool {
    exists|at: int| occurs_at(s, pat, at)
}

/// The number that an ASCII digit stands for.
pub open spec fn digit_value(c: char) -> Option<nat> {
    if '0' <= c && c <= '9' {
        Some((c as u32 - 48) as nat)
    } else {
        None
    }
}

/// The value of the first ASCII digit of a text.
pub open spec fn first_digit(s: Seq<char>) -> Option<nat>
    decreases s.len(),
{
    if s.len() == 0 {
        None
    } else if digit_value(s[0]) is Some {
        digit_value(s[0])
    } else {
        first_digit(s.skip(1))
    }
}

/// The characters of a string.
pub fn chars_of(s: &str) -> (r: Vec<char>)
    ensures
        r@ == s@,
{
    let mut r: Vec<char> = Vec::new();
    for c in it: s.chars()
        invariant
            it.seq() == s@,
            r@ == s@.take(it.index() as int),
    {
        proof {
            assert(s@.take(it.index() as int + 1) == s@.take(it.index() as int).push(c));
        }
        r.push(c);
    }
    proof {
        assert(s@.take(s@.len() as int) == s@);
    }
    r
}

/// The string of the given characters.
pub fn string_of(v: &Vec<char>) -> (r: String)
    ensures
        r@ == v@,
{
    let mut r: String = String::new();
    for i in 0..v.len()
        invariant
            r@ == v@.take(i as int),
    {
        proof {
            assert(v@.take(i as int + 1) == v@.take(i as int).push(v@[i as int]));
        }
        r.push(v[i]);
    }
    proof {
        assert(v@.take(v@.len() as int) == v@);
    }
    r
}

/// Whether a character is white space.
pub fn is_white(c: char) -> (r: bool)
    ensures
        r == white(c),
{
    let n: u32 = c as u32;
    (0x09 <= n && n <= 0x0d) || n == 0x20 || n == 0x85 || n == 0xa0 || n == 0x1680 || (0x2000 <= n
        && n <= 0x200a) || n == 0x2028 || n == 0x2029 || n == 0x202f || n == 0x205f || n == 0x3000
}

/// The characters from one position up to another.
pub fn copy_range(v: &Vec<char>, from: usize, to: usize) -> (r: Vec<char>)
    requires
        from <= to <= v.len(),
    ensures
        r@ == v@.subrange(from as int, to as int),
{
    let mut r: Vec<char> = Vec::new();
    for i in from..to
        invariant
            from <= to <= v.len(),
            r@ == v@.subrange(from as int, i as int),
    {
        proof {
            assert(v@.subrange(from as int, i as int + 1) == v@.subrange(from as int, i as int).push(
                v@[i as int],
            ));
        }
        r.push(v[i]);
    }
    r
}

/// The text without the white space at either end.
pub fn trim(v: &Vec<char>) -> (r: Vec<char>)
    ensures
        r@ == trimmed(v@),
{
    let mut from: usize = 0;
    proof {
        assert(v@.skip(0) == v@);
    }
    while from < v.len() && is_white(v[from])
        invariant
            from <= v.len(),
            trimmed_front(v@) == trimmed_front(v@.skip(from as int)),
        decreases v.len() - from,
    {
        proof {
            assert(v@.skip(from as int)[0] == v@[from as int]);
            assert(v@.skip(from as int).skip(1) == v@.skip(from as int + 1));
        }
        from = from + 1;
    }
    proof {
        if from < v.len() {
            assert(v@.skip(from as int)[0] == v@[from as int]);
        }
        assert(trimmed_front(v@) == v@.skip(from as int));
    }
    let mut to: usize = v.len();
    proof {
        assert(v@.subrange(from as int, to as int) == v@.skip(from as int));
    }
    while to > from && is_white(v[to - 1])
        invariant
            from <= to <= v.len(),
            trimmed_back(v@.skip(from as int)) == trimmed_back(
                v@.subrange(from as int, to as int),
            ),
        decreases to - from,
    {
        proof {
            let now = v@.subrange(from as int, to as int);
            assert(now.last() == v@[to as int - 1]);
            assert(now.drop_last() == v@.subrange(from as int, to as int - 1));
        }
        to = to - 1;
    }
    proof {
        let now = v@.subrange(from as int, to as int);
        if to > from {
            assert(now.last() == v@[to as int - 1]);
        }
        assert(trimmed_back(now) == now);
    }
    copy_range(v, from, to)
}

/// The parts of a text between the occurrences of a separator.
pub fn split(v: &Vec<char>, sep: char) -> (r: Vec<Vec<char>>)
    ensures
        buffers(r@) == pieces(v@, sep),
{
    let mut done: Vec<Vec<char>> = Vec::new();
    let mut open: Vec<char> = Vec::new();
    proof {
        assert(v@.take(0) == Seq::<char>::empty());
        assert(buffers(done@).push(open@) == seq![Seq::<char>::empty()]);
    }
    for i in 0..v.len()
        invariant
            buffers(done@).push(open@) == pieces(v@.take(i as int), sep),
    {
        let ghost before = buffers(done@).push(open@);
        proof {
            assert(v@.take(i as int + 1).drop_last() == v@.take(i as int));
            assert(v@.take(i as int + 1).last() == v@[i as int]);
            assert(before.drop_last() == buffers(done@));
            assert(before.last() == open@);
        }
        if v[i] == sep {
            let mut full: Vec<char> = Vec::new();
            core::mem::swap(&mut full, &mut open);
            let ghost old_done = done@;
            let ghost text = full@;
            done.push(full);
            proof {
                assert(buffers(done@) == buffers(old_done).push(text));
            }
        } else {
            open.push(v[i]);
        }
    }
    proof {
        assert(v@.take(v@.len() as int) == v@);
    }
    let ghost old_done = done@;
    let ghost text = open@;
    done.push(open);
    proof {
        assert(buffers(done@) == buffers(old_done).push(text));
    }
    done
}

/// The text with every letter of `A` to `Z` made small.
pub fn lower_text(v: &Vec<char>) -> (r: Vec<char>)
    ensures
        r@ == lowered(v@),
{
    let mut r: Vec<char> = Vec::new();
    for i in 0..v.len()
        invariant
            r@ == lowered(v@.take(i as int)),
    {
        let c: char = v[i];
        let small: char = if 'A' <= c && c <= 'Z' {
            (c as u8 + 32) as char
        } else {
            c
        };
        r.push(small);
        proof {
            assert(lowered(v@.take(i as int + 1)) == lowered(v@.take(i as int)).push(small));
        }
    }
    proof {
        assert(v@.take(v@.len() as int) == v@);
    }
    r
}

/// Whether the pattern occurs in the text at the position.
fn matches_at(v: &Vec<char>, pat: &Vec<char>, at: usize) -> (r: bool)
    requires
        at + pat.len() <= v.len(),
    ensures
        r == occurs_at(v@, pat@, at as int),
{
    for i in 0..pat.len()
        invariant
            at + pat.len() <= v.len(),
            v@.subrange(at as int, at + i) == pat@.take(i as int),
    {
        if v[at + i] != pat[i] {
            proof {
                assert(v@.subrange(at as int, at + pat@.len())[i as int] != pat@[i as int]);
            }
            return false;
        }
        proof {
            assert(v@.subrange(at as int, at + i + 1) == v@.subrange(at as int, at + i).push(
                pat@[i as int],
            ));
            assert(pat@.take(i as int + 1) == pat@.take(i as int).push(pat@[i as int]));
        }
    }
    proof {
        assert(pat@.take(pat@.len() as int) == pat@);
    }
    true
}

/// Whether the text starts with the pattern.
pub fn has_prefix(v: &Vec<char>, pat: &str) -> (r: bool)
    ensures
        r == starts_with(v@, pat@),
{
    let p: Vec<char> = chars_of(pat);
    if p.len() > v.len() {
        return false;
    }
    proof {
        assert(v@.subrange(0, pat@.len() as int) == v@.take(pat@.len() as int));
    }
    matches_at(v, &p, 0)
}

/// Whether the text holds exactly the pattern.
pub fn is_text(v: &Vec<char>, pat: &str) -> (r: bool)
    ensures
        r == (v@ == pat@),
{
    let p: Vec<char> = chars_of(pat);
    if p.len() != v.len() {
        return false;
    }
    proof {
        assert(v@.subrange(0, pat@.len() as int) == v@);
    }
    matches_at(v, &p, 0)
}

/// Whether the pattern occurs in the text.
pub fn has_text(v: &Vec<char>, pat: &str) -> (r: bool)
    ensures
        r == contains(v@, pat@),
{
    let p: Vec<char> = chars_of(pat);
    if p.len() > v.len() {
        return false;
    }
    let last: usize = v.len() - p.len();
    let mut at: usize = 0;
    while at <= last
        invariant
            p@ == pat@,
            p.len() + last == v.len(),
            at <= last + 1,
            forall|k: int| k < at ==> !occurs_at(v@, pat@, k),
        decreases last + 1 - at,
    {
        if matches_at(v, &p, at) {
            return true;
        }
        if at == last {
            return false;
        }
        at = at + 1;
    }
    false
}

/// The value of the first ASCII digit of the text.
pub fn find_digit(v: &Vec<char>) -> (r: Option<usize>)
    ensures
        match first_digit(v@) {
            Some(d) => r == Some(d as usize) && d <= 9,
            None => r is None,
        },
{
    proof {
        assert(v@.skip(0) == v@);
    }
    for i in 0..v.len()
        invariant
            first_digit(v@) == first_digit(v@.skip(i as int)),
    {
        let c: char = v[i];
        proof {
            assert(v@.skip(i as int)[0] == c);
            assert(v@.skip(i as int).skip(1) == v@.skip(i as int + 1));
        }
        if '0' <= c && c <= '9' {
            return Some((c as u8 - 48) as usize);
        }
    }
    None
}

/// The ASCII character of a digit.
pub open spec fn digit_char(d: nat) -> char {
    (48 + d) as char
}

/// A number in decimal notation.
pub open spec fn decimal(n: nat) -> Seq<char>
    decreases n,
{
    if n < 10 {
        seq![digit_char(n)]
    } else {
        decimal(n / 10).push(digit_char(n % 10))
    }
}

/// As many zeros as given.
pub open spec fn zeros(n: nat) -> Seq<char> {
    Seq::new(n, |i: int| '0')
}

/// A number in decimal notation, filled with zeros in front up to a width.
pub open spec fn padded(n: nat, width: nat) -> Seq<char> {
    if decimal(n).len() < width {
        zeros((width - decimal(n).len()) as nat) + decimal(n)
    } else {
        decimal(n)
    }
}

/// Whether every character is an ASCII digit.
pub open spec fn all_digits(s: Seq<char>) -> bool {
    forall|i: int| 0 <= i < s.len() ==> '0' <= #[trigger] s[i] && s[i] <= '9'
}

/// The number that a sequence of digits stands for.
pub open spec fn number_of(s: Seq<char>) -> nat
    decreases s.len(),
{
    if s.len() == 0 {
        0
    } else {
        number_of(s.drop_last()) * 10 + (s.last() as u32 - 48) as nat
    }
}

/// A number as `u32` reads it: digits, at least one, after at most one `+`.
pub open spec fn parsed_u32(s: Seq<char>) -> Option<u32> {
    let digits = if s.len() > 0 && s[0] == '+' {
        s.skip(1)
    } else {
        s
    };
    if digits.len() > 0 && all_digits(digits) && number_of(digits) <= u32::MAX {
        Some(number_of(digits) as u32)
    } else {
        None
    }
}

/// Appends a number in decimal notation.
pub fn push_decimal(s: &mut String, n: u64)
    ensures
        final(s)@ == old(s)@ + decimal(n as nat),
    decreases n,
{
    if n >= 10 {
        push_decimal(s, n / 10);
    }
    let ghost before = s@;
    s.push((48 + (n % 10) as u8) as char);
    proof {
        if n >= 10 {
            assert(before.push(digit_char((n % 10) as nat)) == old(s)@ + decimal(n as nat));
        } else {
            assert(before.push(digit_char((n % 10) as nat)) == old(s)@ + decimal(n as nat));
        }
    }
}

/// A number in decimal notation, filled with zeros in front up to a width.
pub fn padded_text(n: u64, width: usize) -> (r: String)
    ensures
        r@ == padded(n as nat, width as nat),
{
    let mut digits: String = String::new();
    push_decimal(&mut digits, n);
    proof {
        assert(digits@ == decimal(n as nat));
    }
    let len: usize = digits.as_str().unicode_len();
    let mut r: String = String::new();
    let mut i: usize = len;
    proof {
        assert(r@ == zeros(0));
    }
    while i < width
        invariant
            len <= i,
            len <= width ==> i <= width,
            len > width ==> i == len,
            r@ == zeros((i - len) as nat),
        decreases width - i,
    {
        r.push('0');
        i = i + 1;
        proof {
            assert(r@ == zeros((i - len) as nat));
        }
    }
    r.append(digits.as_str());
    proof {
        if len >= width {
            assert(zeros(0) + decimal(n as nat) == decimal(n as nat));
        }
    }
    r
}

proof fn lemma_number_grows(s: Seq<char>, i: int)
    requires
        0 <= i <= s.len(),
        all_digits(s),
    ensures
        number_of(s.take(i)) <= number_of(s),
    decreases s.len() - i,
{
    if i == s.len() {
        assert(s.take(i) == s);
    } else {
        lemma_number_grows(s, i + 1);
        assert(s.take(i + 1).drop_last() == s.take(i));
        assert(s.take(i + 1).last() == s[i]);
    }
}

/// The number that the text stands for, where `u32` can read it.
pub fn parse_u32(v: &Vec<char>) -> (r: Option<u32>)
    ensures
        r == parsed_u32(v@),
{
    let from: usize = if v.len() > 0 && v[0] == '+' {
        1
    } else {
        0
    };
    let ghost digits = v@.skip(from as int);
    proof {
        assert(v@.skip(0) == v@);
    }
    if from == v.len() {
        return None;
    }
    let mut n: u32 = 0;
    let mut i: usize = from;
    while i < v.len()
        invariant
            from <= i <= v.len(),
            digits == v@.skip(from as int),
            digits == (if v@.len() > 0 && v@[0] == '+' {
                v@.skip(1)
            } else {
                v@
            }),
            all_digits(digits.take(i - from)),
            n == number_of(digits.take(i - from)),
        decreases v.len() - i,
    {
        let c: char = v[i];
        proof {
            assert(digits[i - from] == c);
            assert(digits.take(i - from + 1).drop_last() == digits.take(i - from));
            assert(digits.take(i - from + 1).last() == c);
        }
        if !('0' <= c && c <= '9') {
            proof {
                assert(!all_digits(digits));
            }
            return None;
        }
        let next: u64 = n as u64 * 10 + (c as u8 - 48) as u64;
        proof {
            assert forall|k: int| 0 <= k < i - from + 1 implies '0' <= #[trigger] digits.take(
                i - from + 1,
            )[k] && digits.take(i - from + 1)[k] <= '9' by {
                if k < i - from {
                    assert(digits.take(i - from)[k] == digits[k]);
                }
            }
        }
        if next > 0xffff_ffff {
            proof {
                if all_digits(digits) {
                    lemma_number_grows(digits, i - from + 1);
                }
            }
            return None;
        }
        n = next as u32;
        i = i + 1;
    }
    proof {
        assert(digits.take(digits.len() as int) == digits);
    }
    Some(n)
}

/// Whether a character occurs nowhere in a text.
pub open spec fn lacks(s: Seq<char>, c: char) -> bool {
    forall|i: int| 0 <= i < s.len() ==> #[trigger] s[i] != c
}

/// Whether a text has no white space at its ends.
pub open spec fn tidy(s: Seq<char>) -> bool {
    s.len() > 0 ==> !white(s[0]) && !white(s.last())
}

/// Trimming a tidy text changes nothing.
pub proof fn lemma_trim_tidy(s: Seq<char>)
    requires
        tidy(s),
    ensures
        trimmed(s) == s,
{
}

/// Trimming takes the spaces off both sides of a tidy text.
pub proof fn lemma_trim_spaced(s: Seq<char>)
    requires
        tidy(s),
    ensures
        trimmed(seq![' '] + s + seq![' ']) == s,
{
    let t = seq![' '] + s + seq![' '];
    assert(t[0] == ' ');
    assert(t.skip(1) == s + seq![' ']);
    if s.len() > 0 {
        let u = s + seq![' '];
        assert(u[0] == s[0]);
        assert(trimmed_front(u) == u);
        assert(trimmed_front(t) == u);
        assert(u.last() == ' ');
        assert(u.drop_last() == s);
        assert(trimmed_back(s) == s);
    } else {
        let u = s + seq![' '];
        assert(u[0] == ' ');
        assert(u.skip(1) == Seq::<char>::empty());
        assert(trimmed_front(u) == trimmed_front(u.skip(1)));
        assert(trimmed_front(t) == Seq::<char>::empty());
        assert(s == Seq::<char>::empty());
    }
}

/// Splitting gives at least one part.
pub proof fn lemma_pieces_some(s: Seq<char>, sep: char)
    ensures
        pieces(s, sep).len() > 0,
    decreases s.len(),
{
    if s.len() > 0 {
        lemma_pieces_some(s.drop_last(), sep);
    }
}

/// A text without the separator is its own only part.
pub proof fn lemma_pieces_whole(s: Seq<char>, sep: char)
    requires
        lacks(s, sep),
    ensures
        pieces(s, sep) == seq![s],
    decreases s.len(),
{
    if s.len() > 0 {
        let d = s.drop_last();
        assert(lacks(d, sep)) by {
            assert forall|i: int| 0 <= i < d.len() implies #[trigger] d[i] != sep by {
                assert(d[i] == s[i]);
            }
        }
        lemma_pieces_whole(d, sep);
        assert(s.last() == s[s.len() - 1]);
        assert(d.push(s.last()) == s);
        assert(pieces(s, sep) =~= seq![s]);
    } else {
        assert(s == Seq::<char>::empty());
    }
}

/// The parts of two texts joined by the separator are the parts of both.
pub proof fn lemma_pieces_join(a: Seq<char>, sep: char, b: Seq<char>)
    ensures
        pieces(a + seq![sep] + b, sep) == pieces(a, sep) + pieces(b, sep),
    decreases b.len(),
{
    let s = a + seq![sep] + b;
    if b.len() == 0 {
        assert(s.drop_last() == a);
        assert(s.last() == sep);
        assert(pieces(s, sep) =~= pieces(a, sep) + pieces(b, sep));
    } else {
        let d = b.drop_last();
        lemma_pieces_join(a, sep, d);
        lemma_pieces_some(d, sep);
        assert(s.drop_last() == a + seq![sep] + d);
        assert(s.last() == b.last());
        let p = pieces(a, sep);
        let q = pieces(d, sep);
        assert((p + q).drop_last() == p + q.drop_last());
        assert((p + q).last() == q.last());
        assert(pieces(s, sep) =~= p + pieces(b, sep));
    }
}

/// A pattern does not occur in a text that lacks its first character.
pub proof fn lemma_lacks_pattern(s: Seq<char>, pat: Seq<char>)
    requires
        pat.len() > 0,
        lacks(s, pat[0]),
    ensures
        !contains(s, pat),
{
    assert forall|at: int| !occurs_at(s, pat, at) by {
        if occurs_at(s, pat, at) {
            assert(s.subrange(at, at + pat.len())[0] == s[at]);
        }
    }
}

/// Whether two lists hold the same texts.
pub fn names_equal(a: &Vec<String>, b: &Vec<String>) -> (r: bool)
    ensures
        r == (texts(a@) == texts(b@)),
{
    if a.len() != b.len() {
        proof {
            assert(texts(a@).len() != texts(b@).len());
        }
        return false;
    }
    for i in 0..a.len()
        invariant
            a@.len() == b@.len(),
            forall|k: int| 0 <= k < i ==> (#[trigger] a@[k])@ == b@[k]@,
    {
        if a[i] != b[i] {
            proof {
                assert(texts(a@)[i as int] != texts(b@)[i as int]);
            }
            return false;
        }
    }
    proof {
        assert(texts(a@) =~= texts(b@));
    }
    true
}

/// Whether a list holds a text.
pub fn list_has(list: &Vec<String>, text: &String) -> (r: bool)
    ensures
        r == texts(list@).contains(text@),
{
    for i in 0..list.len()
        invariant
            forall|k: int| 0 <= k < i ==> (#[trigger] list@[k])@ != text@,
    {
        if list[i] == *text {
            proof {
                assert(texts(list@)[i as int] == text@);
            }
            return true;
        }
    }
    proof {
        if texts(list@).contains(text@) {
            let k = choose|k: int| 0 <= k < texts(list@).len() && texts(list@)[k] == text@;
            assert(list@[k]@ == text@);
        }
    }
    false
}

/// Where a text first occurs among the first `n` of a list.
pub open spec fn first_place(list: Seq<Seq<char>>, text: Seq<char>, n: nat) -> Option<int>
    decreases n,
{
    if n == 0 {
        None
    } else {
        match first_place(list, text, (n - 1) as nat) {
            Some(k) => Some(k),
            None => if list[n - 1] == text {
                Some(n - 1)
            } else {
                None
            },
        }
    }
}

/// A place that is found stays the first one.
pub proof fn lemma_first_place_stays(list: Seq<Seq<char>>, text: Seq<char>, n: nat, m: nat)
    requires
        n <= m,
        first_place(list, text, n) is Some,
    ensures
        first_place(list, text, m) == first_place(list, text, n),
    decreases m,
{
    if n < m {
        lemma_first_place_stays(list, text, n, (m - 1) as nat);
    }
}

/// The first place holds the text, and there is one where the list holds it.
pub proof fn lemma_first_place(list: Seq<Seq<char>>, text: Seq<char>, n: nat)
    requires
        n <= list.len(),
    ensures
        match first_place(list, text, n) {
            Some(k) => 0 <= k < n && list[k] == text,
            None => forall|k: int| 0 <= k < n ==> #[trigger] list[k] != text,
        },
    decreases n,
{
    if n > 0 {
        lemma_first_place(list, text, (n - 1) as nat);
    }
}

/// Where a text first occurs in a list.
pub fn list_find(list: &Vec<String>, text: &String) -> (r: Option<usize>)
    ensures
        match first_place(texts(list@), text@, list@.len()) {
            Some(k) => r is Some && r->0 == k && 0 <= k < list@.len(),
            None => r is None,
        },
{
    for i in 0..list.len()
        invariant
            first_place(texts(list@), text@, i as nat) is None,
    {
        proof {
            assert(texts(list@)[i as int] == list@[i as int]@);
        }
        if list[i] == *text {
            proof {
                lemma_first_place_stays(texts(list@), text@, i as nat + 1, list@.len());
            }
            return Some(i);
        }
    }
    None
}

/// The texts of a list with a separator between them.
pub open spec fn join_texts(list: Seq<Seq<char>>, sep: Seq<char>) -> Seq<char>
    decreases list.len(),
{
    if list.len() == 0 {
        Seq::empty()
    } else if list.len() == 1 {
        list[0]
    } else {
        join_texts(list.drop_last(), sep) + sep + list.last()
    }
}

/// The texts of a list with a separator between them.
pub fn join(list: &Vec<String>, sep: &str) -> (r: String)
    ensures
        r@ == join_texts(texts(list@), sep@),
{
    let mut r: String = String::new();
    let ghost all = texts(list@);
    proof {
        assert(all.take(0).len() == 0);
    }
    for i in 0..list.len()
        invariant
            all == texts(list@),
            r@ == join_texts(all.take(i as int), sep@),
    {
        proof {
            assert(all.take(i as int + 1).drop_last() == all.take(i as int));
            assert(all.take(i as int + 1).last() == list@[i as int]@);
        }
        if i > 0 {
            r.append(sep);
        }
        r.append(list[i].as_str());
        proof {
            if i == 0 {
                assert(r@ =~= list@[0]@);
            }
        }
    }
    proof {
        assert(all.take(all.len() as int) == all);
    }
    r
}

/// The string without the white space at either end.
pub fn trim_string(s: &String) -> (r: String)
    ensures
        r@ == trimmed(s@),
{
    string_of(&trim(&chars_of(s.as_str())))
}

proof fn lemma_trimmed_tidy_front(s: Seq<char>)
    ensures
        trimmed_front(s).len() > 0 ==> !white(trimmed_front(s)[0]),
    decreases s.len(),
{
    if s.len() > 0 && white(s[0]) {
        lemma_trimmed_tidy_front(s.skip(1));
    }
}

proof fn lemma_trimmed_tidy_back(s: Seq<char>)
    ensures
        trimmed_back(s).len() > 0 ==> !white(trimmed_back(s).last()) && trimmed_back(s)[0] == s[0],
    decreases s.len(),
{
    if s.len() > 0 && white(s.last()) {
        lemma_trimmed_tidy_back(s.drop_last());
    }
}

/// What was trimmed has no white space at its ends, and trimming it again changes nothing.
pub proof fn law_trimming_twice_is_trimming_once(s: Seq<char>)
    ensures
        tidy(trimmed(s)),
        trimmed(trimmed(s)) == trimmed(s),
{
    lemma_trimmed_tidy_front(s);
    lemma_trimmed_tidy_back(trimmed_front(s));
    lemma_trim_tidy(trimmed(s));
}

} // verus!
