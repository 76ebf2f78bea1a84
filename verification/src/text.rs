//! Characters and strings: the small text operations that the rest of the
//! library is written with, each stated over the sequence of characters.

use vstd::prelude::*;
use vstd::string::*;

verus! {

/// `String::push` of std: the character is put at the end of the string.
pub assume_specification[ String::push ](s: &mut String, c: char)
    ensures
        final(s)@ == old(s)@.push(c),
;

// ---------------------------------------------------------------------------
// Single characters
// ---------------------------------------------------------------------------

/// The characters with the Unicode property `White_Space`.
pub open spec fn white_space(c: char) -> bool {
    ||| '\u{9}' <= c <= '\u{d}'
    ||| c == ' '
    ||| c == '\u{85}'
    ||| c == '\u{a0}'
    ||| c == '\u{1680}'
    ||| '\u{2000}' <= c <= '\u{200a}'
    ||| c == '\u{2028}'
    ||| c == '\u{2029}'
    ||| c == '\u{202f}'
    ||| c == '\u{205f}'
    ||| c == '\u{3000}'
}

/// Tells whether `c` is white space.
pub fn is_white_space(c: char) -> (r: bool)
    ensures
        r == white_space(c),
{
    ('\u{9}' <= c && c <= '\u{d}') || c == ' ' || c == '\u{85}' || c == '\u{a0}' || c == '\u{1680}'
        || ('\u{2000}' <= c && c <= '\u{200a}') || c == '\u{2028}' || c == '\u{2029}'
        || c == '\u{202f}' || c == '\u{205f}' || c == '\u{3000}'
}

/// An ASCII decimal digit.
pub open spec fn digit(c: char) -> bool {
    '0' <= c <= '9'
}

/// Tells whether `c` is an ASCII decimal digit.
pub fn is_digit(c: char) -> (r: bool)
    ensures
        r == digit(c),
{
    '0' <= c && c <= '9'
}

/// The digit character of a number below ten.
pub open spec fn digit_char(d: int) -> char {
    (d + '0' as int) as char
}

fn to_digit_char(d: u64) -> (c: char)
    requires
        d < 10,
    ensures
        c == digit_char(d as int),
{
    (d as u8 + 48u8) as char
}

/// The ASCII lower case of a character; others stay as they are.
pub open spec fn lower_char(c: char) -> char {
    if 'A' <= c <= 'Z' {
        (c as int + 32) as char
    } else {
        c
    }
}

/// The ASCII upper case of a character; others stay as they are.
pub open spec fn upper_char(c: char) -> char {
    if 'a' <= c <= 'z' {
        (c as int - 32) as char
    } else {
        c
    }
}

fn to_lower_char(c: char) -> (r: char)
    ensures
        r == lower_char(c),
{
    if 'A' <= c && c <= 'Z' {
        (c as u8 + 32u8) as char
    } else {
        c
    }
}

fn to_upper_char(c: char) -> (r: char)
    ensures
        r == upper_char(c),
{
    if 'a' <= c && c <= 'z' {
        (c as u8 - 32u8) as char
    } else {
        c
    }
}

// ---------------------------------------------------------------------------
// Between strings and vectors of characters
// ---------------------------------------------------------------------------

/// The characters of a string.
pub fn chars_of(s: &str) -> (v: Vec<char>)
    ensures
        v@ == s@,
{
    let mut v: Vec<char> = Vec::new();
    for c in it: s.chars()
        invariant
            v@ == it.seq().take(it.index() as int),
            it.seq() == s@,
    {
        v.push(c);
        assert(it.seq().take(it.index() + 1) =~= it.seq().take(it.index() as int).push(c));
    }
    assert(v@ =~= s@);
    v
}

/// The string of the characters `v[from..to]`.
pub fn string_of(v: &Vec<char>, from: usize, to: usize) -> (s: String)
    requires
        from <= to <= v.len(),
    ensures
        s@ == v@.subrange(from as int, to as int),
{
    let mut s = String::new();
    let mut i: usize = from;
    while i < to
        invariant
            from <= i <= to <= v.len(),
            s@ == v@.subrange(from as int, i as int),
        decreases to - i,
    {
        s.push(v[i]);
        i += 1;
        assert(s@ =~= v@.subrange(from as int, i as int));
    }
    s
}

/// An optional text as a sequence.
pub open spec fn text_view(t: Option<String>) -> Option<Seq<char>> {
    match t {
        Some(s) => Some(s@),
        None => None,
    }
}

/// The text of a string slice as a string of its own.
pub fn owned(s: &str) -> (r: String)
    ensures
        r@ == s@,
{
    s.to_owned()
}

/// Two texts, one after the other.
pub fn join2(a: &str, b: &str) -> (r: String)
    ensures
        r@ == a@ + b@,
{
    let mut r = a.to_owned();
    r.append(b);
    r
}

/// Three texts, one after the other.
pub fn join3(a: &str, b: &str, c: &str) -> (r: String)
    ensures
        r@ == a@ + b@ + c@,
{
    let mut r = join2(a, b);
    r.append(c);
    r
}

// ---------------------------------------------------------------------------
// Searching and comparing
// ---------------------------------------------------------------------------

/// The first place of `c` in `s`, or the length of `s` when `c` is not there.
pub open spec fn first_index(s: Seq<char>, c: char) -> int
    decreases s.len(),
{
    if s.len() == 0 || s[0] == c {
        0
    } else {
        1 + first_index(s.drop_first(), c)
    }
}

/// `first_index` is the one place that has no `c` before it and is either a
/// `c` or the end.
pub proof fn first_index_is(s: Seq<char>, c: char, p: int)
    requires
        0 <= p <= s.len(),
        forall|j: int| 0 <= j < p ==> s[j] != c,
        p < s.len() ==> s[p] == c,
    ensures
        first_index(s, c) == p,
    decreases s.len(),
{
    if s.len() > 0 && s[0] != c {
        assert forall|j: int| 0 <= j < p - 1 implies s.drop_first()[j] != c by {
            assert(s.drop_first()[j] == s[j + 1]);
        }
        first_index_is(s.drop_first(), c, p - 1);
    }
}

/// What `first_index` gives back: no `c` before it, and a `c` there unless it
/// is the end.
pub proof fn first_index_props(s: Seq<char>, c: char)
    ensures
        0 <= first_index(s, c) <= s.len(),
        forall|j: int| 0 <= j < first_index(s, c) ==> s[j] != c,
        first_index(s, c) < s.len() ==> s[first_index(s, c)] == c,
    decreases s.len(),
{
    if s.len() > 0 && s[0] != c {
        let t = s.drop_first();
        first_index_props(t, c);
        assert forall|j: int| 0 <= j < first_index(s, c) implies s[j] != c by {
            if j > 0 {
                assert(s[j] == t[j - 1]);
            }
        }
    }
}

/// `s` without the white space at its start.
pub open spec fn trim_start(s: Seq<char>) -> Seq<char>
    decreases s.len(),
{
    if s.len() > 0 && white_space(s[0]) {
        trim_start(s.drop_first())
    } else {
        s
    }
}

/// `s` without the white space at its end.
pub open spec fn trim_end(s: Seq<char>) -> Seq<char>
    decreases s.len(),
{
    if s.len() > 0 && white_space(s.last()) {
        trim_end(s.drop_last())
    } else {
        s
    }
}

/// `s` without the white space at its two ends.
pub open spec fn trim(s: Seq<char>) -> Seq<char> {
    trim_end(trim_start(s))
}

/// How much `trim_start` takes off: white space, and all of it.
pub proof fn trim_start_cut(s: Seq<char>) -> (k: int)
    ensures
        0 <= k <= s.len(),
        trim_start(s) == s.skip(k),
        forall|j: int| 0 <= j < k ==> white_space(#[trigger] s[j]),
        k < s.len() ==> !white_space(s[k]),
    decreases s.len(),
{
    if s.len() > 0 && white_space(s[0]) {
        let t = s.drop_first();
        let k = trim_start_cut(t);
        assert(t.skip(k) =~= s.skip(k + 1));
        assert forall|j: int| 0 <= j < k + 1 implies white_space(#[trigger] s[j]) by {
            if j > 0 {
                assert(s[j] == t[j - 1]);
            }
        }
        k + 1
    } else {
        assert(s.skip(0) =~= s);
        0
    }
}

/// How much `trim_end` leaves: all but the white space at the end.
pub proof fn trim_end_cut(s: Seq<char>) -> (m: int)
    ensures
        0 <= m <= s.len(),
        trim_end(s) == s.take(m),
        forall|j: int| m <= j < s.len() ==> white_space(#[trigger] s[j]),
        m > 0 ==> !white_space(s[m - 1]),
    decreases s.len(),
{
    if s.len() > 0 && white_space(s.last()) {
        let t = s.drop_last();
        let m = trim_end_cut(t);
        assert(t.take(m) =~= s.take(m));
        assert forall|j: int| m <= j < s.len() implies white_space(#[trigger] s[j]) by {
            if j < t.len() {
                assert(s[j] == t[j]);
            }
        }
        m
    } else {
        assert(s.take(s.len() as int) =~= s);
        s.len() as int
    }
}

/// The bounds of what is left of `v[from..to]` once the white space at its
/// two ends is taken off.
pub fn trim_bounds(v: &Vec<char>, from: usize, to: usize) -> (r: (usize, usize))
    requires
        from <= to <= v.len(),
    ensures
        from <= r.0 <= r.1 <= to,
        v@.subrange(r.0 as int, r.1 as int) == trim(v@.subrange(from as int, to as int)),
{
    let ghost whole = v@.subrange(from as int, to as int);
    let mut lo: usize = from;
    while lo < to && is_white_space(v[lo])
        invariant
            from <= lo <= to <= v.len(),
            trim_start(v@.subrange(lo as int, to as int)) == trim_start(whole),
        decreases to - lo,
    {
        assert(v@.subrange(lo as int, to as int).drop_first() =~= v@.subrange(lo + 1, to as int));
        lo += 1;
    }
    let ghost kept = v@.subrange(lo as int, to as int);
    assert(trim_start(whole) == kept);
    let mut hi: usize = to;
    while hi > lo && is_white_space(v[hi - 1])
        invariant
            from <= lo <= hi <= to <= v.len(),
            trim_end(v@.subrange(lo as int, hi as int)) == trim_end(kept),
        decreases hi - lo,
    {
        assert(v@.subrange(lo as int, hi as int).drop_last() =~= v@.subrange(lo as int, hi - 1));
        hi -= 1;
    }
    (lo, hi)
}

/// The ASCII lower case of a text.
pub open spec fn lower(s: Seq<char>) -> Seq<char> {
    s.map_values(|c: char| lower_char(c))
}

/// `w` stands in `s` from place `i` on.
pub open spec fn occurs_at(s: Seq<char>, w: Seq<char>, i: int) -> bool {
    0 <= i && i + w.len() <= s.len() && s.subrange(i, i + w.len()) == w
}

/// `w` stands somewhere in `s`.
pub open spec fn occurs(s: Seq<char>, w: Seq<char>) -> bool {
    exists|i: int| occurs_at(s, w, i)
}

/// The ASCII lower case of a vector of characters.
pub fn to_lower(v: &Vec<char>) -> (r: Vec<char>)
    ensures
        r@ == lower(v@),
{
    let mut r: Vec<char> = Vec::new();
    let mut i: usize = 0;
    while i < v.len()
        invariant
            i <= v.len(),
            r@ == lower(v@.take(i as int)),
        decreases v.len() - i,
    {
        r.push(to_lower_char(v[i]));
        i += 1;
        assert(r@ =~= lower(v@.take(i as int)));
    }
    assert(v@.take(i as int) =~= v@);
    r
}

fn stands_at(v: &Vec<char>, w: &Vec<char>, at: usize) -> (r: bool)
    requires
        at + w.len() <= v.len(),
    ensures
        r == occurs_at(v@, w@, at as int),
{
    let mut i: usize = 0;
    while i < w.len()
        invariant
            i <= w.len(),
            at + w.len() <= v.len(),
            forall|j: int| 0 <= j < i ==> v@[at + j] == w@[j],
        decreases w.len() - i,
    {
        if v[at + i] != w[i] {
            assert(v@.subrange(at as int, at + w.len())[i as int] != w@[i as int]);
            return false;
        }
        i += 1;
    }
    assert(v@.subrange(at as int, at + w.len()) =~= w@);
    true
}

/// Tells whether `w` stands somewhere in `v`.
pub fn contains(v: &Vec<char>, w: &Vec<char>) -> (r: bool)
    ensures
        r == occurs(v@, w@),
{
    if w.len() > v.len() {
        return false;
    }
    let last: usize = v.len() - w.len();
    let mut i: usize = 0;
    while i < last
        invariant
            w.len() <= v.len(),
            last == v.len() - w.len(),
            i <= last,
            forall|j: int| 0 <= j < i ==> !occurs_at(v@, w@, j),
        decreases last - i,
    {
        if stands_at(v, w, i) {
            return true;
        }
        i += 1;
    }
    stands_at(v, w, last)
}

/// Tells whether `v` ends with `w`.
pub fn ends_with(v: &Vec<char>, w: &Vec<char>) -> (r: bool)
    ensures
        r == w@.is_suffix_of(v@),
{
    w.len() <= v.len() && stands_at(v, w, v.len() - w.len())
}

/// Tells whether two texts differ at most in the case of ASCII letters.
pub fn same_ignoring_case(a: &str, b: &str) -> (r: bool)
    ensures
        r == (lower(a@) == lower(b@)),
{
    let a = to_lower(&chars_of(a));
    let b = to_lower(&chars_of(b));
    if a.len() != b.len() {
        return false;
    }
    let r = stands_at(&a, &b, 0);
    assert(a@.subrange(0, b@.len() as int) =~= a@);
    r
}

/// `word` with its first letter in ASCII upper case.
pub open spec fn capitalized(word: Seq<char>) -> Seq<char> {
    if word.len() == 0 {
        word
    } else {
        seq![upper_char(word[0])] + word.drop_first()
    }
}

/// Puts the first letter of a word in ASCII upper case.
pub fn capitalize(word: &Vec<char>) -> (r: String)
    ensures
        r@ == capitalized(word@),
{
    let mut r = String::new();
    let mut i: usize = 0;
    while i < word.len()
        invariant
            i <= word.len(),
            r@ == capitalized(word@.take(i as int)),
        decreases word.len() - i,
    {
        if i == 0 {
            r.push(to_upper_char(word[0]));
        } else {
            r.push(word[i]);
        }
        i += 1;
        assert(r@ =~= capitalized(word@.take(i as int)));
    }
    assert(word@.take(i as int) =~= word@);
    r
}

// ---------------------------------------------------------------------------
// Numbers in decimal
// ---------------------------------------------------------------------------

/// `n` written in decimal, without leading zeros.
pub open spec fn decimal(n: nat) -> Seq<char>
    decreases n,
{
    if n < 10 {
        seq![digit_char(n as int)]
    } else {
        decimal(n / 10).push(digit_char((n % 10) as int))
    }
}

/// `n` written in decimal, with a minus sign when it is negative.
pub open spec fn signed_decimal(n: int) -> Seq<char> {
    if n < 0 {
        seq!['-'] + decimal((-n) as nat)
    } else {
        decimal(n as nat)
    }
}

fn push_decimal(s: &mut String, n: u64)
    ensures
        final(s)@ == old(s)@ + decimal(n as nat),
    decreases n,
{
    if n < 10 {
        s.push(to_digit_char(n));
        assert(s@ =~= old(s)@ + decimal(n as nat));
    } else {
        push_decimal(s, n / 10);
        s.push(to_digit_char(n % 10));
        assert(s@ =~= old(s)@ + decimal(n as nat));
    }
}

/// A number in decimal.
pub fn number(n: u64) -> (s: String)
    ensures
        s@ == decimal(n as nat),
{
    let mut s = String::new();
    push_decimal(&mut s, n);
    assert(s@ =~= decimal(n as nat));
    s
}

/// A signed number in decimal.
pub fn signed_number(n: i32) -> (s: String)
    ensures
        s@ == signed_decimal(n as int),
{
    let mut s = String::new();
    if n < 0 {
        s.push('-');
        push_decimal(&mut s, (-(n as i64)) as u64);
    } else {
        push_decimal(&mut s, n as u64);
    }
    assert(s@ =~= signed_decimal(n as int));
    s
}

/// The digits of a text read as one number, dots passed over.
pub open spec fn digits_value(s: Seq<char>) -> nat
    decreases s.len(),
{
    if s.len() == 0 {
        0
    } else if s.last() == '.' {
        digits_value(s.drop_last())
    } else {
        10 * digits_value(s.drop_last()) + (s.last() as int - '0' as int) as nat
    }
}

/// What was written in decimal reads back as the number, and is made of digits.
pub proof fn decimal_reads_back(n: nat)
    ensures
        digits_value(decimal(n)) == n,
        decimal(n).len() > 0,
        forall|i: int| 0 <= i < decimal(n).len() ==> digit(#[trigger] decimal(n)[i]),
    decreases n,
{
    if n < 10 {
        assert(decimal(n).drop_last() =~= Seq::empty());
        assert(digits_value(Seq::empty()) == 0);
    } else {
        decimal_reads_back(n / 10);
        assert(decimal(n).drop_last() =~= decimal(n / 10));
    }
}

/// Two numbers that are written alike are the same.
pub proof fn signed_decimal_is_injective(m: int, n: int)
    requires
        signed_decimal(m) == signed_decimal(n),
    ensures
        m == n,
{
    if m < 0 {
        decimal_reads_back((-m) as nat);
        assert(signed_decimal(m).drop_first() =~= decimal((-m) as nat));
        assert(signed_decimal(m)[0] == '-');
    } else {
        decimal_reads_back(m as nat);
        assert(digit(signed_decimal(m)[0]));
    }
    if n < 0 {
        decimal_reads_back((-n) as nat);
        assert(signed_decimal(n).drop_first() =~= decimal((-n) as nat));
        assert(signed_decimal(n)[0] == '-');
    } else {
        decimal_reads_back(n as nat);
        assert(digit(signed_decimal(n)[0]));
    }
}

// ---------------------------------------------------------------------------
// Laws
// ---------------------------------------------------------------------------

/// Which characters are white space, by their numbers.
pub proof fn white_space_by_number(c: char)
    ensures
        white_space(c) <==> ({
            let n = c as int;
            ||| 9 <= n <= 13
            ||| n == 32
            ||| n == 0x85
            ||| n == 0xa0
            ||| n == 0x1680
            ||| 0x2000 <= n <= 0x200a
            ||| n == 0x2028
            ||| n == 0x2029
            ||| n == 0x202f
            ||| n == 0x205f
            ||| n == 0x3000
        }),
{
}

/// The ten digits stand in a row from number 48 on.
pub proof fn digits_by_number(c: char, d: int)
    ensures
        digit(c) <==> 48 <= c as int <= 57,
        0 <= d < 10 ==> digit_char(d) as int == 48 + d,
{
}

/// The two cases of an ASCII letter are 32 apart; all other characters have one
/// case.
pub proof fn cases_by_number(c: char)
    ensures
        lower_char(c) as int == c as int + if 65 <= c as int <= 90 {
            32int
        } else {
            0
        },
        upper_char(c) as int == c as int - if 97 <= c as int <= 122 {
            32int
        } else {
            0
        },
        lower_char(upper_char(c)) == lower_char(c),
        upper_char(lower_char(c)) == upper_char(c),
{
}

/// Lower case is taken character by character.
pub proof fn lower_case_keeps_the_places(s: Seq<char>, i: int)
    requires
        0 <= i < s.len(),
    ensures
        lower(s).len() == s.len(),
        lower(s)[i] == lower_char(s[i]),
{
}

/// A text reads the same in lower case when it is put together from parts.
pub proof fn lower_case_of_parts(a: Seq<char>, b: Seq<char>)
    ensures
        lower(a + b) == lower(a) + lower(b),
        lower(lower(a)) == lower(a),
        lower(a).len() == a.len(),
{
    assert(lower(a + b) =~= lower(a) + lower(b));
    assert(lower(lower(a)) =~= lower(a));
}

/// Trimming takes off the white space at both ends and nothing else.
pub proof fn trimming_takes_off_white_space(a: Seq<char>, s: Seq<char>, b: Seq<char>)
    requires
        forall|i: int| 0 <= i < a.len() ==> white_space(#[trigger] a[i]),
        forall|i: int| 0 <= i < b.len() ==> white_space(#[trigger] b[i]),
        s.len() > 0 ==> !white_space(s[0]) && !white_space(s.last()),
    ensures
        trim(a + s + b) == s,
    decreases a.len() + b.len(),
{
    let whole = a + s + b;
    if a.len() > 0 {
        assert(whole[0] == a[0]);
        assert(whole.drop_first() =~= a.drop_first() + s + b);
        trimming_takes_off_white_space(a.drop_first(), s, b);
    } else if s.len() > 0 {
        assert(whole =~= s + b);
        assert(whole[0] == s[0]);
        trim_end_before_white_space(s, b);
    } else if b.len() > 0 {
        assert(whole =~= b);
        assert(whole.drop_first() =~= a + s + b.drop_first());
        trimming_takes_off_white_space(a, s, b.drop_first());
    } else {
        assert(whole =~= s);
    }
}

proof fn trim_end_before_white_space(s: Seq<char>, b: Seq<char>)
    requires
        forall|i: int| 0 <= i < b.len() ==> white_space(#[trigger] b[i]),
        s.len() > 0,
        !white_space(s.last()),
    ensures
        trim_end(s + b) == s,
    decreases b.len(),
{
    if b.len() > 0 {
        assert((s + b).last() == b.last());
        assert((s + b).drop_last() =~= s + b.drop_last());
        trim_end_before_white_space(s, b.drop_last());
    } else {
        assert(s + b =~= s);
    }
}

/// A word stands in a text whatever is around it.
pub proof fn a_word_stands_in_its_text(a: Seq<char>, w: Seq<char>, b: Seq<char>)
    ensures
        occurs(a + w + b, w),
{
    assert((a + w + b).subrange(a.len() as int, a.len() as int + w.len()) =~= w);
    assert(occurs_at(a + w + b, w, a.len() as int));
}

/// A word stands in a text only where the text is something, the word, and
/// something more.
pub proof fn what_stands_in_a_text(s: Seq<char>, w: Seq<char>)
    requires
        occurs(s, w),
    ensures
        exists|i: int|
            0 <= i <= s.len() - w.len() && s == #[trigger] s.take(i) + w + s.skip(i + w.len()),
{
    let i = choose|i: int| occurs_at(s, w, i);
    assert(s =~= s.take(i) + w + s.skip(i + w.len()));
}

/// A capitalized word differs from the word at most in its first letter, which
/// is in upper case.
pub proof fn only_the_first_letter_is_capitalized(word: Seq<char>, i: int)
    requires
        0 <= i < word.len(),
    ensures
        capitalized(word).len() == word.len(),
        capitalized(word)[i] == if i == 0 {
            upper_char(word[i])
        } else {
            word[i]
        },
{
}

/// One more digit at the end makes a number ten times as large, and adds the
/// digit.
pub proof fn a_digit_more_in_decimal(n: nat, d: nat)
    requires
        d < 10,
    ensures
        decimal(10 * n + d).last() as int == 48 + d,
        n > 0 ==> decimal(10 * n + d).drop_last() == decimal(n),
        n == 0 ==> decimal(10 * n + d).len() == 1,
{
    let m: nat = 10 * n + d;
    assert(m / 10 == n && m % 10 == d);
    if n > 0 {
        assert(decimal(m).drop_last() =~= decimal(n));
    }
}

/// Digits are read from left to right, and a dot is passed over.
pub proof fn digits_are_read_in_order(s: Seq<char>, c: char)
    ensures
        digits_value(Seq::<char>::empty()) == 0,
        digit(c) ==> digits_value(s.push(c)) == 10 * digits_value(s) + (c as int - 48),
        digits_value(s.push('.')) == digits_value(s),
{
    assert(s.push(c).drop_last() =~= s);
    assert(s.push('.').drop_last() =~= s);
}

/// A negative number is a minus sign and the number without its sign.
pub proof fn a_minus_sign_stands_in_front(n: nat)
    ensures
        signed_decimal(n as int) == decimal(n),
        n > 0 ==> signed_decimal(-n) == seq!['-'] + decimal(n),
{
}

/// An optional text is shown whole, and is there exactly when it is shown.
pub proof fn optional_texts_are_shown_whole(t: Option<String>)
    ensures
        text_view(t) == match t {
            Some(s) => Some(s@),
            None => None,
        },
{
}

} // verus!
