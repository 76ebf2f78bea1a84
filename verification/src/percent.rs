//! The percentage that a line of converter output announces.
//!
//! The converter prints lines such as `[ 42,5%] INDEXING`. The number that
//! counts is the one right before the first `%`, with either decimal mark.

use vstd::arithmetic::power::pow;
use vstd::prelude::*;

use crate::text::{
    chars_of, decimal, decimal_reads_back, digit, digits_value, first_index, first_index_is,
    first_index_props, is_digit, is_white_space, string_of, trim, trim_bounds, trim_end,
    trim_end_cut, trim_start, trim_start_cut, trimming_takes_off_white_space, white_space,
};

verus! {

/// The characters that may stand between the start of the number and its `%`.
pub open spec fn number_char(c: char) -> bool {
    digit(c) || c == '.' || c == ',' || white_space(c)
}

/// The longest end of `s` that is made of number characters alone.
pub open spec fn number_tail(s: Seq<char>) -> Seq<char>
    decreases s.len(),
{
    if s.len() > 0 && number_char(s.last()) {
        number_tail(s.drop_last()).push(s.last())
    } else {
        Seq::empty()
    }
}

/// A decimal mark is written as a dot.
pub open spec fn dotted(c: char) -> char {
    if c == ',' {
        '.'
    } else {
        c
    }
}

/// Every comma of `s` written as a dot.
pub open spec fn with_dots(s: Seq<char>) -> Seq<char> {
    s.map_values(|c: char| dotted(c))
}

/// An unsigned decimal number: digits with at most one dot among them, and at
/// least one digit.
pub open spec fn numeral(s: Seq<char>) -> bool {
    &&& forall|i: int| 0 <= i < s.len() ==> digit(#[trigger] s[i]) || s[i] == '.'
    &&& forall|i: int, j: int| 0 <= i < j < s.len() ==> !(s[i] == '.' && s[j] == '.')
    &&& exists|i: int| 0 <= i < s.len() && digit(#[trigger] s[i])
}

/// Ten to the number of digits behind the dot of a numeral.
pub open spec fn scale(s: Seq<char>) -> nat
    decreases s.len(),
{
    if s.len() == 0 || s.last() == '.' || !s.contains('.') {
        1
    } else {
        10 * scale(s.drop_last())
    }
}

/// Two to the power of 47: doubles just above 100 are `2 / HALF_STEP` apart.
pub const HALF_STEP: i64 = 0x8000_0000_0000;

/// How far a numeral is below `100 + 1 / HALF_STEP`, times its scale and
/// `HALF_STEP`. Numbers up to there have a nearest double of at most 100.
pub open spec fn headroom(s: Seq<char>) -> int {
    (100 * HALF_STEP + 1) * scale(s) - digits_value(s) * HALF_STEP
}

/// A numeral whose nearest double is a percentage, from 0 to 100.
pub open spec fn percentage(s: Seq<char>) -> bool {
    numeral(s) && headroom(s) >= 0
}

/// The percentage right before the first `%` of a line, if there is one.
pub open spec fn percent_text(line: Seq<char>) -> Option<Seq<char>> {
    let p = first_index(line, '%');
    if p == line.len() {
        None
    } else {
        let t = with_dots(trim(number_tail(line.take(p))));
        if percentage(t) {
            Some(t)
        } else {
            None
        }
    }
}

fn is_number_char(c: char) -> (r: bool)
    ensures
        r == number_char(c),
{
    is_digit(c) || c == '.' || c == ',' || is_white_space(c)
}

/// Where the longest end of `v[..to]` that is made of number characters starts.
fn number_start(v: &Vec<char>, to: usize) -> (from: usize)
    requires
        to <= v.len(),
    ensures
        from <= to,
        v@.subrange(from as int, to as int) == number_tail(v@.take(to as int)),
{
    let mut from: usize = to;
    assert(v@.subrange(to as int, to as int) =~= Seq::empty());
    assert(number_tail(v@.take(to as int)) =~= number_tail(v@.take(from as int)) + v@.subrange(
        from as int,
        to as int,
    ));
    while from > 0 && is_number_char(v[from - 1])
        invariant
            from <= to <= v.len(),
            number_tail(v@.take(to as int)) == number_tail(v@.take(from as int)) + v@.subrange(
                from as int,
                to as int,
            ),
        decreases from,
    {
        assert(v@.take(from as int).drop_last() =~= v@.take(from - 1));
        assert(number_tail(v@.take(from as int)) + v@.subrange(from as int, to as int)
            =~= number_tail(v@.take(from - 1)) + v@.subrange(from - 1, to as int));
        from -= 1;
    }
    assert(number_tail(v@.take(from as int)) =~= Seq::empty());
    assert(v@.subrange(from as int, to as int) =~= number_tail(v@.take(to as int)));
    from
}

/// Copies `v[from..to]` with dots for commas.
fn copy_with_dots(v: &Vec<char>, from: usize, to: usize) -> (r: Vec<char>)
    requires
        from <= to <= v.len(),
    ensures
        r@ == with_dots(v@.subrange(from as int, to as int)),
{
    let mut r: Vec<char> = Vec::new();
    let mut i: usize = from;
    while i < to
        invariant
            from <= i <= to <= v.len(),
            r@ == with_dots(v@.subrange(from as int, i as int)),
        decreases to - i,
    {
        if v[i] == ',' {
            r.push('.');
        } else {
            r.push(v[i]);
        }
        i += 1;
        assert(r@ =~= with_dots(v@.subrange(from as int, i as int)));
    }
    r
}

fn is_numeral(v: &Vec<char>) -> (r: bool)
    ensures
        r == numeral(v@),
{
    let mut dot_seen = false;
    let mut digit_seen = false;
    let mut i: usize = 0;
    while i < v.len()
        invariant
            i <= v.len(),
            forall|j: int| 0 <= j < i ==> digit(#[trigger] v@[j]) || v@[j] == '.',
            forall|j: int, k: int| 0 <= j < k < i ==> !(v@[j] == '.' && v@[k] == '.'),
            dot_seen == (exists|j: int| 0 <= j < i && #[trigger] v@[j] == '.'),
            digit_seen == (exists|j: int| 0 <= j < i && digit(#[trigger] v@[j])),
        decreases v.len() - i,
    {
        let c = v[i];
        assert(v@[i as int] == c);
        if c == '.' {
            if dot_seen {
                return false;
            }
            dot_seen = true;
        } else if is_digit(c) {
            digit_seen = true;
        } else {
            return false;
        }
        i += 1;
    }
    digit_seen
}

/// One more character at the end of a numeral.
proof fn headroom_step(s: Seq<char>)
    requires
        s.len() > 0,
    ensures
        s.last() == '.' && !s.drop_last().contains('.') ==> headroom(s) == headroom(s.drop_last()),
        digit(s.last()) && s.drop_last().contains('.') ==> headroom(s) == 10 * headroom(
            s.drop_last(),
        ) - (s.last() as int - '0' as int) * HALF_STEP,
        digit(s.last()) && !s.drop_last().contains('.') ==> scale(s) == 1 && digits_value(s) == 10
            * digits_value(s.drop_last()) + (s.last() as int - '0' as int),
        !s.drop_last().contains('.') ==> scale(s.drop_last()) == 1,
        s.contains('.') == (s.last() == '.' || s.drop_last().contains('.')),
{
    let t = s.drop_last();
    assert(s.contains('.') == (s.last() == '.' || t.contains('.'))) by {
        if s.contains('.') {
            let i = choose|i: int| 0 <= i < s.len() && s[i] == '.';
            if i < t.len() {
                assert(t[i] == '.');
            }
        }
        if s.last() == '.' {
            assert(s[s.len() - 1] == '.');
        }
        if t.contains('.') {
            let i = choose|i: int| 0 <= i < t.len() && t[i] == '.';
            assert(s[i] == '.');
        }
    }
    if digit(s.last()) && t.contains('.') {
        let d = s.last() as int - '0' as int;
        assert(scale(s) == 10 * scale(t));
        assert(digits_value(s) == 10 * digits_value(t) + d);
        assert((100 * HALF_STEP + 1) * (10 * scale(t)) - (10 * digits_value(t) + d) * HALF_STEP
            == 10 * ((100 * HALF_STEP + 1) * scale(t) - digits_value(t) * HALF_STEP) - d
            * HALF_STEP) by (nonlinear_arith);
    }
}

/// A numeral that starts above the bound stays above it, and one that is a
/// whole step below it behind the dot stays below it.
proof fn headroom_is_settled(s: Seq<char>, i: int)
    requires
        numeral(s),
        0 <= i <= s.len(),
    ensures
        headroom(s.take(i)) < 0 ==> headroom(s) < 0,
        headroom(s.take(i)) >= HALF_STEP && s.take(i).contains('.') ==> headroom(s) >= 0,
    decreases s.len() - i,
{
    if i == s.len() {
        assert(s.take(i) =~= s);
    } else {
        let t = s.take(i + 1);
        assert(t.drop_last() =~= s.take(i));
        assert(t.last() == s[i]);
        headroom_step(t);
        if s[i] == '.' && s.take(i).contains('.') {
            let j = choose|j: int| 0 <= j < i && s.take(i)[j] == '.';
            assert(s[j] == '.');
            assert(false);
        }
        headroom_is_settled(s, i + 1);
    }
}

/// Tells whether the nearest double of a numeral is at most 100.
fn is_at_most_hundred(v: &Vec<char>) -> (r: bool)
    requires
        numeral(v@),
    ensures
        r == (headroom(v@) >= 0),
{
    let mut whole: i64 = 0;
    let mut room: i64 = 100 * HALF_STEP + 1;
    let mut dot_seen = false;
    let mut i: usize = 0;
    assert(v@.take(0) =~= Seq::empty());
    while i < v.len()
        invariant
            numeral(v@),
            i <= v.len(),
            dot_seen == v@.take(i as int).contains('.'),
            room == headroom(v@.take(i as int)),
            !dot_seen ==> scale(v@.take(i as int)) == 1,
            !dot_seen ==> whole == digits_value(v@.take(i as int)),
            0 <= whole <= 100,
            0 <= room <= 100 * HALF_STEP + 1,
            dot_seen && room >= HALF_STEP ==> headroom(v@) >= 0,
        decreases v.len() - i,
    {
        let c = v[i];
        let ghost t = v@.take(i + 1);
        proof {
            assert(t.drop_last() =~= v@.take(i as int));
            assert(t.last() == c);
            headroom_step(t);
            if c == '.' && dot_seen {
                let j = choose|j: int| 0 <= j < i && v@.take(i as int)[j] == '.';
                assert(v@[j] == '.');
                assert(false);
            }
            headroom_is_settled(v@, i + 1);
        }
        if c == '.' {
            dot_seen = true;
        } else {
            let d: i64 = (c as u32 - 48) as i64;
            if dot_seen {
                if room >= HALF_STEP {
                    return true;
                }
                room = 10 * room - d * HALF_STEP;
            } else {
                whole = 10 * whole + d;
                room = (100 * HALF_STEP + 1) - whole * HALF_STEP;
            }
            if room < 0 {
                return false;
            }
        }
        i += 1;
    }
    assert(v@.take(i as int) =~= v@);
    true
}

fn find(v: &Vec<char>, c: char) -> (p: usize)
    ensures
        p == first_index(v@, c),
        p <= v.len(),
{
    let mut p: usize = 0;
    while p < v.len() && v[p] != c
        invariant
            p <= v.len(),
            forall|j: int| 0 <= j < p ==> v@[j] != c,
        decreases v.len() - p,
    {
        p += 1;
    }
    proof {
        first_index_is(v@, c, p as int);
    }
    p
}

/// The percentage that a line of converter output announces before its first
/// `%`, as an unsigned decimal with a dot for its decimal mark. `None` when the
/// line has no `%`, no number stands right before it, or the number's nearest
/// double is above 100.
pub fn parse_percent(line: &str) -> (r: Option<String>)
    ensures
        match r {
            Some(t) => percent_text(line@) == Some(t@),
            None => percent_text(line@) is None,
        },
{
    let v = chars_of(line);
    let p = find(&v, '%');
    if p == v.len() {
        return None;
    }
    let from = number_start(&v, p);
    let (lo, hi) = trim_bounds(&v, from, p);
    let t = copy_with_dots(&v, lo, hi);
    if is_numeral(&t) && is_at_most_hundred(&t) {
        let s = string_of(&t, 0, t.len());
        assert(s@ =~= t@);
        Some(s)
    } else {
        None
    }
}

// ---------------------------------------------------------------------------
// Laws
// ---------------------------------------------------------------------------

/// The number tail of `s` is a tail of `s`, made of number characters, and no
/// number character stands before it.
proof fn number_tail_is_a_tail(s: Seq<char>)
    ensures
        number_tail(s).len() <= s.len(),
        number_tail(s) == s.skip(s.len() - number_tail(s).len()),
        forall|i: int| 0 <= i < number_tail(s).len() ==> number_char(#[trigger] number_tail(s)[i]),
        number_tail(s).len() < s.len() ==> !number_char(s[s.len() - number_tail(s).len() - 1]),
    decreases s.len(),
{
    if s.len() > 0 && number_char(s.last()) {
        number_tail_is_a_tail(s.drop_last());
        assert(number_tail(s) =~= s.skip(s.len() - number_tail(s).len()));
    } else {
        assert(number_tail(s) =~= s.skip(s.len() as int));
    }
}

/// Number characters up to the end, with none before them, are the number tail.
proof fn number_tail_starts(s: Seq<char>, k: int)
    requires
        0 <= k <= s.len(),
        forall|i: int| k <= i < s.len() ==> number_char(#[trigger] s[i]),
        k > 0 ==> !number_char(s[k - 1]),
    ensures
        number_tail(s) == s.skip(k),
    decreases s.len(),
{
    if k < s.len() {
        number_tail_starts(s.drop_last(), k);
        assert(s.skip(k) =~= s.drop_last().skip(k).push(s.last()));
    } else {
        assert(s.skip(k) =~= Seq::empty());
    }
}

/// White space put before a text reaches its number tail only when the whole
/// text is that tail, and trimming takes it off again.
proof fn leading_space_does_not_matter(space: Seq<char>, s: Seq<char>)
    requires
        forall|i: int| 0 <= i < space.len() ==> white_space(#[trigger] space[i]),
    ensures
        trim(number_tail(space + s)) == trim(number_tail(s)),
{
    tail_after_space(space, s);
    if number_tail(s) == s {
        space_is_trimmed(space, s);
    }
}

proof fn tail_after_space(space: Seq<char>, s: Seq<char>)
    requires
        forall|i: int| 0 <= i < space.len() ==> white_space(#[trigger] space[i]),
    ensures
        number_tail(s) == s ==> number_tail(space + s) == space + s,
        number_tail(s) != s ==> number_tail(space + s) == number_tail(s),
{
    let whole = space + s;
    let k = s.len() - number_tail(s).len();
    number_tail_is_a_tail(s);
    assert forall|i: int| space.len() + k <= i < whole.len() implies number_char(
        #[trigger] whole[i],
    ) by {
        assert(whole[i] == number_tail(s)[i - space.len() - k]);
    }
    if k > 0 {
        number_tail_starts(whole, space.len() + k);
        assert(whole.skip(space.len() + k) =~= s.skip(k));
    } else {
        assert(number_tail(s) =~= s);
        number_tail_starts(whole, 0);
        assert(whole.skip(0) =~= whole);
    }
}

proof fn space_is_trimmed(space: Seq<char>, s: Seq<char>)
    requires
        forall|i: int| 0 <= i < space.len() ==> white_space(#[trigger] space[i]),
    ensures
        trim(space + s) == trim(s),
    decreases space.len(),
{
    if space.len() > 0 {
        assert((space + s).drop_first() =~= space.drop_first() + s);
        space_is_trimmed(space.drop_first(), s);
    } else {
        assert(space + s =~= s);
    }
}

/// A line without a `%` announces nothing.
pub proof fn a_line_without_a_percent_sign_announces_nothing(line: Seq<char>)
    requires
        !line.contains('%'),
    ensures
        percent_text(line) is None,
{
    assert forall|j: int| 0 <= j < line.len() implies line[j] != '%' by {
        assert(line.contains(line[j]));
    }
    first_index_is(line, '%', line.len() as int);
}

/// What stands before the first `%` decides: two lines that agree up to there
/// announce the same number.
pub proof fn what_follows_the_percent_sign_does_not_matter(
    before: Seq<char>,
    after: Seq<char>,
    other: Seq<char>,
)
    requires
        !before.contains('%'),
    ensures
        percent_text(before + seq!['%'] + after) == percent_text(before + seq!['%'] + other),
{
    let p = before.len() as int;
    let one = before + seq!['%'] + after;
    let two = before + seq!['%'] + other;
    assert forall|j: int| 0 <= j < p implies before[j] != '%' by {
        assert(before.contains(before[j]));
    }
    assert(one[p] == '%' && two[p] == '%');
    first_index_is(one, '%', p);
    first_index_is(two, '%', p);
    assert(one.take(p) =~= two.take(p));
}

/// White space around a line does not change the number that it announces.
pub proof fn trimming_a_line_does_not_matter(line: Seq<char>)
    ensures
        percent_text(trim(line)) == percent_text(line),
{
    let k = trim_start_cut(line);
    let rest = line.skip(k);
    let m = trim_end_cut(rest);
    let cut = rest.take(m);
    assert(trim(line) == cut);
    first_index_props(line, '%');
    let p = first_index(line, '%');
    if p == line.len() {
        assert forall|j: int| 0 <= j < cut.len() implies cut[j] != '%' by {
            assert(cut[j] == line[k + j]);
        }
        first_index_is(cut, '%', cut.len() as int);
    } else {
        assert(!white_space('%'));
        assert(k <= p);
        assert(rest[p - k] == '%');
        assert(p - k < m);
        assert(cut[p - k] == '%');
        assert forall|j: int| 0 <= j < p - k implies cut[j] != '%' by {
            assert(cut[j] == line[k + j]);
        }
        first_index_is(cut, '%', p - k);
        let space = line.take(k);
        assert(line.take(p) =~= space + cut.take(p - k));
        leading_space_does_not_matter(space, cut.take(p - k));
    }
}

/// Which decimal mark a line uses does not matter.
pub proof fn the_decimal_mark_does_not_matter(line: Seq<char>)
    ensures
        percent_text(with_dots(line)) == percent_text(line),
{
    let dots = with_dots(line);
    first_index_props(line, '%');
    let p = first_index(line, '%');
    first_index_is(dots, '%', p);
    if p < line.len() {
        assert(dots.take(p) =~= with_dots(line.take(p)));
        tail_with_dots(line.take(p));
        let tail = number_tail(line.take(p));
        trim_with_dots(tail);
        assert(with_dots(with_dots(trim(tail))) =~= with_dots(trim(tail)));
    }
}

proof fn tail_with_dots(s: Seq<char>)
    ensures
        number_tail(with_dots(s)) == with_dots(number_tail(s)),
    decreases s.len(),
{
    if s.len() > 0 {
        assert(with_dots(s).drop_last() =~= with_dots(s.drop_last()));
        tail_with_dots(s.drop_last());
    }
    assert(number_tail(with_dots(s)) =~= with_dots(number_tail(s)));
}

proof fn trim_with_dots(s: Seq<char>)
    ensures
        trim(with_dots(s)) == with_dots(trim(s)),
{
    trim_start_with_dots(s);
    trim_end_with_dots(trim_start(s));
}

proof fn trim_start_with_dots(s: Seq<char>)
    ensures
        trim_start(with_dots(s)) == with_dots(trim_start(s)),
    decreases s.len(),
{
    if s.len() > 0 && white_space(s[0]) {
        assert(with_dots(s).drop_first() =~= with_dots(s.drop_first()));
        trim_start_with_dots(s.drop_first());
    }
}

proof fn trim_end_with_dots(s: Seq<char>)
    ensures
        trim_end(with_dots(s)) == with_dots(trim_end(s)),
    decreases s.len(),
{
    if s.len() > 0 && white_space(s.last()) {
        assert(with_dots(s).drop_last() =~= with_dots(s.drop_last()));
        trim_end_with_dots(s.drop_last());
    }
}

/// Which characters may stand in a number, and which of them changes when it is
/// read: the comma, which becomes a dot.
pub proof fn what_may_stand_in_a_number(c: char)
    ensures
        number_char(c) <==> 48 <= c as int <= 57 || c == '.' || c == ',' || white_space(c),
        dotted(c) == if c == ',' {
            '.'
        } else {
            c
        },
{
}

/// What stands between the last character that may not be in a number and the
/// first `%` is what is read, without the white space around it.
proof fn what_is_before_the_sign(
    before: Seq<char>,
    a: Seq<char>,
    text: Seq<char>,
    b: Seq<char>,
    after: Seq<char>,
)
    requires
        !before.contains('%'),
        before.len() > 0 ==> !number_char(before.last()),
        forall|i: int| 0 <= i < a.len() ==> white_space(#[trigger] a[i]),
        forall|i: int| 0 <= i < b.len() ==> white_space(#[trigger] b[i]),
        forall|i: int| 0 <= i < text.len() ==> number_char(#[trigger] text[i]),
        text.len() > 0 ==> !white_space(text[0]) && !white_space(text.last()),
    ensures
        percent_text(before + (a + text + b) + seq!['%'] + after) == if percentage(
            with_dots(text),
        ) {
            Some(with_dots(text))
        } else {
            None
        },
{
    let tail = a + text + b;
    let line = before + tail + seq!['%'] + after;
    let p = before.len() + tail.len();
    assert forall|i: int| 0 <= i < tail.len() implies number_char(#[trigger] tail[i]) by {
        if i < a.len() {
            assert(tail[i] == a[i]);
        } else if i < a.len() + text.len() {
            assert(tail[i] == text[i - a.len()]);
        } else {
            assert(tail[i] == b[i - a.len() - text.len()]);
        }
    }
    assert forall|j: int| 0 <= j < p implies line[j] != '%' by {
        if j < before.len() {
            assert(line[j] == before[j]);
            assert(before.contains(before[j]));
        } else {
            assert(line[j] == tail[j - before.len()]);
        }
    }
    assert(line[p as int] == '%');
    first_index_is(line, '%', p as int);
    let head = line.take(p as int);
    assert(head =~= before + tail);
    assert forall|i: int| before.len() <= i < head.len() implies number_char(#[trigger] head[i]) by {
        assert(head[i] == tail[i - before.len()]);
    }
    number_tail_starts(head, before.len() as int);
    assert(head.skip(before.len() as int) =~= tail);
    trimming_takes_off_white_space(a, text, b);
}

/// The digits of a text are all that it is made of.
pub open spec fn all_digits(s: Seq<char>) -> bool {
    forall|i: int| 0 <= i < s.len() ==> digit(#[trigger] s[i])
}

/// A whole number right before the first `%` is read as it stands where it is
/// at most 100, and else not at all, whatever is around it.
pub proof fn whole_percentages_are_read(
    before: Seq<char>,
    a: Seq<char>,
    digits: Seq<char>,
    b: Seq<char>,
    after: Seq<char>,
)
    requires
        !before.contains('%'),
        before.len() > 0 ==> !number_char(before.last()),
        forall|i: int| 0 <= i < a.len() ==> white_space(#[trigger] a[i]),
        forall|i: int| 0 <= i < b.len() ==> white_space(#[trigger] b[i]),
        all_digits(digits),
        digits.len() > 0,
    ensures
        percent_text(before + (a + digits + b) + seq!['%'] + after) == if digits_value(digits)
            <= 100 {
            Some(digits)
        } else {
            None
        },
{
    assert(digit(digits[0]) && digit(digits.last()));
    what_is_before_the_sign(before, a, digits, b, after);
    assert(with_dots(digits) =~= digits);
    assert(!digits.contains('.')) by {
        if digits.contains('.') {
            let i = choose|i: int| 0 <= i < digits.len() && digits[i] == '.';
            assert(digit(digits[i]));
        }
    }
    assert(scale(digits) == 1);
    let value = digits_value(digits);
    assert(headroom(digits) == 100 * HALF_STEP + 1 - value * HALF_STEP) by (nonlinear_arith)
        requires
            headroom(digits) == (100 * HALF_STEP + 1) * scale(digits) - value * HALF_STEP,
            scale(digits) == 1,
    ;
    assert(value <= 100 <==> 100 * HALF_STEP + 1 - value * HALF_STEP >= 0) by (nonlinear_arith)
        requires
            value >= 0,
            HALF_STEP == 0x8000_0000_0000,
    ;
}

/// Every whole percentage is read from a line that announces it.
pub proof fn every_whole_percentage_is_read(before: Seq<char>, n: nat, after: Seq<char>)
    requires
        !before.contains('%'),
        before.len() > 0 ==> !number_char(before.last()),
    ensures
        percent_text(before + decimal(n) + seq!['%'] + after) == if n <= 100 {
            Some(decimal(n))
        } else {
            None
        },
{
    let none = Seq::<char>::empty();
    decimal_reads_back(n);
    whole_percentages_are_read(before, none, decimal(n), none, after);
    assert(none + decimal(n) + none =~= decimal(n));
}

/// A number with a decimal mark right before the first `%` is read with a dot
/// for its mark where it is at most 100, or rounds to 100 as a double, and else
/// not at all, whatever is around it.
pub proof fn percentages_with_a_mark_are_read(
    before: Seq<char>,
    a: Seq<char>,
    whole: Seq<char>,
    mark: char,
    fraction: Seq<char>,
    b: Seq<char>,
    after: Seq<char>,
)
    requires
        !before.contains('%'),
        before.len() > 0 ==> !number_char(before.last()),
        forall|i: int| 0 <= i < a.len() ==> white_space(#[trigger] a[i]),
        forall|i: int| 0 <= i < b.len() ==> white_space(#[trigger] b[i]),
        all_digits(whole),
        all_digits(fraction),
        whole.len() + fraction.len() > 0,
        mark == '.' || mark == ',',
    ensures
        percent_text(before + (a + (whole + seq![mark] + fraction) + b) + seq!['%'] + after)
            == if digits_value(whole + fraction) * 0x8000_0000_0000 <= (100 * 0x8000_0000_0000 + 1)
            * pow(10, fraction.len()) {
            Some(whole + seq!['.'] + fraction)
        } else {
            None
        },
{
    let text = whole + seq![mark] + fraction;
    let dotted_text = whole + seq!['.'] + fraction;
    assert forall|i: int| 0 <= i < text.len() implies number_char(#[trigger] text[i])
        && !white_space(text[i]) by {
        if i < whole.len() {
            assert(text[i] == whole[i]);
        } else if i > whole.len() {
            assert(text[i] == fraction[i - whole.len() - 1]);
        }
    }
    what_is_before_the_sign(before, a, text, b, after);
    assert(with_dots(text) =~= dotted_text) by {
        assert forall|i: int| 0 <= i < text.len() implies with_dots(text)[i]
            == dotted_text[i] by {
            if i < whole.len() {
                assert(digit(whole[i]));
            } else if i > whole.len() {
                assert(digit(fraction[i - whole.len() - 1]));
            }
        }
    }
    digits_around_a_dot(whole, fraction);
    value_around_a_dot(whole, fraction);
}

proof fn digits_around_a_dot(whole: Seq<char>, fraction: Seq<char>)
    requires
        all_digits(whole),
        all_digits(fraction),
        whole.len() + fraction.len() > 0,
    ensures
        numeral(whole + seq!['.'] + fraction),
{
    let s = whole + seq!['.'] + fraction;
    assert forall|i: int| 0 <= i < s.len() implies digit(#[trigger] s[i]) || s[i] == '.' by {
        if i < whole.len() {
            assert(s[i] == whole[i]);
        } else if i > whole.len() {
            assert(s[i] == fraction[i - whole.len() - 1]);
        }
    }
    assert forall|i: int| 0 <= i < s.len() && i != whole.len() implies #[trigger] s[i] != '.' by {
        if i < whole.len() {
            assert(digit(whole[i]));
        } else {
            assert(digit(fraction[i - whole.len() - 1]));
        }
    }
    if whole.len() > 0 {
        assert(digit(whole[0]) && s[0] == whole[0]);
    } else {
        assert(digit(fraction[0]) && s[1] == fraction[0]);
    }
}

proof fn value_around_a_dot(whole: Seq<char>, fraction: Seq<char>)
    requires
        all_digits(fraction),
    ensures
        digits_value(whole + seq!['.'] + fraction) == digits_value(whole + fraction),
        scale(whole + seq!['.'] + fraction) == pow(10, fraction.len()),
    decreases fraction.len(),
{
    reveal(pow);
    let s = whole + seq!['.'] + fraction;
    if fraction.len() > 0 {
        let shorter = fraction.drop_last();
        assert forall|i: int| 0 <= i < shorter.len() implies digit(#[trigger] shorter[i]) by {
            assert(shorter[i] == fraction[i]);
        }
        value_around_a_dot(whole, shorter);
        assert(s.drop_last() =~= whole + seq!['.'] + shorter);
        assert((whole + fraction).drop_last() =~= whole + shorter);
        assert(s.last() == fraction.last() && (whole + fraction).last() == fraction.last());
        assert(digit(fraction.last()));
        assert(s[whole.len() as int] == '.');
        assert(s.contains('.'));
        assert(pow(10, fraction.len()) == 10 * pow(10, shorter.len()));
    } else {
        assert(s.drop_last() =~= whole);
        assert(whole + fraction =~= whole);
        assert(s.last() == '.');
        assert(pow(10, 0) == 1);
    }
}

/// What is not one number is not read: nothing, something without a digit,
/// something with white space in it, or with two decimal marks.
pub proof fn what_is_no_number_is_not_read(
    before: Seq<char>,
    a: Seq<char>,
    text: Seq<char>,
    b: Seq<char>,
    after: Seq<char>,
)
    requires
        !before.contains('%'),
        before.len() > 0 ==> !number_char(before.last()),
        forall|i: int| 0 <= i < a.len() ==> white_space(#[trigger] a[i]),
        forall|i: int| 0 <= i < b.len() ==> white_space(#[trigger] b[i]),
        forall|i: int| 0 <= i < text.len() ==> number_char(#[trigger] text[i]),
        text.len() > 0 ==> !white_space(text[0]) && !white_space(text.last()),
        ({
            ||| forall|i: int| 0 <= i < text.len() ==> !digit(#[trigger] text[i])
            ||| exists|i: int| 0 <= i < text.len() && white_space(#[trigger] text[i])
            ||| exists|i: int, j: int|
                0 <= i < j < text.len() && (#[trigger] text[i] == '.' || text[i] == ',') && (
                #[trigger] text[j] == '.' || text[j] == ',')
        }),
    ensures
        percent_text(before + (a + text + b) + seq!['%'] + after) is None,
{
    what_is_before_the_sign(before, a, text, b, after);
    let t = with_dots(text);
    assert forall|i: int| 0 <= i < text.len() implies #[trigger] t[i] == dotted(text[i]) by {}
    if numeral(t) {
        let d = choose|i: int| 0 <= i < t.len() && digit(#[trigger] t[i]);
        assert(digit(text[d]));
        if exists|i: int| 0 <= i < text.len() && white_space(#[trigger] text[i]) {
            let i = choose|i: int| 0 <= i < text.len() && white_space(#[trigger] text[i]);
            assert(digit(t[i]) || t[i] == '.');
        } else {
            let (i, j) = choose|i: int, j: int|
                0 <= i < j < text.len() && (#[trigger] text[i] == '.' || text[i] == ',') && (
                #[trigger] text[j] == '.' || text[j] == ',');
            assert(t[i] == '.' && t[j] == '.');
        }
    }
}

} // verus!
