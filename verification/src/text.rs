//! Text helpers: characters of a string, decimal numerals, suffixes, trimming.

use vstd::prelude::*;
use vstd::string::*;

verus! {

/// The characters of `s`, in order.
pub fn chars_of(s: &str) -> (out: Vec<char>)
    ensures
        out@ == s@,
{
    let mut out: Vec<char> = Vec::new();
    for c in it: s.chars()
        invariant
            out@ == it.seq().take(it.index()),
            it.seq() == s@,
    {
        out.push(c);
    }
    out
}

/// Whether `c` is one of the ten ASCII digits.
pub open spec fn is_digit(c: char) -> bool {
    '0' <= c && c <= '9'
}

/// The number that the ASCII digit `c` stands for.
pub open spec fn digit_value(c: char) -> int {
    c as int - '0' as int
}

/// Whether every character of `s` is an ASCII digit.
pub open spec fn all_digits(s: Seq<char>) -> bool {
    forall|i: int| 0 <= i < s.len() ==> is_digit(#[trigger] s[i])
}

/// The number read by writing the digits of `s` after the digits of `start`.
pub open spec fn append_digits(start: nat, s: Seq<char>) -> nat
    decreases s.len(),
{
    if s.len() == 0 {
        start
    } else {
        (append_digits(start, s.drop_last()) * 10 + digit_value(s.last())) as nat
    }
}

/// The number that the decimal numeral `s` denotes.
pub open spec fn decimal_value(s: Seq<char>) -> nat {
    append_digits(0, s)
}

/// Ten to the power `n`.
pub open spec fn pow10(n: nat) -> nat
    decreases n,
{
    if n == 0 {
        1
    } else {
        10 * pow10((n - 1) as nat)
    }
}

/// Reading more digits never makes the number smaller.
pub proof fn lemma_append_digits_grows(start: nat, s: Seq<char>, k: int)
    requires
        all_digits(s),
        0 <= k <= s.len(),
    ensures
        append_digits(start, s.take(k)) <= append_digits(start, s),
    decreases s.len() - k,
{
    if k == s.len() {
        assert(s.take(k) == s);
    } else {
        lemma_append_digits_grows(start, s, k + 1);
        assert(s.take(k + 1).drop_last() == s.take(k));
        assert(is_digit(s[k]));
    }
}

/// The digit that `c` stands for, if it is an ASCII digit.
pub fn digit_of(c: char) -> (d: Option<u8>)
    ensures
        d is Some <==> is_digit(c),
        d matches Some(v) ==> v as int == digit_value(c) && v <= 9,
{
    if c >= '0' && c <= '9' {
        Some(((c as u32) - ('0' as u32)) as u8)
    } else {
        None
    }
}

/// Reads the digits `chars[from..to]` after the digits of `start`.
///
/// Gives the number where the range holds ASCII digits only and the number
/// fits in 64 bits, and nothing otherwise. An empty range gives `start`.
pub fn read_digits(chars: &Vec<char>, from: usize, to: usize, start: u64) -> (out: Option<u64>)
    requires
        from <= to <= chars.len(),
    ensures
        out is Some <==> all_digits(chars@.subrange(from as int, to as int)) && append_digits(
            start as nat,
            chars@.subrange(from as int, to as int),
        ) <= u64::MAX,
        out matches Some(v) ==> v == append_digits(
            start as nat,
            chars@.subrange(from as int, to as int),
        ),
{
    let ghost range = chars@.subrange(from as int, to as int);
    let mut acc: u64 = start;
    let mut i: usize = from;
    while i < to
        invariant
            from <= i <= to <= chars.len(),
            range == chars@.subrange(from as int, to as int),
            all_digits(range.take(i - from)),
            acc == append_digits(start as nat, range.take(i - from)),
        decreases to - i,
    {
        let ghost seen = range.take(i - from);
        let ghost next = range.take(i - from + 1);
        proof {
            assert(next.drop_last() == seen);
            assert(next.last() == chars@[i as int]);
        }
        match digit_of(chars[i]) {
            None => {
                proof {
                    assert(range[i - from] == chars@[i as int]);
                    assert(!is_digit(range[i - from]));
                }
                return None;
            },
            Some(d) => {
                proof {
                    assert forall|j: int| 0 <= j < next.len() implies is_digit(
                        #[trigger] next[j],
                    ) by {
                        if j < seen.len() {
                            assert(next[j] == seen[j]);
                        }
                    }
                }
                if acc > (u64::MAX - d as u64) / 10 {
                    proof {
                        assert(append_digits(start as nat, next) > u64::MAX);
                        if all_digits(range) {
                            lemma_append_digits_grows(start as nat, range, i - from + 1);
                        }
                    }
                    return None;
                }
                acc = acc * 10 + d as u64;
                i = i + 1;
            },
        }
    }
    proof {
        assert(range.take(i - from) == range);
    }
    Some(acc)
}

/// The number that the decimal numeral `chars[from..to]` denotes.
///
/// Gives it where the range is not empty, holds ASCII digits only and denotes
/// a number of at most `max`; nothing otherwise.
pub fn parse_decimal(chars: &Vec<char>, from: usize, to: usize, max: u64) -> (out: Option<u64>)
    requires
        from <= to <= chars.len(),
    ensures
        out == numeral_value(chars@.subrange(from as int, to as int), max as nat),
{
    if from == to {
        return None;
    }
    match read_digits(chars, from, to, 0) {
        Some(v) => if v <= max {
            Some(v)
        } else {
            None
        },
        None => None,
    }
}

/// What `parse_decimal` reads from the numeral `s` under the bound `max`.
pub open spec fn numeral_value(s: Seq<char>, max: nat) -> Option<u64> {
    if s.len() > 0 && all_digits(s) && decimal_value(s) <= max && decimal_value(s) <= u64::MAX {
        Some(decimal_value(s) as u64)
    } else {
        None
    }
}

/// Whether `s` ends with `suffix`.
pub open spec fn has_suffix(s: Seq<char>, suffix: Seq<char>) -> bool {
    suffix.len() <= s.len() && s.skip(s.len() - suffix.len()) == suffix
}

/// Whether `s` ends with `suffix`.
pub fn ends_with(s: &Vec<char>, suffix: &Vec<char>) -> (yes: bool)
    ensures
        yes == has_suffix(s@, suffix@),
{
    if suffix.len() > s.len() {
        return false;
    }
    let offset: usize = s.len() - suffix.len();
    let mut i: usize = 0;
    while i < suffix.len()
        invariant
            offset + suffix.len() == s.len(),
            i <= suffix.len(),
            forall|j: int| 0 <= j < i ==> s@[offset + j] == suffix@[j],
        decreases suffix.len() - i,
    {
        if s[offset + i] != suffix[i] {
            proof {
                assert(s@.skip(offset as int)[i as int] == s@[offset + i]);
            }
            return false;
        }
        i = i + 1;
    }
    proof {
        assert(s@.skip(offset as int) =~= suffix@);
    }
    true
}

/// Whether `c` is white space: one of the code points that carry Unicode's
/// `White_Space` property.
pub open spec fn is_white_space(c: char) -> bool {
    let n = c as int;
    ||| 0x09 <= n <= 0x0D
    ||| n == 0x20
    ||| n == 0x85
    ||| n == 0xA0
    ||| n == 0x1680
    ||| 0x2000 <= n <= 0x200A
    ||| n == 0x2028
    ||| n == 0x2029
    ||| n == 0x202F
    ||| n == 0x205F
    ||| n == 0x3000
}

/// Whether `c` is white space.
pub fn white_space(c: char) -> (yes: bool)
    ensures
        yes == is_white_space(c),
{
    let n: u32 = c as u32;
    (0x09 <= n && n <= 0x0D) || n == 0x20 || n == 0x85 || n == 0xA0 || n == 0x1680 || (0x2000 <= n
        && n <= 0x200A) || n == 0x2028 || n == 0x2029 || n == 0x202F || n == 0x205F || n
        == 0x3000
}

/// Where the trimmed part of `s` begins: the index of the first character
/// that is not white space, or the length of `s` where there is none.
pub open spec fn trim_start(s: Seq<char>) -> int
    decreases s.len(),
{
    if s.len() == 0 || !is_white_space(s[0]) {
        0
    } else {
        1 + trim_start(s.drop_first())
    }
}

/// Where the trimmed part of `s` ends: one past the last character that is
/// not white space, or 0 where there is none.
pub open spec fn trim_end(s: Seq<char>) -> int
    decreases s.len(),
{
    if s.len() == 0 || !is_white_space(s.last()) {
        s.len() as int
    } else {
        trim_end(s.drop_last())
    }
}

/// `s` without its leading and trailing white space.
pub open spec fn trimmed(s: Seq<char>) -> Seq<char> {
    if trim_start(s) >= trim_end(s) {
        Seq::empty()
    } else {
        s.subrange(trim_start(s), trim_end(s))
    }
}

/// `trim_start` is in range, everything before it is white space, and the
/// character at it is not.
pub proof fn lemma_trim_start(s: Seq<char>)
    ensures
        0 <= trim_start(s) <= s.len(),
        forall|i: int| 0 <= i < trim_start(s) ==> is_white_space(#[trigger] s[i]),
        trim_start(s) < s.len() ==> !is_white_space(s[trim_start(s)]),
    decreases s.len(),
{
    if s.len() == 0 || !is_white_space(s[0]) {
    } else {
        let rest = s.drop_first();
        lemma_trim_start(rest);
        assert forall|i: int| 0 <= i < trim_start(s) implies is_white_space(#[trigger] s[i]) by {
            if i > 0 {
                assert(s[i] == rest[i - 1]);
            }
        }
        if trim_start(s) < s.len() {
            assert(s[trim_start(s)] == rest[trim_start(rest)]);
        }
    }
}

/// `trim_end` is in range, everything from it on is white space, and the
/// character before it is not.
pub proof fn lemma_trim_end(s: Seq<char>)
    ensures
        0 <= trim_end(s) <= s.len(),
        forall|i: int| trim_end(s) <= i < s.len() ==> is_white_space(#[trigger] s[i]),
        trim_end(s) > 0 ==> !is_white_space(s[trim_end(s) - 1]),
    decreases s.len(),
{
    if s.len() == 0 || !is_white_space(s.last()) {
    } else {
        let rest = s.drop_last();
        lemma_trim_end(rest);
        assert forall|i: int| trim_end(s) <= i < s.len() implies is_white_space(
            #[trigger] s[i],
        ) by {
            if i < rest.len() {
                assert(s[i] == rest[i]);
            }
        }
        if trim_end(s) > 0 {
            assert(s[trim_end(s) - 1] == rest[trim_end(rest) - 1]);
        }
    }
}

/// The bounds of `chars[from..to]` without its leading and trailing white
/// space, as indices into `chars`. An all-white range gives an empty range.
pub fn trim_range(chars: &Vec<char>, from: usize, to: usize) -> (out: (usize, usize))
    requires
        from <= to <= chars.len(),
    ensures
        from <= out.0 <= out.1 <= to,
        chars@.subrange(out.0 as int, out.1 as int) == trimmed(
            chars@.subrange(from as int, to as int),
        ),
{
    let ghost range = chars@.subrange(from as int, to as int);
    proof {
        lemma_trim_start(range);
        lemma_trim_end(range);
    }
    let mut a: usize = from;
    while a < to && white_space(chars[a])
        invariant
            from <= a <= to <= chars.len(),
            range == chars@.subrange(from as int, to as int),
            a - from <= trim_start(range),
            0 <= trim_start(range) <= range.len(),
            forall|i: int| 0 <= i < trim_start(range) ==> is_white_space(#[trigger] range[i]),
            trim_start(range) < range.len() ==> !is_white_space(range[trim_start(range)]),
        decreases to - a,
    {
        proof {
            assert(range[a - from] == chars@[a as int]);
        }
        a = a + 1;
    }
    proof {
        if a < to {
            assert(range[a - from] == chars@[a as int]);
        }
        assert(a - from == trim_start(range));
    }
    let mut b: usize = to;
    while b > a && white_space(chars[b - 1])
        invariant
            from <= a <= b <= to <= chars.len(),
            range == chars@.subrange(from as int, to as int),
            a - from == trim_start(range),
            b - from >= trim_end(range) || trim_end(range) <= trim_start(range),
            0 <= trim_end(range) <= range.len(),
            forall|i: int| trim_end(range) <= i < range.len() ==> is_white_space(#[trigger] range[i]),
            trim_end(range) > 0 ==> !is_white_space(range[trim_end(range) - 1]),
        decreases b - a,
    {
        proof {
            assert(range[b - 1 - from] == chars@[b - 1]);
        }
        b = b - 1;
    }
    proof {
        if b > a {
            assert(range[b - 1 - from] == chars@[b - 1]);
            assert(b - from == trim_end(range));
            assert(chars@.subrange(a as int, b as int) =~= range.subrange(
                trim_start(range),
                trim_end(range),
            ));
        } else {
            if trim_start(range) < trim_end(range) {
                assert(!is_white_space(range[trim_end(range) - 1]));
                assert(b - from >= trim_end(range));
            }
            assert(chars@.subrange(a as int, b as int) =~= Seq::<char>::empty());
        }
    }
    (a, b)
}

/// The index of the first `c` in `s`, or the length of `s` where `s` holds
/// no `c`.
pub open spec fn first_index_of(s: Seq<char>, c: char) -> int
    decreases s.len(),
{
    if s.len() == 0 || s[0] == c {
        0
    } else {
        1 + first_index_of(s.drop_first(), c)
    }
}

/// `first_index_of` is in range, no `c` stands before it, and `c` stands at it
/// unless it is the length.
pub proof fn lemma_first_index_of(s: Seq<char>, c: char)
    ensures
        0 <= first_index_of(s, c) <= s.len(),
        forall|i: int| 0 <= i < first_index_of(s, c) ==> #[trigger] s[i] != c,
        first_index_of(s, c) < s.len() ==> s[first_index_of(s, c)] == c,
    decreases s.len(),
{
    if s.len() == 0 || s[0] == c {
    } else {
        let rest = s.drop_first();
        lemma_first_index_of(rest, c);
        assert forall|i: int| 0 <= i < first_index_of(s, c) implies #[trigger] s[i] != c by {
            if i > 0 {
                assert(s[i] == rest[i - 1]);
            }
        }
        if first_index_of(s, c) < s.len() {
            assert(s[first_index_of(s, c)] == rest[first_index_of(rest, c)]);
        }
    }
}

/// An index with no `c` before it, and `c` at it or the end of `s`, is the
/// first index of `c`.
pub proof fn lemma_first_index_of_is(s: Seq<char>, c: char, p: int)
    requires
        0 <= p <= s.len(),
        forall|i: int| 0 <= i < p ==> #[trigger] s[i] != c,
        p < s.len() ==> s[p] == c,
    ensures
        first_index_of(s, c) == p,
{
    lemma_first_index_of(s, c);
    let q = first_index_of(s, c);
    if q < p {
        assert(s[q] != c);
    } else if p < q {
        assert(s[p] != c);
    }
}

/// The index of the first `c` in `chars[from..to]`, as an index into `chars`,
/// or `to` where the range holds no `c`.
pub fn find_char(chars: &Vec<char>, from: usize, to: usize, c: char) -> (at: usize)
    requires
        from <= to <= chars.len(),
    ensures
        from <= at <= to,
        at == from + first_index_of(chars@.subrange(from as int, to as int), c),
{
    let ghost range = chars@.subrange(from as int, to as int);
    let mut i: usize = from;
    while i < to && chars[i] != c
        invariant
            from <= i <= to <= chars.len(),
            range == chars@.subrange(from as int, to as int),
            forall|j: int| 0 <= j < i - from ==> #[trigger] range[j] != c,
        decreases to - i,
    {
        proof {
            assert(range[i - from] == chars@[i as int]);
        }
        i = i + 1;
    }
    proof {
        if i < to {
            assert(range[i - from] == chars@[i as int]);
        }
        lemma_first_index_of_is(range, c, i - from);
    }
    i
}

/// The character that writes the digit `d`.
pub open spec fn digit_char(d: int) -> char {
    ('0' as u8 + d) as char
}

/// The decimal numeral of `n`, without leading zeros.
pub open spec fn decimal_digits(n: nat) -> Seq<char>
    decreases n,
{
    if n < 10 {
        seq![digit_char(n as int)]
    } else {
        decimal_digits(n / 10).push(digit_char((n % 10) as int))
    }
}

/// The decimal numeral of `v`, with `-` before it where `v` is negative.
pub open spec fn integer_text(v: int) -> Seq<char> {
    if v < 0 {
        seq!['-'] + decimal_digits((-v) as nat)
    } else {
        decimal_digits(v as nat)
    }
}

/// A numeral reads as the number it was written from.
pub proof fn lemma_decimal_round_trip(n: nat)
    ensures
        decimal_digits(n).len() > 0,
        all_digits(decimal_digits(n)),
        decimal_value(decimal_digits(n)) == n,
    decreases n,
{
    if n < 10 {
        let s = decimal_digits(n);
        assert(s.drop_last() =~= Seq::<char>::empty());
        assert(append_digits(0, s.drop_last()) == 0);
    } else {
        lemma_decimal_round_trip(n / 10);
        let front = decimal_digits(n / 10);
        let s = decimal_digits(n);
        assert(s.drop_last() =~= front);
        assert(s.last() == digit_char((n % 10) as int));
        assert forall|i: int| 0 <= i < s.len() implies is_digit(#[trigger] s[i]) by {
            if i < front.len() {
                assert(s[i] == front[i]);
            }
        }
    }
}

/// The one-character text of the digit `d`.
fn digit_text(d: u8) -> (text: &'static str)
    requires
        d <= 9,
    ensures
        text@ == seq![digit_char(d as int)],
{
    proof {
        reveal_strlit("0");
        reveal_strlit("1");
        reveal_strlit("2");
        reveal_strlit("3");
        reveal_strlit("4");
        reveal_strlit("5");
        reveal_strlit("6");
        reveal_strlit("7");
        reveal_strlit("8");
        reveal_strlit("9");
    }
    let text = match d {
        0 => "0",
        1 => "1",
        2 => "2",
        3 => "3",
        4 => "4",
        5 => "5",
        6 => "6",
        7 => "7",
        8 => "8",
        _ => "9",
    };
    proof {
        assert(text@ =~= seq![digit_char(d as int)]);
    }
    text
}

/// Writes the decimal numeral of `n` at the end of `out`.
pub fn push_decimal(out: &mut String, n: u64)
    ensures
        final(out)@ == old(out)@ + decimal_digits(n as nat),
    decreases n,
{
    if n >= 10 {
        push_decimal(out, n / 10);
    }
    let ghost before = out@;
    out.append(digit_text((n % 10) as u8));
    proof {
        if n >= 10 {
            assert(out@ =~= old(out)@ + decimal_digits((n / 10) as nat).push(
                digit_char((n % 10) as int),
            ));
        } else {
            assert(out@ =~= old(out)@ + seq![digit_char(n as int)]);
        }
    }
}

/// The text of `v` in decimal.
pub fn integer_to_text(v: i64) -> (text: String)
    ensures
        text@ == integer_text(v as int),
{
    let mut text = String::new();
    if v < 0 {
        proof {
            reveal_strlit("-");
        }
        text.append("-");
        let magnitude: u64 = if v == i64::MIN {
            0x8000_0000_0000_0000
        } else {
            (-v) as u64
        };
        proof {
            assert(text@ =~= seq!['-']);
        }
        push_decimal(&mut text, magnitude);
    } else {
        push_decimal(&mut text, v as u64);
        proof {
            assert(text@ =~= decimal_digits(v as nat));
        }
    }
    text
}

} // verus!
