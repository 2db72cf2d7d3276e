//! Text building and scanning: decimal and hexadecimal digits, padding, number
//! parsing, and comparisons over characters.

use vstd::prelude::*;
use vstd::string::*;

verus! {

/// `String::push`: appends one character to the end of the string.
pub assume_specification[ String::push ](s: &mut String, c: char)
    ensures
        final(s)@ == old(s)@.push(c),
;

// ── digits ──────────────────────────────────────────────────────────────────

/// The character that writes the digit `d`, below sixteen, with capital letters
/// above nine.
pub open spec fn digit_char(d: nat) -> char {
    if d < 10 {
        (48 + d) as char
    } else {
        (55 + d) as char
    }
}

/// `n` in decimal, without leading zeros.
pub open spec fn dec(n: nat) -> Seq<char>
    decreases n,
{
    if n < 10 {
        seq![digit_char(n)]
    } else {
        dec(n / 10).push(digit_char(n % 10))
    }
}

/// `width` zeros.
pub open spec fn zeros(width: nat) -> Seq<char> {
    Seq::new(width, |i: int| '0')
}

/// `n` in decimal with zeros in front until it is at least `width` digits long.
pub open spec fn dec_padded(n: nat, width: nat) -> Seq<char> {
    if dec(n).len() >= width {
        dec(n)
    } else {
        zeros((width - dec(n).len()) as nat) + dec(n)
    }
}

/// A byte as two capital hexadecimal digits.
pub open spec fn hex_byte(b: u8) -> Seq<char> {
    seq![digit_char((b / 16) as nat), digit_char((b % 16) as nat)]
}

/// The digits of a decimal numeral are between `0` and `9`, and there is at
/// least one.
pub proof fn lemma_dec_digits(n: nat)
    ensures
        dec(n).len() >= 1,
        forall|i: int| 0 <= i < dec(n).len() ==> '0' <= #[trigger] dec(n)[i] <= '9',
    decreases n,
{
    if n >= 10 {
        lemma_dec_digits(n / 10);
    }
}

/// A numeral of a value below `10^k` has at most `k` digits, for the widths used
/// in timestamps.
pub proof fn lemma_dec_len(n: nat)
    ensures
        n < 10 ==> dec(n).len() == 1,
        10 <= n < 100 ==> dec(n).len() == 2,
        100 <= n < 1000 ==> dec(n).len() == 3,
        1000 <= n < 10_000 ==> dec(n).len() == 4,
        10_000 <= n < 100_000 ==> dec(n).len() == 5,
        100_000 <= n < 1_000_000 ==> dec(n).len() == 6,
{
    reveal_with_fuel(dec, 7);
}

fn digit_of(d: u64) -> (c: char)
    requires
        d < 16,
    ensures
        c == digit_char(d as nat),
{
    if d < 10 {
        (48u8 + d as u8) as char
    } else {
        (55u8 + d as u8) as char
    }
}

/// Appends `n` in decimal.
pub fn push_dec(out: &mut String, n: u64)
    ensures
        final(out)@ == old(out)@ + dec(n as nat),
    decreases n,
{
    if n >= 10 {
        push_dec(out, n / 10);
    }
    out.push(digit_of(n % 10));
}

fn dec_len(n: u64) -> (len: u64)
    ensures
        len == dec(n as nat).len(),
        len <= n / 10 + 1,
    decreases n,
{
    if n < 10 {
        1
    } else {
        dec_len(n / 10) + 1
    }
}

/// Appends `n` in decimal, zero-padded to `width` digits.
pub fn push_dec_padded(out: &mut String, n: u64, width: u64)
    ensures
        final(out)@ == old(out)@ + dec_padded(n as nat, width as nat),
{
    let mut len: u64 = dec_len(n);
    let ghost start = out@;
    let ghost digits: nat = len as nat;
    while len < width
        invariant
            digits <= len,
            digits == dec(n as nat).len(),
            digits >= width ==> len == digits,
            digits < width ==> len <= width,
            out@ == start + zeros((len - digits) as nat),
        decreases width - len,
    {
        out.push('0');
        len = len + 1;
        assert(out@ =~= start + zeros((len - digits) as nat));
    }
    push_dec(out, n);
    assert(zeros(0) =~= Seq::<char>::empty());
    assert(out@ =~= start + dec_padded(n as nat, width as nat));
}

/// Appends a byte as two capital hexadecimal digits.
pub fn push_hex_byte(out: &mut String, b: u8)
    ensures
        final(out)@ == old(out)@ + hex_byte(b),
{
    out.push(digit_of((b / 16) as u64));
    out.push(digit_of((b % 16) as u64));
}

// ── scanning ────────────────────────────────────────────────────────────────

/// The characters of `s`.
pub fn chars_of(s: &str) -> (chars: Vec<char>)
    ensures
        chars@ == s@,
{
    let mut chars: Vec<char> = Vec::new();
    for c in it: s.chars()
        invariant
            it.seq() == s@,
            chars@ == s@.take(it.index() as int),
    {
        chars.push(c);
    }
    chars
}

/// Whether `c` occurs in `s`.
pub fn contains_char(s: &str, c: char) -> (found: bool)
    ensures
        found == s@.contains(c),
{
    let chars = chars_of(s);
    let mut i: usize = 0;
    while i < chars.len()
        invariant
            chars@ == s@,
            i <= chars.len(),
            forall|j: int| 0 <= j < i ==> chars@[j] != c,
        decreases chars.len() - i,
    {
        if chars[i] == c {
            assert(s@[i as int] == c);
            return true;
        }
        i = i + 1;
    }
    false
}

/// Whether `a` and `b` are the same text.
pub fn same_text(a: &str, b: &str) -> (same: bool)
    ensures
        same == (a@ == b@),
{
    let x = chars_of(a);
    let y = chars_of(b);
    if x.len() != y.len() {
        return false;
    }
    let mut i: usize = 0;
    while i < x.len()
        invariant
            x@ == a@,
            y@ == b@,
            x.len() == y.len(),
            i <= x.len(),
            forall|j: int| 0 <= j < i ==> x@[j] == y@[j],
        decreases x.len() - i,
    {
        if x[i] != y[i] {
            assert(a@[i as int] != b@[i as int]);
            return false;
        }
        i = i + 1;
    }
    assert(a@ =~= b@);
    true
}

/// `c` with an ASCII capital letter made small.
pub open spec fn lower(c: char) -> char {
    if 'A' <= c <= 'Z' {
        (c as u32 + 32) as char
    } else {
        c
    }
}

/// `a` and `b` differ at most in the case of ASCII letters.
pub open spec fn same_but_case(a: Seq<char>, b: Seq<char>) -> bool {
    a.len() == b.len() && forall|i: int|
        0 <= i < a.len() ==> lower(#[trigger] a[i]) == lower(b[i])
}

fn lower_of(c: char) -> (r: char)
    ensures
        r == lower(c),
{
    if 'A' <= c && c <= 'Z' {
        (c as u8 + 32) as char
    } else {
        c
    }
}

/// Whether `a` and `b` are the same text but for the case of ASCII letters.
pub fn same_text_ignoring_case(a: &str, b: &str) -> (same: bool)
    ensures
        same == same_but_case(a@, b@),
{
    let x = chars_of(a);
    let y = chars_of(b);
    if x.len() != y.len() {
        return false;
    }
    let mut i: usize = 0;
    while i < x.len()
        invariant
            x@ == a@,
            y@ == b@,
            x.len() == y.len(),
            i <= x.len(),
            forall|j: int| 0 <= j < i ==> lower(#[trigger] x@[j]) == lower(y@[j]),
        decreases x.len() - i,
    {
        if lower_of(x[i]) != lower_of(y[i]) {
            assert(lower(a@[i as int]) != lower(b@[i as int]));
            return false;
        }
        i = i + 1;
    }
    true
}

/// `prefix` is how `s` begins.
pub open spec fn begins_with(s: Seq<char>, prefix: Seq<char>) -> bool {
    prefix.len() <= s.len() && s.take(prefix.len() as int) == prefix
}

/// Whether `s` begins with `prefix`.
pub fn starts_with(s: &str, prefix: &str) -> (yes: bool)
    ensures
        yes == begins_with(s@, prefix@),
{
    let x = chars_of(s);
    let y = chars_of(prefix);
    if x.len() < y.len() {
        return false;
    }
    let mut i: usize = 0;
    while i < y.len()
        invariant
            x@ == s@,
            y@ == prefix@,
            y.len() <= x.len(),
            i <= y.len(),
            forall|j: int| 0 <= j < i ==> x@[j] == y@[j],
        decreases y.len() - i,
    {
        if x[i] != y[i] {
            assert(s@.take(prefix@.len() as int)[i as int] != prefix@[i as int]);
            return false;
        }
        i = i + 1;
    }
    assert(s@.take(prefix@.len() as int) =~= prefix@);
    true
}

// ── numbers in text ─────────────────────────────────────────────────────────

/// `c` is a decimal digit.
pub open spec fn is_digit(c: char) -> bool {
    '0' <= c <= '9'
}

/// `s` holds nothing but decimal digits.
pub open spec fn all_digits(s: Seq<char>) -> bool {
    forall|i: int| 0 <= i < s.len() ==> is_digit(#[trigger] s[i])
}

/// The value that a run of decimal digits denotes.
pub open spec fn dec_value(s: Seq<char>) -> nat
    decreases s.len(),
{
    if s.len() == 0 {
        0
    } else {
        (dec_value(s.drop_last()) * 10 + (s.last() as int - 48)) as nat
    }
}

/// What follows an optional leading `+`.
pub open spec fn unsigned_part(s: Seq<char>) -> Seq<char> {
    if s.len() > 0 && s[0] == '+' {
        s.skip(1)
    } else {
        s
    }
}

/// The unsigned number that `s` writes, if it writes one of at most `max`: an
/// optional `+`, then one or more decimal digits and nothing else.
pub open spec fn parsed(s: Seq<char>, max: nat) -> Option<nat> {
    let digits = unsigned_part(s);
    if digits.len() > 0 && all_digits(digits) && dec_value(digits) <= max {
        Some(dec_value(digits))
    } else {
        None
    }
}

/// A longer run of digits denotes no smaller value.
proof fn lemma_dec_value_grows(s: Seq<char>, i: int)
    requires
        0 <= i <= s.len(),
        all_digits(s),
    ensures
        dec_value(s.take(i)) <= dec_value(s),
    decreases s.len(),
{
    if i == s.len() {
        assert(s.take(i) =~= s);
    } else {
        let rest = s.drop_last();
        lemma_dec_value_grows(rest, i);
        assert(rest.take(i) =~= s.take(i));
    }
}

/// Reads `chars` as an unsigned number of at most `max`.
pub fn parse_up_to(chars: &Vec<char>, max: u32) -> (value: Option<u32>)
    ensures
        value is Some == parsed(chars@, max as nat) is Some,
        value matches Some(v) ==> parsed(chars@, max as nat) == Some(v as nat),
{
    let from: usize = if chars.len() > 0 && chars[0] == '+' {
        1
    } else {
        0
    };
    let ghost digits = unsigned_part(chars@);
    assert(digits =~= chars@.skip(from as int));
    if chars.len() == from {
        return None;
    }
    let mut i: usize = from;
    let mut total: u64 = 0;
    while i < chars.len()
        invariant
            from <= i <= chars.len(),
            digits == chars@.skip(from as int),
            digits == unsigned_part(chars@),
            forall|j: int| from <= j < i ==> is_digit(#[trigger] chars@[j]),
            total == dec_value(digits.take(i - from)),
            total <= max,
        decreases chars.len() - i,
    {
        let c = chars[i];
        if !('0' <= c && c <= '9') {
            assert(!is_digit(digits[i - from]));
            return None;
        }
        let next: u64 = total * 10 + (c as u8 - 48) as u64;
        assert(digits.take(i - from + 1).drop_last() =~= digits.take(i - from));
        assert(digits.take(i - from + 1).last() == c);
        if next > max as u64 {
            proof {
                if all_digits(digits) {
                    lemma_dec_value_grows(digits, i - from + 1);
                }
            }
            return None;
        }
        total = next;
        i = i + 1;
    }
    assert(digits.take(i - from) =~= digits);
    assert forall|j: int| 0 <= j < digits.len() implies is_digit(#[trigger] digits[j]) by {
        assert(is_digit(chars@[j + from]));
    }
    Some(total as u32)
}

// ── numerals read back ──────────────────────────────────────────────────────

proof fn lemma_dec_value_of_dec(n: nat)
    ensures
        dec_value(dec(n)) == n,
    decreases n,
{
    reveal_with_fuel(dec_value, 2);
    if n < 10 {
        assert(dec(n).drop_last() =~= Seq::<char>::empty());
    } else {
        lemma_dec_value_of_dec(n / 10);
        assert(dec(n).drop_last() =~= dec(n / 10));
    }
}

proof fn lemma_leading_zeros(k: nat, s: Seq<char>)
    ensures
        dec_value(zeros(k) + s) == dec_value(s),
    decreases k + s.len(),
{
    let t = zeros(k) + s;
    if s.len() > 0 {
        lemma_leading_zeros(k, s.drop_last());
        assert(t.drop_last() =~= zeros(k) + s.drop_last());
    } else if k > 0 {
        lemma_leading_zeros((k - 1) as nat, s);
        assert(t.drop_last() =~= zeros((k - 1) as nat) + s);
        assert(t.last() == '0');
    } else {
        assert(t =~= s);
    }
}

/// A zero-padded numeral still denotes its number.
pub proof fn lemma_padded_reads_back(n: nat, width: nat)
    ensures
        dec_value(dec_padded(n, width)) == n,
        all_digits(dec_padded(n, width)),
        dec_padded(n, width).len() >= width,
{
    lemma_dec_value_of_dec(n);
    lemma_dec_digits(n);
    if dec(n).len() < width {
        lemma_leading_zeros((width - dec(n).len()) as nat, dec(n));
    }
}

// ── order ───────────────────────────────────────────────────────────────────

/// `a` and `b` are the same before position `i`, where `a` ends or has the smaller
/// character.
pub open spec fn differs_at(a: Seq<char>, b: Seq<char>, i: int) -> bool {
    &&& 0 <= i <= a.len()
    &&& i < b.len()
    &&& a.take(i) == b.take(i)
    &&& i < a.len() ==> a[i] < b[i]
}

/// `a` comes before `b` in the order of strings.
pub open spec fn sorts_before(a: Seq<char>, b: Seq<char>) -> bool {
    exists|i: int| differs_at(a, b, i)
}

/// Runs of digits of one length are ordered as the numbers that they denote.
pub proof fn lemma_digits_sort(a: Seq<char>, b: Seq<char>)
    requires
        a.len() == b.len(),
        all_digits(a),
        all_digits(b),
    ensures
        dec_value(a) == dec_value(b) ==> a == b,
        dec_value(a) < dec_value(b) ==> exists|i: int| i < a.len() && differs_at(a, b, i),
    decreases a.len(),
{
    if a.len() > 0 {
        let x = a.drop_last();
        let y = b.drop_last();
        lemma_digits_sort(x, y);
        assert(is_digit(a.last()) && is_digit(b.last()));
        if dec_value(a) == dec_value(b) {
            assert(a =~= x.push(a.last()));
            assert(b =~= y.push(b.last()));
        }
        if dec_value(a) < dec_value(b) {
            if dec_value(x) < dec_value(y) {
                let i = choose|i: int| i < x.len() && differs_at(x, y, i);
                assert(a.take(i) =~= x.take(i));
                assert(b.take(i) =~= y.take(i));
                assert(differs_at(a, b, i));
            } else {
                let i = a.len() - 1;
                assert(a.take(i) =~= x);
                assert(b.take(i) =~= y);
                assert(differs_at(a, b, i));
            }
        }
    }
}

/// The first difference decides, whatever comes before it and after it.
pub proof fn lemma_sorts_within(
    before: Seq<char>,
    a: Seq<char>,
    b: Seq<char>,
    a_after: Seq<char>,
    b_after: Seq<char>,
)
    requires
        exists|i: int| i < a.len() && differs_at(a, b, i),
    ensures
        sorts_before(before + a + a_after, before + b + b_after),
{
    let i = choose|i: int| i < a.len() && differs_at(a, b, i);
    let s = before + a + a_after;
    let t = before + b + b_after;
    let k = before.len() + i;
    assert forall|j: int| 0 <= j < k implies s[j] == t[j] by {
        if j >= before.len() {
            assert(a.take(i)[j - before.len()] == b.take(i)[j - before.len()]);
        }
    }
    assert(s.take(k) =~= t.take(k));
    assert(differs_at(s, t, k));
}

/// Two more digits.
pub proof fn lemma_two_more_digits(a: Seq<char>, b: Seq<char>)
    requires
        b.len() == 2,
        all_digits(a),
        all_digits(b),
    ensures
        dec_value(a + b) == dec_value(a) * 100 + dec_value(b),
        all_digits(a + b),
{
    let all = a + b;
    assert(is_digit(b[0]) && is_digit(b[1]));
    assert(all.drop_last() =~= a.push(b[0]));
    assert(all.drop_last().drop_last() =~= a);
    assert(b.drop_last() =~= seq![b[0]]);
    assert(b.drop_last().drop_last() =~= Seq::<char>::empty());
    reveal_with_fuel(dec_value, 3);
    assert forall|i: int| 0 <= i < all.len() implies is_digit(#[trigger] all[i]) by {
        if i < a.len() {
            assert(is_digit(a[i]));
        } else {
            assert(is_digit(b[i - a.len()]));
        }
    }
}

// ── numbers read back ───────────────────────────────────────────────────────

/// A numeral is read as its number, up to the largest number that is taken.
pub proof fn law_numerals_parse(n: nat, max: nat)
    ensures
        parsed(dec(n), max) == if n <= max {
            Some(n)
        } else {
            None
        },
        parsed(seq!['+'] + dec(n), max) == parsed(dec(n), max),
{
    lemma_dec_value_of_dec(n);
    lemma_dec_digits(n);
    let d = dec(n);
    assert('0' <= d[0] <= '9');
    assert(unsigned_part(d) == d);
    assert((seq!['+'] + d).skip(1) =~= d);
    assert(unsigned_part(seq!['+'] + d) == d);
}

/// What holds anything but digits after its sign, or nothing, is no number.
pub proof fn law_only_digits_parse(s: Seq<char>, i: int, max: nat)
    requires
        s.len() == 0 || (0 < i < s.len() && !('0' <= s[i] <= '9')) || (s.len() > 0 && s[0] != '+'
            && !('0' <= s[0] <= '9')),
    ensures
        parsed(s, max) is None,
{
    let digits = unsigned_part(s);
    if s.len() > 0 {
        if s[0] != '+' && !('0' <= s[0] <= '9') {
            assert(!is_digit(digits[0]));
        } else if s[0] == '+' {
            assert(!is_digit(digits[i - 1]));
        } else {
            assert(!is_digit(digits[i]));
        }
    }
}

/// Letters are told apart without their case, and nothing else is taken for another.
pub proof fn law_case_is_all_that_is_ignored(a: char, b: char)
    ensures
        lower(a) == lower(b) <==> a == b || ('A' <= a <= 'Z' && b as u32 == a as u32 + 32) || (
        'A' <= b <= 'Z' && a as u32 == b as u32 + 32),
{
}

/// The two characters of a byte are its hexadecimal digits, with capital letters.
pub proof fn law_hex_reads_back(b: u8)
    ensures
        hex_byte(b).len() == 2,
        hex_value(hex_byte(b)[0]) * 16 + hex_value(hex_byte(b)[1]) == b,
        !('a' <= hex_byte(b)[0] <= 'z') && !('a' <= hex_byte(b)[1] <= 'z'),
{
}

/// The number that a hexadecimal digit denotes.
pub open spec fn hex_value(c: char) -> int {
    if '0' <= c <= '9' {
        c as int - 48
    } else if 'A' <= c <= 'F' {
        c as int - 55
    } else {
        -1
    }
}

/// A text begins with another exactly where it is that text with something after it.
pub proof fn law_beginnings(s: Seq<char>, prefix: Seq<char>, rest: Seq<char>)
    ensures
        begins_with(prefix + rest, prefix),
        begins_with(s, prefix) ==> s == prefix + s.skip(prefix.len() as int),
        s.len() < prefix.len() ==> !begins_with(s, prefix),
{
    assert((prefix + rest).take(prefix.len() as int) =~= prefix);
    if begins_with(s, prefix) {
        assert(s =~= s.take(prefix.len() as int) + s.skip(prefix.len() as int));
    }
}

/// Texts that are the same but for case have the same length and, at each place, the
/// same character or the two cases of one letter.
pub proof fn law_same_but_case(a: Seq<char>, b: Seq<char>)
    ensures
        same_but_case(a, a),
        same_but_case(a, b) <==> a.len() == b.len() && forall|i: int|
            0 <= i < a.len() ==> (#[trigger] a[i] == b[i] || ('A' <= a[i] <= 'Z' && b[i] as u32
                == a[i] as u32 + 32) || ('A' <= b[i] <= 'Z' && a[i] as u32 == b[i] as u32 + 32)),
{
    assert forall|i: int| 0 <= i < a.len() && a.len() == b.len() implies (lower(#[trigger] a[i])
        == lower(b[i]) <==> (a[i] == b[i] || ('A' <= a[i] <= 'Z' && b[i] as u32 == a[i] as u32
        + 32) || ('A' <= b[i] <= 'Z' && a[i] as u32 == b[i] as u32 + 32))) by {
        law_case_is_all_that_is_ignored(a[i], b[i]);
    }
}

/// Padding adds zeros in front and no more of them than are needed.
pub proof fn law_padding_is_zeros(n: nat, width: nat)
    ensures
        ({
            let s = dec_padded(n, width);
            let d = dec(n);
            &&& d.len() >= width ==> s == d
            &&& d.len() < width ==> s.len() == width && s.skip(width - d.len()) == d && forall|
                i: int,
            |
                0 <= i < width - d.len() ==> #[trigger] s[i] == '0'
        }),
{
    let s = dec_padded(n, width);
    if dec(n).len() < width {
        assert(s.skip(width - dec(n).len()) =~= dec(n));
    }
}

/// A numeral has its digits in order, the last one being the ones.
pub proof fn law_numerals(n: nat)
    ensures
        n < 10 ==> dec(n).len() == 1 && dec(n)[0] as int == 48 + n,
        n >= 10 ==> dec(n) == dec(n / 10).push(dec(n % 10)[0]),
{
}

} // verus!
