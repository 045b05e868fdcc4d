//! Text as the rest of the library sees it: sequences of characters, with the
//! few string operations that the settings, the session client and the
//! navigation policy are built from.

use vstd::prelude::*;

verus! {

/// Appends one character, as `String::push` documents.
pub assume_specification[ String::push ](s: &mut String, ch: char)
    ensures
        final(s)@ == old(s)@.push(ch),
;

/// `str::trim`: the slice without its leading and trailing white space, where
/// white space is the Unicode `White_Space` property.
pub assume_specification[ str::trim ](s: &str) -> (r: &str)
    ensures
        r@ == trimmed(s@),
;

/// The Unicode `White_Space` property (`PropList.txt`).
pub open spec fn is_white_space(c: char) -> bool {
    let n = c as u32;
    ||| 0x9 <= n <= 0xd
    ||| n == 0x20
    ||| n == 0x85
    ||| n == 0xa0
    ||| n == 0x1680
    ||| 0x2000 <= n <= 0x200a
    ||| n == 0x2028
    ||| n == 0x2029
    ||| n == 0x202f
    ||| n == 0x205f
    ||| n == 0x3000
}

/// `s` from its first character that is not white space on.
pub open spec fn trimmed_start(s: Seq<char>) -> Seq<char>
    decreases s.len(),
{
    if s.len() > 0 && is_white_space(s[0]) {
        trimmed_start(s.drop_first())
    } else {
        s
    }
}

/// `s` up to its last character that is not white space.
pub open spec fn trimmed_end(s: Seq<char>) -> Seq<char>
    decreases s.len(),
{
    if s.len() > 0 && is_white_space(s.last()) {
        trimmed_end(s.drop_last())
    } else {
        s
    }
}

/// `s` without leading and trailing white space.
pub open spec fn trimmed(s: Seq<char>) -> Seq<char> {
    trimmed_end(trimmed_start(s))
}

/// Text that neither begins nor ends with white space is its own trimmed form.
pub proof fn lemma_trimmed_is_identity(s: Seq<char>)
    requires
        s.len() > 0 ==> !is_white_space(s[0]) && !is_white_space(s.last()),
    ensures
        trimmed(s) == s,
{
}

/// What is left after trimming neither begins nor ends with white space.
pub proof fn lemma_trimmed_ends(s: Seq<char>)
    ensures
        trimmed(s).len() <= s.len(),
        trimmed(s).len() > 0 ==> !is_white_space(trimmed(s)[0]) && !is_white_space(
            trimmed(s).last(),
        ),
    decreases s.len(),
{
    if s.len() > 0 && is_white_space(s[0]) {
        lemma_trimmed_ends(s.drop_first());
    } else {
        lemma_trimmed_end_keeps_head(s);
    }
}

proof fn lemma_trimmed_end_keeps_head(s: Seq<char>)
    ensures
        trimmed_end(s).len() <= s.len(),
        trimmed_end(s).len() > 0 ==> trimmed_end(s)[0] == s[0] && !is_white_space(
            trimmed_end(s).last(),
        ),
    decreases s.len(),
{
    if s.len() > 0 && is_white_space(s.last()) {
        lemma_trimmed_end_keeps_head(s.drop_last());
    }
}

/// The characters of `s`.
pub fn chars_of(s: &str) -> (r: Vec<char>)
    ensures
        r@ == s@,
{
    let mut r: Vec<char> = Vec::new();
    for c in it: s.chars()
        invariant
            r@ == s@.take(it.index()),
            it.seq() == s@,
    {
        r.push(c);
    }
    r
}

/// Whether `a` and `b` hold the same characters.
pub fn same_text(a: &str, b: &str) -> (r: bool)
    ensures
        r == (a@ == b@),
{
    a.to_owned() == b.to_owned()
}

/// Whether `s` begins with `prefix`.
pub open spec fn has_prefix(s: Seq<char>, prefix: Seq<char>) -> bool {
    s.len() >= prefix.len() && s.take(prefix.len() as int) == prefix
}

/// Whether `s` begins with `prefix`.
pub fn starts_with_text(s: &str, prefix: &str) -> (r: bool)
    ensures
        r == has_prefix(s@, prefix@),
{
    let a = chars_of(s);
    let b = chars_of(prefix);
    if a.len() < b.len() {
        return false;
    }
    for i in 0..b.len()
        invariant
            a@ == s@,
            b@ == prefix@,
            b.len() <= a.len(),
            forall|j: int| 0 <= j < i ==> a@[j] == b@[j],
    {
        if a[i] != b[i] {
            assert(s@.take(b.len() as int)[i as int] != prefix@[i as int]);
            return false;
        }
    }
    assert(s@.take(b.len() as int) =~= prefix@);
    true
}

/// The lower-case form of an ASCII letter; every other character itself.
pub open spec fn ascii_lower(c: char) -> char {
    if 'A' <= c && c <= 'Z' {
        (c as u32 + 0x20) as char
    } else {
        c
    }
}

/// Whether `a` and `b` are equal up to the case of their ASCII letters.
pub open spec fn eq_ignore_ascii_case(a: Seq<char>, b: Seq<char>) -> bool {
    a.len() == b.len() && forall|i: int|
        0 <= i < a.len() ==> ascii_lower(#[trigger] a[i]) == ascii_lower(b[i])
}

fn lower_char(c: char) -> (r: char)
    ensures
        r == ascii_lower(c),
{
    if 'A' <= c && c <= 'Z' {
        (c as u8 + 0x20) as char
    } else {
        c
    }
}

/// Whether `a` and `b` are equal up to the case of their ASCII letters.
pub fn same_text_ignoring_ascii_case(a: &str, b: &str) -> (r: bool)
    ensures
        r == eq_ignore_ascii_case(a@, b@),
{
    let x = chars_of(a);
    let y = chars_of(b);
    if x.len() != y.len() {
        return false;
    }
    for i in 0..x.len()
        invariant
            x@ == a@,
            y@ == b@,
            x.len() == y.len(),
            forall|j: int| 0 <= j < i ==> ascii_lower(#[trigger] x@[j]) == ascii_lower(y@[j]),
    {
        if lower_char(x[i]) != lower_char(y[i]) {
            assert(ascii_lower(a@[i as int]) != ascii_lower(b@[i as int]));
            return false;
        }
    }
    true
}

/// The character of the decimal digit `d`.
pub open spec fn digit_char(d: nat) -> char
    recommends
        d < 10,
{
    ('0' as u32 + d) as char
}

/// The value of a decimal digit.
pub open spec fn digit_value(c: char) -> nat {
    (c as u32 - '0' as u32) as nat
}

/// Whether `c` is an ASCII decimal digit.
pub open spec fn is_digit(c: char) -> bool {
    '0' <= c && c <= '9'
}

/// `n` in decimal, without leading zeros.
pub open spec fn decimal(n: nat) -> Seq<char>
    decreases n,
{
    if n < 10 {
        seq![digit_char(n)]
    } else {
        decimal(n / 10).push(digit_char(n % 10))
    }
}

/// `n` in decimal, without leading zeros.
pub fn decimal_string(n: u64) -> (r: String)
    ensures
        r@ == decimal(n as nat),
    decreases n,
{
    if n < 10 {
        let mut r = String::new();
        r.push((n as u8 + 0x30) as char);
        assert(r@ =~= decimal(n as nat));
        r
    } else {
        let mut r = decimal_string(n / 10);
        r.push(((n % 10) as u8 + 0x30) as char);
        r
    }
}

/// Whether `s` holds nothing but decimal digits.
pub open spec fn all_digits(s: Seq<char>) -> bool {
    forall|i: int| 0 <= i < s.len() ==> is_digit(#[trigger] s[i])
}

/// The number that a sequence of decimal digits writes.
pub open spec fn digits_value(s: Seq<char>) -> nat
    decreases s.len(),
{
    if s.len() == 0 {
        0
    } else {
        digits_value(s.drop_last()) * 10 + digit_value(s.last())
    }
}

/// The number that `s` writes: an optional `+` and one or more decimal digits,
/// worth at most `max`. Anything else writes no number.
pub open spec fn unsigned_value(s: Seq<char>, max: nat) -> Option<nat> {
    let digits = if s.len() > 0 && s[0] == '+' {
        s.drop_first()
    } else {
        s
    };
    if digits.len() > 0 && all_digits(digits) && digits_value(digits) <= max {
        Some(digits_value(digits))
    } else {
        None
    }
}

proof fn lemma_digits_value_grows(s: Seq<char>, i: int)
    requires
        0 <= i <= s.len(),
    ensures
        digits_value(s.take(i)) <= digits_value(s),
    decreases s.len(),
{
    if i == s.len() {
        assert(s.take(i) == s);
    } else {
        lemma_digits_value_grows(s.drop_last(), i);
        assert(s.drop_last().take(i) == s.take(i));
    }
}

/// Reads `s` as an unsigned number of at most `max`.
pub fn parse_unsigned(s: &str, max: u32) -> (r: Option<u32>)
    ensures
        match r {
            Some(n) => unsigned_value(s@, max as nat) == Some(n as nat),
            None => unsigned_value(s@, max as nat) is None,
        },
{
    let cs = chars_of(s);
    let start: usize = if cs.len() > 0 && cs[0] == '+' {
        1
    } else {
        0
    };
    let ghost digits = s@.skip(start as int);
    assert(start == 1 ==> digits == s@.drop_first());
    assert(start == 0 ==> digits == s@);
    if start == cs.len() {
        return None;
    }
    let mut value: u64 = 0;
    for i in start..cs.len()
        invariant
            cs@ == s@,
            start <= i <= cs.len(),
            start <= 1,
            digits == s@.skip(start as int),
            start == (if s@.len() > 0 && s@[0] == '+' {
                1int
            } else {
                0int
            }),
            start == 1 ==> digits == s@.drop_first(),
            start == 0 ==> digits == s@,
            all_digits(digits.take(i - start)),
            value == digits_value(digits.take(i - start)),
            value <= max,
    {
        let c = cs[i];
        let ghost k = i - start;
        assert(digits[k] == c);
        if c < '0' || c > '9' {
            assert(!is_digit(digits[k]));
            return None;
        }
        assert(digits.take(k + 1).drop_last() == digits.take(k));
        value = value * 10 + (c as u64 - 0x30);
        assert(value == digits_value(digits.take(k + 1)));
        if value > max as u64 {
            proof {
                lemma_digits_value_grows(digits, k + 1);
            }
            return None;
        }
        assert(all_digits(digits.take(k + 1))) by {
            assert forall|j: int| 0 <= j < k + 1 implies is_digit(
                #[trigger] digits.take(k + 1)[j],
            ) by {
                if j < k {
                    assert(digits.take(k + 1)[j] == digits.take(k)[j]);
                }
            }
        }
    }
    assert(digits.take(digits.len() as int) == digits);
    Some(value as u32)
}

/// The decimal form of a number holds digits only, at least one, and writes
/// that number.
pub proof fn lemma_decimal_writes(n: nat)
    ensures
        decimal(n).len() > 0,
        all_digits(decimal(n)),
        digits_value(decimal(n)) == n,
    decreases n,
{
    if n < 10 {
        assert(decimal(n).drop_last() == Seq::<char>::empty());
        assert(digits_value(decimal(n).drop_last()) == 0);
        assert(decimal(n).last() == digit_char(n));
    } else {
        lemma_decimal_writes(n / 10);
        assert(decimal(n).drop_last() == decimal(n / 10));
        assert(decimal(n).last() == digit_char(n % 10));
        assert forall|i: int| 0 <= i < decimal(n).len() implies is_digit(#[trigger] decimal(n)[i]) by {
            if i < decimal(n).len() - 1 {
                assert(decimal(n)[i] == decimal(n / 10)[i]);
            }
        }
    }
}

/// Reading back a written number gives the number.
pub proof fn lemma_decimal_round_trip(n: nat, max: nat)
    requires
        n <= max,
    ensures
        unsigned_value(decimal(n), max) == Some(n),
        trimmed(decimal(n)) == decimal(n),
{
    lemma_decimal_writes(n);
    assert(is_digit(decimal(n)[0]));
    assert(is_digit(decimal(n).last()));
    lemma_trimmed_is_identity(decimal(n));
}

/// Text begins with a prefix exactly where it is that prefix and something
/// behind it.
pub proof fn law_prefix_splits_text(s: Seq<char>, prefix: Seq<char>)
    ensures
        has_prefix(s, prefix) <==> exists|rest: Seq<char>| s == #[trigger] (prefix + rest),
{
    if has_prefix(s, prefix) {
        assert(s =~= prefix + s.skip(prefix.len() as int));
    }
    if exists|rest: Seq<char>| s == #[trigger] (prefix + rest) {
        let rest = choose|rest: Seq<char>| s == #[trigger] (prefix + rest);
        assert((prefix + rest).take(prefix.len() as int) =~= prefix);
    }
}

/// Nothing but the case of ASCII letters is ignored: two texts count as equal
/// exactly where they differ at most by the distance between a capital and its
/// small letter.
pub proof fn law_only_letter_case_is_ignored(a: Seq<char>, b: Seq<char>)
    ensures
        eq_ignore_ascii_case(a, b) <==> a.len() == b.len() && forall|i: int|
            0 <= i < a.len() ==> {
                ||| #[trigger] a[i] == b[i]
                ||| 'A' <= a[i] && a[i] <= 'Z' && b[i] as int == a[i] as int + 32
                ||| 'A' <= b[i] && b[i] <= 'Z' && a[i] as int == b[i] as int + 32
            },
{
    if eq_ignore_ascii_case(a, b) {
        assert forall|i: int| 0 <= i < a.len() implies {
            ||| #[trigger] a[i] == b[i]
            ||| 'A' <= a[i] && a[i] <= 'Z' && b[i] as int == a[i] as int + 32
            ||| 'A' <= b[i] && b[i] <= 'Z' && a[i] as int == b[i] as int + 32
        } by {
            assert(ascii_lower(a[i]) == ascii_lower(b[i]));
        }
    }
}

/// Trimming cuts white space off both ends and nothing else: what is left
/// stands between the two indices that are given back, and neither begins nor
/// ends with white space.
pub proof fn law_trimming_cuts_white_space(s: Seq<char>) -> (r: (int, int))
    ensures
        0 <= r.0 <= r.1 <= s.len(),
        trimmed(s) == s.subrange(r.0, r.1),
        forall|i: int| 0 <= i < r.0 ==> is_white_space(#[trigger] s[i]),
        forall|i: int| r.1 <= i < s.len() ==> is_white_space(#[trigger] s[i]),
        r.0 < r.1 ==> !is_white_space(s[r.0]) && !is_white_space(s[r.1 - 1]),
    decreases s.len(),
{
    lemma_trimmed_ends(s);
    if s.len() > 0 && is_white_space(s[0]) {
        let rest = s.drop_first();
        let (i, j) = law_trimming_cuts_white_space(rest);
        assert(rest.subrange(i, j) =~= s.subrange(i + 1, j + 1));
        assert forall|k: int| 0 <= k < i + 1 implies is_white_space(#[trigger] s[k]) by {
            if k > 0 {
                assert(is_white_space(rest[k - 1]));
            }
        }
        assert forall|k: int| j + 1 <= k < s.len() implies is_white_space(#[trigger] s[k]) by {
            assert(is_white_space(rest[k - 1]));
        }
        (i + 1, j + 1)
    } else {
        (0, lemma_trimmed_end_cut(s))
    }
}

proof fn lemma_trimmed_end_cut(s: Seq<char>) -> (r: int)
    ensures
        0 <= r <= s.len(),
        trimmed_end(s) == s.subrange(0, r),
        forall|i: int| r <= i < s.len() ==> is_white_space(#[trigger] s[i]),
        r > 0 ==> !is_white_space(s[r - 1]),
    decreases s.len(),
{
    if s.len() > 0 && is_white_space(s.last()) {
        let front = s.drop_last();
        let r = lemma_trimmed_end_cut(front);
        assert(front.subrange(0, r) =~= s.subrange(0, r));
        assert forall|i: int| r <= i < s.len() implies is_white_space(#[trigger] s[i]) by {
            if i < front.len() {
                assert(is_white_space(front[i]));
            }
        }
        r
    } else {
        assert(s.subrange(0, s.len() as int) =~= s);
        s.len() as int
    }
}

/// Trimming twice is trimming once.
pub proof fn law_trimming_is_done_at_once(s: Seq<char>)
    ensures
        trimmed(trimmed(s)) == trimmed(s),
{
    lemma_trimmed_ends(s);
    lemma_trimmed_is_identity(trimmed(s));
}

/// The decimal form of a number ends in its last digit, behind the decimal form
/// of the rest, and begins with no zero unless it is one.
pub proof fn law_decimal_is_positional(n: nat)
    ensures
        decimal(n).last() as int == '0' as int + n % 10,
        n < 10 ==> decimal(n).len() == 1,
        n >= 10 ==> decimal(n).drop_last() == decimal(n / 10),
        n > 0 ==> decimal(n)[0] != '0',
    decreases n,
{
    if n >= 10 {
        law_decimal_is_positional(n / 10);
        lemma_decimal_writes(n / 10);
        assert(decimal(n).drop_last() =~= decimal(n / 10));
        assert(decimal(n)[0] == decimal(n / 10)[0]);
    }
}

/// Different numbers have different decimal forms.
pub proof fn law_decimal_is_unambiguous(m: nat, n: nat)
    requires
        decimal(m) == decimal(n),
    ensures
        m == n,
{
    lemma_decimal_writes(m);
    lemma_decimal_writes(n);
}

/// A number of zeros.
pub open spec fn zero_digits(zeros: nat) -> Seq<char> {
    Seq::new(zeros, |i: int| '0')
}

/// A number's decimal form behind any number of zeros, with a plus sign or
/// without.
pub open spec fn padded(plus: bool, zeros: nat, n: nat) -> Seq<char> {
    (if plus {
        seq!['+']
    } else {
        Seq::empty()
    }) + zero_digits(zeros) + decimal(n)
}

/// A text reads as a number exactly where it is that number's decimal form,
/// with or without a plus sign and leading zeros, and the number is in range.
pub proof fn law_numbers_read_as_written(s: Seq<char>, max: nat, n: nat)
    ensures
        unsigned_value(s, max) == Some(n) <==> n <= max && exists|plus: bool, zeros: nat|
            s == #[trigger] padded(plus, zeros, n),
{
    if unsigned_value(s, max) == Some(n) {
        let plus = s.len() > 0 && s[0] == '+';
        let digits = if plus {
            s.drop_first()
        } else {
            s
        };
        let zeros = lemma_leading_zeros(digits);
        assert(digits == zero_digits(zeros) + decimal(n));
        if plus {
            assert(s =~= seq!['+'] + digits);
            assert(seq!['+'] + (zero_digits(zeros) + decimal(n)) =~= padded(plus, zeros, n));
        } else {
            assert(zero_digits(zeros) + decimal(n) =~= padded(plus, zeros, n));
        }
    }
    if n <= max && exists|plus: bool, zeros: nat| s == #[trigger] padded(plus, zeros, n) {
        let (plus, zeros) = choose|plus: bool, zeros: nat| s == #[trigger] padded(plus, zeros, n);
        let digits = zero_digits(zeros) + decimal(n);
        lemma_decimal_writes(n);
        lemma_zeros_count_nothing(zeros, decimal(n));
        assert(is_digit(decimal(n)[0]));
        assert(is_digit(digits[0])) by {
            if zeros == 0 {
                assert(digits[0] == decimal(n)[0]);
            }
        }
        if plus {
            assert(s.drop_first() =~= digits);
        } else {
            assert(s =~= digits);
        }
    }
}

proof fn lemma_zeros_count_nothing(zeros: nat, d: Seq<char>)
    requires
        all_digits(d),
    ensures
        all_digits(zero_digits(zeros) + d),
        digits_value(zero_digits(zeros) + d) == digits_value(d),
    decreases zeros + d.len(),
{
    let z = zero_digits(zeros);
    let whole = z + d;
    if d.len() > 0 {
        assert forall|i: int| 0 <= i < d.drop_last().len() implies is_digit(
            #[trigger] d.drop_last()[i],
        ) by {
            assert(is_digit(d[i]));
        }
        lemma_zeros_count_nothing(zeros, d.drop_last());
        assert(whole.drop_last() =~= z + d.drop_last());
        assert forall|i: int| 0 <= i < whole.len() implies is_digit(#[trigger] whole[i]) by {
            if i >= zeros {
                assert(is_digit(d[i - zeros]));
            }
        }
    } else if zeros > 0 {
        let fewer = (zeros - 1) as nat;
        lemma_zeros_count_nothing(fewer, d);
        assert(whole.drop_last() =~= zero_digits(fewer) + d);
        assert(digits_value(d) == 0);
        assert(whole.last() == '0');
    } else {
        assert(whole =~= d);
    }
}

proof fn lemma_leading_zeros(digits: Seq<char>) -> (zeros: nat)
    requires
        digits.len() > 0,
        all_digits(digits),
    ensures
        digits == zero_digits(zeros) + decimal(digits_value(digits)),
    decreases digits.len(),
{
    let c = digits.last();
    let front = digits.drop_last();
    let v = digits_value(digits);
    assert(is_digit(c));
    assert(digit_char(digit_value(c)) == c);
    if front.len() == 0 {
        assert(digits_value(front) == 0);
        assert(v == digit_value(c));
        assert(digits =~= zero_digits(0) + decimal(v));
        0
    } else {
        assert forall|i: int| 0 <= i < front.len() implies is_digit(#[trigger] front[i]) by {
            assert(is_digit(digits[i]));
        }
        let z = lemma_leading_zeros(front);
        let u = digits_value(front);
        assert(v == u * 10 + digit_value(c));
        if u > 0 {
            assert(v / 10 == u && v % 10 == digit_value(c));
            assert(decimal(v) == decimal(u).push(c));
            assert(digits =~= front.push(c));
            assert(front.push(c) =~= zero_digits(z) + decimal(u).push(c));
            z
        } else {
            assert(decimal(u) =~= seq!['0']);
            assert(decimal(v) =~= seq![c]);
            assert(front =~= zero_digits(z + 1));
            assert(digits =~= front.push(c));
            assert(front.push(c) =~= zero_digits(z + 1) + seq![c]);
            z + 1
        }
    }
}

} // verus!
