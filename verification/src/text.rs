//! Decimal numbers as text, and the few string operations that the rest of
//! the library builds its paths and labels from.
use vstd::prelude::*;
use vstd::string::*;

verus! {

/// The character that stands for the digit `d`.
pub open spec fn digit(d: nat) -> char {
    ('0' as nat + d) as char
}

/// Whether `c` is one of the ten ASCII digits.
pub open spec fn is_digit(c: char) -> bool {
    '0' as nat <= c as nat <= '9' as nat
}

/// The number that the digit `c` stands for.
pub open spec fn digit_value(c: char) -> nat {
    (c as nat - '0' as nat) as nat
}

/// `n` written in decimal, without leading zeros.
pub open spec fn decimal(n: nat) -> Seq<char>
    decreases n,
{
    if n < 10 {
        seq![digit(n)]
    } else {
        decimal(n / 10).push(digit(n % 10))
    }
}

/// `i` written in decimal, with a minus sign when it is negative.
pub open spec fn signed_decimal(i: int) -> Seq<char> {
    if i < 0 {
        seq!['-'] + decimal((-i) as nat)
    } else {
        decimal(i as nat)
    }
}

/// Whether every character of `s` is a digit.
pub open spec fn all_digits(s: Seq<char>) -> bool {
    forall|i: int| 0 <= i < s.len() ==> is_digit(#[trigger] s[i])
}

/// The number that a sequence of digits stands for.
pub open spec fn digits_value(s: Seq<char>) -> nat
    decreases s.len(),
{
    if s.len() == 0 {
        0
    } else {
        digits_value(s.drop_last()) * 10 + digit_value(s.last())
    }
}

/// `s` without the plus sign that it may start with.
pub open spec fn without_plus(s: Seq<char>) -> Seq<char> {
    if s.len() > 0 && s[0] == '+' {
        s.skip(1)
    } else {
        s
    }
}

/// The number that `s` holds: an optional plus sign, then one or more digits
/// and nothing else, with a value that a `usize` can hold.
pub open spec fn parsed(s: Seq<char>) -> Option<usize> {
    let digits = without_plus(s);
    if digits.len() > 0 && all_digits(digits) && digits_value(digits) <= usize::MAX {
        Some(digits_value(digits) as usize)
    } else {
        None
    }
}

/// The part of `s` before its first `c`, or all of `s` when there is none.
pub open spec fn before_first(s: Seq<char>, c: char) -> Seq<char> {
    if s.contains(c) {
        s.take(s.index_of_first(c).unwrap())
    } else {
        s
    }
}

/// What decimal text reads back as is the number that was written.
pub proof fn decimal_reads_back(n: nat)
    ensures
        decimal(n).len() > 0,
        all_digits(decimal(n)),
        digits_value(decimal(n)) == n,
    decreases n,
{
    if n < 10 {
        assert(decimal(n).drop_last() =~= Seq::<char>::empty());
        assert(digits_value(Seq::<char>::empty()) == 0);
        assert(decimal(n).last() == digit(n));
    } else {
        decimal_reads_back(n / 10);
        assert(decimal(n).drop_last() =~= decimal(n / 10));
        assert(decimal(n).last() == digit(n % 10));
    }
}

/// Two numbers with the same decimal text are the same number.
pub proof fn decimal_is_injective(a: nat, b: nat)
    requires
        decimal(a) == decimal(b),
    ensures
        a == b,
{
    decimal_reads_back(a);
    decimal_reads_back(b);
}

/// Every number that a `usize` can hold is parsed from its own decimal text.
pub proof fn decimal_is_parsed(n: usize)
    ensures
        parsed(decimal(n as nat)) == Some(n),
{
    decimal_reads_back(n as nat);
    assert(is_digit(decimal(n as nat)[0]));
    assert(without_plus(decimal(n as nat)) == decimal(n as nat));
}

/// Digits are read from left to right: one more digit makes ten times the number,
/// plus the digit. No digits at all stand for zero.
pub proof fn digits_are_positional(s: Seq<char>, c: char)
    ensures
        digits_value(Seq::<char>::empty()) == 0,
        '0' as int <= c as int <= '9' as int ==> digits_value(s.push(c)) == digits_value(s) * 10 + (
        c as int - '0' as int),
        all_digits(s.push(c)) <==> all_digits(s) && 48 <= c as int <= 57,
{
    let longer = s.push(c);
    assert(longer.drop_last() =~= s);
    assert(longer.last() == c);
    if all_digits(longer) {
        assert forall|i: int| 0 <= i < s.len() implies is_digit(#[trigger] s[i]) by {
            assert(is_digit(longer[i]));
        }
        assert(is_digit(longer[s.len() as int]));
    }
    if all_digits(s) && 48 <= c as int <= 57 {
        assert forall|i: int| 0 <= i < longer.len() implies is_digit(#[trigger] longer[i]) by {
            if i < s.len() {
                assert(is_digit(s[i]));
            }
        }
    }
}

/// Decimal text has no leading zero, but for zero itself.
pub proof fn decimal_has_no_leading_zero(n: nat)
    ensures
        decimal(n).len() > 0,
        n > 0 ==> decimal(n)[0] != '0',
        n == 0 ==> decimal(n) == seq!['0'],
    decreases n,
{
    if n >= 10 {
        decimal_has_no_leading_zero(n / 10);
    }
}

/// Signed decimal text is a minus sign, where the number is negative, and the
/// digits of its size.
pub proof fn signed_decimal_reads_back(i: int)
    ensures
        i >= 0 ==> all_digits(signed_decimal(i)) && digits_value(signed_decimal(i)) == i,
        i < 0 ==> signed_decimal(i).len() > 1 && signed_decimal(i)[0] == '-' && all_digits(
            signed_decimal(i).skip(1),
        ) && digits_value(signed_decimal(i).skip(1)) == -i,
{
    if i >= 0 {
        decimal_reads_back(i as nat);
    } else {
        decimal_reads_back((-i) as nat);
        assert(signed_decimal(i).skip(1) =~= decimal((-i) as nat));
    }
}

/// The digits are the characters with the codes 48 to 57.
proof fn lemma_digit_codes(c: char)
    ensures
        is_digit(c) <==> 48 <= c as int <= 57,
{
}

/// A number is read from one or more digits, with or without a plus sign before
/// them, if a machine word can hold it; and from nothing else.
pub proof fn numbers_are_read_from_digits(s: Seq<char>)
    ensures
        all_digits(s) && s.len() > 0 && digits_value(s) <= usize::MAX ==> {
            &&& parsed(s) == Some(digits_value(s) as usize)
            &&& parsed(seq!['+'] + s) == Some(digits_value(s) as usize)
        },
        all_digits(s) && digits_value(s) > usize::MAX ==> parsed(s) is None && parsed(
            seq!['+'] + s,
        ) is None,
        s.len() == 0 ==> parsed(s) is None && parsed(seq!['+'] + s) is None,
        forall|k: int|
            0 <= k < s.len() && !(48 <= (#[trigger] s[k]) as int <= 57) && !(k == 0 && s[0] == '+')
                ==> parsed(s) is None,
{
    let plus = seq!['+'] + s;
    assert(plus.skip(1) =~= s);
    if all_digits(s) && s.len() > 0 {
        assert(is_digit(s[0]));
    }
    assert(digits_value(Seq::<char>::empty()) == 0);
    if all_digits(s) && s.len() == 0 {
        assert(s =~= Seq::<char>::empty());
    }
    assert forall|k: int|
        0 <= k < s.len() && !(48 <= (#[trigger] s[k]) as int <= 57) && !(k == 0 && s[0]
            == '+') implies parsed(s) is None by {
        let digits = without_plus(s);
        lemma_digit_codes(s[k]);
        if s[0] == '+' {
            assert(digits[k - 1] == s[k]);
            assert(!is_digit(digits[k - 1]));
        } else {
            assert(!is_digit(digits[k]));
        }
    }
}

/// What stands before the first `c` of a text holds no `c`; and either it is the
/// whole text, or a `c` follows it.
pub proof fn text_is_cut_at_the_first(s: Seq<char>, c: char)
    ensures
        ({
            let head = before_first(s, c);
            &&& head.len() <= s.len()
            &&& head == s.take(head.len() as int)
            &&& !head.contains(c)
            &&& head.len() < s.len() ==> s[head.len() as int] == c
        }),
{
    if s.contains(c) {
        s.index_of_first_ensures(c);
        let at = s.index_of_first(c).unwrap();
        let head = s.take(at);
        if head.contains(c) {
            let k = choose|k: int| 0 <= k < head.len() && head[k] == c;
            assert(s[k] == c);
        }
        assert(head =~= s.take(head.len() as int));
    } else {
        assert(s =~= s.take(s.len() as int));
    }
}

/// More digits never stand for a smaller number.
proof fn lemma_digits_value_grows(s: Seq<char>, k: int)
    requires
        0 <= k <= s.len(),
    ensures
        digits_value(s.take(k)) <= digits_value(s),
    decreases s.len() - k,
{
    if k < s.len() {
        lemma_digits_value_grows(s, k + 1);
        assert(s.take(k + 1).drop_last() =~= s.take(k));
    } else {
        assert(s.take(k) =~= s);
    }
}

/// The one-character text of the digit `d`.
fn digit_text(d: u64) -> (text: &'static str)
    requires
        d < 10,
    ensures
        text@ == seq![digit(d as nat)],
{
    proof {
        reveal_strlit("0");
        reveal_strlit("1");
        reveal_strlit("2");
        reveal_strlit("3");
        reveal_strlit("4");
        reveal_strlit("5");
        reveal_strlit("6");
        reveal_strlit("7");
        reveal_strlit("8");
        reveal_strlit("9");
    }
    let text = if d == 0 {
        "0"
    } else if d == 1 {
        "1"
    } else if d == 2 {
        "2"
    } else if d == 3 {
        "3"
    } else if d == 4 {
        "4"
    } else if d == 5 {
        "5"
    } else if d == 6 {
        "6"
    } else if d == 7 {
        "7"
    } else if d == 8 {
        "8"
    } else {
        "9"
    };
    assert(text@ =~= seq![digit(d as nat)]);
    text
}

/// Reads one digit.
fn read_digit(c: char) -> (value: Option<usize>)
    ensures
        value is Some <==> is_digit(c),
        value matches Some(d) ==> d == digit_value(c),
{
    let code: u32 = c as u32;
    if 48 <= code && code <= 57 {
        Some((code - 48) as usize)
    } else {
        None
    }
}

/// Writes `n` in decimal.
pub fn decimal_text(n: u64) -> (text: String)
    ensures
        text@ == decimal(n as nat),
    decreases n,
{
    if n < 10 {
        String::from_str(digit_text(n))
    } else {
        let mut text = decimal_text(n / 10);
        text.append(digit_text(n % 10));
        assert(text@ =~= decimal(n as nat));
        text
    }
}

/// Writes `i` in decimal, with a minus sign when it is negative.
pub fn signed_decimal_text(i: i64) -> (text: String)
    ensures
        text@ == signed_decimal(i as int),
{
    if i < 0 {
        proof {
            reveal_strlit("-");
        }
        let size: u64 = if i == i64::MIN {
            9223372036854775808u64
        } else {
            (-i) as u64
        };
        let mut text = String::from_str("-");
        assert(text@ =~= seq!['-']);
        let digits = decimal_text(size);
        text.append(digits.as_str());
        text
    } else {
        decimal_text(i as u64)
    }
}

/// Writes `first`, `second` and `third` one after another.
pub fn joined(first: &str, second: &str, third: &str) -> (text: String)
    ensures
        text@ == first@ + second@ + third@,
{
    let mut text = String::from_str(first);
    text.append(second);
    text.append(third);
    text
}

/// Lists the characters of `s`.
pub fn chars_of(s: &str) -> (chars: Vec<char>)
    ensures
        chars@ == s@,
{
    let mut chars: Vec<char> = Vec::new();
    for c in it: s.chars()
        invariant
            it.seq() == s@,
            chars@ == s@.take(it.index() as int),
    {
        chars.push(c);
        assert(s@.take(it.index() + 1) =~= s@.take(it.index() as int).push(c));
    }
    assert(s@.take(s@.len() as int) =~= s@);
    chars
}

/// Reads the number held by the characters of `chars` from `from` up to `to`,
/// or nothing when they hold none.
pub fn parse_number(chars: &Vec<char>, from: usize, to: usize) -> (number: Option<usize>)
    requires
        from <= to <= chars.len(),
    ensures
        number == parsed(chars@.subrange(from as int, to as int)),
{
    let ghost s = chars@.subrange(from as int, to as int);
    let start: usize = if from < to && chars[from] == '+' {
        from + 1
    } else {
        from
    };
    let ghost digits = without_plus(s);
    assert(digits =~= chars@.subrange(start as int, to as int));
    if start == to {
        return None;
    }
    let mut value: usize = 0;
    let mut i: usize = start;
    while i < to
        invariant
            start <= i <= to <= chars.len(),
            s == chars@.subrange(from as int, to as int),
            digits == chars@.subrange(start as int, to as int),
            digits == without_plus(s),
            all_digits(digits.take(i - start)),
            value == digits_value(digits.take(i - start)),
        decreases to - i,
    {
        let c = chars[i];
        assert(digits[i - start] == c);
        let d: usize = match read_digit(c) {
            Some(d) => d,
            None => {
                assert(!is_digit(digits[i - start]));
                return None;
            },
        };
        let ghost seen = digits.take(i - start);
        let ghost next = digits.take(i - start + 1);
        assert(next.drop_last() =~= seen);
        assert(next.last() == c);
        proof {
            lemma_digits_value_grows(digits, i - start + 1);
        }
        if value > usize::MAX / 10 {
            return None;
        }
        if value * 10 > usize::MAX - d {
            return None;
        }
        value = value * 10 + d;
        i += 1;
        assert forall|k: int| 0 <= k < next.len() implies is_digit(#[trigger] next[k]) by {
            if k < seen.len() {
                assert(is_digit(seen[k]));
            }
        }
    }
    assert(digits.take(to - start) =~= digits);
    Some(value)
}

/// Finds where the first `c` among the characters of `chars` from `from` on
/// stands, or the end when there is none.
pub fn first_position(chars: &Vec<char>, from: usize, c: char) -> (at: usize)
    requires
        from <= chars.len(),
    ensures
        from <= at <= chars.len(),
        chars@.subrange(from as int, at as int) == before_first(chars@.skip(from as int), c),
{
    let ghost s = chars@.skip(from as int);
    let mut at: usize = from;
    while at < chars.len() && chars[at] != c
        invariant
            from <= at <= chars.len(),
            s == chars@.skip(from as int),
            forall|k: int| 0 <= k < at - from ==> s[k] != c,
        decreases chars.len() - at,
    {
        assert(s[at - from] == chars[at as int]);
        at += 1;
    }
    proof {
        if at < chars.len() {
            assert(s[at - from] == c);
            assert(s.contains(c));
            s.index_of_first_ensures(c);
        } else {
            assert(!s.contains(c));
        }
        assert(chars@.subrange(from as int, at as int) =~= before_first(s, c));
    }
    at
}

} // verus!
