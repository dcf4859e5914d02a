//! Decimal numbers and `/`-separated paths as sequences of characters.
use vstd::arithmetic::power::{lemma_pow0, lemma_pow1, lemma_pow_adds, pow};
use vstd::prelude::*;

verus! {

/// The character that stands for the digit `d`.
pub open spec fn digit_char(d: nat) -> char {
    (('0' as nat) + d) as char
}

/// The decimal notation of `n`, without leading zeros.
pub open spec fn decimal(n: nat) -> Seq<char>
    decreases n,
{
    if n < 10 {
        seq![digit_char(n)]
    } else {
        decimal(n / 10).push(digit_char(n % 10))
    }
}

pub open spec fn is_digit(c: char) -> bool {
    '0' <= c && c <= '9'
}

pub open spec fn all_digits(s: Seq<char>) -> bool {
    forall|i: int| 0 <= i < s.len() ==> is_digit(#[trigger] s[i])
}

/// The number that a sequence of digits denotes.
pub open spec fn digits_value(s: Seq<char>) -> nat
    decreases s.len(),
{
    if s.len() == 0 {
        0
    } else {
        (digits_value(s.drop_last()) * 10 + (s.last() as int - '0' as int)) as nat
    }
}

/// The digits of a number that may be written with a leading `+`.
pub open spec fn unsigned_digits(s: Seq<char>) -> Seq<char> {
    if s.len() > 0 && s[0] == '+' {
        s.subrange(1, s.len() as int)
    } else {
        s
    }
}

/// The counter that a text denotes: an optional `+`, then one or more digits,
/// whose value fits the machine word.
pub open spec fn counter_of(s: Seq<char>) -> Option<usize> {
    let digits = unsigned_digits(s);
    if digits.len() > 0 && all_digits(digits) && digits_value(digits) <= usize::MAX {
        Some(digits_value(digits) as usize)
    } else {
        None
    }
}

/// The pieces of `s` between the occurrences of `sep`, which are left out.
pub open spec fn split(s: Seq<char>, sep: char) -> Seq<Seq<char>>
    decreases s.len(),
{
    if s.len() == 0 {
        seq![Seq::empty()]
    } else {
        let before = split(s.drop_last(), sep);
        if s.last() == sep {
            before.push(Seq::empty())
        } else {
            before.drop_last().push(before.last().push(s.last()))
        }
    }
}

/// `s` begins with `prefix`.
pub open spec fn begins_with(s: Seq<char>, prefix: Seq<char>) -> bool {
    prefix.len() <= s.len() && s.subrange(0, prefix.len() as int) == prefix
}

fn digit_text(d: u64) -> (text: &'static str)
    requires
        d < 10,
    ensures
        text@ == seq![digit_char(d as nat)],
{
    proof {
        reveal_strlit("0");
        reveal_strlit("1");
        reveal_strlit("2");
        reveal_strlit("3");
        reveal_strlit("4");
        reveal_strlit("5");
        reveal_strlit("6");
        reveal_strlit("7");
        reveal_strlit("8");
        reveal_strlit("9");
    }
    let text = if d == 0 { "0" } else if d == 1 { "1" } else if d == 2 { "2" } else if d == 3 { "3" }
        else if d == 4 { "4" } else if d == 5 { "5" } else if d == 6 { "6" } else if d == 7 { "7" }
        else if d == 8 { "8" } else { "9" };
    assert(text@ =~= seq![digit_char(d as nat)]);
    text
}

/// Writes a number in decimal notation.
pub fn decimal_text(n: u64) -> (text: String)
    ensures
        text@ == decimal(n as nat),
    decreases n,
{
    if n < 10 {
        digit_text(n).to_owned()
    } else {
        let mut text = decimal_text(n / 10);
        text.append(digit_text(n % 10));
        assert(text@ =~= decimal((n / 10) as nat).push(digit_char((n % 10) as nat)));
        text
    }
}

/// The value of a sequence of digits never falls when a digit is added.
proof fn lemma_value_grows(s: Seq<char>, k: int)
    requires
        all_digits(s),
        0 <= k <= s.len(),
    ensures
        digits_value(s.subrange(0, k)) <= digits_value(s),
    decreases s.len() - k,
{
    if k < s.len() {
        lemma_value_grows(s, k + 1);
        let longer = s.subrange(0, k + 1);
        assert(longer.drop_last() =~= s.subrange(0, k));
        assert(is_digit(s[k]));
        assert(longer.last() == s[k]);
    } else {
        assert(s.subrange(0, k) =~= s);
    }
}

/// The characters of a text, one by one.
fn chars_of(text: &str) -> (chars: Vec<char>)
    ensures
        chars@ == text@,
{
    let mut chars: Vec<char> = Vec::new();
    for c in iter: text.chars()
        invariant
            iter.seq() == text@,
            chars@ == text@.subrange(0, iter.index()),
    {
        chars.push(c);
        assert(text@.subrange(0, iter.index()).push(c) =~= text@.subrange(0, iter.index() + 1));
    }
    assert(chars@ =~= text@);
    chars
}

/// Reads a counter: an optional `+`, then one or more decimal digits.
pub fn parse_counter(text: &str) -> (counter: Option<usize>)
    ensures
        counter == counter_of(text@),
{
    let chars = chars_of(text);
    let start: usize = if chars.len() > 0 && chars[0] == '+' { 1 } else { 0 };
    let ghost digits = unsigned_digits(text@);
    assert(digits =~= text@.subrange(start as int, text@.len() as int));
    if start == chars.len() {
        return None;
    }
    let mut value: usize = 0;
    let mut i: usize = start;
    while i < chars.len()
        invariant
            chars@ == text@,
            start <= i <= chars.len(),
            start < chars.len(),
            digits == text@.subrange(start as int, text@.len() as int),
            digits == unsigned_digits(text@),
            all_digits(digits.subrange(0, i - start)),
            value == digits_value(digits.subrange(0, i - start)),
        decreases chars.len() - i,
    {
        let c = chars[i];
        let ghost done = digits.subrange(0, i - start);
        let ghost more = digits.subrange(0, i - start + 1);
        assert(c == digits[i - start]);
        assert(more.drop_last() =~= done && more.last() == c);
        if !('0' <= c && c <= '9') {
            return None;
        }
        let d: usize = ((c as u32) - ('0' as u32)) as usize;
        assert(all_digits(more)) by {
            assert forall|k: int| 0 <= k < more.len() implies is_digit(#[trigger] more[k]) by {
                if k < done.len() {
                    assert(is_digit(done[k]));
                }
            }
        }
        assert(digits_value(more) == value * 10 + d);
        if value > (usize::MAX - d) / 10 {
            proof {
                if all_digits(digits) {
                    lemma_value_grows(digits, i - start + 1);
                    assert(value * 10 + d > usize::MAX) by (nonlinear_arith)
                        requires
                            value > (usize::MAX - d) / 10,
                            0 <= d <= 9,
                    ;
                }
            }
            return None;
        }
        value = value * 10 + d;
        i = i + 1;
    }
    assert(digits.subrange(0, digits.len() as int) =~= digits);
    Some(value)
}

/// Splits a text at every occurrence of `sep`.
pub fn split_text(text: &str, sep: char) -> (pieces: Vec<String>)
    ensures
        pieces@.map_values(|piece: String| piece@) == split(text@, sep),
{
    let chars = chars_of(text);
    let mut pieces: Vec<String> = Vec::new();
    let mut start: usize = 0;
    let mut i: usize = 0;
    assert(text@.subrange(0, 0) =~= Seq::empty());
    assert(pieces@.map_values(|piece: String| piece@).push(text@.subrange(0, 0)) =~= seq![
        Seq::empty(),
    ]);
    while i < chars.len()
        invariant
            chars@ == text@,
            start <= i <= chars.len(),
            pieces@.map_values(|piece: String| piece@).push(text@.subrange(start as int, i as int))
                == split(text@.subrange(0, i as int), sep),
        decreases chars.len() - i,
    {
        let ghost done = text@.subrange(0, i as int);
        let ghost more = text@.subrange(0, i + 1);
        let ghost before = pieces@.map_values(|piece: String| piece@);
        let ghost piece = text@.subrange(start as int, i as int);
        assert(more.drop_last() =~= done && more.last() == chars[i as int]);
        if chars[i] == sep {
            pieces.push(text.substring_char(start, i).to_owned());
            start = i + 1;
            assert(pieces@.map_values(|piece: String| piece@) =~= before.push(piece));
            assert(text@.subrange(start as int, i + 1) =~= Seq::empty());
        } else {
            assert(before.push(piece).drop_last() =~= before);
            assert(piece.push(chars[i as int]) =~= text@.subrange(start as int, i + 1));
        }
        i = i + 1;
    }
    assert(text@.subrange(0, i as int) =~= text@);
    let ghost before = pieces@.map_values(|piece: String| piece@);
    pieces.push(text.substring_char(start, i).to_owned());
    assert(pieces@.map_values(|piece: String| piece@) =~= before.push(
        text@.subrange(start as int, i as int),
    ));
    pieces
}

/// Whether a text begins with `prefix`.
pub fn text_begins_with(text: &str, prefix: &str) -> (begins: bool)
    ensures
        begins == begins_with(text@, prefix@),
{
    let chars = chars_of(text);
    let wanted = chars_of(prefix);
    if wanted.len() > chars.len() {
        return false;
    }
    let mut i: usize = 0;
    while i < wanted.len()
        invariant
            chars@ == text@,
            wanted@ == prefix@,
            i <= wanted.len() <= chars.len(),
            forall|k: int| 0 <= k < i ==> #[trigger] text@[k] == prefix@[k],
        decreases wanted.len() - i,
    {
        if chars[i] != wanted[i] {
            assert(text@.subrange(0, prefix@.len() as int)[i as int] != prefix@[i as int]);
            return false;
        }
        i = i + 1;
    }
    assert(text@.subrange(0, prefix@.len() as int) =~= prefix@);
    true
}

/// Whether a text holds the character `c`.
pub fn text_contains(text: &str, c: char) -> (found: bool)
    ensures
        found == text@.contains(c),
{
    let chars = chars_of(text);
    let mut i: usize = 0;
    while i < chars.len()
        invariant
            chars@ == text@,
            i <= chars.len(),
            forall|k: int| 0 <= k < i ==> text@[k] != c,
        decreases chars.len() - i,
    {
        if chars[i] == c {
            assert(text@[i as int] == c);
            return true;
        }
        i = i + 1;
    }
    false
}

/// Writing a number in decimal gives one or more digits, which denote it.
pub proof fn lemma_decimal_digits(n: nat)
    ensures
        decimal(n).len() > 0,
        all_digits(decimal(n)),
        digits_value(decimal(n)) == n,
    decreases n,
{
    if n < 10 {
        let s = decimal(n);
        assert(s.drop_last() =~= Seq::<char>::empty());
        assert(digits_value(s.drop_last()) == 0);
    } else {
        lemma_decimal_digits(n / 10);
        let s = decimal(n);
        assert(s.drop_last() =~= decimal(n / 10));
        assert forall|k: int| 0 <= k < s.len() implies is_digit(#[trigger] s[k]) by {
            if k < s.len() - 1 {
                assert(is_digit(decimal(n / 10)[k]));
            }
        }
    }
}

/// A counter that was written in decimal is read back unchanged.
pub proof fn lemma_counter_round_trip(n: usize)
    ensures
        counter_of(decimal(n as nat)) == Some(n),
{
    lemma_decimal_digits(n as nat);
    assert(is_digit(decimal(n as nat)[0]));
}

/// A text without the separator is one piece.
pub proof fn lemma_split_plain(s: Seq<char>, sep: char)
    requires
        !s.contains(sep),
    ensures
        split(s, sep) == seq![s],
    decreases s.len(),
{
    if s.len() > 0 {
        assert forall|i: int| 0 <= i < s.drop_last().len() implies s.drop_last()[i] != sep by {
            assert(s[i] != sep);
        }
        lemma_split_plain(s.drop_last(), sep);
        assert(s.last() == s[s.len() - 1]);
        assert(s.drop_last().push(s.last()) =~= s);
        assert(split(s, sep) =~= seq![s]);
    } else {
        assert(s =~= Seq::empty());
    }
}

/// A separator followed by a text without it adds that text as a piece.
pub proof fn lemma_split_append(s: Seq<char>, sep: char, tail: Seq<char>)
    requires
        !tail.contains(sep),
    ensures
        split(s.push(sep) + tail, sep) == split(s, sep).push(tail),
    decreases tail.len(),
{
    let whole = s.push(sep) + tail;
    if tail.len() == 0 {
        assert(whole =~= s.push(sep));
        assert(whole.drop_last() =~= s);
        assert(tail =~= Seq::empty());
    } else {
        let shorter = tail.drop_last();
        assert forall|i: int| 0 <= i < shorter.len() implies shorter[i] != sep by {
            assert(tail[i] != sep);
        }
        lemma_split_append(s, sep, shorter);
        assert(whole.drop_last() =~= s.push(sep) + shorter);
        assert(whole.last() == tail[tail.len() - 1]);
        assert(shorter.push(tail.last()) =~= tail);
        assert(split(s, sep).push(shorter).drop_last() =~= split(s, sep));
    }
}

/// The notation is positional: digits put before `t` count as many powers of ten
/// more as `t` has digits, no digits are worth nothing, and a digit alone is
/// worth its distance from `0`.
pub proof fn law_digits_are_positional(s: Seq<char>, t: Seq<char>, c: char)
    requires
        forall|i: int| 0 <= i < s.len() ==> '0' <= #[trigger] s[i] <= '9',
        forall|i: int| 0 <= i < t.len() ==> '0' <= #[trigger] t[i] <= '9',
        '0' <= c <= '9',
    ensures
        digits_value(s + t) == digits_value(s) * pow(10, t.len()) + digits_value(t),
        digits_value(Seq::empty()) == 0,
        digits_value(seq![c]) == c as int - '0' as int,
    decreases t.len(),
{
    assert(seq![c].drop_last() =~= Seq::<char>::empty());
    assert(digits_value(seq![c].drop_last()) == 0);
    if t.len() == 0 {
        assert(s + t =~= s);
        lemma_pow0(10);
    } else {
        let shorter = t.drop_last();
        assert forall|i: int| 0 <= i < shorter.len() implies '0' <= #[trigger] shorter[i] <= '9' by {
            assert(shorter[i] == t[i]);
        }
        law_digits_are_positional(s, shorter, c);
        assert((s + t).drop_last() =~= s + shorter);
        assert((s + t).last() == t[t.len() - 1]);
        lemma_pow_adds(10, 1, shorter.len());
        lemma_pow1(10);
        let v = digits_value(s) as int;
        let p = pow(10, shorter.len());
        let q = pow(10, t.len());
        assert(q == 10 * p);
        assert(v * q == (v * p) * 10) by (nonlinear_arith)
            requires
                q == 10 * p,
        ;
        assert((v * p + digits_value(shorter)) * 10 == (v * p) * 10 + digits_value(shorter) * 10);
    }
}

/// What is written is one or more decimal digits, without a leading zero unless
/// it is the only digit, and they denote the number.
pub proof fn law_numbers_are_written(n: u64, text: String)
    requires
        call_ensures(decimal_text, (n,), text),
    ensures
        text@.len() > 0,
        forall|i: int| 0 <= i < text@.len() ==> '0' <= #[trigger] text@[i] <= '9',
        digits_value(text@) == n,
        text@[0] == '0' ==> text@.len() == 1,
{
    lemma_decimal_digits(n as nat);
    lemma_no_leading_zero(n as nat);
    assert forall|i: int| 0 <= i < text@.len() implies '0' <= #[trigger] text@[i] <= '9' by {
        assert(is_digit(text@[i]));
    }
}

proof fn lemma_no_leading_zero(n: nat)
    ensures
        decimal(n).len() > 0,
        decimal(n)[0] == '0' ==> n == 0 && decimal(n).len() == 1,
    decreases n,
{
    if n >= 10 {
        lemma_no_leading_zero(n / 10);
        assert(decimal(n)[0] == decimal(n / 10)[0]);
    }
}

/// A text is read as a counter exactly when it is digits, whose value fits, with
/// or without a `+` before them, and then it is read as their value.
pub proof fn law_counters_are_read(text: &str, digits: Seq<char>, counter: Option<usize>)
    requires
        call_ensures(parse_counter, (text,), counter),
        text@ == digits || text@ == seq!['+'] + digits,
        digits.len() == 0 || digits[0] != '+',
    ensures
        counter is Some <==> {
            &&& digits.len() > 0
            &&& forall|i: int| 0 <= i < digits.len() ==> '0' <= #[trigger] digits[i] <= '9'
            &&& digits_value(digits) <= usize::MAX
        },
        counter matches Some(n) ==> n == digits_value(digits),
{
    assert(unsigned_digits(text@) =~= digits);
    if all_digits(digits) {
        assert forall|i: int| 0 <= i < digits.len() implies '0' <= #[trigger] digits[i] <= '9' by {
            assert(is_digit(digits[i]));
        }
    }
}

/// Of two signs none is part of a counter.
pub proof fn law_signs_are_no_digits(text: &str, counter: Option<usize>)
    requires
        call_ensures(parse_counter, (text,), counter),
        text@.len() >= 2,
        text@[0] == '+' && text@[1] == '+',
    ensures
        counter is None,
{
    let digits = unsigned_digits(text@);
    assert(digits[0] == '+');
    assert(!is_digit(digits[0]));
}

/// A counter that was written is read back.
pub proof fn law_counter_round_trip(n: usize, text: String, read: &str, counter: Option<usize>)
    requires
        call_ensures(decimal_text, (n as u64,), text),
        read@ == text@,
        call_ensures(parse_counter, (read,), counter),
    ensures
        counter == Some(n),
{
    lemma_counter_round_trip(n);
}

proof fn lemma_split_is_nonempty(s: Seq<char>, sep: char)
    ensures
        split(s, sep).len() > 0,
    decreases s.len(),
{
    if s.len() > 0 {
        lemma_split_is_nonempty(s.drop_last(), sep);
    }
}

/// A separator between two texts divides their pieces.
pub proof fn lemma_split_between(s: Seq<char>, sep: char, t: Seq<char>)
    ensures
        split(s.push(sep) + t, sep) == split(s, sep) + split(t, sep),
    decreases t.len(),
{
    let whole = s.push(sep) + t;
    if t.len() == 0 {
        assert(whole =~= s.push(sep));
        assert(whole.drop_last() =~= s);
        assert(split(s, sep).push(Seq::empty()) =~= split(s, sep) + seq![Seq::empty()]);
    } else {
        let shorter = t.drop_last();
        lemma_split_between(s, sep, shorter);
        lemma_split_is_nonempty(shorter, sep);
        assert(whole.drop_last() =~= s.push(sep) + shorter);
        assert(whole.last() == t.last());
        let before = split(s.push(sep) + shorter, sep);
        let tail = split(shorter, sep);
        assert(before.last() == tail.last());
        if t.last() == sep {
            assert(before.push(Seq::empty()) =~= split(s, sep) + tail.push(Seq::empty()));
        } else {
            let piece = tail.last().push(t.last());
            assert(before.drop_last().push(piece) =~= split(s, sep) + tail.drop_last().push(piece));
        }
    }
}

/// Splitting takes a text apart at every separator: the pieces of two texts with
/// a separator between them are the pieces of the one and then those of the
/// other, and a text without the separator is its own only piece.
pub proof fn law_texts_are_split(
    sep: char,
    first: &str,
    second: &str,
    both: &str,
    of_first: Vec<String>,
    of_second: Vec<String>,
    of_both: Vec<String>,
)
    requires
        call_ensures(split_text, (first, sep), of_first),
        call_ensures(split_text, (second, sep), of_second),
        call_ensures(split_text, (both, sep), of_both),
        both@ == first@ + seq![sep] + second@,
    ensures
        of_both@.len() == of_first@.len() + of_second@.len(),
        forall|i: int|
            0 <= i < of_first@.len() ==> (#[trigger] of_both@[i])@ == of_first@[i]@,
        forall|i: int|
            0 <= i < of_second@.len() ==> (#[trigger] of_second@[i])@ == of_both@[of_first@.len()
                + i]@,
        (forall|i: int| 0 <= i < first@.len() ==> #[trigger] first@[i] != sep) ==> of_first@.len()
            == 1 && of_first@[0]@ == first@,
{
    assert(both@ =~= first@.push(sep) + second@);
    lemma_split_between(first@, sep, second@);
    let a = of_first@.map_values(|piece: String| piece@);
    let b = of_second@.map_values(|piece: String| piece@);
    let c = of_both@.map_values(|piece: String| piece@);
    assert(c == a + b);
    assert forall|i: int| 0 <= i < of_first@.len() implies (#[trigger] of_both@[i])@
        == of_first@[i]@ by {
        assert(c[i] == a[i]);
    }
    assert forall|i: int| 0 <= i < of_second@.len() implies (#[trigger] of_second@[i])@
        == of_both@[of_first@.len() + i]@ by {
        assert(c[of_first@.len() + i] == b[i]);
    }
    if forall|i: int| 0 <= i < first@.len() ==> #[trigger] first@[i] != sep {
        lemma_split_plain(first@, sep);
        assert(a[0] == first@);
    }
}

/// A text begins with a prefix exactly when it is the prefix and something more.
pub proof fn law_prefix_is_recognised(text: &str, prefix: &str, begins: bool)
    requires
        call_ensures(text_begins_with, (text, prefix), begins),
    ensures
        begins <==> exists|rest: Seq<char>| text@ == #[trigger] (prefix@ + rest),
{
    if begins {
        let rest = text@.subrange(prefix@.len() as int, text@.len() as int);
        assert(text@ =~= prefix@ + rest);
    }
    if exists|rest: Seq<char>| text@ == #[trigger] (prefix@ + rest) {
        let rest = choose|rest: Seq<char>| text@ == #[trigger] (prefix@ + rest);
        assert(text@.subrange(0, prefix@.len() as int) =~= prefix@);
    }
}

/// A text holds a character exactly when the character is somewhere in it.
pub proof fn law_character_is_found(text: &str, c: char, found: bool)
    requires
        call_ensures(text_contains, (text, c), found),
    ensures
        found <==> exists|i: int| 0 <= i < text@.len() && #[trigger] text@[i] == c,
{
}

} // verus!
