//! Reading text: characters, decimal integers and decimal fractions.

use vstd::prelude::*;

verus! {

broadcast use vstd::string::axiom_spec_iter;

/// `String::push` appends one character to the end of the string.
pub assume_specification[ String::push ](text: &mut String, c: char)
    ensures
        final(text)@ == old(text)@.push(c),
;

/// The characters of a text, in order.
pub fn chars_of(s: &str) -> (r: Vec<char>)
    ensures
        r@ == s@,
{
    let mut out: Vec<char> = Vec::new();
    for c in it: s.chars()
        invariant
            it.seq() == s@,
            out@ == s@.take(it.index()),
    {
        out.push(c);
        assert(s@.take(it.index() + 1) =~= s@.take(it.index()).push(c));
    }
    assert(s@.take(s@.len() as int) =~= s@);
    out
}

/// The text made of the characters `from..to` of a list.
pub fn text_of(chars: &Vec<char>, from: usize, to: usize) -> (r: String)
    requires
        from <= to <= chars.len(),
    ensures
        r@ == chars@.subrange(from as int, to as int),
{
    let mut out = String::new();
    let mut i: usize = from;
    while i < to
        invariant
            from <= i <= to <= chars.len(),
            out@ == chars@.subrange(from as int, i as int),
        decreases to - i,
    {
        out.push(chars[i]);
        i = i + 1;
        assert(chars@.subrange(from as int, i as int) =~= chars@.subrange(
            from as int,
            i - 1,
        ).push(chars[i - 1]));
    }
    out
}

/// Whether a list of characters spells a given text.
pub fn spells(chars: &Vec<char>, word: &str) -> (r: bool)
    ensures
        r == (chars@ == word@),
{
    let w = chars_of(word);
    if chars.len() != w.len() {
        return false;
    }
    let mut i: usize = 0;
    while i < chars.len()
        invariant
            chars.len() == w.len(),
            i <= chars.len(),
            w@ == word@,
            forall|j: int| 0 <= j < i ==> chars@[j] == w@[j],
        decreases chars.len() - i,
    {
        if chars[i] != w[i] {
            return false;
        }
        i = i + 1;
    }
    assert(chars@ =~= word@);
    true
}

/// Whether two texts are the same.
pub fn same_text(a: &str, b: &str) -> (r: bool)
    ensures
        r == (a@ == b@),
{
    let chars = chars_of(a);
    spells(&chars, b)
}

/// `word` stands in `s` at position `at`.
pub open spec fn stands_at(s: Seq<char>, word: Seq<char>, at: int) -> bool {
    0 <= at <= s.len() - word.len() && s.subrange(at, at + word.len()) == word
}

/// Whether `word` stands in `chars` at position `at`.
pub fn word_at(chars: &Vec<char>, word: &Vec<char>, at: usize) -> (r: bool)
    ensures
        r == stands_at(chars@, word@, at as int),
{
    if word.len() > chars.len() || at > chars.len() - word.len() {
        return false;
    }
    let mut i: usize = 0;
    while i < word.len()
        invariant
            word.len() <= chars.len(),
            at <= chars.len() - word.len(),
            i <= word.len(),
            forall|j: int| 0 <= j < i ==> chars@[at + j] == word@[j],
        decreases word.len() - i,
    {
        if chars[at + i] != word[i] {
            assert(chars@.subrange(at as int, at + word@.len())[i as int] != word@[i as int]);
            return false;
        }
        i = i + 1;
    }
    assert(chars@.subrange(at as int, at + word@.len()) =~= word@);
    true
}

/// What follows `prefix` in `s`, when `s` begins with it.
pub open spec fn after_prefix(s: Seq<char>, prefix: Seq<char>) -> Option<Seq<char>> {
    if stands_at(s, prefix, 0) {
        Some(s.skip(prefix.len() as int))
    } else {
        None
    }
}

/// What follows a prefix in a list of characters, when the list begins with it.
pub fn strip_prefix(chars: &Vec<char>, prefix: &str) -> (r: Option<Vec<char>>)
    ensures
        r is Some <==> after_prefix(chars@, prefix@) is Some,
        r matches Some(rest) ==> Some(rest@) == after_prefix(chars@, prefix@),
{
    let p = chars_of(prefix);
    if word_at(chars, &p, 0) {
        let rest = slice_of(chars, p.len(), chars.len());
        assert(chars@.subrange(p@.len() as int, chars@.len() as int) =~= chars@.skip(p@.len() as int));
        Some(rest)
    } else {
        None
    }
}

/// The characters `from..to` of a list, as a list of their own.
pub fn slice_of(chars: &Vec<char>, from: usize, to: usize) -> (r: Vec<char>)
    requires
        from <= to <= chars.len(),
    ensures
        r@ == chars@.subrange(from as int, to as int),
{
    let mut out: Vec<char> = Vec::new();
    let mut i: usize = from;
    while i < to
        invariant
            from <= i <= to <= chars.len(),
            out@ == chars@.subrange(from as int, i as int),
        decreases to - i,
    {
        out.push(chars[i]);
        i = i + 1;
        assert(chars@.subrange(from as int, i as int) =~= chars@.subrange(
            from as int,
            i - 1,
        ).push(chars[i - 1]));
    }
    out
}

/// The position `at` is the first one at which `word` stands in `s`.
pub open spec fn first_at(s: Seq<char>, word: Seq<char>, at: int) -> bool {
    stands_at(s, word, at) && forall|j: int| 0 <= j < at ==> !stands_at(s, word, j)
}

/// The first position at which `word` stands in `s`.
pub open spec fn first_position(s: Seq<char>, word: Seq<char>) -> Option<int> {
    if exists|at: int| stands_at(s, word, at) {
        Some(choose|at: int| first_at(s, word, at))
    } else {
        None
    }
}

/// The first position is the only position with nothing of `word` before it.
pub proof fn first_position_is_unique(s: Seq<char>, word: Seq<char>, at: int)
    requires
        first_at(s, word, at),
    ensures
        first_position(s, word) == Some(at),
{
    let found = choose|k: int| first_at(s, word, k);
    assert(first_at(s, word, found));
    assert(found == at) by {
        if found < at {
            assert(!stands_at(s, word, found));
        }
        if at < found {
            assert(!stands_at(s, word, at));
        }
    }
}

/// The first position at which a word stands in a list of characters.
pub fn find(chars: &Vec<char>, word: &str) -> (r: Option<usize>)
    ensures
        r is Some <==> first_position(chars@, word@) is Some,
        r matches Some(at) ==> first_position(chars@, word@) == Some(at as int) && stands_at(
            chars@,
            word@,
            at as int,
        ),
{
    let w = chars_of(word);
    let mut at: usize = 0;
    while at < chars.len()
        invariant
            w@ == word@,
            at <= chars.len(),
            forall|j: int| 0 <= j < at ==> !stands_at(chars@, word@, j),
        decreases chars.len() - at,
    {
        if word_at(chars, &w, at) {
            proof {
                first_position_is_unique(chars@, word@, at as int);
            }
            return Some(at);
        }
        at = at + 1;
    }
    if word_at(chars, &w, at) {
        proof {
            first_position_is_unique(chars@, word@, at as int);
        }
        return Some(at);
    }
    None
}

/// `s` with every `from` turned into `to`.
pub open spec fn replaced(s: Seq<char>, from: char, to: char) -> Seq<char> {
    s.map_values(|c: char| if c == from { to } else { c })
}

/// A text with every `from` turned into `to`.
pub fn replace_char(chars: &Vec<char>, from: char, to: char) -> (r: String)
    ensures
        r@ == replaced(chars@, from, to),
{
    let mut out = String::new();
    let mut i: usize = 0;
    while i < chars.len()
        invariant
            i <= chars.len(),
            out@ == replaced(chars@, from, to).take(i as int),
        decreases chars.len() - i,
    {
        let c = chars[i];
        out.push(if c == from { to } else { c });
        i = i + 1;
        assert(replaced(chars@, from, to).take(i as int) =~= replaced(chars@, from, to).take(
            i - 1,
        ).push(replaced(chars@, from, to)[i - 1]));
    }
    assert(replaced(chars@, from, to).take(chars@.len() as int) =~= replaced(chars@, from, to));
    out
}

/// A decimal digit.
pub open spec fn is_digit(c: char) -> bool {
    '0' <= c && c <= '9'
}

/// Nothing but decimal digits.
pub open spec fn all_digits(s: Seq<char>) -> bool {
    forall|i: int| 0 <= i < s.len() ==> is_digit(s[i])
}

/// The number that a row of decimal digits writes.
pub open spec fn decimal_value(s: Seq<char>) -> int
    decreases s.len(),
{
    if s.len() == 0 {
        0
    } else {
        decimal_value(s.drop_last()) * 10 + (s.last() as int - '0' as int)
    }
}

/// Whether a character is a decimal digit.
pub fn digit(c: char) -> (r: bool)
    ensures
        r == is_digit(c),
{
    '0' <= c && c <= '9'
}

/// The integer that a text writes: an optional sign, of which `-` counts only
/// where the type is signed, and at least one digit.
pub open spec fn integer_text(s: Seq<char>, signed: bool) -> Option<int> {
    let negative = signed && s.len() > 0 && s[0] == '-';
    let body = if s.len() > 0 && (s[0] == '+' || negative) {
        s.skip(1)
    } else {
        s
    };
    if body.len() > 0 && all_digits(body) {
        Some(
            if negative {
                -decimal_value(body)
            } else {
                decimal_value(body)
            },
        )
    } else {
        None
    }
}

/// The integer that a text writes, where it lies in the range of a type whose
/// least and greatest values are `lo` and `hi`.
pub open spec fn integer_within(s: Seq<char>, lo: int, hi: int) -> Option<int> {
    match integer_text(s, lo < 0) {
        Some(v) => if lo <= v <= hi {
            Some(v)
        } else {
            None
        },
        None => None,
    }
}

/// Reads an integer of a type whose least and greatest values are `lo` and `hi`.
#[verifier::loop_isolation(false)]
pub fn parse_integer(chars: &Vec<char>, lo: i64, hi: i64) -> (r: Option<i64>)
    requires
        -0x1_0000_0000 <= lo <= 0 <= hi <= 0x1_0000_0000,
    ensures
        r is Some <==> integer_within(chars@, lo as int, hi as int) is Some,
        r matches Some(v) ==> integer_within(chars@, lo as int, hi as int) == Some(v as int) && lo
            <= v <= hi,
{
    let signed = lo < 0;
    let negative = signed && chars.len() > 0 && chars[0] == '-';
    let start: usize = if chars.len() > 0 && (chars[0] == '+' || negative) {
        1
    } else {
        0
    };
    let ghost body = chars@.skip(start as int);
    assert(chars@.skip(0) =~= chars@);
    if start == chars.len() {
        return None;
    }
    let mut total: i64 = 0;
    let mut i: usize = start;
    while i < chars.len()
        invariant
            start <= i <= chars.len(),
            start <= 1,
            body == chars@.skip(start as int),
            all_digits(body.take(i - start)),
            0 <= total <= 0x2_0000_0000,
            total == decimal_value(body.take(i - start)) || (total == 0x2_0000_0000
                && decimal_value(body.take(i - start)) > 0x1_0000_0000),
        decreases chars.len() - i,
    {
        let c = chars[i];
        assert(body[i - start] == c);
        if !digit(c) {
            assert(!all_digits(body));
            return None;
        }
        let value: i64 = (c as u32 - '0' as u32) as i64;
        assert(body.take(i - start + 1).drop_last() =~= body.take(i - start));
        assert(body.take(i - start + 1).last() == c);
        let next: i64 = total * 10 + value;
        total = if next > 0x1_0000_0000 {
            0x2_0000_0000
        } else {
            next
        };
        i = i + 1;
    }
    assert(body.take(i - start) =~= body);
    let v: i64 = if negative {
        -total
    } else {
        total
    };
    if lo <= v && v <= hi {
        Some(v)
    } else {
        None
    }
}

/// How many decimal digits stand in a row from position `at`.
pub open spec fn digit_run(s: Seq<char>, at: int) -> int
    decreases s.len() - at,
{
    if 0 <= at < s.len() && is_digit(s[at]) {
        1 + digit_run(s, at + 1)
    } else {
        0
    }
}

/// Where the mantissa of a decimal fraction ends: digits, then perhaps a point
/// and more digits.
pub open spec fn mantissa_end(s: Seq<char>, at: int) -> int {
    let whole = at + digit_run(s, at);
    if 0 <= whole < s.len() && s[whole] == '.' {
        whole + 1 + digit_run(s, whole + 1)
    } else {
        whole
    }
}

/// The mantissa at `at` holds at least one digit, before or after the point.
pub open spec fn mantissa_has_digit(s: Seq<char>, at: int) -> bool {
    let whole = at + digit_run(s, at);
    digit_run(s, at) > 0 || (0 <= whole < s.len() && s[whole] == '.' && digit_run(s, whole + 1) > 0)
}

/// A sign at `at`, as the number of characters it takes.
pub open spec fn sign_length(s: Seq<char>, at: int) -> int {
    if 0 <= at < s.len() && (s[at] == '+' || s[at] == '-') {
        1
    } else {
        0
    }
}

/// An exponent fills the text from `at` to its end.
pub open spec fn is_exponent(s: Seq<char>, at: int) -> bool {
    let digits = at + 1 + sign_length(s, at + 1);
    &&& 0 <= at < s.len()
    &&& (s[at] == 'e' || s[at] == 'E')
    &&& digit_run(s, digits) > 0
    &&& digits + digit_run(s, digits) == s.len()
}

/// A letter of the alphabet without its case.
pub open spec fn lower(c: char) -> char {
    if 'A' <= c && c <= 'Z' {
        ((c as int) + 32) as char
    } else {
        c
    }
}

/// A text without the case of its letters.
pub open spec fn lowered(s: Seq<char>) -> Seq<char> {
    s.map_values(|c: char| lower(c))
}

/// The text writes a floating-point number: a sign or none, and then `inf`,
/// `infinity`, `nan` in any case, or a decimal fraction with or without an
/// exponent.
pub open spec fn is_fraction(s: Seq<char>) -> bool {
    let at = sign_length(s, 0);
    let body = lowered(s.skip(at));
    let end = mantissa_end(s, at);
    ||| body == "inf"@
    ||| body == "infinity"@
    ||| body == "nan"@
    ||| (mantissa_has_digit(s, at) && (end == s.len() || is_exponent(s, end)))
}

/// The end of a row of digits.
fn skip_digits(chars: &Vec<char>, at: usize) -> (r: usize)
    requires
        at <= chars.len(),
    ensures
        r == at + digit_run(chars@, at as int),
        at <= r <= chars.len(),
{
    let mut i: usize = at;
    while i < chars.len() && digit(chars[i])
        invariant
            at <= i <= chars.len(),
            at + digit_run(chars@, at as int) == i + digit_run(chars@, i as int),
        decreases chars.len() - i,
    {
        i = i + 1;
    }
    i
}

/// A letter without its case.
pub fn lower_char(c: char) -> (r: char)
    ensures
        r == lower(c),
{
    if 'A' <= c && c <= 'Z' {
        let byte: u8 = c as u8 + 32;
        byte as char
    } else {
        c
    }
}

/// A list of characters without the case of its letters.
pub fn lower_chars(chars: &Vec<char>) -> (r: Vec<char>)
    ensures
        r@ == lowered(chars@),
{
    let mut out: Vec<char> = Vec::new();
    let mut i: usize = 0;
    while i < chars.len()
        invariant
            i <= chars.len(),
            out@ == lowered(chars@).take(i as int),
        decreases chars.len() - i,
    {
        out.push(lower_char(chars[i]));
        i = i + 1;
        assert(lowered(chars@).take(i as int) =~= lowered(chars@).take(i - 1).push(
            lowered(chars@)[i - 1],
        ));
    }
    assert(lowered(chars@).take(chars@.len() as int) =~= lowered(chars@));
    out
}

/// Whether a text writes a floating-point number.
pub fn writes_fraction(chars: &Vec<char>) -> (r: bool)
    ensures
        r == is_fraction(chars@),
{
    let at: usize = if chars.len() > 0 && (chars[0] == '+' || chars[0] == '-') {
        1
    } else {
        0
    };
    let tail = slice_of(chars, at, chars.len());
    assert(tail@ =~= chars@.skip(at as int));
    let body = lower_chars(&tail);
    if spells(&body, "inf") || spells(&body, "infinity") || spells(&body, "nan") {
        return true;
    }
    let whole = skip_digits(chars, at);
    let mut end: usize = whole;
    let mut found = whole > at;
    if whole < chars.len() && chars[whole] == '.' {
        end = skip_digits(chars, whole + 1);
        found = found || end > whole + 1;
    }
    if !found {
        return false;
    }
    if end == chars.len() {
        return true;
    }
    if chars[end] != 'e' && chars[end] != 'E' {
        return false;
    }
    let mut digits: usize = end + 1;
    if digits < chars.len() && (chars[digits] == '+' || chars[digits] == '-') {
        digits = digits + 1;
    }
    let last = skip_digits(chars, digits);
    last > digits && last == chars.len()
}

/// A number in decimal digits, without leading zeros.
pub open spec fn written(n: nat) -> Seq<char>
    decreases n,
{
    let digit = ('0' as int + n % 10) as char;
    if n < 10 {
        seq![digit]
    } else {
        written(n / 10).push(digit)
    }
}

pub(crate) proof fn written_is_read(n: nat)
    ensures
        written(n).len() > 0,
        all_digits(written(n)),
        decimal_value(written(n)) == n,
    decreases n,
{
    let text = written(n);
    let digit = ('0' as int + n % 10) as char;
    assert(is_digit(digit));
    if n < 10 {
        assert(text.drop_last() =~= Seq::empty());
        assert(decimal_value(text.drop_last()) == 0);
    } else {
        written_is_read(n / 10);
        assert(text.drop_last() =~= written(n / 10));
        assert forall|i: int| 0 <= i < text.len() implies is_digit(text[i]) by {
            if i < text.len() - 1 {
                assert(is_digit(written(n / 10)[i]));
            }
        }
    }
}

/// A number is read as it is written, with or without a plus sign. With a minus sign it is read
/// as negative where the type is signed, and not at all where it is not.
pub proof fn numbers_are_read_as_written(n: nat, signed: bool)
    ensures
        integer_text(written(n), signed) == Some(n as int),
        integer_text(seq!['+'] + written(n), signed) == Some(n as int),
        integer_text(seq!['-'] + written(n), true) == Some(-n as int),
        integer_text(seq!['-'] + written(n), false) is None,
        integer_text(Seq::empty(), signed) is None,
{
    written_is_read(n);
    let text = written(n);
    assert(is_digit(text[0]));
    assert((seq!['+'] + text).skip(1) =~= text);
    assert((seq!['-'] + text).skip(1) =~= text);
    let minus = seq!['-'] + text;
    assert(!is_digit(minus[0]));
}

/// A text with anything but digits behind its sign writes no integer.
pub proof fn other_texts_are_no_integers(s: Seq<char>, i: int, signed: bool)
    requires
        0 < i < s.len(),
        !('0' <= s[i] && s[i] <= '9'),
    ensures
        integer_text(s, signed) is None,
{
    let rest = s.skip(1);
    assert(rest[i - 1] == s[i]);
    assert(!is_digit(s[i]));
    assert(!is_digit(rest[i - 1]));
}

/// An integer is read where the type has room for it, as it is, and else not at all.
pub proof fn integers_are_not_changed(s: Seq<char>, lo: int, hi: int)
    ensures
        integer_within(s, lo, hi) matches Some(v) ==> lo <= v <= hi && integer_text(s, lo < 0)
            == Some(v),
        integer_text(s, lo < 0) matches Some(v) ==> (integer_within(s, lo, hi) is None <==> v < lo
            || v > hi),
{
}

proof fn digits_run(s: Seq<char>, at: int, end: int)
    requires
        0 <= at <= end <= s.len(),
        forall|i: int| at <= i < end ==> is_digit(#[trigger] s[i]),
        end < s.len() ==> !is_digit(s[end]),
    ensures
        digit_run(s, at) == end - at,
    decreases end - at,
{
    if at < end {
        assert(is_digit(s[at]));
        digits_run(s, at + 1, end);
    }
}

/// A number is a row of digits, also with a sign, and a row of digits with a point and more
/// digits; neither a sign alone nor nothing at all is a number.
pub proof fn fractions_are_recognised(a: nat, b: nat)
    ensures
        is_fraction(written(a)),
        is_fraction(seq!['-'] + written(a)),
        is_fraction(written(a) + seq!['.'] + written(b)),
        is_fraction(seq!['-'] + written(a) + seq!['.'] + written(b)),
        is_fraction(written(a) + seq!['e'] + written(b)),
        !is_fraction(Seq::empty()),
        !is_fraction(seq!['-']),
        !is_fraction(seq!['.']),
{
    reveal_strlit("inf");
    reveal_strlit("infinity");
    reveal_strlit("nan");
    written_is_read(a);
    written_is_read(b);
    let x = written(a);
    let y = written(b);
    let n = x.len() as int;
    let m = y.len() as int;
    assert(is_digit(x[0]));
    digits_run(x, 0, n);
    let neg = seq!['-'] + x;
    assert(forall|i: int| 1 <= i < neg.len() ==> neg[i] == x[i - 1]);
    digits_run(neg, 1, n + 1);
    let point = x + seq!['.'] + y;
    assert(point.len() == n + 1 + m);
    assert(point[n] == '.');
    assert(forall|i: int| 0 <= i < n ==> point[i] == x[i]);
    assert(forall|i: int| n < i < point.len() ==> point[i] == y[i - n - 1]);
    digits_run(point, 0, n);
    digits_run(point, n + 1, n + 1 + m);
    let both = seq!['-'] + x + seq!['.'] + y;
    assert(both.len() == n + 2 + m);
    assert(both[n + 1] == '.');
    assert(both[0] == '-');
    assert(forall|i: int| 1 <= i < n + 1 ==> both[i] == x[i - 1]);
    assert(forall|i: int| n + 1 < i < both.len() ==> both[i] == y[i - n - 2]);
    digits_run(both, 1, n + 1);
    digits_run(both, n + 2, n + 2 + m);
    let power = x + seq!['e'] + y;
    assert(power.len() == n + 1 + m);
    assert(power[n] == 'e');
    assert(forall|i: int| 0 <= i < n ==> power[i] == x[i]);
    assert(forall|i: int| n < i < power.len() ==> power[i] == y[i - n - 1]);
    assert(power[n + 1] == y[0] && is_digit(y[0]));
    digits_run(power, 0, n);
    digits_run(power, n + 1, n + 1 + m);
    let empty = lowered(Seq::<char>::empty().skip(0));
    assert(empty.len() == 0);
    let sign = lowered(seq!['-'].skip(1));
    assert(sign.len() == 0);
    let dot = lowered(seq!['.'].skip(0));
    assert(dot.len() == 1);
}

/// Letters lose their case, and nothing else changes.
pub proof fn letters_lose_their_case(s: Seq<char>, i: int)
    requires
        0 <= i < s.len(),
    ensures
        lowered(s).len() == s.len(),
        'A' <= s[i] && s[i] <= 'Z' ==> lowered(s)[i] as int == s[i] as int - 'A' as int
            + 'a' as int,
        !('A' <= s[i] && s[i] <= 'Z') ==> lowered(s)[i] == s[i],
        lowered(lowered(s)) == lowered(s),
{
    assert forall|j: int| 0 <= j < s.len() implies lowered(lowered(s))[j] == lowered(s)[j] by {
        let c = s[j];
        assert(lowered(s)[j] == lower(c));
        assert(lower(lower(c)) == lower(c));
    }
    assert(lowered(lowered(s)) =~= lowered(s));
}

/// Turning one character into another leaves all others where they are.
pub proof fn characters_are_replaced(s: Seq<char>, from: char, to: char, i: int)
    requires
        0 <= i < s.len(),
    ensures
        replaced(s, from, to).len() == s.len(),
        s[i] == from ==> replaced(s, from, to)[i] == to,
        s[i] != from ==> replaced(s, from, to)[i] == s[i],
{
}

/// What follows a prefix is what was put behind it.
pub proof fn prefixes_are_taken_off(prefix: Seq<char>, rest: Seq<char>)
    ensures
        after_prefix(prefix + rest, prefix) == Some(rest),
{
    let s = prefix + rest;
    assert(s.subrange(0, prefix.len() as int) =~= prefix);
    assert(s.skip(prefix.len() as int) =~= rest);
}

/// A text that differs from a prefix in one character does not begin with it.
pub proof fn other_texts_have_no_prefix(s: Seq<char>, prefix: Seq<char>, i: int)
    requires
        0 <= i < prefix.len(),
        i >= s.len() || s[i] != prefix[i],
    ensures
        after_prefix(s, prefix) is None,
{
    if stands_at(s, prefix, 0) {
        assert(s.subrange(0, prefix.len() as int)[i] == prefix[i]);
    }
}

} // verus!
