//! Reading and writing numbers and names as text.

use vstd::prelude::*;
use vstd::string::*;

verus! {

/// `String::push` appends one character to the string.
pub assume_specification[ String::push ](string: &mut String, ch: char)
    ensures
        final(string)@ == old(string)@.push(ch),
;

/// The characters of a text.
pub fn chars_of(text: &str) -> (chars: Vec<char>)
    ensures
        chars@ == text@,
{
    let n: usize = text.unicode_len();
    let mut chars: Vec<char> = Vec::new();
    for i in 0..n
        invariant
            n == text@.len(),
            chars@ == text@.subrange(0, i as int),
    {
        chars.push(text.get_char(i));
        assert(chars@ =~= text@.subrange(0, i + 1));
    }
    assert(text@.subrange(0, n as int) =~= text@);
    chars
}

/// Adds characters behind a text.
pub fn push_chars(text: &mut String, chars: &[char])
    ensures
        final(text)@ == old(text)@ + chars@,
{
    let n: usize = chars.len();
    assert(text@ + chars@.subrange(0, 0) =~= text@);
    for i in 0..n
        invariant
            n == chars@.len(),
            text@ == old(text)@ + chars@.subrange(0, i as int),
    {
        text.push(chars[i]);
        assert(text@ =~= old(text)@ + chars@.subrange(0, i + 1));
    }
    assert(chars@.subrange(0, n as int) =~= chars@);
}

/// The text of characters.
pub fn text_of(chars: &[char]) -> (text: String)
    ensures
        text@ == chars@,
{
    let mut text = String::new();
    push_chars(&mut text, chars);
    assert(text@ =~= chars@);
    text
}

/// Adds a text behind a text.
pub fn push_text(text: &mut String, part: &str)
    ensures
        final(text)@ == old(text)@ + part@,
{
    let chars = chars_of(part);
    push_chars(text, &chars);
}

/// The character is white space.
pub open spec fn is_white_space(c: char) -> bool {
    let code = c as u32;
    ||| 0x09 <= code <= 0x0D
    ||| code == 0x20
    ||| code == 0x85
    ||| code == 0xA0
    ||| code == 0x1680
    ||| 0x2000 <= code <= 0x200A
    ||| code == 0x2028
    ||| code == 0x2029
    ||| code == 0x202F
    ||| code == 0x205F
    ||| code == 0x3000
}

/// Tells whether a character is white space.
pub fn white_space(c: char) -> (is: bool)
    ensures
        is == is_white_space(c),
{
    let code: u32 = c as u32;
    (0x09 <= code && code <= 0x0D) || code == 0x20 || code == 0x85 || code == 0xA0 || code == 0x1680
        || (0x2000 <= code && code <= 0x200A) || code == 0x2028 || code == 0x2029 || code == 0x202F
        || code == 0x205F || code == 0x3000
}

/// The text without the white space in front.
pub open spec fn trimmed_start(s: Seq<char>) -> Seq<char>
    decreases s.len(),
{
    if s.len() > 0 && is_white_space(s[0]) {
        trimmed_start(s.drop_first())
    } else {
        s
    }
}

/// The text without the white space behind.
pub open spec fn trimmed_end(s: Seq<char>) -> Seq<char>
    decreases s.len(),
{
    if s.len() > 0 && is_white_space(s.last()) {
        trimmed_end(s.drop_last())
    } else {
        s
    }
}

/// The text without the white space in front and behind.
pub open spec fn trimmed(s: Seq<char>) -> Seq<char> {
    trimmed_end(trimmed_start(s))
}

/// The text holds nothing but white space.
pub open spec fn is_blank(s: Seq<char>) -> bool {
    forall|i: int| 0 <= i < s.len() ==> is_white_space(#[trigger] s[i])
}

/// A text is blank exactly where nothing is left of it without the white space around it.
pub proof fn blank_trims_to_nothing(s: Seq<char>)
    ensures
        is_blank(s) <==> trimmed(s).len() == 0,
{
    start_trims(s);
    end_trims(trimmed_start(s));
}

proof fn start_trims(s: Seq<char>)
    ensures
        is_blank(s) <==> trimmed_start(s).len() == 0,
        trimmed_start(s).len() > 0 ==> !is_white_space(trimmed_start(s)[0]),
    decreases s.len(),
{
    if s.len() > 0 && is_white_space(s[0]) {
        let rest = s.drop_first();
        start_trims(rest);
        if is_blank(rest) {
            assert forall|i: int| 0 <= i < s.len() implies is_white_space(#[trigger] s[i]) by {
                if i > 0 {
                    assert(rest[i - 1] == s[i]);
                }
            }
        } else {
            let k = choose|k: int| 0 <= k < rest.len() && !is_white_space(rest[k]);
            assert(!is_white_space(s[k + 1]));
        }
    }
}

proof fn end_trims(s: Seq<char>)
    ensures
        s.len() > 0 && !is_white_space(s[0]) ==> trimmed_end(s).len() > 0,
        s.len() == 0 ==> trimmed_end(s).len() == 0,
    decreases s.len(),
{
    if s.len() > 0 && is_white_space(s.last()) && !is_white_space(s[0]) {
        assert(s.drop_last()[0] == s[0]);
        end_trims(s.drop_last());
    }
}

/// Takes the white space off a text, in front and behind.
pub fn trim(s: &[char]) -> (part: Vec<char>)
    ensures
        part@ == trimmed(s@),
{
    let n: usize = s.len();
    let mut from: usize = 0;
    assert(s@.subrange(0, n as int) =~= s@);
    while from < n && white_space(s[from])
        invariant
            from <= n == s@.len(),
            trimmed_start(s@) == trimmed_start(s@.subrange(from as int, n as int)),
        decreases n - from,
    {
        assert(s@.subrange(from as int, n as int).drop_first() =~= s@.subrange(
            from + 1,
            n as int,
        ));
        from = from + 1;
    }
    assert(trimmed_start(s@) == s@.subrange(from as int, n as int));
    let mut to: usize = n;
    while from < to && white_space(s[to - 1])
        invariant
            from <= to <= n == s@.len(),
            trimmed(s@) == trimmed_end(s@.subrange(from as int, to as int)),
        decreases to - from,
    {
        assert(s@.subrange(from as int, to as int).drop_last() =~= s@.subrange(
            from as int,
            to - 1,
        ));
        to = to - 1;
    }
    copy_chars(s, from, to)
}

/// Tells whether a text holds nothing but white space.
pub fn blank(text: &str) -> (is: bool)
    ensures
        is == is_blank(text@),
{
    let n: usize = text.unicode_len();
    for i in 0..n
        invariant
            n == text@.len(),
            forall|k: int| 0 <= k < i ==> is_white_space(#[trigger] text@[k]),
    {
        if !white_space(text.get_char(i)) {
            return false;
        }
    }
    true
}

/// The character of a hexadecimal digit.
pub open spec fn hex_char(d: int) -> char {
    if d < 10 {
        (48 + d) as char
    } else {
        (87 + d) as char
    }
}

/// The bytes in hexadecimal digits, two for each byte.
pub open spec fn hex(bytes: Seq<u8>) -> Seq<char> {
    Seq::new(
        2 * bytes.len(),
        |i: int|
            hex_char(
                if i % 2 == 0 {
                    bytes[i / 2] as int / 16
                } else {
                    bytes[i / 2] as int % 16
                },
            ),
    )
}

/// The character of a hexadecimal digit.
pub fn hex_digit(d: u8) -> (c: char)
    requires
        d < 16,
    ensures
        c == hex_char(d as int),
{
    if d < 10 {
        (48 + d) as char
    } else {
        (87 + d) as char
    }
}

/// Writes bytes in hexadecimal digits.
pub fn bytes_to_hex(value: &[u8]) -> (text: String)
    ensures
        text@ == hex(value@),
{
    let mut text = String::new();
    let n: usize = value.len();
    assert(text@ =~= hex(value@.subrange(0, 0)));
    for i in 0..n
        invariant
            n == value@.len(),
            text@ == hex(value@.subrange(0, i as int)),
    {
        let byte: u8 = value[i];
        let ghost before = text@;
        text.push(hex_digit(byte / 16));
        text.push(hex_digit(byte % 16));
        proof {
            let part = value@.subrange(0, i as int);
            let more = value@.subrange(0, i + 1);
            assert(hex(more).len() == text@.len());
            assert forall|k: int| 0 <= k < text@.len() implies text@[k] == hex(more)[k] by {
                if k < 2 * i {
                    assert(part[k / 2] == more[k / 2]);
                    assert(text@[k] == before[k]);
                } else {
                    assert(k / 2 == i);
                }
            }
            assert(text@ =~= hex(more));
        }
    }
    assert(value@.subrange(0, n as int) =~= value@);
    text
}

/// The character of a decimal digit.
pub open spec fn digit_char(d: int) -> char {
    (48 + d) as char
}

/// The character is a decimal digit.
pub open spec fn is_digit(c: char) -> bool {
    48 <= c as u32 <= 57
}

/// The number in decimal digits.
pub open spec fn decimal(n: nat) -> Seq<char>
    decreases n,
{
    if n < 10 {
        seq![digit_char(n as int)]
    } else {
        decimal(n / 10).push(digit_char((n % 10) as int))
    }
}

/// The number in at least `width` decimal digits, filled up with zeros in front.
pub open spec fn padded_decimal(n: nat, width: nat) -> Seq<char> {
    let digits = decimal(n);
    if digits.len() >= width {
        digits
    } else {
        Seq::new((width - digits.len()) as nat, |i: int| '0') + digits
    }
}

/// The value of decimal digits.
pub open spec fn digits_value(s: Seq<char>) -> nat
    decreases s.len(),
{
    if s.len() == 0 {
        0
    } else {
        (10 * digits_value(s.drop_last()) + (s.last() as u32 - 48)) as nat
    }
}

/// Every character is a decimal digit.
pub open spec fn all_digits(s: Seq<char>) -> bool {
    forall|i: int| 0 <= i < s.len() ==> is_digit(#[trigger] s[i])
}

/// The digits of a number: what stands behind an optional plus sign.
pub open spec fn unsigned_digits(s: Seq<char>) -> Seq<char> {
    if s.len() > 0 && s[0] == '+' {
        s.subrange(1, s.len() as int)
    } else {
        s
    }
}

/// The number that a text stands for: decimal digits behind an optional plus sign, up to `max`.
pub open spec fn parsed_number(s: Seq<char>, max: int) -> Option<int> {
    let digits = unsigned_digits(s);
    if digits.len() > 0 && all_digits(digits) && digits_value(digits) <= max {
        Some(digits_value(digits) as int)
    } else {
        None
    }
}

/// More digits do not make a number smaller.
proof fn value_grows(s: Seq<char>, n: int)
    requires
        all_digits(s),
        0 <= n <= s.len(),
    ensures
        digits_value(s.subrange(0, n)) <= digits_value(s),
    decreases s.len(),
{
    if n == s.len() {
        assert(s.subrange(0, n) =~= s);
    } else {
        let shorter = s.drop_last();
        assert(all_digits(shorter)) by {
            assert forall|i: int| 0 <= i < shorter.len() implies is_digit(#[trigger] shorter[i]) by {
                assert(shorter[i] == s[i]);
            }
        }
        value_grows(shorter, n);
        assert(shorter.subrange(0, n) =~= s.subrange(0, n));
        assert(is_digit(s[s.len() - 1]));
    }
}

/// Parses a number: decimal digits behind an optional plus sign.
pub fn parse_u64(s: &[char]) -> (result: Option<u64>)
    ensures
        match result {
            Some(value) => parsed_number(s@, u64::MAX as int) == Some(value as int),
            None => parsed_number(s@, u64::MAX as int) is None,
        },
{
    let n: usize = s.len();
    let start: usize = if n > 0 && s[0] == '+' {
        1
    } else {
        0
    };
    let ghost digits = unsigned_digits(s@);
    assert(digits =~= s@.subrange(start as int, n as int));
    if start >= n {
        return None;
    }
    let mut value: u64 = 0;
    assert(digits.subrange(0, 0) =~= Seq::<char>::empty());
    for i in start..n
        invariant
            n == s@.len(),
            start <= n,
            digits == s@.subrange(start as int, n as int),
            digits == unsigned_digits(s@),
            value == digits_value(digits.subrange(0, i - start)),
            forall|k: int| 0 <= k < i - start ==> is_digit(#[trigger] digits[k]),
    {
        let c = s[i];
        assert(digits[i - start] == c);
        let code: u32 = c as u32;
        if code < 48 || code > 57 {
            assert(!is_digit(digits[i - start]));
            return None;
        }
        let d: u64 = (code - 48) as u64;
        proof {
            let longer = digits.subrange(0, i - start + 1);
            assert(longer.drop_last() =~= digits.subrange(0, i - start));
            assert(longer.last() == c);
            if all_digits(digits) {
                value_grows(digits, i - start + 1);
            }
        }
        if value > (u64::MAX - d) / 10 {
            assert(10 * value + d > u64::MAX);
            return None;
        }
        value = value * 10 + d;
    }
    assert(digits.subrange(0, n - start) =~= digits);
    Some(value)
}

/// Parses a number of 32 bits.
pub fn parse_u32(s: &[char]) -> (result: Option<u32>)
    ensures
        match result {
            Some(value) => parsed_number(s@, u32::MAX as int) == Some(value as int),
            None => parsed_number(s@, u32::MAX as int) is None,
        },
{
    match parse_u64(s) {
        Some(value) => if value <= u32::MAX as u64 {
            Some(value as u32)
        } else {
            None
        },
        None => None,
    }
}

/// The digits of a number are digits, and stand for it.
pub proof fn decimal_round_trip(n: nat)
    ensures
        decimal(n).len() > 0,
        all_digits(decimal(n)),
        digits_value(decimal(n)) == n,
        parsed_number(decimal(n), n as int) == Some(n as int),
    decreases n,
{
    if n < 10 {
        let s = decimal(n);
        assert(s.drop_last() =~= Seq::<char>::empty());
        assert(s.last() as u32 == 48 + n);
        assert(digits_value(Seq::<char>::empty()) == 0);
    } else {
        decimal_round_trip(n / 10);
        let s = decimal(n);
        let front = decimal(n / 10);
        assert(s.drop_last() =~= front);
        assert(s.last() as u32 == 48 + n % 10);
        assert(digits_value(s) == 10 * digits_value(front) + n % 10);
        assert forall|i: int| 0 <= i < s.len() implies is_digit(#[trigger] s[i]) by {
            if i < front.len() {
                assert(s[i] == front[i]);
            }
        }
    }
    assert(is_digit(decimal(n)[0]));
    assert(decimal(n)[0] != '+');
}

/// Zeros in front do not change a number.
pub proof fn padded_round_trip(n: nat, width: nat)
    ensures
        padded_decimal(n, width).len() > 0,
        all_digits(padded_decimal(n, width)),
        digits_value(padded_decimal(n, width)) == n,
        parsed_number(padded_decimal(n, width), n as int) == Some(n as int),
{
    decimal_round_trip(n);
    let digits = decimal(n);
    let s = padded_decimal(n, width);
    if digits.len() < width {
        let k = (width - digits.len()) as nat;
        let pad = Seq::new(k, |i: int| '0');
        assert(s == pad + digits);
        leading_zeros(k, digits);
        assert forall|i: int| 0 <= i < s.len() implies is_digit(#[trigger] s[i]) by {
            if i >= k {
                assert(s[i] == digits[i - k]);
            }
        }
    }
    assert(is_digit(s[0]));
    assert(s[0] != '+');
}

/// Zeros in front add nothing.
proof fn leading_zeros(k: nat, digits: Seq<char>)
    ensures
        digits_value(Seq::new(k, |i: int| '0') + digits) == digits_value(digits),
    decreases digits.len(), k,
{
    let pad = Seq::new(k, |i: int| '0');
    let s = pad + digits;
    if digits.len() > 0 {
        leading_zeros(k, digits.drop_last());
        assert(s.drop_last() =~= pad + digits.drop_last());
    } else if k > 0 {
        leading_zeros((k - 1) as nat, digits);
        assert(s.drop_last() =~= Seq::new((k - 1) as nat, |i: int| '0') + digits);
        assert(s.last() == '0');
    } else {
        assert(s =~= digits);
    }
}

/// The digits of a number.
pub fn decimal_chars(n: u64) -> (chars: Vec<char>)
    ensures
        chars@ == decimal(n as nat),
    decreases n,
{
    let d: u8 = (n % 10) as u8;
    let c: char = (48 + d) as char;
    if n < 10 {
        let mut chars: Vec<char> = Vec::new();
        chars.push(c);
        assert(chars@ =~= decimal(n as nat));
        chars
    } else {
        let mut chars = decimal_chars(n / 10);
        chars.push(c);
        chars
    }
}

/// Adds a number behind a text.
pub fn push_decimal(text: &mut String, n: u64)
    ensures
        final(text)@ == old(text)@ + decimal(n as nat),
{
    let chars = decimal_chars(n);
    push_chars(text, &chars);
}

/// Adds a number of at least `width` digits behind a text.
pub fn push_padded_decimal(text: &mut String, n: u64, width: usize)
    ensures
        final(text)@ == old(text)@ + padded_decimal(n as nat, width as nat),
{
    let chars = decimal_chars(n);
    let len: usize = chars.len();
    if len < width {
        let missing: usize = width - len;
        assert(text@ + Seq::new(0, |k: int| '0') =~= text@);
        for i in 0..missing
            invariant
                text@ == old(text)@ + Seq::new(i as nat, |k: int| '0'),
        {
            text.push('0');
            assert(text@ =~= old(text)@ + Seq::new((i + 1) as nat, |k: int| '0'));
        }
    }
    let ghost padded = text@;
    push_chars(text, &chars);
    assert(text@ =~= old(text)@ + padded_decimal(n as nat, width as nat));
}

/// `s` starts with `prefix`.
pub open spec fn starts_with(s: Seq<char>, prefix: Seq<char>) -> bool {
    prefix.len() <= s.len() && s.subrange(0, prefix.len() as int) == prefix
}

/// `s` ends with `suffix`.
pub open spec fn ends_with(s: Seq<char>, suffix: Seq<char>) -> bool {
    suffix.len() <= s.len() && s.subrange(s.len() - suffix.len(), s.len() as int) == suffix
}

/// What stands between a prefix and a suffix.
pub open spec fn stripped(s: Seq<char>, prefix: Seq<char>, suffix: Seq<char>) -> Option<Seq<char>> {
    let rest = s.subrange(prefix.len() as int, s.len() as int);
    if starts_with(s, prefix) && ends_with(rest, suffix) {
        Some(rest.subrange(0, rest.len() - suffix.len()))
    } else {
        None
    }
}

/// Tells whether `part` stands in `s` at `at`.
pub fn stands_at(s: &[char], at: usize, part: &[char]) -> (stands: bool)
    requires
        at <= s@.len(),
    ensures
        stands == (at + part@.len() <= s@.len() && s@.subrange(at as int, at + part@.len())
            == part@),
{
    let n: usize = part.len();
    let len: usize = s.len();
    if n > len - at {
        return false;
    }
    let ghost here = s@.subrange(at as int, at + n);
    for i in 0..n
        invariant
            n == part@.len(),
            len == s@.len(),
            at + n <= len,
            here == s@.subrange(at as int, at + n),
            forall|k: int| 0 <= k < i ==> #[trigger] here[k] == part@[k],
    {
        if s[at + i] != part[i] {
            assert(here[i as int] != part@[i as int]);
            return false;
        }
        assert(here[i as int] == part@[i as int]);
    }
    assert(here =~= part@);
    true
}

/// A copy of a part.
pub fn copy_chars(s: &[char], from: usize, to: usize) -> (part: Vec<char>)
    requires
        from <= to <= s@.len(),
    ensures
        part@ == s@.subrange(from as int, to as int),
{
    let mut part: Vec<char> = Vec::new();
    for i in from..to
        invariant
            from <= to <= s@.len(),
            part@ == s@.subrange(from as int, i as int),
    {
        part.push(s[i]);
        assert(part@ =~= s@.subrange(from as int, i + 1));
    }
    part
}

/// Takes a prefix and a suffix off.
pub fn strip(s: &[char], prefix: &[char], suffix: &[char]) -> (rest: Option<Vec<char>>)
    ensures
        match rest {
            Some(rest) => stripped(s@, prefix@, suffix@) == Some(rest@),
            None => stripped(s@, prefix@, suffix@) is None,
        },
{
    if !stands_at(s, 0, prefix) {
        return None;
    }
    let p: usize = prefix.len();
    let n: usize = s.len();
    let ghost rest = s@.subrange(p as int, n as int);
    if suffix.len() > n - p {
        return None;
    }
    let end: usize = n - suffix.len();
    assert(rest.subrange(rest.len() - suffix@.len(), rest.len() as int) =~= s@.subrange(
        end as int,
        n as int,
    ));
    if !stands_at(s, end, suffix) {
        return None;
    }
    assert(rest.subrange(0, rest.len() - suffix@.len()) =~= s@.subrange(p as int, end as int));
    Some(copy_chars(s, p, end))
}

/// The first place from `at` on where `separator` stands.
pub open spec fn first_place(s: Seq<char>, separator: Seq<char>, at: int) -> Option<int>
    decreases s.len() + 1 - at,
{
    if at < 0 || at + separator.len() > s.len() {
        None
    } else if s.subrange(at, at + separator.len()) == separator {
        Some(at)
    } else {
        first_place(s, separator, at + 1)
    }
}

/// The parts before and behind the first separator.
pub open spec fn split_once(s: Seq<char>, separator: Seq<char>) -> Option<(Seq<char>, Seq<char>)> {
    match first_place(s, separator, 0) {
        None => None,
        Some(at) => Some(
            (s.subrange(0, at), s.subrange(at + separator.len(), s.len() as int)),
        ),
    }
}

/// A place that was found lies within the text.
pub proof fn place_within(s: Seq<char>, separator: Seq<char>, at: int)
    requires
        0 <= at,
        first_place(s, separator, at) is Some,
    ensures
        ({
            let place = first_place(s, separator, at)->Some_0;
            &&& at <= place
            &&& place + separator.len() <= s.len()
            &&& s.subrange(place, place + separator.len()) == separator
        }),
    decreases s.len() + 1 - at,
{
    if s.subrange(at, at + separator.len()) != separator {
        place_within(s, separator, at + 1);
    }
}

/// Splits at the first separator.
pub fn split_at_first(s: &[char], separator: &[char]) -> (parts: Option<(Vec<char>, Vec<char>)>)
    ensures
        match parts {
            Some((before, behind)) => split_once(s@, separator@) == Some((before@, behind@)),
            None => split_once(s@, separator@) is None,
        },
{
    let n: usize = s.len();
    let m: usize = separator.len();
    if m > n {
        return None;
    }
    let mut at: usize = 0;
    while at <= n - m
        invariant
            n == s@.len(),
            m == separator@.len(),
            m <= n,
            at <= n - m + 1,
            first_place(s@, separator@, 0) == first_place(s@, separator@, at as int),
        decreases n - m + 1 - at,
    {
        if stands_at(s, at, separator) {
            return Some((copy_chars(s, 0, at), copy_chars(s, at + m, n)));
        }
        if at == n - m {
            assert(first_place(s@, separator@, at + 1) is None);
            return None;
        }
        at = at + 1;
    }
    None
}

/// A separator of two characters whose first one does not occur before it is found where it
/// stands.
pub proof fn split_finds(before: Seq<char>, first: char, second: char, behind: Seq<char>)
    requires
        !before.contains(first),
    ensures
        split_once(before + seq![first, second] + behind, seq![first, second]) == Some(
            (before, behind),
        ),
{
    let s = before + seq![first, second] + behind;
    place_found(s, before, first, second, behind, 0);
    assert(s.subrange(0, before.len() as int) =~= before);
    assert(s.subrange(before.len() as int + 2, s.len() as int) =~= behind);
}

/// The search from a place in front of the separator finds it.
proof fn place_found(
    s: Seq<char>,
    before: Seq<char>,
    first: char,
    second: char,
    behind: Seq<char>,
    at: int,
)
    requires
        s == before + seq![first, second] + behind,
        !before.contains(first),
        0 <= at <= before.len(),
    ensures
        first_place(s, seq![first, second], at) == Some(before.len() as int),
    decreases before.len() - at,
{
    let separator = seq![first, second];
    let here = s.subrange(at, at + 2);
    if at == before.len() {
        assert(here =~= separator);
    } else {
        assert(before.contains(before[at]));
        assert(here[0] == before[at]);
        assert(separator[0] == first);
        place_found(s, before, first, second, behind, at + 1);
    }
}

/// What stands between a prefix and a suffix is found.
pub proof fn strip_finds(prefix: Seq<char>, middle: Seq<char>, suffix: Seq<char>)
    ensures
        stripped(prefix + middle + suffix, prefix, suffix) == Some(middle),
{
    let s = prefix + middle + suffix;
    let rest = s.subrange(prefix.len() as int, s.len() as int);
    assert(s.subrange(0, prefix.len() as int) =~= prefix);
    assert(rest =~= middle + suffix);
    assert(rest.subrange(rest.len() - suffix.len(), rest.len() as int) =~= suffix);
    assert(rest.subrange(0, rest.len() - suffix.len()) =~= middle);
}

/// The path of a name below a root.
pub open spec fn joined(root: Seq<char>, name: Seq<char>) -> Seq<char> {
    if root.len() == 0 || root.last() == '/' {
        root + name
    } else {
        root.push('/') + name
    }
}

/// Joins a root and a name.
pub fn join_path(root: &str, name: &str) -> (path: String)
    ensures
        path@ == joined(root@, name@),
{
    let chars = chars_of(root);
    let mut path = text_of(&chars);
    let n: usize = chars.len();
    if n > 0 && chars[n - 1] != '/' {
        path.push('/');
    }
    let tail = chars_of(name);
    push_chars(&mut path, &tail);
    path
}

} // verus!
