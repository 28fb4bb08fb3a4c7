//! Text: decimal digits, ASCII case, white space, and pieces of strings.
use vstd::prelude::*;
use vstd::utf8::{decode_utf8, valid_utf8};

verus! {

/// `String::push` appends one character.
pub assume_specification[ String::push ](s: &mut String, c: char)
    ensures
        final(s)@ == old(s)@.push(c),
;

/// The error of a byte string that is not UTF-8.
#[verifier::external_type_specification]
#[verifier::external_body]
pub struct ExUtf8Error(core::str::Utf8Error);

/// `core::str::from_utf8` succeeds exactly on well-formed UTF-8 and then
/// returns the text with those bytes.
pub assume_specification[ core::str::from_utf8 ](v: &[u8]) -> (text: Result<
    &str,
    core::str::Utf8Error,
>)
    ensures
        text is Ok <==> valid_utf8(v@),
        text matches Ok(t) ==> t@ == decode_utf8(v@),
;

/// What `String::from_utf8_lossy` makes of a byte string.
pub uninterp spec fn lossy_utf8(bytes: Seq<u8>) -> Seq<char>;

/// `String::from_utf8_lossy`: the text of well-formed UTF-8, and otherwise a
/// text in which replacement characters stand for the malformed parts.
#[verifier::external_body]
pub(crate) fn lossy_text(bytes: &[u8]) -> (text: String)
    ensures
        text@ == lossy_utf8(bytes@),
        valid_utf8(bytes@) ==> text@ == decode_utf8(bytes@),
{
    String::from_utf8_lossy(bytes).into_owned()
}

/// The decimal digit for `d`.
pub open spec fn digit(d: nat) -> char {
    (48 + d) as char
}

/// `n` in decimal, without leading zeros.
pub open spec fn decimal(n: nat) -> Seq<char>
    decreases n,
{
    if n < 10 {
        seq![digit(n)]
    } else {
        decimal(n / 10).push(digit(n % 10))
    }
}

/// `count` zero digits.
pub open spec fn zero_digits(count: nat) -> Seq<char> {
    Seq::new(count, |i: int| '0')
}

/// `n` in decimal, filled up with leading zeros to at least `width` digits.
pub open spec fn padded(n: nat, width: nat) -> Seq<char> {
    let digits = decimal(n);
    if digits.len() >= width {
        digits
    } else {
        zero_digits((width - digits.len()) as nat) + digits
    }
}

/// `n` in decimal.
pub fn decimal_text(n: u64) -> (text: String)
    ensures
        text@ == decimal(n as nat),
    decreases n,
{
    let mut text: String = if n < 10 {
        String::new()
    } else {
        decimal_text(n / 10)
    };
    let d: u8 = (n % 10) as u8;
    text.push((48 + d) as char);
    text
}

/// `n` in decimal, filled up with leading zeros to at least `width` digits.
pub fn padded_text(n: u64, width: usize) -> (text: String)
    ensures
        text@ == padded(n as nat, width as nat),
{
    let digits: String = decimal_text(n);
    let have: usize = digits.as_str().unicode_len();
    let mut text: String = String::new();
    let mut i: usize = have;
    while i < width
        invariant
            have <= i,
            i <= width || have > width,
            have == digits@.len(),
            have <= width ==> text@ == zero_digits((i - have) as nat),
            have > width ==> i == have && text@ == Seq::<char>::empty(),
        decreases width - i,
    {
        text.push('0');
        i = i + 1;
    }
    text.append(digits.as_str());
    text
}

/// The characters of `s`.
pub fn chars_of(s: &str) -> (chars: Vec<char>)
    ensures
        chars@ == s@,
{
    let mut chars: Vec<char> = Vec::new();
    let n: usize = s.unicode_len();
    for c in iter: s.chars()
        invariant
            chars@ == s@.take(iter.index()),
            iter.seq() == s@,
    {
        chars.push(c);
    }
    chars
}

/// The text made of `chars`.
pub fn text_of(chars: &[char]) -> (text: String)
    ensures
        text@ == chars@,
{
    let mut text: String = String::new();
    let mut i: usize = 0;
    while i < chars.len()
        invariant
            i <= chars@.len(),
            text@ == chars@.take(i as int),
        decreases chars@.len() - i,
    {
        text.push(chars[i]);
        i = i + 1;
    }
    text
}

/// A result with its error taken by its view.
pub open spec fn viewed<T, E: View>(r: Result<T, E>) -> Result<T, E::V> {
    match r {
        Ok(value) => Ok(value),
        Err(e) => Err(e@),
    }
}

/// An optional text taken as a sequence.
pub open spec fn text_option(text: Option<String>) -> Option<Seq<char>> {
    match text {
        Some(text) => Some(text@),
        None => None,
    }
}

/// A copy of an optional text.
pub fn copy_option(text: &Option<String>) -> (copy: Option<String>)
    ensures
        text_option(copy) == text_option(*text),
{
    match text {
        Some(text) => Some(text.clone()),
        None => None,
    }
}

/// The texts of a list.
pub open spec fn texts(list: Seq<String>) -> Seq<Seq<char>> {
    list.map_values(|text: String| text@)
}

/// Two texts in a row.
pub fn concat2(a: &str, b: &str) -> (text: String)
    ensures
        text@ == a@ + b@,
{
    let mut text: String = a.to_owned();
    text.append(b);
    text
}

/// Three texts in a row.
pub fn concat3(a: &str, b: &str, c: &str) -> (text: String)
    ensures
        text@ == a@ + b@ + c@,
{
    let mut text: String = concat2(a, b);
    text.append(c);
    text
}

/// Four texts in a row.
pub fn concat4(a: &str, b: &str, c: &str, d: &str) -> (text: String)
    ensures
        text@ == a@ + b@ + c@ + d@,
{
    let mut text: String = concat3(a, b, c);
    text.append(d);
    text
}

/// Five texts in a row.
pub fn concat5(a: &str, b: &str, c: &str, d: &str, e: &str) -> (text: String)
    ensures
        text@ == a@ + b@ + c@ + d@ + e@,
{
    let mut text: String = concat4(a, b, c, d);
    text.append(e);
    text
}

/// Whether two texts are the same.
pub fn same_text(a: &str, b: &str) -> (same: bool)
    ensures
        same == (a@ == b@),
{
    a.to_owned() == b.to_owned()
}

/// `c` with an ASCII upper-case letter made lower case.
pub open spec fn lower(c: char) -> char {
    if 'A' <= c && c <= 'Z' {
        (c as u32 + 32) as char
    } else {
        c
    }
}

/// `s` with its ASCII upper-case letters made lower case.
pub open spec fn lower_all(s: Seq<char>) -> Seq<char> {
    s.map_values(|c: char| lower(c))
}

/// `c` with an ASCII upper-case letter made lower case.
pub fn lower_char(c: char) -> (l: char)
    ensures
        l == lower(c),
{
    if 'A' <= c && c <= 'Z' {
        (c as u8 + 32) as char
    } else {
        c
    }
}

/// `s` with its ASCII upper-case letters made lower case.
pub fn lower_text(s: &str) -> (text: String)
    ensures
        text@ == lower_all(s@),
{
    let chars: Vec<char> = chars_of(s);
    let mut text: String = String::new();
    let mut i: usize = 0;
    while i < chars.len()
        invariant
            chars@ == s@,
            i <= chars@.len(),
            text@ == lower_all(s@.take(i as int)),
        decreases chars@.len() - i,
    {
        text.push(lower_char(chars[i]));
        i = i + 1;
        assert(lower_all(s@.take(i as int)) == lower_all(s@.take(i - 1)).push(lower(s@[i - 1])));
    }
    assert(s@.take(s@.len() as int) == s@);
    text
}

/// Whether `s` begins with `prefix`.
pub open spec fn has_prefix(s: Seq<char>, prefix: Seq<char>) -> bool {
    prefix.len() <= s.len() && s.take(prefix.len() as int) == prefix
}

/// Whether `s` ends with `suffix`.
pub open spec fn has_suffix(s: Seq<char>, suffix: Seq<char>) -> bool {
    suffix.len() <= s.len() && s.skip(s.len() - suffix.len()) == suffix
}

/// Whether `s` begins with `prefix`.
pub fn starts_with(s: &[char], prefix: &str) -> (r: bool)
    ensures
        r == has_prefix(s@, prefix@),
{
    let p: Vec<char> = chars_of(prefix);
    if p.len() > s.len() {
        return false;
    }
    let mut i: usize = 0;
    while i < p.len()
        invariant
            p@ == prefix@,
            i <= p@.len() <= s@.len(),
            forall|k: int| 0 <= k < i ==> s@[k] == p@[k],
        decreases p@.len() - i,
    {
        if s[i] != p[i] {
            assert(s@.take(prefix@.len() as int)[i as int] != prefix@[i as int]);
            return false;
        }
        i = i + 1;
    }
    assert(s@.take(prefix@.len() as int) =~= prefix@);
    true
}

/// The first position of `c` in `s`, or the length of `s`.
pub open spec fn find_char(s: Seq<char>, c: char) -> int
    decreases s.len(),
{
    if s.len() == 0 || s[0] == c {
        0
    } else {
        1 + find_char(s.subrange(1, s.len() as int), c)
    }
}

/// `find_char` is the first position, and nothing before it is `c`.
pub proof fn lemma_find_char(s: Seq<char>, c: char)
    ensures
        0 <= find_char(s, c) <= s.len(),
        find_char(s, c) < s.len() ==> s[find_char(s, c)] == c,
        forall|k: int| 0 <= k < find_char(s, c) ==> s[k] != c,
    decreases s.len(),
{
    if s.len() > 0 && s[0] != c {
        let rest = s.subrange(1, s.len() as int);
        lemma_find_char(rest, c);
        assert forall|k: int| 0 <= k < find_char(s, c) implies s[k] != c by {
            if k > 0 {
                assert(rest[k - 1] == s[k]);
            }
        }
    }
}

/// A position of `c` before which there is none is the first one.
pub proof fn lemma_find_char_is(s: Seq<char>, c: char, at: int)
    requires
        0 <= at <= s.len(),
        at < s.len() ==> s[at] == c,
        forall|k: int| 0 <= k < at ==> s[k] != c,
    ensures
        find_char(s, c) == at,
{
    lemma_find_char(s, c);
    let f = find_char(s, c);
    if f < at {
        assert(s[f] != c);
    } else if f > at {
        assert(s[at] != c);
    }
}

/// Whether a text holds a NUL character.
pub fn contains_nul(text: &str) -> (r: bool)
    ensures
        r == text@.contains('\0'),
{
    let chars: Vec<char> = chars_of(text);
    let at: usize = position_of(chars.as_slice(), '\0');
    proof {
        lemma_find_char(text@, '\0');
        if at < text@.len() {
            assert(text@[at as int] == '\0');
        }
    }
    at < chars.len()
}

/// The first position of `c` in `s`, or the length of `s`.
pub fn position_of(s: &[char], c: char) -> (at: usize)
    ensures
        at as int == find_char(s@, c),
        at <= s@.len(),
{
    let mut i: usize = 0;
    while i < s.len()
        invariant
            i <= s@.len(),
            forall|k: int| 0 <= k < i ==> s@[k] != c,
        decreases s@.len() - i,
    {
        if s[i] == c {
            proof {
                lemma_find_char_is(s@, c, i as int);
            }
            return i;
        }
        i = i + 1;
    }
    proof {
        lemma_find_char_is(s@, c, i as int);
    }
    i
}

/// Whether `c` is white space: the characters with the Unicode property
/// `White_Space`.
pub open spec fn is_space(c: char) -> bool {
    let v = c as u32;
    ||| 0x9 <= v <= 0xd
    ||| v == 0x20
    ||| v == 0x85
    ||| v == 0xa0
    ||| v == 0x1680
    ||| 0x2000 <= v <= 0x200a
    ||| v == 0x2028
    ||| v == 0x2029
    ||| v == 0x202f
    ||| v == 0x205f
    ||| v == 0x3000
}

/// Whether `c` is white space.
pub fn is_space_char(c: char) -> (r: bool)
    ensures
        r == is_space(c),
{
    let v: u32 = c as u32;
    (0x9 <= v && v <= 0xd) || v == 0x20 || v == 0x85 || v == 0xa0 || v == 0x1680 || (0x2000 <= v
        && v <= 0x200a) || v == 0x2028 || v == 0x2029 || v == 0x202f || v == 0x205f || v == 0x3000
}

/// `s` without leading white space.
pub open spec fn trim_start(s: Seq<char>) -> Seq<char>
    decreases s.len(),
{
    if s.len() > 0 && is_space(s[0]) {
        trim_start(s.subrange(1, s.len() as int))
    } else {
        s
    }
}

/// `s` without trailing white space.
pub open spec fn trim_end(s: Seq<char>) -> Seq<char>
    decreases s.len(),
{
    if s.len() > 0 && is_space(s.last()) {
        trim_end(s.drop_last())
    } else {
        s
    }
}

/// `s` without white space at either end.
pub open spec fn trimmed(s: Seq<char>) -> Seq<char> {
    trim_end(trim_start(s))
}

/// `s` without white space at either end.
pub fn trim(s: &str) -> (chars: Vec<char>)
    ensures
        chars@ == trimmed(s@),
{
    let chars: Vec<char> = chars_of(s);
    let mut start: usize = 0;
    assert(chars@.subrange(0, chars@.len() as int) == chars@);
    while start < chars.len() && is_space_char(chars[start])
        invariant
            start <= chars@.len(),
            trim_start(chars@) == trim_start(chars@.subrange(start as int, chars@.len() as int)),
        decreases chars@.len() - start,
    {
        assert(chars@.subrange(start as int, chars@.len() as int).subrange(
            1,
            chars@.len() - start,
        ) == chars@.subrange(start + 1, chars@.len() as int));
        start = start + 1;
    }
    let ghost head = chars@.subrange(start as int, chars@.len() as int);
    assert(trim_start(chars@) == head);
    let mut end: usize = chars.len();
    while end > start && is_space_char(chars[end - 1])
        invariant
            start <= end <= chars@.len(),
            head == chars@.subrange(start as int, chars@.len() as int),
            trim_end(head) == trim_end(chars@.subrange(start as int, end as int)),
        decreases end,
    {
        assert(chars@.subrange(start as int, end as int).drop_last() == chars@.subrange(
            start as int,
            end - 1,
        ));
        end = end - 1;
    }
    slice_to_chars(chars.as_slice(), start, end)
}

/// The characters of `s` from `from` up to `to`.
pub fn slice_to_chars(s: &[char], from: usize, to: usize) -> (chars: Vec<char>)
    requires
        from <= to <= s@.len(),
    ensures
        chars@ == s@.subrange(from as int, to as int),
{
    let mut chars: Vec<char> = Vec::new();
    let mut i: usize = from;
    while i < to
        invariant
            from <= i <= to <= s@.len(),
            chars@ == s@.subrange(from as int, i as int),
        decreases to - i,
    {
        chars.push(s[i]);
        i = i + 1;
    }
    chars
}

/// Whether `c` is an ASCII decimal digit.
pub open spec fn is_digit(c: char) -> bool {
    '0' <= c && c <= '9'
}

/// Whether `s` holds only ASCII decimal digits.
pub open spec fn all_digits(s: Seq<char>) -> bool {
    forall|k: int| 0 <= k < s.len() ==> is_digit(#[trigger] s[k])
}

/// The number that a string of decimal digits spells.
pub open spec fn digits_value(s: Seq<char>) -> nat
    decreases s.len(),
{
    if s.len() == 0 {
        0
    } else {
        10 * digits_value(s.drop_last()) + (s.last() as u32 - 48) as nat
    }
}

/// The digits of a number with an optional leading plus sign.
pub open spec fn unsigned_digits(s: Seq<char>) -> Seq<char> {
    if s.len() > 0 && s[0] == '+' {
        s.subrange(1, s.len() as int)
    } else {
        s
    }
}

/// The unsigned number that `s` spells, at most `max`: an optional plus sign
/// and at least one decimal digit.
pub open spec fn parse_unsigned(s: Seq<char>, max: nat) -> Option<nat> {
    let digits = unsigned_digits(s);
    if digits.len() > 0 && all_digits(digits) && digits_value(digits) <= max {
        Some(digits_value(digits))
    } else {
        None
    }
}

proof fn lemma_digits_value_grows(s: Seq<char>, k: int)
    requires
        0 <= k <= s.len(),
        all_digits(s),
    ensures
        digits_value(s.take(k)) <= digits_value(s),
    decreases s.len() - k,
{
    if k < s.len() {
        lemma_digits_value_grows(s, k + 1);
        assert(s.take(k + 1).drop_last() == s.take(k));
    } else {
        assert(s.take(k) == s);
    }
}

/// The unsigned number, at most `max`, that `s` spells.
pub fn parse_unsigned_text(s: &[char], max: u64) -> (value: Option<u64>)
    ensures
        match value {
            Some(v) => parse_unsigned(s@, max as nat) == Some(v as nat),
            None => parse_unsigned(s@, max as nat) is None,
        },
{
    let start: usize = if s.len() > 0 && s[0] == '+' {
        1
    } else {
        0
    };
    let ghost digits = unsigned_digits(s@);
    assert(digits == s@.subrange(start as int, s@.len() as int));
    if start == s.len() {
        return None;
    }
    let mut value: u64 = 0;
    let mut i: usize = start;
    while i < s.len()
        invariant
            start <= i <= s@.len(),
            digits == s@.subrange(start as int, s@.len() as int),
            digits == unsigned_digits(s@),
            all_digits(digits.take(i - start)),
            value as nat == digits_value(digits.take(i - start)),
            value <= max,
        decreases s@.len() - i,
    {
        let c: char = s[i];
        let ghost k = i - start;
        assert(digits[k] == c);
        if !('0' <= c && c <= '9') {
            assert(!is_digit(digits[k]));
            return None;
        }
        let d: u64 = (c as u32 - 48) as u64;
        let next: u128 = 10 * (value as u128) + d as u128;
        assert(digits.take(k + 1).drop_last() == digits.take(k));
        assert(next == digits_value(digits.take(k + 1)));
        if next > max as u128 {
            proof {
                if all_digits(digits) {
                    lemma_digits_value_grows(digits, k + 1);
                }
            }
            return None;
        }
        assert(all_digits(digits.take(k + 1))) by {
            assert forall|j: int| 0 <= j < k + 1 implies is_digit(
                #[trigger] digits.take(k + 1)[j],
            ) by {
                if j < k {
                    assert(is_digit(digits.take(k)[j]));
                }
            }
        }
        value = next as u64;
        i = i + 1;
    }
    assert(digits.take(s@.len() - start) == digits);
    Some(value)
}

/// A decimal number is made of digits and spells itself.
pub proof fn lemma_decimal_round_trip(n: nat)
    ensures
        all_digits(decimal(n)),
        digits_value(decimal(n)) == n,
        decimal(n).len() > 0,
    decreases n,
{
    reveal_with_fuel(digits_value, 2);
    if n >= 10 {
        lemma_decimal_round_trip(n / 10);
        assert(decimal(n).drop_last() == decimal(n / 10));
        assert forall|k: int| 0 <= k < decimal(n).len() implies is_digit(
            #[trigger] decimal(n)[k],
        ) by {
            if k < decimal(n / 10).len() {
                assert(decimal(n)[k] == decimal(n / 10)[k]);
            }
        }
    } else {
        assert(decimal(n).drop_last() == Seq::<char>::empty());
    }
}

/// The lower-case hexadecimal digit of a number below sixteen.
pub open spec fn hex_digit(d: nat) -> char {
    if d < 10 {
        (48 + d) as char
    } else {
        (87 + d) as char
    }
}

/// Bytes in hexadecimal: two lower-case digits each, the high one first.
pub open spec fn hex(bytes: Seq<u8>) -> Seq<char>
    decreases bytes.len(),
{
    if bytes.len() == 0 {
        Seq::empty()
    } else {
        hex(bytes.drop_last()).push(hex_digit((bytes.last() / 16) as nat)).push(
            hex_digit((bytes.last() % 16) as nat),
        )
    }
}

/// Calls `hex::encode`, which writes two lower-case hexadecimal digits for each
/// byte, the high one first.
#[verifier::external_body]
pub(crate) fn hex_text(bytes: &[u8]) -> (text: String)
    ensures
        text@ == hex(bytes@),
{
    hex::encode(bytes)
}

/// A number is written in base ten: one digit for a number below ten, and one digit more
/// for ten times as much.
pub proof fn law_numbers_are_written_in_base_ten(n: nat, d: nat)
    requires
        d < 10,
    ensures
        decimal(d).len() == 1,
        decimal(d)[0] as u32 == 0x30 + d,
        n > 0 ==> decimal(10 * n + d) == decimal(n) + decimal(d),
        n > 0 ==> decimal(n)[0] != '0',
    decreases n,
{
    if n > 0 {
        assert((10 * n + d) / 10 == n);
        assert((10 * n + d) % 10 == d);
        assert(decimal(10 * n + d) =~= decimal(n) + decimal(d));
        if n >= 10 {
            law_numbers_are_written_in_base_ten(n / 10, n % 10);
            lemma_decimal_round_trip(n / 10);
        }
    }
}

/// A number that is filled up has as many characters as asked for, or as many as it needs;
/// it ends with the number, and zeros come before it.
pub proof fn law_numbers_are_filled_up_with_zeros(n: nat, width: nat)
    ensures
        padded(n, width).len() >= width,
        padded(n, width).len() >= decimal(n).len(),
        padded(n, width).len() == width || padded(n, width) == decimal(n),
        has_suffix(padded(n, width), decimal(n)),
        forall|k: int|
            0 <= k < padded(n, width).len() - decimal(n).len() ==> #[trigger] padded(n, width)[k]
                == '0',
{
    let text = padded(n, width);
    assert(text.skip(text.len() - decimal(n).len()) =~= decimal(n));
}

/// The digits of a number weigh ten times as much with each digit that follows.
pub proof fn law_digits_weigh_ten_times_as_much(s: Seq<char>, c: char)
    requires
        0x30 <= c as u32 <= 0x39,
    ensures
        digits_value(s.push(c)) == 10 * digits_value(s) + (c as u32 - 0x30),
        digits_value(Seq::<char>::empty()) == 0,
{
    assert(s.push(c).drop_last() =~= s);
}

/// What a number is written as is read back as that number, with a plus sign or without,
/// unless it is larger than what is allowed.
pub proof fn law_written_numbers_are_read_back(n: nat, max: nat)
    ensures
        n <= max ==> parse_unsigned(decimal(n), max) == Some(n),
        n <= max ==> parse_unsigned(seq!['+'] + decimal(n), max) == Some(n),
        n > max ==> parse_unsigned(decimal(n), max) is None,
{
    lemma_decimal_round_trip(n);
    let signed = seq!['+'] + decimal(n);
    assert(signed.subrange(1, signed.len() as int) =~= decimal(n));
    assert(is_digit(decimal(n)[0]));
}

/// A text without digits is no number, nor is one with anything but digits behind its
/// first character.
pub proof fn law_other_texts_are_no_numbers(s: Seq<char>, k: int, max: nat)
    requires
        0 <= k < s.len(),
        !(0x30 <= s[k] as u32 <= 0x39),
        k > 0 || s[k] != '+',
    ensures
        parse_unsigned(s, max) is None,
        parse_unsigned(Seq::<char>::empty(), max) is None,
        parse_unsigned(seq!['+'], max) is None,
{
    let digits = unsigned_digits(s);
    if s[0] == '+' {
        assert(digits[k - 1] == s[k]);
        assert(!is_digit(digits[k - 1]));
    } else {
        assert(!is_digit(digits[k]));
    }
    assert(unsigned_digits(seq!['+']).len() == 0);
}

/// Capital letters of ASCII become the small ones, which lie thirty-two places behind
/// them; every other character stays as it is.
pub proof fn law_capitals_become_small(s: Seq<char>, k: int)
    requires
        0 <= k < s.len(),
    ensures
        lower_all(s).len() == s.len(),
        0x41 <= s[k] as u32 <= 0x5a ==> lower_all(s)[k] as u32 == s[k] as u32 + 0x20,
        !(0x41 <= s[k] as u32 <= 0x5a) ==> lower_all(s)[k] == s[k],
        lower_all(lower_all(s)) == lower_all(s),
{
    assert forall|i: int| 0 <= i < s.len() implies #[trigger] lower_all(lower_all(s))[i]
        == lower_all(s)[i] by {}
    assert(lower_all(lower_all(s)) =~= lower_all(s));
}

/// A character is found where it stands for the first time.
pub proof fn law_characters_are_found_where_they_stand_first(
    before: Seq<char>,
    c: char,
    after: Seq<char>,
)
    requires
        !before.contains(c),
    ensures
        find_char(before + seq![c] + after, c) == before.len(),
        find_char(before, c) == before.len(),
{
    let text = before + seq![c] + after;
    assert forall|k: int| 0 <= k < before.len() implies before[k] != c by {
        if before[k] == c {
            assert(before.contains(c));
        }
    }
    assert forall|k: int| 0 <= k < before.len() implies text[k] != c by {
        assert(text[k] == before[k]);
    }
    lemma_find_char_is(text, c, before.len() as int);
    lemma_find_char_is(before, c, before.len() as int);
}

/// The characters that count as space are those with the Unicode property.
pub proof fn law_spaces_are_those_of_unicode(c: char)
    ensures
        is_space(c) <==> seq![
            0x9u32, 0xa, 0xb, 0xc, 0xd, 0x20, 0x85, 0xa0, 0x1680, 0x2000, 0x2001, 0x2002, 0x2003,
            0x2004, 0x2005, 0x2006, 0x2007, 0x2008, 0x2009, 0x200a, 0x2028, 0x2029, 0x202f, 0x205f,
            0x3000,
        ].contains(c as u32),
{
    let spaces = seq![
        0x9u32, 0xa, 0xb, 0xc, 0xd, 0x20, 0x85, 0xa0, 0x1680, 0x2000, 0x2001, 0x2002, 0x2003,
        0x2004, 0x2005, 0x2006, 0x2007, 0x2008, 0x2009, 0x200a, 0x2028, 0x2029, 0x202f, 0x205f,
        0x3000,
    ];
    assert(spaces[0] == 0x9 && spaces[1] == 0xa && spaces[2] == 0xb && spaces[3] == 0xc && spaces[4]
        == 0xd && spaces[5] == 0x20 && spaces[6] == 0x85 && spaces[7] == 0xa0 && spaces[8]
        == 0x1680 && spaces[9] == 0x2000 && spaces[10] == 0x2001 && spaces[11] == 0x2002
        && spaces[12] == 0x2003 && spaces[13] == 0x2004 && spaces[14] == 0x2005 && spaces[15]
        == 0x2006 && spaces[16] == 0x2007 && spaces[17] == 0x2008 && spaces[18] == 0x2009
        && spaces[19] == 0x200a && spaces[20] == 0x2028 && spaces[21] == 0x2029 && spaces[22]
        == 0x202f && spaces[23] == 0x205f && spaces[24] == 0x3000);
}

/// Space before a text and behind it is taken off, and nothing else.
pub proof fn law_space_around_a_text_is_taken_off(
    before: Seq<char>,
    text: Seq<char>,
    after: Seq<char>,
)
    requires
        forall|k: int| 0 <= k < before.len() ==> is_space(#[trigger] before[k]),
        forall|k: int| 0 <= k < after.len() ==> is_space(#[trigger] after[k]),
        text.len() > 0 ==> !is_space(text[0]) && !is_space(text.last()),
    ensures
        trimmed(before + text + after) == text,
    decreases before.len() + after.len(),
{
    let whole = before + text + after;
    if before.len() > 0 {
        let rest = before.subrange(1, before.len() as int);
        assert(whole[0] == before[0]);
        assert(whole.subrange(1, whole.len() as int) =~= rest + text + after);
        assert forall|k: int| 0 <= k < rest.len() implies is_space(#[trigger] rest[k]) by {
            assert(rest[k] == before[k + 1]);
        }
        law_space_around_a_text_is_taken_off(rest, text, after);
    } else if text.len() == 0 && after.len() > 0 {
        assert(whole =~= after);
        let rest = after.subrange(1, after.len() as int);
        assert(whole.subrange(1, whole.len() as int) =~= before + text + rest);
        assert forall|k: int| 0 <= k < rest.len() implies is_space(#[trigger] rest[k]) by {
            assert(rest[k] == after[k + 1]);
        }
        law_space_around_a_text_is_taken_off(before, text, rest);
    } else if after.len() > 0 {
        assert(whole[0] == text[0]);
        assert(whole.last() == after.last());
        assert(whole.drop_last() =~= before + text + after.drop_last());
        assert((before + text + after.drop_last())[0] == text[0]);
        law_space_around_a_text_is_taken_off(before, text, after.drop_last());
    } else {
        assert(whole =~= text);
    }
}

proof fn lemma_hex_digit(d: nat)
    requires
        d < 16,
    ensures
        hex_digit(d) == "0123456789abcdef"@[d as int],
{
    reveal_strlit("0123456789abcdef");
}

/// Every byte is written as two digits of base sixteen, the higher one first.
pub proof fn law_bytes_are_written_in_base_sixteen(bytes: Seq<u8>, k: int)
    requires
        0 <= k < bytes.len(),
    ensures
        hex(bytes).len() == 2 * bytes.len(),
        hex(bytes)[2 * k] == "0123456789abcdef"@[bytes[k] as int / 16],
        hex(bytes)[2 * k + 1] == "0123456789abcdef"@[bytes[k] as int % 16],
    decreases bytes.len(),
{
    reveal_with_fuel(hex, 2);
    lemma_hex_digit((bytes[k] / 16) as nat);
    lemma_hex_digit((bytes[k] % 16) as nat);
    let shorter = bytes.drop_last();
    if k < bytes.len() - 1 {
        law_bytes_are_written_in_base_sixteen(shorter, k);
    } else if shorter.len() > 0 {
        law_bytes_are_written_in_base_sixteen(shorter, 0);
    }
}

} // verus!
