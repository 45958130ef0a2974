//! Text building and reading: numbers in decimal and hexadecimal, fixed-point
//! amounts, trimming, splitting and comparing.
use vstd::prelude::*;
use vstd::slice::slice_subrange;
use vstd::string::*;

verus! {

broadcast use vstd::string::next_postcondition;

/// The lower-case digit for a value below sixteen.
pub open spec fn digit(d: int) -> char {
    if d == 0 {
        '0'
    } else if d == 1 {
        '1'
    } else if d == 2 {
        '2'
    } else if d == 3 {
        '3'
    } else if d == 4 {
        '4'
    } else if d == 5 {
        '5'
    } else if d == 6 {
        '6'
    } else if d == 7 {
        '7'
    } else if d == 8 {
        '8'
    } else if d == 9 {
        '9'
    } else if d == 10 {
        'a'
    } else if d == 11 {
        'b'
    } else if d == 12 {
        'c'
    } else if d == 13 {
        'd'
    } else if d == 14 {
        'e'
    } else {
        'f'
    }
}

/// The digits of `n` in the given base, most significant first, with no
/// leading zeros.
pub open spec fn digits(n: nat, base: nat) -> Seq<char>
    recommends
        2 <= base <= 16,
    decreases n,
{
    if base < 2 || n < base {
        seq![digit(n as int)]
    } else {
        proof {
            lemma_quotient_smaller(n, base);
        }
        digits(n / base, base).push(digit((n % base) as int))
    }
}

pub proof fn lemma_quotient_smaller(n: nat, base: nat)
    requires
        2 <= base <= n,
    ensures
        n / base < n,
{
    assert(n / base < n) by (nonlinear_arith)
        requires
            2 <= base <= n,
    ;
}

/// `n` in decimal.
pub open spec fn decimal(n: nat) -> Seq<char> {
    digits(n, 10)
}

/// `n` in lower-case hexadecimal.
pub open spec fn hexadecimal(n: nat) -> Seq<char> {
    digits(n, 16)
}

/// The given number of zeros.
pub open spec fn zeros(n: nat) -> Seq<char> {
    Seq::new(n, |i: int| '0')
}

/// `d` with zeros in front up to `width` characters.
pub open spec fn zero_filled(d: Seq<char>, width: nat) -> Seq<char> {
    if d.len() >= width {
        d
    } else {
        zeros((width - d.len()) as nat) + d
    }
}

/// `n` in decimal, with zeros in front up to `width` characters.
pub open spec fn padded(n: nat, width: nat) -> Seq<char> {
    zero_filled(decimal(n), width)
}

/// `n` in lower-case hexadecimal, with zeros in front up to `width`
/// characters.
pub open spec fn padded_hexadecimal(n: nat, width: nat) -> Seq<char> {
    zero_filled(hexadecimal(n), width)
}

/// `s` without the zeros at its end.
pub open spec fn without_trailing_zeros(s: Seq<char>) -> Seq<char>
    decreases s.len(),
{
    if s.len() > 0 && s.last() == '0' {
        without_trailing_zeros(s.drop_last())
    } else {
        s
    }
}

/// How many billionths make one.
pub const BILLION: u128 = 1_000_000_000;

/// An amount counted in billionths, written in decimal: the whole part, and
/// where there is a fraction a point and its digits without trailing zeros.
pub open spec fn billionths(n: nat) -> Seq<char> {
    if n % 1_000_000_000 == 0 {
        decimal(n / 1_000_000_000)
    } else {
        decimal(n / 1_000_000_000) + "."@ + without_trailing_zeros(
            padded(n % 1_000_000_000, 9),
        )
    }
}

/// Appends one character to a string.
///
/// Calls `String::push`, which "appends the given char to the end of this
/// `String`".
#[verifier::external_body]
pub(crate) fn push_char(s: &mut String, c: char)
    ensures
        final(s)@ == old(s)@.push(c),
{
    s.push(c)
}

/// The digit for a value below sixteen.
fn digit_char(d: u8) -> (c: char)
    requires
        d < 16,
    ensures
        c == digit(d as int),
{
    match d {
        0 => '0',
        1 => '1',
        2 => '2',
        3 => '3',
        4 => '4',
        5 => '5',
        6 => '6',
        7 => '7',
        8 => '8',
        9 => '9',
        10 => 'a',
        11 => 'b',
        12 => 'c',
        13 => 'd',
        14 => 'e',
        _ => 'f',
    }
}

/// Appends the digits of `n` in the given base.
fn push_digits(out: &mut String, n: u128, base: u128)
    requires
        2 <= base <= 16,
    ensures
        final(out)@ == old(out)@ + digits(n as nat, base as nat),
    decreases n,
{
    if n < base {
        push_char(out, digit_char(n as u8));
        assert(out@ =~= old(out)@ + digits(n as nat, base as nat));
    } else {
        proof {
            lemma_quotient_smaller(n as nat, base as nat);
        }
        push_digits(out, n / base, base);
        push_char(out, digit_char((n % base) as u8));
        assert(out@ =~= old(out)@ + digits(n as nat, base as nat));
    }
}

/// `n` in decimal.
pub fn decimal_text(n: u128) -> (res: String)
    ensures
        res@ == decimal(n as nat),
{
    let mut out = String::new();
    push_digits(&mut out, n, 10);
    assert(out@ =~= decimal(n as nat));
    out
}

/// `n` in decimal, with a minus sign where it is negative.
pub open spec fn signed_decimal(n: int) -> Seq<char> {
    if n < 0 {
        "-"@ + decimal((-n) as nat)
    } else {
        decimal(n as nat)
    }
}

/// `n` in decimal, with a minus sign where it is negative.
pub fn signed_text(n: i32) -> (res: String)
    ensures
        res@ == signed_decimal(n as int),
{
    let wide: i64 = n as i64;
    if wide < 0 {
        let mut out = "-".to_owned();
        out.append(decimal_text((-wide) as u128).as_str());
        out
    } else {
        decimal_text(wide as u128)
    }
}

/// `n` in lower-case hexadecimal.
pub fn hex_text(n: u128) -> (res: String)
    ensures
        res@ == hexadecimal(n as nat),
{
    let mut out = String::new();
    push_digits(&mut out, n, 16);
    assert(out@ =~= hexadecimal(n as nat));
    out
}

/// `d` with zeros in front up to `width` characters.
fn fill_zeros(d: String, width: usize) -> (res: String)
    ensures
        res@ == zero_filled(d@, width as nat),
{
    let len: usize = d.as_str().unicode_len();
    if len >= width {
        return d;
    }
    let mut out = String::new();
    let mut i: usize = 0;
    while i < width - len
        invariant
            i <= width - len,
            out@ == zeros(i as nat),
        decreases width - len - i,
    {
        push_char(&mut out, '0');
        i = i + 1;
        assert(out@ =~= zeros(i as nat));
    }
    out.append(d.as_str());
    out
}

/// `n` in decimal, with zeros in front up to `width` characters.
pub fn padded_text(n: u128, width: usize) -> (res: String)
    ensures
        res@ == padded(n as nat, width as nat),
{
    fill_zeros(decimal_text(n), width)
}

/// `n` in lower-case hexadecimal, with zeros in front up to `width`
/// characters.
pub fn padded_hex_text(n: u128, width: usize) -> (res: String)
    ensures
        res@ == padded_hexadecimal(n as nat, width as nat),
{
    fill_zeros(hex_text(n), width)
}

/// An amount counted in billionths, in decimal.
pub fn billionths_text(n: u128) -> (res: String)
    ensures
        res@ == billionths(n as nat),
{
    let whole: u128 = n / BILLION;
    let part: u128 = n % BILLION;
    let mut out = decimal_text(whole);
    if part == 0 {
        return out;
    }
    out.append(".");
    let frac = chars_of(padded_text(part, 9).as_str());
    let mut end: usize = frac.len();
    assert(frac@.subrange(0, end as int) =~= frac@);
    while end > 0 && frac[end - 1] == '0'
        invariant
            end <= frac@.len(),
            without_trailing_zeros(frac@.subrange(0, end as int)) == without_trailing_zeros(frac@),
        decreases end,
    {
        assert(frac@.subrange(0, end as int).drop_last() =~= frac@.subrange(0, end - 1));
        end = end - 1;
    }
    let kept = text_of(slice_subrange(frac.as_slice(), 0, end));
    out.append(kept.as_str());
    out
}

/// The characters of a text.
pub fn chars_of(s: &str) -> (res: Vec<char>)
    ensures
        res@ == s@,
{
    let mut out: Vec<char> = Vec::new();
    for c in it: s.chars()
        invariant
            out@ == it.seq().take(it.index()),
            it.seq() == s@,
    {
        out.push(c);
        assert(out@ =~= it.seq().take(it.index() + 1));
    }
    assert(out@ =~= s@);
    out
}

/// The text made of the given characters.
pub fn text_of(chars: &[char]) -> (res: String)
    ensures
        res@ == chars@,
{
    let mut out = String::new();
    let mut i: usize = 0;
    while i < chars.len()
        invariant
            i <= chars@.len(),
            out@ == chars@.take(i as int),
        decreases chars@.len() - i,
    {
        push_char(&mut out, chars[i]);
        i = i + 1;
        assert(out@ =~= chars@.take(i as int));
    }
    assert(out@ =~= chars@);
    out
}

/// Whether two texts are the same.
pub fn same_text(a: &str, b: &str) -> (res: bool)
    ensures
        res == (a@ == b@),
{
    let x = chars_of(a);
    let y = chars_of(b);
    if x.len() != y.len() {
        return false;
    }
    let mut i: usize = 0;
    while i < x.len()
        invariant
            x@ == a@,
            y@ == b@,
            x@.len() == y@.len(),
            i <= x@.len(),
            forall|j: int| 0 <= j < i ==> x@[j] == y@[j],
        decreases x@.len() - i,
    {
        if x[i] != y[i] {
            return false;
        }
        i = i + 1;
    }
    assert(x@ =~= y@);
    true
}

/// Whether `c` is one of the ten decimal digits.
pub open spec fn is_digit(c: char) -> bool {
    '0' <= c && c <= '9'
}

/// The value of a decimal digit.
pub open spec fn digit_value(c: char) -> nat {
    (c as int - '0' as int) as nat
}

/// The number that a sequence of decimal digits writes.
pub open spec fn number(s: Seq<char>) -> nat
    decreases s.len(),
{
    if s.len() == 0 {
        0
    } else {
        number(s.drop_last()) * 10 + digit_value(s.last())
    }
}

/// Whether every character is a decimal digit.
pub open spec fn all_digits(s: Seq<char>) -> bool {
    forall|i: int| 0 <= i < s.len() ==> is_digit(#[trigger] s[i])
}

/// What is left of `s` after an optional plus sign.
pub open spec fn unsigned_part(s: Seq<char>) -> Seq<char> {
    if s.len() > 0 && s[0] == '+' {
        s.subrange(1, s.len() as int)
    } else {
        s
    }
}

/// The number that `s` writes: an optional plus sign and one or more decimal
/// digits, of a value that fits in 64 bits.
pub open spec fn parsed_u64(s: Seq<char>) -> Option<u64> {
    let body = unsigned_part(s);
    if body.len() > 0 && all_digits(body) && number(body) <= u64::MAX {
        Some(number(body) as u64)
    } else {
        None
    }
}

proof fn lemma_number_prefix(s: Seq<char>, i: int)
    requires
        0 <= i <= s.len(),
    ensures
        number(s.subrange(0, i)) <= number(s),
    decreases s.len() - i,
{
    if i < s.len() {
        lemma_number_prefix(s, i + 1);
        assert(s.subrange(0, i + 1).drop_last() =~= s.subrange(0, i));
    } else {
        assert(s.subrange(0, i) =~= s);
    }
}

/// Reads a number: an optional plus sign and decimal digits.
pub fn parse_u64(s: &str) -> (res: Option<u64>)
    ensures
        res == parsed_u64(s@),
{
    let chars = chars_of(s);
    parse_u64_chars(chars.as_slice())
}

/// Reads a number from characters: an optional plus sign and decimal digits.
pub fn parse_u64_chars(chars: &[char]) -> (res: Option<u64>)
    ensures
        res == parsed_u64(chars@),
{
    let start: usize = if chars.len() > 0 && chars[0] == '+' {
        1
    } else {
        0
    };
    let ghost body = unsigned_part(chars@);
    assert(body =~= chars@.subrange(start as int, chars@.len() as int));
    if start == chars.len() {
        return None;
    }
    let mut i: usize = start;
    let mut value: u64 = 0;
    while i < chars.len()
        invariant
            start <= i <= chars@.len(),
            body == chars@.subrange(start as int, chars@.len() as int),
            value == number(body.subrange(0, i - start)),
            forall|j: int| 0 <= j < i - start ==> is_digit(#[trigger] body[j]),
            body == unsigned_part(chars@),
            body.len() > 0,
        decreases chars@.len() - i,
    {
        let c = chars[i];
        assert(body[i - start] == c);
        if c < '0' || c > '9' {
            assert(!is_digit(body[i - start]));
            return None;
        }
        let d: u64 = (c as u32 - '0' as u32) as u64;
        proof {
            let upto = body.subrange(0, i + 1 - start);
            assert(upto.drop_last() =~= body.subrange(0, i - start));
            assert(number(upto) == value * 10 + d);
            lemma_number_prefix(body, i + 1 - start);
        }
        match value.checked_mul(10) {
            None => {
                return None;
            },
            Some(tens) => match tens.checked_add(d) {
                None => {
                    return None;
                },
                Some(next) => {
                    value = next;
                },
            },
        }
        i = i + 1;
    }
    assert(body.subrange(0, i - start) =~= body);
    Some(value)
}

proof fn lemma_decimal_digits(n: nat)
    ensures
        decimal(n).len() > 0,
        all_digits(decimal(n)),
        number(decimal(n)) == n,
    decreases n,
{
    if n < 10 {
        assert(decimal(n) =~= seq![digit(n as int)]);
        assert(decimal(n).drop_last() =~= Seq::<char>::empty());
        assert(number(Seq::<char>::empty()) == 0);
    } else {
        lemma_decimal_digits(n / 10);
        let rest = decimal(n / 10);
        assert(decimal(n) == rest.push(digit((n % 10) as int)));
        assert(decimal(n).drop_last() =~= rest);
    }
}

/// Reading gives back what was written: the decimal text of a 64-bit number
/// reads as that number.
pub proof fn decimal_round_trip(n: u64)
    ensures
        parsed_u64(decimal(n as nat)) == Some(n),
{
    lemma_decimal_digits(n as nat);
    let s = decimal(n as nat);
    assert(is_digit(s[0]));
    assert(unsigned_part(s) == s);
}

/// Whether `c` is white space: the characters with the Unicode property
/// `White_Space`.
pub open spec fn is_space(c: char) -> bool {
    let n = c as u32;
    ||| 0x9 <= n <= 0xD
    ||| n == 0x20
    ||| n == 0x85
    ||| n == 0xA0
    ||| n == 0x1680
    ||| 0x2000 <= n <= 0x200A
    ||| n == 0x2028
    ||| n == 0x2029
    ||| n == 0x202F
    ||| n == 0x205F
    ||| n == 0x3000
}

/// `s` without the white space at its start.
pub open spec fn trim_start(s: Seq<char>) -> Seq<char>
    decreases s.len(),
{
    if s.len() > 0 && is_space(s[0]) {
        trim_start(s.subrange(1, s.len() as int))
    } else {
        s
    }
}

/// `s` without the white space at its end.
pub open spec fn trim_end(s: Seq<char>) -> Seq<char>
    decreases s.len(),
{
    if s.len() > 0 && is_space(s.last()) {
        trim_end(s.drop_last())
    } else {
        s
    }
}

/// `s` without the white space at either end.
pub open spec fn trim(s: Seq<char>) -> Seq<char> {
    trim_end(trim_start(s))
}

/// Whether `c` is white space.
pub(crate) fn space(c: char) -> (res: bool)
    ensures
        res == is_space(c),
{
    let n: u32 = c as u32;
    (0x9 <= n && n <= 0xD) || n == 0x20 || n == 0x85 || n == 0xA0 || n == 0x1680 || (0x2000 <= n
        && n <= 0x200A) || n == 0x2028 || n == 0x2029 || n == 0x202F || n == 0x205F || n == 0x3000
}

/// The characters without the white space at either end.
pub fn trim_chars(chars: &[char]) -> (res: &[char])
    ensures
        res@ == trim(chars@),
{
    let len: usize = chars.len();
    let mut start: usize = 0;
    assert(chars@.subrange(0, len as int) =~= chars@);
    while start < len && space(chars[start])
        invariant
            start <= len == chars@.len(),
            trim_start(chars@.subrange(start as int, len as int)) == trim_start(chars@),
        decreases len - start,
    {
        let ghost rest = chars@.subrange(start as int, len as int);
        assert(rest.subrange(1, rest.len() as int) =~= chars@.subrange(start + 1, len as int));
        start = start + 1;
    }
    let ghost left = chars@.subrange(start as int, len as int);
    assert(left == trim_start(chars@));
    let mut end: usize = len;
    while end > start && space(chars[end - 1])
        invariant
            start <= end <= len == chars@.len(),
            trim_end(chars@.subrange(start as int, end as int)) == trim_end(left),
        decreases end,
    {
        let ghost rest = chars@.subrange(start as int, end as int);
        assert(rest.drop_last() =~= chars@.subrange(start as int, end - 1));
        end = end - 1;
    }
    slice_subrange(chars, start, end)
}

/// The text without the white space at either end.
pub fn trim_text(s: &str) -> (res: String)
    ensures
        res@ == trim(s@),
{
    let chars = chars_of(s);
    text_of(trim_chars(chars.as_slice()))
}

/// Whether `s` starts with `p`.
pub open spec fn has_prefix(s: Seq<char>, p: Seq<char>) -> bool {
    p.len() <= s.len() && s.subrange(0, p.len() as int) == p
}

/// Whether `s` ends with `p`.
pub open spec fn has_suffix(s: Seq<char>, p: Seq<char>) -> bool {
    p.len() <= s.len() && s.subrange(s.len() - p.len(), s.len() as int) == p
}

/// `s` without every repetition of `p` at its end.
pub open spec fn without_suffixes(s: Seq<char>, p: Seq<char>) -> Seq<char>
    decreases s.len(),
{
    if p.len() > 0 && has_suffix(s, p) {
        without_suffixes(s.subrange(0, s.len() - p.len()), p)
    } else {
        s
    }
}

/// Whether the characters from `at` on start with `p`.
fn matches_at(chars: &[char], at: usize, p: &[char]) -> (res: bool)
    requires
        at + p@.len() <= chars@.len(),
    ensures
        res == (chars@.subrange(at as int, at + p@.len()) == p@),
{
    let ghost part = chars@.subrange(at as int, at + p@.len());
    let total: usize = chars.len();
    let mut i: usize = 0;
    while i < p.len()
        invariant
            i <= p@.len(),
            at + p@.len() <= chars@.len() == total,
            part == chars@.subrange(at as int, at + p@.len()),
            forall|j: int| 0 <= j < i ==> part[j] == p@[j],
        decreases p@.len() - i,
    {
        assert(part[i as int] == chars@[at + i]);
        if chars[at + i] != p[i] {
            return false;
        }
        i = i + 1;
    }
    assert(part =~= p@);
    true
}

/// What follows `p` in the characters, where they start with it.
pub fn strip_prefix<'a>(chars: &'a [char], p: &str) -> (res: Option<&'a [char]>)
    ensures
        match res {
            Some(rest) => has_prefix(chars@, p@) && rest@ == chars@.subrange(
                p@.len() as int,
                chars@.len() as int,
            ),
            None => !has_prefix(chars@, p@),
        },
{
    let wanted = chars_of(p);
    if wanted.len() <= chars.len() && matches_at(chars, 0, wanted.as_slice()) {
        Some(slice_subrange(chars, wanted.len(), chars.len()))
    } else {
        None
    }
}

/// The characters without every repetition of `p` at their end.
pub fn strip_suffixes<'a>(chars: &'a [char], p: &str) -> (res: &'a [char])
    ensures
        res@ == without_suffixes(chars@, p@),
{
    let wanted = chars_of(p);
    let mut end: usize = chars.len();
    assert(chars@.subrange(0, end as int) =~= chars@);
    while wanted.len() > 0 && wanted.len() <= end && matches_at(
        chars,
        end - wanted.len(),
        wanted.as_slice(),
    )
        invariant
            end <= chars@.len(),
            wanted@ == p@,
            without_suffixes(chars@.subrange(0, end as int), p@) == without_suffixes(chars@, p@),
        decreases end,
    {
        let ghost rest = chars@.subrange(0, end as int);
        assert(rest.subrange(rest.len() - p@.len(), rest.len() as int) =~= chars@.subrange(
            end - p@.len(),
            end as int,
        ));
        assert(rest.subrange(0, rest.len() - p@.len()) =~= chars@.subrange(0, end - p@.len()));
        end = end - wanted.len();
    }
    proof {
        let rest = chars@.subrange(0, end as int);
        if p@.len() <= end {
            assert(rest.subrange(rest.len() - p@.len(), rest.len() as int) =~= chars@.subrange(
                end - p@.len(),
                end as int,
            ));
        }
    }
    slice_subrange(chars, 0, end)
}

/// Where the first line feed of `s` at or after `from` stands, or the length
/// of `s` where there is none.
pub open spec fn line_feed_from(s: Seq<char>, from: int) -> int
    decreases s.len() - from,
{
    if from < 0 || from >= s.len() {
        s.len() as int
    } else if s[from] == '\n' {
        from
    } else {
        line_feed_from(s, from + 1)
    }
}

/// `s` without a carriage return at its end.
pub open spec fn without_return(s: Seq<char>) -> Seq<char> {
    if s.len() > 0 && s.last() == '\r' {
        s.drop_last()
    } else {
        s
    }
}

/// The lines of `s` from `from` on. A line ends with a line feed, or with a
/// carriage return and a line feed; the end of the last line is optional.
pub open spec fn lines_from(s: Seq<char>, from: int) -> Seq<Seq<char>>
    decreases s.len() - from,
{
    if from < 0 || from >= s.len() {
        Seq::empty()
    } else {
        let end = line_feed_from(s, from);
        if end <= from - 1 || end >= s.len() {
            seq![s.subrange(from, s.len() as int)]
        } else {
            seq![without_return(s.subrange(from, end))] + lines_from(s, end + 1)
        }
    }
}

/// The lines of a text.
pub open spec fn lines(s: Seq<char>) -> Seq<Seq<char>> {
    lines_from(s, 0)
}

/// The contents of several texts.
pub open spec fn texts(v: Seq<String>) -> Seq<Seq<char>> {
    Seq::new(v.len(), |i: int| v[i]@)
}

/// The contents of several character vectors.
pub open spec fn char_texts(v: Seq<Vec<char>>) -> Seq<Seq<char>> {
    Seq::new(v.len(), |i: int| v[i]@)
}

/// The lines of a text.
pub fn split_lines(s: &str) -> (res: Vec<Vec<char>>)
    ensures
        char_texts(res@) == lines(s@),
{
    let chars = chars_of(s);
    let len: usize = chars.len();
    let mut out: Vec<Vec<char>> = Vec::new();
    let mut start: usize = 0;
    assert(char_texts(out@) + lines_from(chars@, 0) =~= lines(chars@));
    while start < len
        invariant
            chars@ == s@,
            len == chars@.len(),
            start <= len,
            char_texts(out@) + lines_from(chars@, start as int) == lines(chars@),
        decreases len - start,
    {
        let mut end: usize = start;
        while end < len && chars[end] != '\n'
            invariant
                start <= end <= len == chars@.len(),
                line_feed_from(chars@, start as int) == line_feed_from(chars@, end as int),
            decreases len - end,
        {
            end = end + 1;
        }
        let ghost before = char_texts(out@);
        if end == len {
            let line = slice_to_chars(slice_subrange(chars.as_slice(), start, len));
            out.push(line);
            assert(char_texts(out@) =~= before.push(line@));
            assert(char_texts(out@) =~= lines(chars@));
            return out;
        }
        let stop: usize = if end > start && chars[end - 1] == '\r' {
            end - 1
        } else {
            end
        };
        let line = slice_to_chars(slice_subrange(chars.as_slice(), start, stop));
        assert(line@ =~= without_return(chars@.subrange(start as int, end as int)));
        out.push(line);
        assert(char_texts(out@) =~= before.push(line@));
        assert(char_texts(out@) + lines_from(chars@, end + 1) =~= before + lines_from(
            chars@,
            start as int,
        ));
        start = end + 1;
    }
    assert(char_texts(out@) =~= lines(chars@));
    out
}

fn slice_to_chars(chars: &[char]) -> (res: Vec<char>)
    ensures
        res@ == chars@,
{
    let mut out: Vec<char> = Vec::new();
    let mut i: usize = 0;
    while i < chars.len()
        invariant
            i <= chars@.len(),
            out@ == chars@.take(i as int),
        decreases chars@.len() - i,
    {
        out.push(chars[i]);
        i = i + 1;
        assert(out@ =~= chars@.take(i as int));
    }
    assert(out@ =~= chars@);
    out
}

/// The parts one after another, with `sep` between each two.
pub open spec fn joined(parts: Seq<Seq<char>>, sep: Seq<char>) -> Seq<char>
    decreases parts.len(),
{
    if parts.len() == 0 {
        Seq::empty()
    } else if parts.len() == 1 {
        parts[0]
    } else {
        joined(parts.drop_last(), sep) + sep + parts.last()
    }
}

/// The texts one after another, with `sep` between each two.
pub fn join(parts: &Vec<String>, sep: &str) -> (res: String)
    ensures
        res@ == joined(texts(parts@), sep@),
{
    let mut out = String::new();
    let mut i: usize = 0;
    let ghost all = texts(parts@);
    assert(out@ =~= joined(all.take(0), sep@));
    while i < parts.len()
        invariant
            i <= parts@.len(),
            all == texts(parts@),
            out@ == joined(all.take(i as int), sep@),
        decreases parts@.len() - i,
    {
        let ghost upto = all.take(i + 1);
        assert(upto.drop_last() =~= all.take(i as int));
        if i > 0 {
            out.append(sep);
        }
        out.append(parts[i].as_str());
        i = i + 1;
        assert(out@ =~= joined(upto, sep@));
    }
    assert(all.take(i as int) =~= all);
    out
}

/// Whether a text is among those given.
pub open spec fn listed(s: Seq<String>, text: Seq<char>) -> bool {
    exists|i: int| 0 <= i < s.len() && (#[trigger] s[i])@ == text
}

/// The texts without repetitions, each where it comes first.
pub open spec fn unique(s: Seq<String>) -> Seq<String>
    decreases s.len(),
{
    if s.len() == 0 {
        Seq::empty()
    } else {
        let before = unique(s.drop_last());
        if listed(before, s.last()@) {
            before
        } else {
            before.push(s.last())
        }
    }
}

/// Whether a text is among those given.
pub(crate) fn is_listed(s: &Vec<String>, text: &String) -> (res: bool)
    ensures
        res == listed(s@, text@),
{
    let mut i: usize = 0;
    while i < s.len()
        invariant
            i <= s@.len(),
            forall|j: int| 0 <= j < i ==> (#[trigger] s@[j])@ != text@,
        decreases s@.len() - i,
    {
        if s[i] == *text {
            return true;
        }
        i = i + 1;
    }
    false
}

/// No two of the texts without repetitions are the same.
pub proof fn lemma_unique_apart(s: Seq<String>, i: int, j: int)
    requires
        0 <= i < j < unique(s).len(),
    ensures
        unique(s)[i]@ != unique(s)[j]@,
    decreases s.len(),
{
    let before = unique(s.drop_last());
    if j < before.len() {
        lemma_unique_apart(s.drop_last(), i, j);
    } else {
        assert(before[i]@ == unique(s)[i]@);
    }
}

/// Every text is among those without repetitions.
pub proof fn lemma_unique_complete(s: Seq<String>, i: int)
    requires
        0 <= i < s.len(),
    ensures
        listed(unique(s), s[i]@),
    decreases s.len(),
{
    let before = unique(s.drop_last());
    if i < s.len() - 1 {
        lemma_unique_complete(s.drop_last(), i);
        let k = choose|k: int| 0 <= k < before.len() && (#[trigger] before[k])@ == s[i]@;
        assert(unique(s)[k]@ == s[i]@);
    } else if !listed(before, s.last()@) {
        assert(unique(s)[before.len() as int]@ == s[i]@);
    }
}

/// A copy of a text, where there is one.
pub fn copy_option(s: &Option<String>) -> (res: Option<String>)
    ensures
        res == *s,
{
    match s {
        Some(t) => Some(t.clone()),
        None => None,
    }
}

/// The value of a digit below sixteen.
pub open spec fn digit_worth(c: char) -> nat {
    if is_digit(c) {
        digit_value(c)
    } else {
        (c as int - 'a' as int + 10) as nat
    }
}

/// The number that digits write in a base, the most significant first.
pub open spec fn worth(s: Seq<char>, base: nat) -> nat
    decreases s.len(),
{
    if s.len() == 0 {
        0
    } else {
        worth(s.drop_last(), base) * base + digit_worth(s.last())
    }
}

/// Digits write the number that they stand for, each of them below the base, with no
/// zero in front of a number but zero itself.
pub proof fn digits_write_their_number(n: nat, base: nat)
    requires
        2 <= base <= 16,
    ensures
        digits(n, base).len() > 0,
        worth(digits(n, base), base) == n,
        forall|i: int|
            0 <= i < digits(n, base).len() ==> digit_worth(#[trigger] digits(n, base)[i]) < base
                && (is_digit(digits(n, base)[i]) || 'a' <= digits(n, base)[i] <= 'f'),
        n > 0 ==> digits(n, base)[0] != '0',
    decreases n,
{
    let s = digits(n, base);
    let empty = Seq::<char>::empty();
    if n < base {
        assert(s =~= seq![digit(n as int)]);
        assert(s.drop_last() =~= empty);
        assert(worth(empty, base) == 0);
        assert(worth(s, base) == digit_worth(digit(n as int)));
    } else {
        lemma_quotient_smaller(n, base);
        vstd::arithmetic::div_mod::lemma_fundamental_div_mod(n as int, base as int);
        vstd::arithmetic::div_mod::lemma_mod_bound(n as int, base as int);
        assert(n / base > 0) by (nonlinear_arith)
            requires
                2 <= base <= n,
        ;
        digits_write_their_number(n / base, base);
        let rest = digits(n / base, base);
        assert(s == rest.push(digit((n % base) as int)));
        assert(s.drop_last() =~= rest);
        assert(base * (n / base) == (n / base) * base) by (nonlinear_arith);
        assert forall|i: int| 0 <= i < s.len() implies digit_worth(#[trigger] s[i]) < base && (
        is_digit(s[i]) || 'a' <= s[i] <= 'f') by {
            if i < rest.len() {
                assert(s[i] == rest[i]);
            }
        }
        assert(s[0] == rest[0]);
    }
}

/// A number with a sign is written as its amount, behind a minus sign where it is
/// negative.
pub proof fn signs_stand_in_front(n: int)
    ensures
        n >= 0 ==> signed_decimal(n) == decimal(n as nat) && number(signed_decimal(n)) == n,
        n < 0 ==> signed_decimal(n) == "-"@ + decimal((-n) as nat) && number(
            decimal((-n) as nat),
        ) == -n,
{
    if n >= 0 {
        lemma_decimal_digits(n as nat);
    } else {
        lemma_decimal_digits((-n) as nat);
    }
}

/// Filling with zeros keeps the digits at the end and puts nothing but zeros in front,
/// as many as the width asks for.
pub proof fn filling_puts_zeros_in_front(d: Seq<char>, width: nat, i: int)
    requires
        0 <= i < zero_filled(d, width).len(),
    ensures
        zero_filled(d, width).len() == vstd::math::max(d.len() as int, width as int),
        ({
            let front = zero_filled(d, width).len() - d.len();
            &&& i < front ==> zero_filled(d, width)[i] == '0'
            &&& front <= i ==> zero_filled(d, width)[i] == d[i - front]
        }),
{
}

proof fn lemma_without_zeros(s: Seq<char>)
    ensures
        without_trailing_zeros(s).len() <= s.len(),
        s.take(without_trailing_zeros(s).len() as int) == without_trailing_zeros(s),
        forall|i: int| without_trailing_zeros(s).len() <= i < s.len() ==> #[trigger] s[i] == '0',
        without_trailing_zeros(s).len() > 0 ==> without_trailing_zeros(s).last() != '0',
    decreases s.len(),
{
    if s.len() > 0 && s.last() == '0' {
        let rest = s.drop_last();
        lemma_without_zeros(rest);
        let w = without_trailing_zeros(s);
        assert(s.take(w.len() as int) =~= rest.take(w.len() as int));
        assert forall|i: int| w.len() <= i < s.len() implies #[trigger] s[i] == '0' by {
            if i < rest.len() {
                assert(rest[i] == s[i]);
            }
        }
    } else {
        assert(s.take(s.len() as int) =~= s);
    }
}

/// An amount in billionths is written as its whole part, and where there is more behind
/// a point as the nine digits of the rest, up to the last that is not zero.
pub proof fn amounts_are_written_in_full(n: nat)
    ensures
        n % 1_000_000_000 == 0 ==> billionths(n) == decimal(n / 1_000_000_000),
        n % 1_000_000_000 != 0 ==> exists|fraction: Seq<char>|
            {
                &&& billionths(n) == decimal(n / 1_000_000_000) + "."@ + fraction
                &&& 1 <= fraction.len() <= 9
                &&& fraction.last() != '0'
                &&& padded(n % 1_000_000_000, 9) == fraction + #[trigger] zeros(
                    (9 - fraction.len()) as nat,
                )
            },
{
    let part = (n % 1_000_000_000) as nat;
    if part != 0 {
        let full = padded(part, 9);
        let fraction = without_trailing_zeros(full);
        lemma_decimal_digits(part);
        digits_write_their_number(part, 10);
        lemma_nine_digits(part);
        assert(full.len() == 9);
        lemma_without_zeros(full);
        let front = 9 - decimal(part).len();
        assert(full[front] == decimal(part)[0]);
        assert(fraction.len() > front);
        assert(full =~= fraction + zeros((9 - fraction.len()) as nat)) by {
            assert forall|i: int| 0 <= i < 9 implies full[i] == (fraction + zeros(
                (9 - fraction.len()) as nat,
            ))[i] by {
                if i < fraction.len() {
                    assert(full.take(fraction.len() as int)[i] == full[i]);
                }
            }
        }
    }
}

/// A number below ten, a hundred and so on has no more digits than that has zeros.
proof fn lemma_nine_digits(n: nat)
    requires
        n < 1_000_000_000,
    ensures
        decimal(n).len() <= 9,
{
    reveal_with_fuel(digits, 10);
}

proof fn lemma_trim_start(s: Seq<char>)
    ensures
        exists|k: int|
            {
                &&& 0 <= k <= s.len()
                &&& #[trigger] s.skip(k) == trim_start(s)
                &&& forall|i: int| 0 <= i < k ==> is_space(#[trigger] s[i])
            },
        trim_start(s).len() > 0 ==> !is_space(trim_start(s)[0]),
    decreases s.len(),
{
    if s.len() > 0 && is_space(s[0]) {
        let rest = s.subrange(1, s.len() as int);
        lemma_trim_start(rest);
        let k = choose|k: int|
            {
                &&& 0 <= k <= rest.len()
                &&& #[trigger] rest.skip(k) == trim_start(rest)
                &&& forall|i: int| 0 <= i < k ==> is_space(#[trigger] rest[i])
            };
        assert(s.skip(k + 1) =~= rest.skip(k));
        assert forall|i: int| 0 <= i < k + 1 implies is_space(#[trigger] s[i]) by {
            if i > 0 {
                assert(rest[i - 1] == s[i]);
            }
        }
    } else {
        assert(s.skip(0) =~= s);
    }
}

proof fn lemma_trim_end(s: Seq<char>)
    ensures
        exists|k: int|
            {
                &&& 0 <= k <= s.len()
                &&& #[trigger] s.take(k) == trim_end(s)
                &&& forall|i: int| k <= i < s.len() ==> is_space(#[trigger] s[i])
            },
        trim_end(s).len() > 0 ==> !is_space(trim_end(s).last()),
        trim_end(s).len() > 0 ==> trim_end(s)[0] == s[0],
    decreases s.len(),
{
    if s.len() > 0 && is_space(s.last()) {
        let rest = s.drop_last();
        lemma_trim_end(rest);
        let k = choose|k: int|
            {
                &&& 0 <= k <= rest.len()
                &&& #[trigger] rest.take(k) == trim_end(rest)
                &&& forall|i: int| k <= i < rest.len() ==> is_space(#[trigger] rest[i])
            };
        assert(s.take(k) =~= rest.take(k));
        assert forall|i: int| k <= i < s.len() implies is_space(#[trigger] s[i]) by {
            if i < rest.len() {
                assert(rest[i] == s[i]);
            }
        }
    } else {
        assert(s.take(s.len() as int) =~= s);
    }
}

/// Trimming takes white space off both ends and nothing else, and leaves none there.
pub proof fn trimming_takes_space_off_both_ends(s: Seq<char>)
    ensures
        exists|from: int, to: int|
            {
                &&& 0 <= from <= to <= s.len()
                &&& trim(s) == #[trigger] s.subrange(from, to)
                &&& forall|i: int| 0 <= i < from ==> is_space(#[trigger] s[i])
                &&& forall|i: int| to <= i < s.len() ==> is_space(#[trigger] s[i])
            },
        trim(s).len() > 0 ==> !is_space(trim(s)[0]) && !is_space(trim(s).last()),
{
    lemma_trim_start(s);
    let t = trim_start(s);
    lemma_trim_end(t);
    let k = choose|k: int|
        {
            &&& 0 <= k <= s.len()
            &&& #[trigger] s.skip(k) == t
            &&& forall|i: int| 0 <= i < k ==> is_space(#[trigger] s[i])
        };
    let m = choose|m: int|
        {
            &&& 0 <= m <= t.len()
            &&& #[trigger] t.take(m) == trim_end(t)
            &&& forall|i: int| m <= i < t.len() ==> is_space(#[trigger] t[i])
        };
    assert(trim(s) =~= s.subrange(k, k + m));
    assert forall|i: int| k + m <= i < s.len() implies is_space(#[trigger] s[i]) by {
        assert(s.skip(k)[i - k] == s[i]);
        assert(is_space(t[i - k]));
    }
}

/// Every character of ASCII that shows is no white space; the blank, the tabulator and
/// the ends of lines are.
pub proof fn space_does_not_show(c: char)
    ensures
        '!' <= c <= '~' ==> !is_space(c),
        c == ' ' || c == '\t' || c == '\n' || c == '\r' ==> is_space(c),
{
}

proof fn lemma_line_feed(s: Seq<char>, from: int)
    requires
        0 <= from <= s.len(),
    ensures
        from <= line_feed_from(s, from) <= s.len(),
        line_feed_from(s, from) < s.len() ==> s[line_feed_from(s, from)] == '\n',
        forall|i: int| from <= i < line_feed_from(s, from) ==> #[trigger] s[i] != '\n',
    decreases s.len() - from,
{
    if from < s.len() && s[from] != '\n' {
        lemma_line_feed(s, from + 1);
    }
}

proof fn lemma_lines_shift(s: Seq<char>, from: int, at: int)
    requires
        0 <= at <= from <= s.len(),
    ensures
        lines_from(s, from) == lines_from(s.skip(at), from - at),
    decreases s.len() - from,
{
    let t = s.skip(at);
    if from < s.len() {
        lemma_line_feed(s, from);
        lemma_line_feed(t, from - at);
        let end = line_feed_from(s, from);
        let e = line_feed_from(t, from - at);
        assert(e == end - at) by {
            if e < end - at {
                assert(t[e] == s[e + at]);
            }
            if end - at < e {
                assert(t[end - at] == s[end]);
            }
        }
        if end < s.len() {
            assert(t.subrange(from - at, e) =~= s.subrange(from, end));
            lemma_lines_shift(s, end + 1, at);
        } else {
            assert(t.subrange(from - at, t.len() as int) =~= s.subrange(from, s.len() as int));
        }
    }
}

/// A text without a line feed is one line, where it is not empty; a line with its line
/// feed in front of a text is one line more, without a carriage return at its end.
pub proof fn texts_fall_into_lines(line: Seq<char>, rest: Seq<char>)
    requires
        forall|i: int| 0 <= i < line.len() ==> #[trigger] line[i] != '\n',
    ensures
        lines(Seq::empty()).len() == 0,
        line.len() > 0 ==> lines(line) == seq![line],
        line.len() == 0 || line.last() != '\r' ==> lines(line.push('\n') + rest) == seq![line]
            + lines(rest),
        line.len() > 0 && line.last() == '\r' ==> lines(line.push('\n') + rest)
            == seq![line.drop_last()] + lines(rest),
{
    lemma_line_feed(line, 0);
    if line.len() > 0 {
        assert(line.subrange(0, line.len() as int) =~= line);
    }
    let s = line.push('\n') + rest;
    lemma_line_feed(s, 0);
    let end = line_feed_from(s, 0);
    assert(s[line.len() as int] == '\n');
    assert(end == line.len()) by {
        if end < line.len() {
            assert(s[end] == line[end]);
        }
    }
    assert(s.subrange(0, end) =~= line);
    lemma_lines_shift(s, end + 1, end + 1);
    assert(s.skip(end + 1) =~= rest);
}

/// Parts are joined one after another, with the separator between each two.
pub proof fn parts_are_joined_in_order(a: Seq<Seq<char>>, b: Seq<Seq<char>>, sep: Seq<char>)
    ensures
        a.len() == 0 ==> joined(a, sep) == Seq::<char>::empty(),
        a.len() == 1 ==> joined(a, sep) == a[0],
        a.len() > 0 && b.len() > 0 ==> joined(a + b, sep) == joined(a, sep) + sep + joined(
            b,
            sep,
        ),
    decreases b.len(),
{
    if a.len() > 0 && b.len() > 0 {
        assert((a + b).last() == b.last());
        if b.len() == 1 {
            assert((a + b).drop_last() =~= a);
        } else {
            assert((a + b).drop_last() =~= a + b.drop_last());
            parts_are_joined_in_order(a, b.drop_last(), sep);
            assert(joined(a + b, sep) =~= joined(a, sep) + sep + joined(b, sep));
        }
    }
}

/// A suffix is taken off as often as it stands at the end, and no more.
pub proof fn suffixes_are_taken_off_the_end(s: Seq<char>, p: Seq<char>)
    requires
        p.len() > 0,
    ensures
        !has_suffix(without_suffixes(s, p), p),
        !has_suffix(s, p) ==> without_suffixes(s, p) == s,
        without_suffixes(s + p, p) == without_suffixes(s, p),
    decreases s.len(),
{
    let t = s + p;
    assert(t.subrange(t.len() - p.len(), t.len() as int) =~= p);
    assert(t.subrange(0, t.len() - p.len()) =~= s);
    if has_suffix(s, p) {
        suffixes_are_taken_off_the_end(s.subrange(0, s.len() - p.len()), p);
    }
}

/// What has a prefix is that prefix and a rest, and likewise with a suffix.
pub proof fn prefixes_and_suffixes_stand_at_the_ends(s: Seq<char>, p: Seq<char>)
    ensures
        has_prefix(p + s, p),
        has_suffix(s + p, p),
        has_prefix(s, p) ==> s == p + s.skip(p.len() as int),
        has_suffix(s, p) ==> s == s.take(s.len() - p.len()) + p,
{
    assert((p + s).subrange(0, p.len() as int) =~= p);
    assert((s + p).subrange((s + p).len() - p.len(), (s + p).len() as int) =~= p);
    if has_prefix(s, p) {
        assert(s.subrange(0, p.len() as int) =~= s.take(p.len() as int));
        assert(s =~= p + s.skip(p.len() as int));
    }
    if has_suffix(s, p) {
        assert(s =~= s.take(s.len() - p.len()) + p) by {
            assert(s.subrange(s.len() - p.len(), s.len() as int) == p);
            assert forall|i: int| 0 <= i < p.len() implies #[trigger] p[i] == s[s.len() - p.len()
                + i] by {
                assert(s.subrange(s.len() - p.len(), s.len() as int)[i] == s[s.len() - p.len() + i]);
            }
        }
    }
}

} // verus!
