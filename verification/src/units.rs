//! Byte amounts and spans in the forms that people write.
use crate::text::{chars_of, digit_value, is_digit, is_space, space};
use crate::time::Duration;
use vstd::prelude::*;
use vstd::string::*;

verus! {

/// Bytes in the given number of gibibytes.
///
/// Calls `bytesize::ByteSize::gib`, which multiplies by 1 073 741 824. Amounts
/// whose product does not fit in 64 bits are left out.
#[verifier::external_body]
pub(crate) fn gib(n: u64) -> (res: u64)
    requires
        n * 1_073_741_824 <= u64::MAX,
    ensures
        res == n * 1_073_741_824,
{
    bytesize::ByteSize::gib(n).as_u64()
}

/// Bytes in the given number of kibibytes.
///
/// Calls `bytesize::ByteSize::kib`, which multiplies by 1 024. Amounts whose
/// product does not fit in 64 bits are left out.
#[verifier::external_body]
pub(crate) fn kib(n: u64) -> (res: u64)
    requires
        n * 1_024 <= u64::MAX,
    ensures
        res == n * 1_024,
{
    bytesize::ByteSize::kib(n).as_u64()
}

/// What `bytesize` reads a text as: the number of bytes, or the words of the
/// error.
pub uninterp spec fn byte_size_of(text: Seq<char>) -> Result<u64, Seq<char>>;

/// Reads an amount of bytes, such as `256MiB`.
///
/// Calls `bytesize::ByteSize::from_str`. What it gives depends on the text
/// alone, and goes by the name `byte_size_of`.
#[verifier::external_body]
pub(crate) fn parse_byte_size(text: &String) -> (res: Result<u64, String>)
    ensures
        match res {
            Ok(n) => byte_size_of(text@) == Ok::<u64, Seq<char>>(n),
            Err(e) => byte_size_of(text@) == Err::<u64, Seq<char>>(e@),
        },
{
    text.parse::<bytesize::ByteSize>().map(|size| size.as_u64())
}

/// What `humantime` reads a text as: the span in nanoseconds, or the words of
/// the error.
pub uninterp spec fn duration_of(text: Seq<char>) -> Result<Duration, Seq<char>>;

/// Nanoseconds that are too many: their seconds do not fit in 64 bits.
pub const SPAN_LIMIT: u128 = 18_446_744_073_709_551_616_000_000_000;

/// What can be told of a span of time from what has been seen of it.
#[derive(Clone, Copy, Debug, PartialEq, Eq, Structural)]
pub enum SpanVerdict {
    /// It is below the limit so far.
    Fits,
    /// It is refused: a unit is not known, a number does not fit in 64 bits,
    /// or the span goes beyond the limit.
    Refused,
    /// It comes to the limit exactly, or may do so with a fraction.
    Doubtful,
}

/// How much has been seen of a unit that begins with `m`: there are several.
#[derive(Clone, Copy, Debug, PartialEq, Eq, Structural)]
pub enum UnitStart {
    Unseen,
    M,
    Mi,
}

/// What has been seen of a span of time: how many nanoseconds the numbers with
/// their units make at least and at most, the number in turn, whether there is
/// one whose unit has not been seen, whether its fraction has begun, and how
/// its unit begins.
#[derive(Clone, Copy, Debug, PartialEq, Eq, Structural)]
pub struct SpanScan {
    pub least: u128,
    pub most: u128,
    pub current: u128,
    pub number: bool,
    pub fraction: bool,
    pub unit: UnitStart,
    pub verdict: SpanVerdict,
}

/// Nanoseconds in the unit that begins with a letter other than `m`.
pub open spec fn unit_nanos(letter: char) -> Option<u128> {
    match letter {
        'n' => Some(1),
        'u' => Some(1000),
        '\u{b5}' => Some(1000),
        's' => Some(1_000_000_000),
        'h' => Some(3600_000_000_000),
        'd' => Some(86400_000_000_000),
        'w' => Some(604_800_000_000_000),
        'M' => Some(2_630_016_000_000_000),
        'y' => Some(31_557_600_000_000_000),
        _ => None,
    }
}

impl SpanScan {
    /// Before the first character.
    pub open spec fn start() -> SpanScan {
        SpanScan {
            least: 0,
            most: 0,
            current: 0,
            number: false,
            fraction: false,
            unit: UnitStart::Unseen,
            verdict: SpanVerdict::Fits,
        }
    }

    /// Whether the numbers are as small as the verdict says.
    pub open spec fn wf(self) -> bool {
        self.verdict is Fits ==> {
            &&& self.least <= self.most < SPAN_LIMIT
            &&& self.current <= u64::MAX
        }
    }

    /// The span is refused.
    pub open spec fn refused(self) -> SpanScan {
        SpanScan { verdict: SpanVerdict::Refused, ..self }
    }

    /// How many units there are at most.
    pub open spec fn count(self) -> int {
        if self.fraction {
            self.current + 1
        } else {
            self.current as int
        }
    }

    /// The unit of the number in turn has been seen.
    pub open spec fn closed(self, nanos: int) -> SpanScan {
        let least = self.least + self.current * nanos;
        let most = self.most + self.count() * nanos;
        SpanScan {
            least: least as u128,
            most: most as u128,
            current: 0,
            number: false,
            fraction: false,
            unit: UnitStart::Unseen,
            verdict: if least > SPAN_LIMIT {
                SpanVerdict::Refused
            } else if most >= SPAN_LIMIT {
                SpanVerdict::Doubtful
            } else {
                SpanVerdict::Fits
            },
        }
    }

    /// After a digit. One behind a unit begins a new number.
    pub open spec fn after_digit(self, d: nat) -> SpanScan {
        if self.fraction {
            self
        } else if self.current * 10 + d > u64::MAX {
            self.refused()
        } else {
            SpanScan { current: (self.current * 10 + d) as u128, number: true, ..self }
        }
    }

    /// After a character, where no unit that begins with `m` waits for it.
    /// White space between digits does not end a number; the letters of a
    /// unit behind the first one tell nothing more.
    pub open spec fn after(self, c: char) -> SpanScan {
        if is_digit(c) {
            self.after_digit(digit_value(c))
        } else if is_space(c) || !self.number {
            self
        } else if c == '.' {
            SpanScan { fraction: true, ..self }
        } else if c == 'm' {
            SpanScan { unit: UnitStart::M, ..self }
        } else {
            match unit_nanos(c) {
                Some(nanos) => self.closed(nanos as int),
                None => self.refused(),
            }
        }
    }

    /// After a character behind the `m` of a unit: months, milliseconds,
    /// minutes, or more is needed to tell.
    pub open spec fn after_m(self, c: char) -> SpanScan {
        if c == 'o' {
            self.closed(2_630_016_000_000_000)
        } else if c == 's' {
            self.closed(1_000_000)
        } else if c == 'i' {
            SpanScan { unit: UnitStart::Mi, ..self }
        } else if is_space(c) {
            self.closed(60_000_000_000)
        } else if is_digit(c) {
            let closed = self.closed(60_000_000_000);
            if closed.verdict is Fits {
                closed.after_digit(digit_value(c))
            } else {
                closed
            }
        } else {
            self.refused()
        }
    }

    /// After a character behind the `mi` of a unit: minutes or milliseconds.
    pub open spec fn after_mi(self, c: char) -> SpanScan {
        if c == 'n' {
            self.closed(60_000_000_000)
        } else if c == 'l' {
            self.closed(1_000_000)
        } else {
            self.refused()
        }
    }

    /// After one more character. Once it is known what becomes of the span,
    /// no further character matters.
    pub open spec fn scanned(self, c: char) -> SpanScan {
        if !(self.verdict is Fits) {
            self
        } else {
            match self.unit {
                UnitStart::Unseen => self.after(c),
                UnitStart::M => self.after_m(c),
                UnitStart::Mi => self.after_mi(c),
            }
        }
    }

    /// After the last character.
    pub open spec fn ended(self) -> SpanScan {
        if self.verdict is Fits && self.unit is M {
            self.closed(60_000_000_000)
        } else {
            self
        }
    }
}

/// What is to be seen of a span of time.
pub open spec fn span_scan(text: Seq<char>) -> SpanScan
    decreases text.len(),
{
    if text.len() == 0 {
        SpanScan::start()
    } else {
        span_scan(text.drop_last()).scanned(text.last())
    }
}

/// Whether it is clear that a span of time is below the limit, or that it is
/// refused. Left out are spans that come to the limit exactly, which is more
/// than five hundred thousand million years, and those with a fraction that
/// come to within a unit of it.
pub open spec fn is_readable_span(text: Seq<char>) -> bool {
    !(span_scan(text).ended().verdict is Doubtful)
}

/// Reads a span of time, such as `1h 30m`.
///
/// Calls `humantime::parse_duration`. What it gives depends on the text
/// alone, and goes by the name `duration_of`. Numbers and sums of seconds that
/// do not fit in 64 bits it refuses, but for one sum, on which it may panic:
/// where the seconds add up to the largest 64-bit number and the nanoseconds
/// to exactly a further second. Spans that may come to that are left out.
#[verifier::external_body]
pub(crate) fn parse_duration(text: &String) -> (res: Result<Duration, String>)
    requires
        is_readable_span(text@),
    ensures
        match res {
            Ok(d) => duration_of(text@) == Ok::<Duration, Seq<char>>(d),
            Err(e) => duration_of(text@) == Err::<Duration, Seq<char>>(e@),
        },
{
    match humantime::parse_duration(text) {
        Ok(d) => Ok(Duration { nanos: d.as_nanos() }),
        Err(e) => Err(e.to_string()),
    }
}

fn nanos_of(letter: char) -> (res: Option<u128>)
    ensures
        res == unit_nanos(letter),
        res is Some ==> res->0 <= 31_557_600_000_000_000,
{
    match letter {
        'n' => Some(1),
        'u' => Some(1000),
        '\u{b5}' => Some(1000),
        's' => Some(1_000_000_000),
        'h' => Some(3600_000_000_000),
        'd' => Some(86400_000_000_000),
        'w' => Some(604_800_000_000_000),
        'M' => Some(2_630_016_000_000_000),
        'y' => Some(31_557_600_000_000_000),
        _ => None,
    }
}

impl SpanScan {
    fn refuse(self) -> (res: SpanScan)
        ensures
            res == self.refused(),
            res.wf(),
    {
        SpanScan { verdict: SpanVerdict::Refused, ..self }
    }

    fn close(self, nanos: u128) -> (res: SpanScan)
        requires
            self.wf(),
            self.verdict is Fits,
            nanos <= 31_557_600_000_000_000,
        ensures
            res == self.closed(nanos as int),
            res.wf(),
    {
        let current: u128 = self.current;
        let count: u128 = if self.fraction {
            current + 1
        } else {
            current
        };
        assert(current * nanos <= count * nanos <= 0x1_0000_0000_0000_0000
            * 31_557_600_000_000_000) by (nonlinear_arith)
            requires
                current <= count <= 0x1_0000_0000_0000_0000,
                nanos <= 31_557_600_000_000_000,
        ;
        let least: u128 = self.least + current * nanos;
        let most: u128 = self.most + count * nanos;
        let verdict = if least > SPAN_LIMIT {
            SpanVerdict::Refused
        } else if most >= SPAN_LIMIT {
            SpanVerdict::Doubtful
        } else {
            SpanVerdict::Fits
        };
        SpanScan {
            least,
            most,
            current: 0,
            number: false,
            fraction: false,
            unit: UnitStart::Unseen,
            verdict,
        }
    }

    fn take_digit(self, c: char) -> (res: SpanScan)
        requires
            self.wf(),
            self.verdict is Fits,
            is_digit(c),
        ensures
            res == self.after_digit(digit_value(c)),
            res.wf(),
    {
        if self.fraction {
            return self;
        }
        let current: u128 = self.current * 10 + (c as u32 - '0' as u32) as u128;
        if current > u64::MAX as u128 {
            self.refuse()
        } else {
            SpanScan { current, number: true, ..self }
        }
    }

    fn take(self, c: char) -> (res: SpanScan)
        requires
            self.wf(),
            self.verdict is Fits,
        ensures
            res == self.after(c),
            res.wf(),
    {
        if '0' <= c && c <= '9' {
            self.take_digit(c)
        } else if space(c) || !self.number {
            self
        } else if c == '.' {
            SpanScan { fraction: true, ..self }
        } else if c == 'm' {
            SpanScan { unit: UnitStart::M, ..self }
        } else {
            match nanos_of(c) {
                Some(nanos) => self.close(nanos),
                None => self.refuse(),
            }
        }
    }

    fn take_after_m(self, c: char) -> (res: SpanScan)
        requires
            self.wf(),
            self.verdict is Fits,
        ensures
            res == self.after_m(c),
            res.wf(),
    {
        if c == 'o' {
            self.close(2_630_016_000_000_000)
        } else if c == 's' {
            self.close(1_000_000)
        } else if c == 'i' {
            SpanScan { unit: UnitStart::Mi, ..self }
        } else if space(c) {
            self.close(60_000_000_000)
        } else if '0' <= c && c <= '9' {
            let closed = self.close(60_000_000_000);
            if closed.verdict == SpanVerdict::Fits {
                closed.take_digit(c)
            } else {
                closed
            }
        } else {
            self.refuse()
        }
    }

    fn take_after_mi(self, c: char) -> (res: SpanScan)
        requires
            self.wf(),
            self.verdict is Fits,
        ensures
            res == self.after_mi(c),
            res.wf(),
    {
        if c == 'n' {
            self.close(60_000_000_000)
        } else if c == 'l' {
            self.close(1_000_000)
        } else {
            self.refuse()
        }
    }

    fn scan(self, c: char) -> (res: SpanScan)
        requires
            self.wf(),
        ensures
            res == self.scanned(c),
            res.wf(),
    {
        if self.verdict != SpanVerdict::Fits {
            return self;
        }
        match self.unit {
            UnitStart::Unseen => self.take(c),
            UnitStart::M => self.take_after_m(c),
            UnitStart::Mi => self.take_after_mi(c),
        }
    }

    fn end(self) -> (res: SpanScan)
        requires
            self.wf(),
        ensures
            res == self.ended(),
    {
        if self.verdict == SpanVerdict::Fits && self.unit == UnitStart::M {
            self.close(60_000_000_000)
        } else {
            self
        }
    }
}

/// Whether a span of time can be read: see `is_readable_span`.
pub fn readable_span(text: &String) -> (res: bool)
    ensures
        res == is_readable_span(text@),
{
    let chars = chars_of(text.as_str());
    let mut scan = SpanScan {
        least: 0,
        most: 0,
        current: 0,
        number: false,
        fraction: false,
        unit: UnitStart::Unseen,
        verdict: SpanVerdict::Fits,
    };
    let mut i: usize = 0;
    assert(chars@.take(0) =~= Seq::<char>::empty());
    while i < chars.len()
        invariant
            i <= chars@.len(),
            scan.wf(),
            scan == span_scan(chars@.take(i as int)),
        decreases chars@.len() - i,
    {
        assert(chars@.take(i + 1).drop_last() =~= chars@.take(i as int));
        scan = scan.scan(chars[i]);
        i = i + 1;
    }
    assert(chars@.take(i as int) =~= chars@);
    scan.end().verdict != SpanVerdict::Doubtful
}

/// Units of time are multiples of one another as people count them.
pub proof fn units_are_multiples_of_one_another()
    ensures
        unit_nanos('n') == Some(1u128),
        unit_nanos('u')->0 == 1000 * unit_nanos('n')->0,
        unit_nanos('s')->0 == 1000 * 1000 * unit_nanos('u')->0,
        unit_nanos('h')->0 == 60 * 60 * unit_nanos('s')->0,
        unit_nanos('d')->0 == 24 * unit_nanos('h')->0,
        unit_nanos('w')->0 == 7 * unit_nanos('d')->0,
        4 * unit_nanos('y')->0 == (4 * 365 + 1) * unit_nanos('d')->0,
        100 * unit_nanos('M')->0 == 3044 * unit_nanos('d')->0,
{
}

} // verus!
