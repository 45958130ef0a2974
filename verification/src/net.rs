//! Network addresses as plain values, and how they are written.
use crate::text::{decimal, decimal_text, hex_text, hexadecimal, join, joined, texts};
use vstd::prelude::*;
use vstd::string::*;

verus! {

/// An IP address: the 32 or 128 bits of it, most significant first.
#[derive(Clone, Copy, Debug, PartialEq, Eq, Hash, Structural)]
pub enum IpAddr {
    V4(u32),
    V6(u128),
}

/// An IP address and a port.
#[derive(Clone, Copy, Debug, PartialEq, Eq, Hash, Structural)]
pub struct SocketAddr {
    pub ip: IpAddr,
    pub port: u16,
}

/// The dotted form of a 32-bit address.
pub open spec fn dotted(n: nat) -> Seq<char> {
    decimal(n / 0x100_0000 % 256) + "."@ + decimal(n / 0x1_0000 % 256) + "."@ + decimal(
        n / 0x100 % 256,
    ) + "."@ + decimal(n % 256)
}

/// The eight 16-bit parts of a 128-bit address.
pub open spec fn segments(n: nat) -> Seq<nat> {
    seq![
        n / 0x1_0000_0000_0000_0000_0000_0000_0000 % 0x1_0000,
        n / 0x1_0000_0000_0000_0000_0000_0000 % 0x1_0000,
        n / 0x1_0000_0000_0000_0000_0000 % 0x1_0000,
        n / 0x1_0000_0000_0000_0000 % 0x1_0000,
        n / 0x1_0000_0000_0000 % 0x1_0000,
        n / 0x1_0000_0000 % 0x1_0000,
        n / 0x1_0000 % 0x1_0000,
        n % 0x1_0000,
    ]
}

/// How many parts from `i` on are zero, without a gap.
pub open spec fn zeros_from(parts: Seq<nat>, i: int) -> nat
    decreases parts.len() - i,
{
    if 0 <= i < parts.len() && parts[i] == 0 {
        1 + zeros_from(parts, i + 1)
    } else {
        0
    }
}

/// Whether the longest run of zero parts starts at `i`, the first one where
/// several are equally long.
pub open spec fn is_longest_run(parts: Seq<nat>, i: int) -> bool {
    &&& 0 <= i < parts.len()
    &&& forall|j: int| 0 <= j < parts.len() ==> #[trigger] zeros_from(parts, j) <= zeros_from(parts, i)
    &&& forall|j: int| 0 <= j < i ==> #[trigger] zeros_from(parts, j) < zeros_from(parts, i)
}

/// The parts in hexadecimal, with a colon between each two.
pub open spec fn colons(parts: Seq<nat>) -> Seq<char> {
    joined(Seq::new(parts.len(), |i: int| hexadecimal(parts[i])), ":"@)
}

/// The written form of a 128-bit address, where the longest run of zero parts
/// starts at `run`.
pub open spec fn colon_form(n: nat, run: int) -> Seq<char> {
    let parts = segments(n);
    let len = zeros_from(parts, run);
    if n / 0x1_0000_0000 == 0xFFFF {
        "::ffff:"@ + dotted(n % 0x1_0000_0000)
    } else if len > 1 {
        colons(parts.subrange(0, run)) + "::"@ + colons(
            parts.subrange(run + len, parts.len() as int),
        )
    } else {
        colons(parts)
    }
}

/// Where the longest run of zero parts of an address starts.
pub open spec fn longest_run(n: nat) -> int {
    choose|i: int| is_longest_run(segments(n), i)
}

/// The written form of an address.
pub open spec fn ip_text(ip: IpAddr) -> Seq<char> {
    match ip {
        IpAddr::V4(n) => dotted(n as nat),
        IpAddr::V6(n) => colon_form(n as nat, longest_run(n as nat)),
    }
}

/// The written form of an address and a port.
pub open spec fn addr_text(addr: SocketAddr) -> Seq<char> {
    match addr.ip {
        IpAddr::V4(_) => ip_text(addr.ip) + ":"@ + decimal(addr.port as nat),
        IpAddr::V6(_) => "["@ + ip_text(addr.ip) + "]:"@ + decimal(addr.port as nat),
    }
}

/// The dotted form of a 32-bit address.
fn dotted_text(n: u32) -> (res: String)
    ensures
        res@ == dotted(n as nat),
{
    let mut out = decimal_text((n / 0x100_0000 % 256) as u128);
    out.append(".");
    out.append(decimal_text((n / 0x1_0000 % 256) as u128).as_str());
    out.append(".");
    out.append(decimal_text((n / 0x100 % 256) as u128).as_str());
    out.append(".");
    out.append(decimal_text((n % 256) as u128).as_str());
    out
}

/// The values of the parts.
pub open spec fn part_values(parts: Seq<u128>) -> Seq<nat> {
    Seq::new(parts.len(), |i: int| parts[i] as nat)
}

/// The eight 16-bit parts of a 128-bit address.
fn split_segments(n: u128) -> (res: Vec<u128>)
    ensures
        part_values(res@) == segments(n as nat),
{
    let parts: Vec<u128> = vec![
        n / 0x1_0000_0000_0000_0000_0000_0000_0000 % 0x1_0000,
        n / 0x1_0000_0000_0000_0000_0000_0000 % 0x1_0000,
        n / 0x1_0000_0000_0000_0000_0000 % 0x1_0000,
        n / 0x1_0000_0000_0000_0000 % 0x1_0000,
        n / 0x1_0000_0000_0000 % 0x1_0000,
        n / 0x1_0000_0000 % 0x1_0000,
        n / 0x1_0000 % 0x1_0000,
        n % 0x1_0000,
    ];
    assert(part_values(parts@) =~= segments(n as nat));
    parts
}

/// How many parts from `from` on are zero, without a gap.
fn count_zeros(parts: &Vec<u128>, from: usize) -> (res: usize)
    requires
        from <= parts@.len(),
    ensures
        res == zeros_from(part_values(parts@), from as int),
        from + res <= parts@.len(),
    decreases parts@.len() - from,
{
    if from < parts.len() && parts[from] == 0 {
        1 + count_zeros(parts, from + 1)
    } else {
        0
    }
}

/// The parts from `from` up to `to` in hexadecimal, with a colon between each
/// two.
fn colons_text(parts: &Vec<u128>, from: usize, to: usize) -> (res: String)
    requires
        from <= to <= parts@.len(),
    ensures
        res@ == colons(part_values(parts@).subrange(from as int, to as int)),
{
    let mut words: Vec<String> = Vec::new();
    let mut i: usize = from;
    while i < to
        invariant
            from <= i <= to <= parts@.len(),
            words@.len() == i - from,
            forall|j: int|
                0 <= j < i - from ==> (#[trigger] words@[j])@ == hexadecimal(parts@[from + j] as nat),
        decreases to - i,
    {
        words.push(hex_text(parts[i]));
        i = i + 1;
    }
    let ghost part = part_values(parts@).subrange(from as int, to as int);
    assert(texts(words@) =~= Seq::new(part.len(), |k: int| hexadecimal(part[k])));
    join(&words, ":")
}

proof fn lemma_one_longest_run(parts: Seq<nat>, i: int, j: int)
    requires
        is_longest_run(parts, i),
        is_longest_run(parts, j),
    ensures
        i == j,
{
    if i < j {
        assert(zeros_from(parts, i) < zeros_from(parts, j));
    } else if j < i {
        assert(zeros_from(parts, j) < zeros_from(parts, i));
    }
}

/// The written form of a 128-bit address.
fn colon_text(n: u128) -> (res: String)
    ensures
        res@ == colon_form(n as nat, longest_run(n as nat)),
{
    if n / 0x1_0000_0000 == 0xFFFF {
        let mut out = "::ffff:".to_owned();
        out.append(dotted_text((n % 0x1_0000_0000) as u32).as_str());
        return out;
    }
    let parts = split_segments(n);
    let ghost values = part_values(parts@);
    let mut best: usize = 0;
    let mut best_len: usize = count_zeros(&parts, 0);
    let mut i: usize = 1;
    while i < parts.len()
        invariant
            1 <= i <= parts@.len(),
            values == part_values(parts@),
            best < i,
            best_len == zeros_from(values, best as int),
            best + best_len <= parts@.len(),
            forall|j: int| 0 <= j < i ==> #[trigger] zeros_from(values, j) <= best_len,
            forall|j: int| 0 <= j < best ==> #[trigger] zeros_from(values, j) < best_len,
        decreases parts@.len() - i,
    {
        let len: usize = count_zeros(&parts, i);
        if len > best_len {
            best = i;
            best_len = len;
        }
        i = i + 1;
    }
    proof {
        assert(is_longest_run(values, best as int));
        lemma_one_longest_run(values, best as int, longest_run(n as nat));
    }
    if best_len > 1 {
        let mut out = colons_text(&parts, 0, best);
        out.append("::");
        out.append(colons_text(&parts, best + best_len, parts.len()).as_str());
        out
    } else {
        assert(values.subrange(0, values.len() as int) =~= values);
        colons_text(&parts, 0, parts.len())
    }
}

impl IpAddr {
    /// The written form.
    pub fn to_text(&self) -> (res: String)
        ensures
            res@ == ip_text(*self),
    {
        match *self {
            IpAddr::V4(n) => dotted_text(n),
            IpAddr::V6(n) => colon_text(n),
        }
    }
}

impl SocketAddr {
    /// The written form.
    pub fn to_text(&self) -> (res: String)
        ensures
            res@ == addr_text(*self),
    {
        match self.ip {
            IpAddr::V4(_) => {
                let mut out = self.ip.to_text();
                out.append(":");
                out.append(decimal_text(self.port as u128).as_str());
                out
            },
            IpAddr::V6(_) => {
                let mut out = "[".to_owned();
                out.append(self.ip.to_text().as_str());
                out.append("]:");
                out.append(decimal_text(self.port as u128).as_str());
                out
            },
        }
    }
}

/// An address of thirty-two bits is written as its four bytes, the most significant
/// first, with a point between each two.
pub proof fn short_addresses_are_written_by_bytes(a: nat, b: nat, c: nat, d: nat)
    requires
        a < 256,
        b < 256,
        c < 256,
        d < 256,
    ensures
        dotted(((a * 256 + b) * 256 + c) * 256 + d) == decimal(a) + "."@ + decimal(b) + "."@
            + decimal(c) + "."@ + decimal(d),
{
    lemma_bytes(a, b, c, d);
}

proof fn lemma_bytes(a: nat, b: nat, c: nat, d: nat)
    requires
        a < 256,
        b < 256,
        c < 256,
        d < 256,
    ensures
        ({
            let n = ((a * 256 + b) * 256 + c) * 256 + d;
            &&& n / 0x100_0000 % 256 == a
            &&& n / 0x1_0000 % 256 == b
            &&& n / 0x100 % 256 == c
            &&& n % 256 == d
        }),
{
    let n = ((a * 256 + b) * 256 + c) * 256 + d;
    assert(n / 0x100 == (a * 256 + b) * 256 + c);
    assert(n / 0x1_0000 == a * 256 + b);
    assert(n / 0x100_0000 == a);
}

/// The parts of an address of a hundred and twenty-eight bits make it up again, the
/// most significant first.
pub proof fn parts_make_up_their_address(n: u128)
    ensures
        segments(n as nat).len() == 8,
        ({
            let p = segments(n as nat);
            n == ((((((p[0] * 0x1_0000 + p[1]) * 0x1_0000 + p[2]) * 0x1_0000 + p[3]) * 0x1_0000
                + p[4]) * 0x1_0000 + p[5]) * 0x1_0000 + p[6]) * 0x1_0000 + p[7]
        }),
        forall|i: int| 0 <= i < 8 ==> 0 <= #[trigger] segments(n as nat)[i] < 0x1_0000,
{
    let m = n as int;
    let a = m / 0x1_0000;
    let b = a / 0x1_0000;
    let c = b / 0x1_0000;
    let d = c / 0x1_0000;
    let e = d / 0x1_0000;
    let f = e / 0x1_0000;
    let g = f / 0x1_0000;
    vstd::arithmetic::div_mod::lemma_div_denominator(m, 0x1_0000, 0x1_0000);
    assert(b == m / 0x1_0000_0000);
    vstd::arithmetic::div_mod::lemma_div_denominator(m, 0x1_0000_0000, 0x1_0000);
    assert(c == m / 0x1_0000_0000_0000);
    vstd::arithmetic::div_mod::lemma_div_denominator(m, 0x1_0000_0000_0000, 0x1_0000);
    assert(d == m / 0x1_0000_0000_0000_0000);
    vstd::arithmetic::div_mod::lemma_div_denominator(m, 0x1_0000_0000_0000_0000, 0x1_0000);
    assert(e == m / 0x1_0000_0000_0000_0000_0000);
    vstd::arithmetic::div_mod::lemma_div_denominator(m, 0x1_0000_0000_0000_0000_0000, 0x1_0000);
    assert(f == m / 0x1_0000_0000_0000_0000_0000_0000);
    vstd::arithmetic::div_mod::lemma_div_denominator(
        m,
        0x1_0000_0000_0000_0000_0000_0000,
        0x1_0000,
    );
    assert(g == m / 0x1_0000_0000_0000_0000_0000_0000_0000);
    lemma_less_than(m);
    assert(g < 0x1_0000);
    let p = segments(n as nat);
    assert(p[0] == g);
    assert(f == p[0] * 0x1_0000 + p[1]);
    assert(e == f * 0x1_0000 + p[2]);
    assert(d == e * 0x1_0000 + p[3]);
    assert(c == d * 0x1_0000 + p[4]);
    assert(b == c * 0x1_0000 + p[5]);
    assert(a == b * 0x1_0000 + p[6]);
    assert(m == a * 0x1_0000 + p[7]);
}

proof fn lemma_less_than(m: int)
    requires
        0 <= m <= u128::MAX,
    ensures
        0 <= m / 0x1_0000_0000_0000_0000_0000_0000_0000 < 0x1_0000,
{
}

/// An address and a port are written with a colon between them, and a long address
/// stands in brackets.
pub proof fn ports_are_written_behind_addresses(ip: IpAddr, port: u16)
    ensures
        ip is V4 ==> addr_text(SocketAddr { ip, port }) == ip_text(ip) + ":"@ + decimal(
            port as nat,
        ),
        ip is V6 ==> addr_text(SocketAddr { ip, port }) == "["@ + ip_text(ip) + "]:"@ + decimal(
            port as nat,
        ),
        ip matches IpAddr::V4(n) ==> ip_text(ip) == dotted(n as nat),
{
}

} // verus!
