use vstd::prelude::*;

verus! {

/// How byte counts are shown.
#[derive(Debug, Clone, Copy, PartialEq, Eq, Structural)]
pub enum SizeFormat {
    /// Raw bytes.
    Machine,
    /// Human-readable, in powers of 1024 (K, M, G, T, P).
    Human,
    /// Human-readable, in powers of 1000 (k, m, g, t, p).
    HumanSI,
}

/// The units of the two human-readable ladders.
#[allow(non_camel_case_types)]
#[derive(Debug, Clone, Copy, PartialEq, Eq, Structural)]
pub enum SizeUnit {
    K,
    M,
    G,
    T,
    P,
    k,
    m,
    g,
    t,
    p,
}

/// The character of a decimal digit.
pub open spec fn digit_char(d: nat) -> char {
    if d == 0 {
        '0'
    } else if d == 1 {
        '1'
    } else if d == 2 {
        '2'
    } else if d == 3 {
        '3'
    } else if d == 4 {
        '4'
    } else if d == 5 {
        '5'
    } else if d == 6 {
        '6'
    } else if d == 7 {
        '7'
    } else if d == 8 {
        '8'
    } else {
        '9'
    }
}

/// The decimal notation of `n`, without leading zeros.
pub open spec fn decimal(n: nat) -> Seq<char>
    decreases n,
{
    if n < 10 {
        seq![digit_char(n)]
    } else {
        decimal(n / 10).push(digit_char(n % 10))
    }
}

/// The smallest integer not below `a / d`.
pub open spec fn ceil_div(a: nat, d: nat) -> nat {
    if a % d == 0 {
        a / d
    } else {
        a / d + 1
    }
}

/// A byte count scaled to `unit`, in tenths, rounded up: to a tenth below ten
/// units, to a whole unit from ten units on.
pub open spec fn scaled_tenths(len: nat, unit: nat) -> nat {
    if len < 10 * unit {
        ceil_div(10 * len, unit)
    } else {
        10 * ceil_div(len, unit)
    }
}

/// An amount given in tenths, with one fractional digit or none.
pub open spec fn tenths_text(t: nat, fraction: bool) -> Seq<char> {
    if fraction {
        decimal(t / 10) + seq!['.'] + decimal(t % 10)
    } else {
        decimal(t / 10)
    }
}

/// The number shown for `len` bytes counted in `unit`.
pub open spec fn scaled_text(len: nat, unit: nat) -> Seq<char> {
    tenths_text(scaled_tenths(len, unit), len < 10 * unit)
}

/// The bytes in the unit of rank `level` (1 to 5) of a human-readable ladder.
pub open spec fn unit_size(format: SizeFormat, level: nat) -> nat {
    if format == SizeFormat::HumanSI {
        if level == 1 {
            1000
        } else if level == 2 {
            1000_000
        } else if level == 3 {
            1000_000_000
        } else if level == 4 {
            1000_000_000_000
        } else {
            1000_000_000_000_000
        }
    } else {
        if level == 1 {
            1024
        } else if level == 2 {
            1048576
        } else if level == 3 {
            1073741824
        } else if level == 4 {
            1099511627776
        } else {
            1125899906842624
        }
    }
}

/// The label of the unit of rank `level` of a human-readable ladder.
pub open spec fn unit_label(format: SizeFormat, level: nat) -> char {
    if format == SizeFormat::HumanSI {
        if level == 1 {
            'k'
        } else if level == 2 {
            'm'
        } else if level == 3 {
            'g'
        } else if level == 4 {
            't'
        } else {
            'p'
        }
    } else {
        if level == 1 {
            'K'
        } else if level == 2 {
            'M'
        } else if level == 3 {
            'G'
        } else if level == 4 {
            'T'
        } else {
            'P'
        }
    }
}

/// The rank of the unit that `len` bytes are shown in: 0 for plain bytes,
/// else that of the largest unit not above `len`.
pub open spec fn size_level(len: nat, format: SizeFormat) -> nat {
    if format == SizeFormat::Machine || len < unit_size(format, 1) {
        0
    } else if len < unit_size(format, 2) {
        1
    } else if len < unit_size(format, 3) {
        2
    } else if len < unit_size(format, 4) {
        3
    } else if len < unit_size(format, 5) {
        4
    } else {
        5
    }
}

/// The amount shown for `len` bytes, in tenths of its unit.
pub open spec fn size_tenths(len: nat, format: SizeFormat) -> nat {
    let level = size_level(len, format);
    if level == 0 {
        10 * len
    } else {
        scaled_tenths(len, unit_size(format, level))
    }
}

/// The text shown for `len` bytes.
pub open spec fn size_text(len: nat, format: SizeFormat) -> Seq<char> {
    let level = size_level(len, format);
    if level == 0 {
        decimal(len)
    } else {
        let unit = unit_size(format, level);
        tenths_text(size_tenths(len, format), len < 10 * unit).push(unit_label(format, level))
    }
}

impl SizeUnit {
    pub open spec fn spec_bytes(self) -> nat {
        match self {
            SizeUnit::K => unit_size(SizeFormat::Human, 1),
            SizeUnit::M => unit_size(SizeFormat::Human, 2),
            SizeUnit::G => unit_size(SizeFormat::Human, 3),
            SizeUnit::T => unit_size(SizeFormat::Human, 4),
            SizeUnit::P => unit_size(SizeFormat::Human, 5),
            SizeUnit::k => unit_size(SizeFormat::HumanSI, 1),
            SizeUnit::m => unit_size(SizeFormat::HumanSI, 2),
            SizeUnit::g => unit_size(SizeFormat::HumanSI, 3),
            SizeUnit::t => unit_size(SizeFormat::HumanSI, 4),
            SizeUnit::p => unit_size(SizeFormat::HumanSI, 5),
        }
    }

    /// The number of bytes in this unit.
    pub fn bytes(&self) -> (r: u64)
        ensures
            r == self.spec_bytes(),
            1000 <= r <= 1125899906842624,
    {
        match self {
            SizeUnit::K => 1024,
            SizeUnit::M => 1048576,
            SizeUnit::G => 1073741824,
            SizeUnit::T => 1099511627776,
            SizeUnit::P => 1125899906842624,
            SizeUnit::k => 1000,
            SizeUnit::m => 1000_000,
            SizeUnit::g => 1000_000_000,
            SizeUnit::t => 1000_000_000_000,
            SizeUnit::p => 1000_000_000_000_000,
        }
    }
}

/// The text of one decimal digit.
fn digit_str(d: u64) -> (r: &'static str)
    requires
        d < 10,
    ensures
        r@ == seq![digit_char(d as nat)],
{
    proof {
        reveal_strlit("0");
        reveal_strlit("1");
        reveal_strlit("2");
        reveal_strlit("3");
        reveal_strlit("4");
        reveal_strlit("5");
        reveal_strlit("6");
        reveal_strlit("7");
        reveal_strlit("8");
        reveal_strlit("9");
    }
    if d == 0 {
        "0"
    } else if d == 1 {
        "1"
    } else if d == 2 {
        "2"
    } else if d == 3 {
        "3"
    } else if d == 4 {
        "4"
    } else if d == 5 {
        "5"
    } else if d == 6 {
        "6"
    } else if d == 7 {
        "7"
    } else if d == 8 {
        "8"
    } else {
        "9"
    }
}

/// The decimal notation of `n`.
pub fn decimal_string(n: u64) -> (r: String)
    ensures
        r@ == decimal(n as nat),
    decreases n,
{
    if n < 10 {
        String::from_str(digit_str(n))
    } else {
        let mut s = decimal_string(n / 10);
        s.append(digit_str(n % 10));
        assert(s@ =~= decimal(n as nat));
        s
    }
}


proof fn lemma_ceil_div_bounds(a: nat, d: nat)
    requires
        d > 0,
    ensures
        ceil_div(a, d) <= a,
        a / d <= a,
        a < 100 * d ==> ceil_div(a, d) <= 100,
{
    assert(a / d <= a) by (nonlinear_arith)
        requires
            d > 0,
    ;
    if a % d != 0 {
        assert(a / d < a) by (nonlinear_arith)
            requires
                d > 0,
                a % d != 0,
        ;
    }
    if a < 100 * d {
        assert(a / d < 100) by (nonlinear_arith)
            requires
                d > 0,
                a < 100 * d,
        ;
    }
}

/// The number shown for `len` bytes counted in `unit`, followed by `label`.
fn human_size_string_for(len: u64, unit: SizeUnit, label: &str) -> (r: String)
    ensures
        r@ == scaled_text(len as nat, unit.spec_bytes()) + label@,
{
    let u = unit.bytes();
    let mut s;
    if len < 10 * u {
        let a = 10 * len;
        proof {
            lemma_ceil_div_bounds(a as nat, u as nat);
        }
        let t: u64 = if a % u == 0 {
            a / u
        } else {
            a / u + 1
        };
        s = decimal_string(t / 10);
        proof {
            reveal_strlit(".");
        }
        s.append(".");
        let frac = decimal_string(t % 10);
        s.append(frac.as_str());
    } else {
        proof {
            lemma_ceil_div_bounds(len as nat, u as nat);
        }
        let c: u64 = if len % u == 0 {
            len / u
        } else {
            len / u + 1
        };
        assert((10 * c) / 10 == c);
        s = decimal_string(c);
    }
    s.append(label);
    s
}

/// The human-readable text of a byte count, in powers of 1024.
pub fn humanize(len: u64) -> (r: String)
    ensures
        r@ == size_text(len as nat, SizeFormat::Human),
{
    proof {
        reveal_strlit("K");
        reveal_strlit("M");
        reveal_strlit("G");
        reveal_strlit("T");
        reveal_strlit("P");
    }
    if len < SizeUnit::K.bytes() {
        decimal_string(len)
    } else if len < SizeUnit::M.bytes() {
        let r = human_size_string_for(len, SizeUnit::K, "K");
        assert(r@ =~= size_text(len as nat, SizeFormat::Human));
        r
    } else if len < SizeUnit::G.bytes() {
        let r = human_size_string_for(len, SizeUnit::M, "M");
        assert(r@ =~= size_text(len as nat, SizeFormat::Human));
        r
    } else if len < SizeUnit::T.bytes() {
        let r = human_size_string_for(len, SizeUnit::G, "G");
        assert(r@ =~= size_text(len as nat, SizeFormat::Human));
        r
    } else if len < SizeUnit::P.bytes() {
        let r = human_size_string_for(len, SizeUnit::T, "T");
        assert(r@ =~= size_text(len as nat, SizeFormat::Human));
        r
    } else {
        let r = human_size_string_for(len, SizeUnit::P, "P");
        assert(r@ =~= size_text(len as nat, SizeFormat::Human));
        r
    }
}

/// The human-readable text of a byte count, in powers of 1000.
pub fn humanize_si(len: u64) -> (r: String)
    ensures
        r@ == size_text(len as nat, SizeFormat::HumanSI),
{
    proof {
        reveal_strlit("k");
        reveal_strlit("m");
        reveal_strlit("g");
        reveal_strlit("t");
        reveal_strlit("p");
    }
    if len < SizeUnit::k.bytes() {
        decimal_string(len)
    } else if len < SizeUnit::m.bytes() {
        let r = human_size_string_for(len, SizeUnit::k, "k");
        assert(r@ =~= size_text(len as nat, SizeFormat::HumanSI));
        r
    } else if len < SizeUnit::g.bytes() {
        let r = human_size_string_for(len, SizeUnit::m, "m");
        assert(r@ =~= size_text(len as nat, SizeFormat::HumanSI));
        r
    } else if len < SizeUnit::t.bytes() {
        let r = human_size_string_for(len, SizeUnit::g, "g");
        assert(r@ =~= size_text(len as nat, SizeFormat::HumanSI));
        r
    } else if len < SizeUnit::p.bytes() {
        let r = human_size_string_for(len, SizeUnit::t, "t");
        assert(r@ =~= size_text(len as nat, SizeFormat::HumanSI));
        r
    } else {
        let r = human_size_string_for(len, SizeUnit::p, "p");
        assert(r@ =~= size_text(len as nat, SizeFormat::HumanSI));
        r
    }
}

/// The text of a byte count in the given format.
pub fn size_string(len: u64, format: SizeFormat) -> (r: String)
    ensures
        r@ == size_text(len as nat, format),
{
    match format {
        SizeFormat::Machine => decimal_string(len),
        SizeFormat::Human => humanize(len),
        SizeFormat::HumanSI => humanize_si(len),
    }
}


proof fn lemma_ceil_div_monotonic(a: nat, b: nat, d: nat)
    requires
        a <= b,
        d > 0,
    ensures
        ceil_div(a, d) <= ceil_div(b, d),
{
    vstd::arithmetic::div_mod::lemma_div_is_ordered(a as int, b as int, d as int);
    vstd::arithmetic::div_mod::lemma_fundamental_div_mod(a as int, d as int);
    vstd::arithmetic::div_mod::lemma_fundamental_div_mod(b as int, d as int);
}

/// Below ten units the shown amount is at most ten units; from ten units on it
/// is at least ten.
proof fn lemma_scaled_tenths_threshold(a: nat, b: nat, u: nat)
    requires
        u > 0,
        a < 10 * u,
        10 * u <= b,
    ensures
        scaled_tenths(a, u) <= 100 <= scaled_tenths(b, u),
{
    lemma_ceil_div_monotonic(10 * a, 100 * u, u);
    lemma_ceil_div_monotonic(10 * u, b, u);
    assert((100 * u) % u == 0 && (100 * u) / u == 100) by (nonlinear_arith)
        requires
            u > 0,
    ;
    assert((10 * u) % u == 0 && (10 * u) / u == 10) by (nonlinear_arith)
        requires
            u > 0,
    ;
}

/// The shown size never shrinks as the byte count grows, when sizes are
/// compared first by the rank of their unit and then by the amount shown.
pub proof fn lemma_size_monotonic(a: u64, b: u64, format: SizeFormat)
    requires
        a <= b,
    ensures
        size_level(a as nat, format) < size_level(b as nat, format) || (size_level(a as nat, format)
            == size_level(b as nat, format) && size_tenths(a as nat, format) <= size_tenths(
            b as nat,
            format,
        )),
{
    let la = size_level(a as nat, format);
    let lb = size_level(b as nat, format);
    if la == lb && la > 0 {
        let u = unit_size(format, la);
        if b < 10 * u {
            lemma_ceil_div_monotonic(10 * a as nat, 10 * b as nat, u);
        } else if a >= 10 * u {
            lemma_ceil_div_monotonic(a as nat, b as nat, u);
        } else {
            lemma_scaled_tenths_threshold(a as nat, b as nat, u);
        }
    }
}

} // verus!
