//! Text building blocks: digits in a radix, zero padding, and the decimal and
//! two's-complement renderings of machine integers.
use vstd::prelude::*;
use vstd::string::StringExecFns;

verus! {

/// The character for one digit below sixteen.
pub open spec fn digit_char(d: int, upper: bool) -> char {
    if d == 0 {
        '0'
    } else if d == 1 {
        '1'
    } else if d == 2 {
        '2'
    } else if d == 3 {
        '3'
    } else if d == 4 {
        '4'
    } else if d == 5 {
        '5'
    } else if d == 6 {
        '6'
    } else if d == 7 {
        '7'
    } else if d == 8 {
        '8'
    } else if d == 9 {
        '9'
    } else if d == 10 {
        if upper { 'A' } else { 'a' }
    } else if d == 11 {
        if upper { 'B' } else { 'b' }
    } else if d == 12 {
        if upper { 'C' } else { 'c' }
    } else if d == 13 {
        if upper { 'D' } else { 'd' }
    } else if d == 14 {
        if upper { 'E' } else { 'e' }
    } else {
        if upper { 'F' } else { 'f' }
    }
}

/// The digits of `n` in `base`, most significant first, at least one digit.
pub open spec fn digits(n: nat, base: nat, upper: bool) -> Seq<char>
    recommends
        2 <= base <= 16,
    decreases n,
{
    if base < 2 || n < base {
        seq![digit_char(n as int, upper)]
    } else {
        proof {
            assert(n / base < n) by (nonlinear_arith)
                requires
                    base >= 2,
                    n >= base,
            ;
        }
        digits(n / base, base, upper).push(digit_char((n % base) as int, upper))
    }
}

/// `count` copies of the character `c`.
pub open spec fn repeated(c: char, count: nat) -> Seq<char> {
    Seq::new(count, |i: int| c)
}

/// `s`, with zeros in front until it is `width` characters long.
pub open spec fn zero_pad(s: Seq<char>, width: nat) -> Seq<char> {
    if s.len() >= width {
        s
    } else {
        repeated('0', (width - s.len()) as nat) + s
    }
}

/// The 64-bit two's-complement pattern of `v`, read as a natural number.
pub open spec fn twos_complement(v: i64) -> nat {
    if v >= 0 {
        v as nat
    } else {
        (v + 0x1_0000_0000_0000_0000) as nat
    }
}

/// `v` in decimal: a minus sign for a negative value, and zeros after the sign
/// until the whole text is `width` characters long.
pub open spec fn decimal_text(v: int, width: nat) -> Seq<char> {
    if v >= 0 {
        zero_pad(digits(v as nat, 10, false), width)
    } else {
        seq!['-'] + zero_pad(digits((-v) as nat, 10, false), if width >= 1 { (width - 1) as nat } else { 0 })
    }
}

/// A one-character string for a digit below sixteen.
pub fn digit_str(d: u8, upper: bool) -> (s: &'static str)
    requires
        d < 16,
    ensures
        s@ == seq![digit_char(d as int, upper)],
{
    proof {
        reveal_strlit("0");
        reveal_strlit("1");
        reveal_strlit("2");
        reveal_strlit("3");
        reveal_strlit("4");
        reveal_strlit("5");
        reveal_strlit("6");
        reveal_strlit("7");
        reveal_strlit("8");
        reveal_strlit("9");
        reveal_strlit("a");
        reveal_strlit("b");
        reveal_strlit("c");
        reveal_strlit("d");
        reveal_strlit("e");
        reveal_strlit("f");
        reveal_strlit("A");
        reveal_strlit("B");
        reveal_strlit("C");
        reveal_strlit("D");
        reveal_strlit("E");
        reveal_strlit("F");
    }
    let s = match d {
        0 => "0",
        1 => "1",
        2 => "2",
        3 => "3",
        4 => "4",
        5 => "5",
        6 => "6",
        7 => "7",
        8 => "8",
        9 => "9",
        10 => if upper { "A" } else { "a" },
        11 => if upper { "B" } else { "b" },
        12 => if upper { "C" } else { "c" },
        13 => if upper { "D" } else { "d" },
        14 => if upper { "E" } else { "e" },
        _ => if upper { "F" } else { "f" },
    };
    assert(s@ =~= seq![digit_char(d as int, upper)]);
    s
}

/// Appends `count` copies of the character held by the one-character `unit`.
pub fn push_repeated(out: &mut String, unit: &str, count: usize)
    requires
        unit@.len() == 1,
    ensures
        final(out)@ == old(out)@ + repeated(unit@[0], count as nat),
{
    let mut i: usize = 0;
    while i < count
        invariant
            i <= count,
            unit@.len() == 1,
            out@ == old(out)@ + repeated(unit@[0], i as nat),
        decreases count - i,
    {
        out.append(unit);
        i += 1;
        assert(out@ =~= old(out)@ + repeated(unit@[0], i as nat));
    }
    assert(out@ =~= old(out)@ + repeated(unit@[0], count as nat));
}

/// Appends the digits of `n` in `base`, zero-padded to `width` characters.
pub fn push_radix(out: &mut String, n: u64, base: u64, upper: bool, width: usize)
    requires
        2 <= base <= 16,
    ensures
        final(out)@ == old(out)@ + zero_pad(digits(n as nat, base as nat, upper), width as nat),
{
    // least significant digit first
    let mut rev: Vec<u8> = Vec::new();
    let mut rest: u64 = n;
    while rest >= base
        invariant
            2 <= base <= 16,
            forall|k: int| 0 <= k < rev.len() ==> rev[k] < 16,
            digits(n as nat, base as nat, upper) == digits(rest as nat, base as nat, upper) + Seq::new(
                rev.len() as nat,
                |k: int| digit_char(rev[rev.len() - 1 - k] as int, upper),
            ),
        decreases rest,
    {
        let d: u8 = (rest % base) as u8;
        let ghost before = rev@;
        let ghost rest_before = rest;
        rev.push(d);
        rest = rest / base;
        assert(digits(rest_before as nat, base as nat, upper) == digits(
            rest as nat,
            base as nat,
            upper,
        ).push(digit_char(d as int, upper)));
        assert(digits(rest as nat, base as nat, upper).push(digit_char(d as int, upper)) + Seq::new(
            before.len() as nat,
            |k: int| digit_char(before[before.len() - 1 - k] as int, upper),
        ) =~= digits(rest as nat, base as nat, upper) + Seq::new(
            rev.len() as nat,
            |k: int| digit_char(rev[rev.len() - 1 - k] as int, upper),
        ));
    }
    let ghost low = Seq::new(rev.len() as nat, |k: int| digit_char(rev[rev.len() - 1 - k] as int, upper));
    let ghost all = digits(n as nat, base as nat, upper);
    assert(all =~= seq![digit_char(rest as int, upper)] + low);
    let count: usize = rev.len();
    if count < width && width - count > 1 {
        proof {
            reveal_strlit("0");
        }
        push_repeated(out, "0", width - count - 1);
    }
    let ghost padded = out@;
    assert(padded =~= old(out)@ + repeated('0', (if all.len() >= width { 0 } else { width - all.len() }) as nat));
    out.append(digit_str(rest as u8, upper));
    let mut i: usize = count;
    while i > 0
        invariant
            i <= count,
            count == rev.len(),
            forall|k: int| 0 <= k < rev.len() ==> rev[k] < 16,
            low == Seq::new(rev.len() as nat, |k: int| digit_char(rev[rev.len() - 1 - k] as int, upper)),
            out@ == padded + seq![digit_char(rest as int, upper)] + low.subrange(0, count - i),
        decreases i,
    {
        i -= 1;
        out.append(digit_str(rev[i], upper));
        assert(out@ =~= padded + seq![digit_char(rest as int, upper)] + low.subrange(0, count - i));
    }
    assert(low.subrange(0, count as int) =~= low);
    assert(out@ =~= old(out)@ + zero_pad(all, width as nat));
}

/// Appends `v` in decimal, sign-aware and zero-padded to `width` characters.
pub fn push_decimal(out: &mut String, v: i128, width: usize)
    requires
        -0x1_0000_0000_0000_0000 < v < 0x1_0000_0000_0000_0000,
    ensures
        final(out)@ == old(out)@ + decimal_text(v as int, width as nat),
{
    if v >= 0 {
        push_radix(out, v as u64, 10, false, width);
    } else {
        proof {
            reveal_strlit("-");
        }
        out.append("-");
        let magnitude: u64 = (-v) as u64;
        let ghost signed = out@;
        push_radix(out, magnitude, 10, false, if width >= 1 { width - 1 } else { 0 });
        assert(signed =~= old(out)@ + seq!['-']);
        assert(out@ =~= old(out)@ + decimal_text(v as int, width as nat));
    }
}

/// Appends the two's-complement pattern of `v` in `base`, zero-padded to
/// `width` characters.
pub fn push_twos_complement(out: &mut String, v: i64, base: u64, upper: bool, width: usize)
    requires
        2 <= base <= 16,
    ensures
        final(out)@ == old(out)@ + zero_pad(
            digits(twos_complement(v), base as nat, upper),
            width as nat,
        ),
{
    let pattern: u64 = if v >= 0 {
        v as u64
    } else {
        ((v + i64::MAX) + 1) as u64 + 0x8000_0000_0000_0000
    };
    push_radix(out, pattern, base, upper, width);
}

} // verus!

verus! {

/// Whether two strings hold the same characters.
pub fn str_eq(a: &str, b: &str) -> (r: bool)
    ensures
        r == (a@ == b@),
{
    let x = a.as_bytes();
    let y = b.as_bytes();
    proof {
        vstd::utf8::encode_utf8_decode_utf8(a@);
        vstd::utf8::encode_utf8_decode_utf8(b@);
    }
    if x.len() != y.len() {
        return false;
    }
    let mut i: usize = 0;
    while i < x.len()
        invariant
            i <= x.len(),
            x.len() == y.len(),
            x@ == vstd::utf8::encode_utf8(a@),
            y@ == vstd::utf8::encode_utf8(b@),
            forall|k: int| 0 <= k < i ==> x@[k] == y@[k],
        decreases x.len() - i,
    {
        if x[i] != y[i] {
            assert(x@[i as int] != y@[i as int]);
            return false;
        }
        i += 1;
    }
    assert(x@ =~= y@);
    true
}

/// The number of bytes that `s` occupies as text.
pub open spec fn byte_len(s: Seq<char>) -> nat {
    vstd::utf8::encode_utf8(s).len()
}

} // verus!

verus! {

/// Whether `a` comes before `b` when the two are compared byte by byte from
/// position `from` on, the bytes before `from` being equal.
pub open spec fn bytes_less_from(a: Seq<u8>, b: Seq<u8>, from: int) -> bool
    decreases a.len() - from,
{
    if from < 0 || from >= b.len() {
        false
    } else if from >= a.len() {
        true
    } else if a[from] != b[from] {
        a[from] < b[from]
    } else {
        bytes_less_from(a, b, from + 1)
    }
}

/// Whether the text `a` comes before the text `b` in the order of their bytes.
#[verifier::opaque]
pub open spec fn text_less(a: Seq<char>, b: Seq<char>) -> bool {
    bytes_less_from(vstd::utf8::encode_utf8(a), vstd::utf8::encode_utf8(b), 0)
}

/// Of two sequences that agree below `from`, one comes before the other or
/// the two are equal.
pub proof fn lemma_bytes_trichotomy(a: Seq<u8>, b: Seq<u8>, from: int)
    requires
        0 <= from <= a.len(),
        from <= b.len(),
        forall|k: int| 0 <= k < from ==> a[k] == b[k],
    ensures
        bytes_less_from(a, b, from) || bytes_less_from(b, a, from) || a == b,
        !(bytes_less_from(a, b, from) && bytes_less_from(b, a, from)),
        a == b ==> !bytes_less_from(a, b, from),
    decreases a.len() - from,
{
    if from >= a.len() || from >= b.len() {
        if a.len() == b.len() {
            assert(a =~= b);
        }
    } else if a[from] == b[from] {
        lemma_bytes_trichotomy(a, b, from + 1);
    }
}

/// What comes before something that comes before a third comes before the
/// third.
pub proof fn lemma_bytes_transitive(a: Seq<u8>, b: Seq<u8>, c: Seq<u8>, from: int)
    requires
        0 <= from,
        bytes_less_from(a, b, from),
        bytes_less_from(b, c, from),
    ensures
        bytes_less_from(a, c, from),
    decreases a.len() - from,
{
    if from < a.len() && from < b.len() && from < c.len() && a[from] == b[from] && b[from] == c[from] {
        lemma_bytes_transitive(a, b, c, from + 1);
    }
}

/// The order of texts is transitive.
pub proof fn lemma_text_transitive(a: Seq<char>, b: Seq<char>, c: Seq<char>)
    requires
        text_less(a, b),
        text_less(b, c),
    ensures
        text_less(a, c),
{
    reveal(text_less);
    lemma_bytes_transitive(
        vstd::utf8::encode_utf8(a),
        vstd::utf8::encode_utf8(b),
        vstd::utf8::encode_utf8(c),
        0,
    );
}

/// Whether `a` comes before `b` in the order of their bytes.
pub fn str_less(a: &str, b: &str) -> (r: bool)
    ensures
        r == text_less(a@, b@),
{
    reveal(text_less);
    let x = a.as_bytes();
    let y = b.as_bytes();
    let mut i: usize = 0;
    while i < x.len() && i < y.len()
        invariant
            i <= x.len(),
            i <= y.len(),
            x@ == vstd::utf8::encode_utf8(a@),
            y@ == vstd::utf8::encode_utf8(b@),
            bytes_less_from(x@, y@, 0) == bytes_less_from(x@, y@, i as int),
        decreases x.len() - i,
    {
        if x[i] != y[i] {
            proof {
                reveal(text_less);
            }
            return x[i] < y[i];
        }
        i += 1;
    }
    i < y.len()
}

/// Two texts of which neither comes before the other are the same text.
pub proof fn lemma_text_trichotomy(a: Seq<char>, b: Seq<char>)
    ensures
        text_less(a, b) || text_less(b, a) || a == b,
        !(text_less(a, b) && text_less(b, a)),
        !text_less(a, a),
{
    reveal(text_less);
    lemma_bytes_trichotomy(vstd::utf8::encode_utf8(a), vstd::utf8::encode_utf8(b), 0);
    lemma_bytes_trichotomy(vstd::utf8::encode_utf8(a), vstd::utf8::encode_utf8(a), 0);
    vstd::utf8::encode_utf8_decode_utf8(a);
    vstd::utf8::encode_utf8_decode_utf8(b);
}

} // verus!

verus! {

/// Whether the bytes of `prefix` are the first bytes of `s`.
pub open spec fn bytes_start_with(s: Seq<u8>, prefix: Seq<u8>) -> bool {
    prefix.len() <= s.len() && forall|k: int| 0 <= k < prefix.len() ==> s[k] == prefix[k]
}

/// Whether the text `s` begins with the text `prefix`.
#[verifier::opaque]
pub open spec fn text_starts_with(s: Seq<char>, prefix: Seq<char>) -> bool {
    bytes_start_with(vstd::utf8::encode_utf8(s), vstd::utf8::encode_utf8(prefix))
}

/// Whether `s` begins with `prefix`.
pub fn str_starts_with(s: &str, prefix: &str) -> (r: bool)
    ensures
        r == text_starts_with(s@, prefix@),
{
    reveal(text_starts_with);
    let x = s.as_bytes();
    let p = prefix.as_bytes();
    if p.len() > x.len() {
        return false;
    }
    let mut i: usize = 0;
    while i < p.len()
        invariant
            i <= p.len(),
            p.len() <= x.len(),
            x@ == vstd::utf8::encode_utf8(s@),
            p@ == vstd::utf8::encode_utf8(prefix@),
            forall|k: int| 0 <= k < i ==> x@[k] == p@[k],
        decreases p.len() - i,
    {
        if x[i] != p[i] {
            proof {
                reveal(text_starts_with);
            }
            return false;
        }
        i += 1;
    }
    true
}

} // verus!
