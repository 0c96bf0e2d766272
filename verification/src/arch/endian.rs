//! Byte order: how the bytes of a field make up a value, and back.
use vstd::prelude::*;
use crate::ValueType;
use crate::text::twos_complement;

verus! {

/// The order in which the bytes of a field are stored.
#[derive(PartialEq, Eq, Copy, Clone, Debug, Structural)]
pub enum Endianess {
    Little,
    Big,
}

impl Default for Endianess {
    fn default() -> (r: Endianess)
        ensures
            r == Endianess::Little,
    {
        Endianess::Little
    }
}

/// The number that eight bytes stand for, least significant byte first.
pub open spec fn le_nat(b: Seq<u8>) -> nat
    recommends
        b.len() == 8,
{
    (b[0] as nat) + 0x100 * (b[1] as nat) + 0x1_0000 * (b[2] as nat) + 0x100_0000 * (b[3] as nat)
        + 0x1_0000_0000 * (b[4] as nat) + 0x100_0000_0000 * (b[5] as nat) + 0x1_0000_0000_0000 * (
    b[6] as nat) + 0x100_0000_0000_0000 * (b[7] as nat)
}

/// The bytes of `b` in the opposite order.
pub open spec fn reversed(b: Seq<u8>) -> Seq<u8> {
    Seq::new(b.len(), |i: int| b[b.len() - 1 - i])
}

/// The signed value whose 64-bit two's-complement pattern is `n`.
pub open spec fn signed(n: nat) -> ValueType
    recommends
        n < 0x1_0000_0000_0000_0000,
{
    if n < 0x8000_0000_0000_0000 {
        n as ValueType
    } else {
        (n - 0x1_0000_0000_0000_0000) as ValueType
    }
}

/// 256 to the power `i`, for the eight byte positions of a value.
pub open spec fn weight(i: int) -> nat {
    if i <= 0 {
        1
    } else if i == 1 {
        0x100
    } else if i == 2 {
        0x1_0000
    } else if i == 3 {
        0x100_0000
    } else if i == 4 {
        0x1_0000_0000
    } else if i == 5 {
        0x100_0000_0000
    } else if i == 6 {
        0x1_0000_0000_0000
    } else {
        0x100_0000_0000_0000
    }
}

/// The byte of `n` at position `i`, counted from the least significant one;
/// zero beyond the eighth.
pub open spec fn byte_at(n: nat, i: int) -> u8 {
    if 0 <= i < 8 {
        ((n / weight(i)) % 0x100) as u8
    } else {
        0
    }
}

impl Endianess {
    /// `data` brought to `len` bytes by zeros on its most significant side;
    /// unchanged where it is that long already.
    pub open spec fn spec_pad(self, data: Seq<u8>, len: nat) -> Seq<u8> {
        if data.len() >= len {
            data
        } else {
            match self {
                Endianess::Big => Seq::new((len - data.len()) as nat, |i: int| 0u8) + data,
                Endianess::Little => data + Seq::new((len - data.len()) as nat, |i: int| 0u8),
            }
        }
    }

    /// The value that exactly eight bytes stand for.
    pub open spec fn spec_transform(self, data: Seq<u8>) -> Option<ValueType> {
        if data.len() != 8 {
            None
        } else {
            match self {
                Endianess::Little => Some(signed(le_nat(data))),
                Endianess::Big => Some(signed(le_nat(reversed(data)))),
            }
        }
    }

    /// The value that a field of up to eight bytes stands for: the field is
    /// zero-padded to eight bytes and then read.
    pub open spec fn spec_decode(self, data: Seq<u8>) -> Option<ValueType> {
        self.spec_transform(self.spec_pad(data, 8))
    }

    /// The `len` low-order bytes of `value` in this byte order.
    pub open spec fn spec_encode(self, value: ValueType, len: nat) -> Seq<u8> {
        match self {
            Endianess::Little => Seq::new(len, |i: int| byte_at(twos_complement(value), i)),
            Endianess::Big => Seq::new(len, |i: int| byte_at(twos_complement(value), len - 1 - i)),
        }
    }

    /// The value that exactly eight bytes stand for; `None` for any other number of bytes.
    pub fn transform(&self, data: &[u8]) -> (r: Option<ValueType>)
        ensures
            r == self.spec_transform(data@),
    {
        if data.len() != 8 {
            return None;
        }
        let pattern: u64 = match self {
            Endianess::Little => Self::join(
                data[0],
                data[1],
                data[2],
                data[3],
                data[4],
                data[5],
                data[6],
                data[7],
            ),
            Endianess::Big => Self::join(
                data[7],
                data[6],
                data[5],
                data[4],
                data[3],
                data[2],
                data[1],
                data[0],
            ),
        };
        Some(Self::to_signed(pattern))
    }

    /// The number whose bytes, least significant first, are the arguments.
    fn join(b0: u8, b1: u8, b2: u8, b3: u8, b4: u8, b5: u8, b6: u8, b7: u8) -> (r: u64)
        ensures
            r as nat == le_nat(seq![b0, b1, b2, b3, b4, b5, b6, b7]),
    {
        (b0 as u64) + 0x100 * (b1 as u64) + 0x1_0000 * (b2 as u64) + 0x100_0000 * (b3 as u64)
            + 0x1_0000_0000 * (b4 as u64) + 0x100_0000_0000 * (b5 as u64) + 0x1_0000_0000_0000 * (
        b6 as u64) + 0x100_0000_0000_0000 * (b7 as u64)
    }

    /// The signed reading of a 64-bit pattern.
    pub fn to_signed(pattern: u64) -> (r: ValueType)
        ensures
            r == signed(pattern as nat),
            twos_complement(r) == pattern,
    {
        if pattern < 0x8000_0000_0000_0000 {
            pattern as i64
        } else {
            ((pattern - 0x8000_0000_0000_0000) as i64) + i64::MIN
        }
    }

    /// Brings `data` to `len` bytes by zeros on its most significant side.
    pub fn pad(&self, data: &[u8], len: usize) -> (r: Vec<u8>)
        ensures
            r@ == self.spec_pad(data@, len as nat),
    {
        let mut v: Vec<u8> = Vec::new();
        let missing: usize = if data.len() >= len {
            0
        } else {
            len - data.len()
        };
        if let Endianess::Big = self {
            Self::push_zeros(&mut v, missing);
        }
        let ghost head = v@;
        let mut i: usize = 0;
        while i < data.len()
            invariant
                i <= data.len(),
                v@ == head + data@.take(i as int),
            decreases data.len() - i,
        {
            v.push(data[i]);
            i += 1;
            assert(v@ =~= head + data@.take(i as int));
        }
        assert(data@.take(i as int) =~= data@);
        if let Endianess::Little = self {
            Self::push_zeros(&mut v, missing);
        }
        assert(v@ =~= self.spec_pad(data@, len as nat));
        v
    }

    /// Appends `count` zero bytes.
    fn push_zeros(v: &mut Vec<u8>, count: usize)
        ensures
            final(v)@ == old(v)@ + Seq::new(count as nat, |i: int| 0u8),
    {
        let mut i: usize = 0;
        while i < count
            invariant
                i <= count,
                v@ == old(v)@ + Seq::new(i as nat, |k: int| 0u8),
            decreases count - i,
        {
            v.push(0);
            i += 1;
            assert(v@ =~= old(v)@ + Seq::new(i as nat, |k: int| 0u8));
        }
    }

    /// Reads a field of up to eight bytes: `None` for a longer one.
    pub fn decode(&self, data: &[u8]) -> (r: Option<ValueType>)
        ensures
            r == self.spec_decode(data@),
            data@.len() <= 8 ==> r is Some,
    {
        let padded = self.pad(data, 8);
        self.transform(padded.as_slice())
    }

    /// Writes the `len` low-order bytes of `value` in this byte order.
    pub fn encode(&self, value: ValueType, len: usize) -> (r: Vec<u8>)
        ensures
            r@ == self.spec_encode(value, len as nat),
    {
        let pattern: u64 = if value >= 0 {
            value as u64
        } else {
            ((value + i64::MAX) + 1) as u64 + 0x8000_0000_0000_0000
        };
        let mut v: Vec<u8> = Vec::new();
        let mut i: usize = 0;
        while i < len
            invariant
                i <= len,
                pattern as nat == twos_complement(value),
                v@ == self.spec_encode(value, len as nat).take(i as int),
            decreases len - i,
        {
            let position: usize = match self {
                Endianess::Little => i,
                Endianess::Big => len - 1 - i,
            };
            v.push(Self::byte(pattern, position));
            i += 1;
            assert(v@ =~= self.spec_encode(value, len as nat).take(i as int));
        }
        assert(self.spec_encode(value, len as nat).take(i as int) =~= self.spec_encode(
            value,
            len as nat,
        ));
        v
    }

    /// The byte of `pattern` at `position`, counted from the least significant.
    fn byte(pattern: u64, position: usize) -> (r: u8)
        ensures
            r == byte_at(pattern as nat, position as int),
    {
        let divisor: u64 = match position {
            0 => 1,
            1 => 0x100,
            2 => 0x1_0000,
            3 => 0x100_0000,
            4 => 0x1_0000_0000,
            5 => 0x100_0000_0000,
            6 => 0x1_0000_0000_0000,
            7 => 0x100_0000_0000_0000,
            _ => {
                return 0;
            },
        };
        ((pattern / divisor) % 0x100) as u8
    }
}

/// Decoding a field of up to eight bytes and encoding the value again at the
/// field's width, in the same byte order, gives the field's bytes back.
pub proof fn lemma_encode_decode(order: Endianess, data: Seq<u8>)
    requires
        data.len() <= 8,
    ensures
        order.spec_decode(data) is Some,
        order.spec_encode(order.spec_decode(data)->0, data.len()) == data,
{
    let padded = order.spec_pad(data, 8);
    let low = match order {
        Endianess::Little => padded,
        Endianess::Big => reversed(padded),
    };
    let n = le_nat(low);
    let value = order.spec_decode(data)->0;
    assert(value == signed(n));
    assert(twos_complement(value) == n);
    lemma_bytes_of_le_nat(low);
    assert forall|i: int| 0 <= i < data.len() implies order.spec_encode(value, data.len())[i]
        == data[i] by {
        match order {
            Endianess::Little => {
                assert(low[i] == data[i]);
            },
            Endianess::Big => {
                let k = data.len() - 1 - i;
                assert(low[k] == padded[7 - k]);
                assert(padded[7 - k] == data[i]);
            },
        }
    }
    assert(order.spec_encode(value, data.len()) =~= data);
}

/// The byte that stands above `low` in a number split at `w`.
proof fn lemma_byte_above(n: int, w: int, low: int, top: int, byte: int)
    requires
        w > 0,
        0 <= low < w,
        0 <= byte < 0x100,
        n == (top * 0x100 + byte) * w + low,
    ensures
        (n / w) % 0x100 == byte,
{
    vstd::arithmetic::div_mod::lemma_fundamental_div_mod_converse(n, w, top * 0x100 + byte, low);
    vstd::arithmetic::div_mod::lemma_fundamental_div_mod_converse(
        top * 0x100 + byte,
        0x100,
        top,
        byte,
    );
}

/// Each byte of a number is the byte it was made from.
pub proof fn lemma_bytes_of_le_nat(b: Seq<u8>)
    requires
        b.len() == 8,
    ensures
        le_nat(b) < 0x1_0000_0000_0000_0000,
        forall|i: int| 0 <= i < 8 ==> byte_at(le_nat(b), i) == #[trigger] b[i],
{
    let n = le_nat(b) as int;
    let b0 = b[0] as int;
    let b1 = b[1] as int;
    let b2 = b[2] as int;
    let b3 = b[3] as int;
    let b4 = b[4] as int;
    let b5 = b[5] as int;
    let b6 = b[6] as int;
    let b7 = b[7] as int;
    let t1 = b1 + 0x100 * b2 + 0x1_0000 * b3 + 0x100_0000 * b4 + 0x1_0000_0000 * b5
        + 0x100_0000_0000 * b6 + 0x1_0000_0000_0000 * b7;
    let t2 = b2 + 0x100 * b3 + 0x1_0000 * b4 + 0x100_0000 * b5 + 0x1_0000_0000 * b6
        + 0x100_0000_0000 * b7;
    let t3 = b3 + 0x100 * b4 + 0x1_0000 * b5 + 0x100_0000 * b6 + 0x1_0000_0000 * b7;
    let t4 = b4 + 0x100 * b5 + 0x1_0000 * b6 + 0x100_0000 * b7;
    let t5 = b5 + 0x100 * b6 + 0x1_0000 * b7;
    let t6 = b6 + 0x100 * b7;
    lemma_byte_above(n, 1, 0, t1, b0);
    lemma_byte_above(n, 0x100, b0, t2, b1);
    lemma_byte_above(n, 0x1_0000, b0 + 0x100 * b1, t3, b2);
    lemma_byte_above(n, 0x100_0000, b0 + 0x100 * b1 + 0x1_0000 * b2, t4, b3);
    lemma_byte_above(n, 0x1_0000_0000, b0 + 0x100 * b1 + 0x1_0000 * b2 + 0x100_0000 * b3, t5, b4);
    lemma_byte_above(
        n,
        0x100_0000_0000,
        b0 + 0x100 * b1 + 0x1_0000 * b2 + 0x100_0000 * b3 + 0x1_0000_0000 * b4,
        t6,
        b5,
    );
    lemma_byte_above(
        n,
        0x1_0000_0000_0000,
        b0 + 0x100 * b1 + 0x1_0000 * b2 + 0x100_0000 * b3 + 0x1_0000_0000 * b4 + 0x100_0000_0000
            * b5,
        b7,
        b6,
    );
    lemma_byte_above(
        n,
        0x100_0000_0000_0000,
        b0 + 0x100 * b1 + 0x1_0000 * b2 + 0x100_0000 * b3 + 0x1_0000_0000 * b4 + 0x100_0000_0000
            * b5 + 0x1_0000_0000_0000 * b6,
        0,
        b7,
    );
    assert forall|i: int| 0 <= i < 8 implies byte_at(le_nat(b), i) == #[trigger] b[i] by {
        if i == 0 {
        } else if i == 1 {
        } else if i == 2 {
        } else if i == 3 {
        } else if i == 4 {
        } else if i == 5 {
        } else if i == 6 {
        } else {
        }
    }
}

} // verus!
