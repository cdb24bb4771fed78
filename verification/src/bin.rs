//! The binary encoding that the protocol is built from.
//!
//! Integers are little endian, lengths are unsigned LEB128, a list is its length
//! and then its elements, and an optional value is a flag byte and then the value.
use std::sync::Arc;
use vstd::prelude::*;
use vstd::string::*;
use vstd::utf8::*;

verus! {

/// Why bytes could not be read as a value, or a value could not be built.
#[derive(Debug, Clone, Copy, PartialEq, Eq, Structural)]
pub enum BinError {
    /// The input ended inside a value.
    UnexpectedEof,
    /// A LEB128 number did not end within the bytes it may take.
    InvalidLength,
    /// A bounded string was longer than its bound.
    StringTooLong,
    /// A room id was empty or held a character that room ids do not have.
    InvalidRoomId,
    /// The number of an enum variant was unknown.
    InvalidVariant,
}

impl BinError {
    /// The text that a user sees for this error.
    pub open spec fn text(self) -> Seq<char> {
        match self {
            BinError::UnexpectedEof => "unexpected EOF"@,
            BinError::InvalidLength => "invalid length"@,
            BinError::StringTooLong => "string too long"@,
            BinError::InvalidRoomId => "invalid room id"@,
            BinError::InvalidVariant => "invalid variant"@,
        }
    }

    /// The text of this error.
    pub fn message(&self) -> (res: String)
        ensures
            res@ == self.text(),
    {
        match self {
            BinError::UnexpectedEof => "unexpected EOF".to_owned(),
            BinError::InvalidLength => "invalid length".to_owned(),
            BinError::StringTooLong => "string too long".to_owned(),
            BinError::InvalidRoomId => "invalid room id".to_owned(),
            BinError::InvalidVariant => "invalid variant".to_owned(),
        }
    }
}

/// `128` to the power `n`: the weight of the group at index `n` of a LEB128 number.
pub open spec fn pow128(n: nat) -> nat
    decreases n,
{
    if n == 0 {
        1
    } else {
        128 * pow128((n - 1) as nat)
    }
}

/// The shortest unsigned LEB128 encoding of `v`.
pub open spec fn uleb_bytes(v: nat) -> Seq<u8>
    decreases v,
{
    if v < 128 {
        seq![v as u8]
    } else {
        seq![(v % 128 + 128) as u8] + uleb_bytes(v / 128)
    }
}

/// Reads an unsigned LEB128 number of at most `groups` bytes from the front of `b`:
/// its value and the number of bytes it took.
pub open spec fn uleb_scan(b: Seq<u8>, groups: nat) -> Result<(nat, int), BinError>
    decreases groups,
{
    if b.len() == 0 {
        Err(BinError::UnexpectedEof)
    } else if b[0] < 128 {
        Ok((b[0] as nat, 1))
    } else if groups <= 1 {
        Err(BinError::InvalidLength)
    } else {
        match uleb_scan(b.skip(1), (groups - 1) as nat) {
            Ok((high, n)) => Ok(((b[0] - 128 + 128 * high) as nat, n + 1)),
            Err(e) => Err(e),
        }
    }
}

/// The largest number of bytes that a 64-bit LEB128 number takes.
pub open spec fn uleb64_groups() -> nat {
    10
}

/// A 64-bit LEB128 number at the front of `b`; bits beyond the 64th are dropped.
pub open spec fn parse_uleb(b: Seq<u8>) -> Result<(u64, int), BinError> {
    match uleb_scan(b, uleb64_groups()) {
        Ok((v, n)) => Ok(((v % 0x1_0000_0000_0000_0000) as u64, n)),
        Err(e) => Err(e),
    }
}

/// A scan takes at least one byte, and no more than there are or than it may.
pub proof fn lemma_uleb_scan_len(b: Seq<u8>, groups: nat)
    ensures
        uleb_scan(b, groups) matches Ok((_, n)) ==> 1 <= n <= b.len() && (groups >= 1 ==> n
            <= groups),
    decreases groups,
{
    if b.len() > 0 && b[0] >= 128 && groups > 1 {
        lemma_uleb_scan_len(b.skip(1), (groups - 1) as nat);
    }
}

/// Whatever follows it, the shortest encoding of a number below `128` to the power
/// `groups` is scanned back to that number, in `groups` bytes or fewer.
pub proof fn lemma_uleb_round_trip(v: nat, groups: nat, rest: Seq<u8>)
    requires
        groups >= 1,
        v < pow128(groups),
    ensures
        uleb_scan(uleb_bytes(v) + rest, groups) == Ok::<(nat, int), BinError>(
            (v, uleb_bytes(v).len() as int),
        ),
        1 <= uleb_bytes(v).len() <= groups,
    decreases groups,
{
    let b = uleb_bytes(v) + rest;
    if v < 128 {
        assert(b[0] == v);
    } else {
        if groups == 1 {
            reveal_with_fuel(pow128, 2);
        }
        assert(v / 128 < pow128((groups - 1) as nat));
        lemma_uleb_round_trip(v / 128, (groups - 1) as nat, rest);
        assert(b.skip(1) =~= uleb_bytes(v / 128) + rest);
        assert(b[0] == (v % 128 + 128) as u8);
    }
}

/// Ten groups hold every 64-bit number, and five every 32-bit number.
pub proof fn lemma_pow128_limits()
    ensures
        pow128(1) == 128,
        pow128(4) == 0x1000_0000,
        pow128(5) == 0x8_0000_0000,
        pow128(9) == 0x8000_0000_0000_0000,
        pow128(10) > 0x1_0000_0000_0000_0000,
{
    reveal_with_fuel(pow128, 12);
}

/// A 64-bit number is read back from its encoding, whatever follows it.
pub proof fn lemma_uleb64_round_trip(v: u64, rest: Seq<u8>)
    ensures
        parse_uleb(uleb_bytes(v as nat) + rest) == Ok::<(u64, int), BinError>(
            (v, uleb_bytes(v as nat).len() as int),
        ),
        1 <= uleb_bytes(v as nat).len() <= 10,
{
    lemma_pow128_limits();
    lemma_uleb_round_trip(v as nat, 10, rest);
}

/// Appends the LEB128 encoding of `v`.
pub fn write_uleb(v: u64, out: &mut Vec<u8>)
    ensures
        final(out)@ == old(out)@ + uleb_bytes(v as nat),
{
    let mut x: u64 = v;
    let ghost start = out@;
    while x >= 128
        invariant
            out@ + uleb_bytes(x as nat) == start + uleb_bytes(v as nat),
        decreases x,
    {
        let ghost before = out@;
        out.push((x % 128 + 128) as u8);
        assert(out@ + uleb_bytes((x / 128) as nat) =~= before + uleb_bytes(x as nat));
        x = x / 128;
    }
    out.push(x as u8);
    assert(out@ =~= start + uleb_bytes(v as nat));
}

/// Adds one more group to a LEB128 number read so far, in terms of what is left to scan.
pub proof fn lemma_uleb_step(acc: int, weight: int, low: int, high: int)
    ensures
        acc + weight * (low + 128 * high) == (acc + weight * low) + (128 * weight) * high,
{
    assert(weight * (low + 128 * high) == weight * low + (128 * weight) * high)
        by (nonlinear_arith);
}

/// A cursor over the bytes that are still to be read.
pub struct BinaryReader<'a>(&'a [u8]);

impl<'a> View for BinaryReader<'a> {
    type V = Seq<u8>;

    closed spec fn view(&self) -> Seq<u8> {
        self.0@
    }
}

impl<'a> BinaryReader<'a> {
    /// A reader at the start of `data`.
    pub fn new(data: &'a [u8]) -> (res: BinaryReader<'a>)
        ensures
            res@ == data@,
    {
        BinaryReader(data)
    }

    /// Reads one byte.
    pub fn byte(&mut self) -> (res: Result<u8, BinError>)
        ensures
            old(self)@.len() == 0 ==> res == Err::<u8, BinError>(BinError::UnexpectedEof)
                && final(self)@ == old(self)@,
            old(self)@.len() > 0 ==> res == Ok::<u8, BinError>(old(self)@[0]) && final(self)@
                == old(self)@.skip(1),
    {
        if self.0.len() == 0 {
            return Err(BinError::UnexpectedEof);
        }
        let b: u8 = self.0[0];
        let (_, rest) = self.0.split_at(1);
        self.0 = rest;
        assert(self.0@ =~= old(self).0@.skip(1));
        Ok(b)
    }

    /// Reads the next `n` bytes.
    pub fn take(&mut self, n: u64) -> (res: Result<&'a [u8], BinError>)
        ensures
            n > old(self)@.len() ==> res == Err::<&'a [u8], BinError>(BinError::UnexpectedEof)
                && final(self)@ == old(self)@,
            n <= old(self)@.len() ==> (res matches Ok(s) && s@ == old(self)@.take(n as int))
                && final(self)@ == old(self)@.skip(n as int),
    {
        if n > self.0.len() as u64 {
            return Err(BinError::UnexpectedEof);
        }
        let (front, rest) = self.0.split_at(n as usize);
        self.0 = rest;
        assert(front@ =~= old(self).0@.take(n as int));
        assert(self.0@ =~= old(self).0@.skip(n as int));
        Ok(front)
    }

    /// Reads a 64-bit LEB128 number.
    pub fn uleb(&mut self) -> (res: Result<u64, BinError>)
        ensures
            match parse_uleb(old(self)@) {
                Ok((v, n)) => res == Ok::<u64, BinError>(v) && final(self)@ == old(self)@.skip(n),
                Err(e) => res == Err::<u64, BinError>(e),
            },
    {
        let ghost start = self@;
        let mut acc: u64 = 0;
        let mut weight: u64 = 1;
        let mut i: u64 = 0;
        proof {
            lemma_pow128_limits();
            assert(start.skip(0) =~= start);
        }
        while i < 9
            invariant
                i <= 9,
                start == old(self)@,
                weight == pow128(i as nat),
                weight <= 0x8000_0000_0000_0000,
                acc < weight,
                i <= start.len(),
                self@ == start.skip(i as int),
                uleb_scan(start, 10) == (match uleb_scan(self@, (10 - i) as nat) {
                    Ok((high, n)) => Ok::<(nat, int), BinError>(
                        ((acc + weight * high) as nat, n + i),
                    ),
                    Err(e) => Err(e),
                }),
            decreases 9 - i,
        {
            let byte: u8 = match self.byte() {
                Ok(b) => b,
                Err(e) => {
                    return Err(e);
                },
            };
            proof {
                lemma_pow128_limits();
                lemma_pow128_mono((i + 1) as nat, 9);
                assert(pow128((i + 1) as nat) == 128 * pow128(i as nat));
                assert(self@ =~= start.skip(i + 1));
            }
            if byte < 128 {
                proof {
                    assert(acc + weight * (byte as int) < 0x8000_0000_0000_0000) by (nonlinear_arith)
                        requires
                            acc < weight,
                            byte < 128,
                            128 * weight <= 0x8000_0000_0000_0000,
                    ;
                    assert(weight * (byte as int) == (byte as int) * weight) by (nonlinear_arith);
                    assert(weight * (byte as int) >= 0) by (nonlinear_arith);
                }
                return Ok(acc + weight * (byte as u64));
            }
            let low: u64 = (byte - 128) as u64;
            proof {
                assert(acc + weight * low < 128 * weight) by (nonlinear_arith)
                    requires
                        acc < weight,
                        low < 128,
                ;
                assert(weight * low >= 0) by (nonlinear_arith);
                if let Ok((high, n)) = uleb_scan(self@, (9 - i) as nat) {
                    lemma_uleb_step(acc as int, weight as int, low as int, high as int);
                    assert((acc + weight * low) + (128 * weight) * high >= 0) by (nonlinear_arith)
                        requires
                            acc >= 0,
                            weight >= 0,
                            low >= 0,
                            high >= 0,
                    ;
                }
            }
            acc = acc + weight * low;
            weight = 128 * weight;
            i = i + 1;
        }
        let byte: u8 = match self.byte() {
            Ok(b) => b,
            Err(e) => {
                return Err(e);
            },
        };
        proof {
            lemma_pow128_limits();
            assert(self@ =~= start.skip(10));
        }
        if byte < 128 {
            proof {
                let b = byte as int;
                assert(b == 2 * (b / 2) + b % 2);
                assert(acc + 0x8000_0000_0000_0000 * b == 0x1_0000_0000_0000_0000 * (b / 2) + (acc
                    + 0x8000_0000_0000_0000 * (b % 2)));
                assert((acc + 0x8000_0000_0000_0000 * b) % 0x1_0000_0000_0000_0000 == acc
                    + 0x8000_0000_0000_0000 * (b % 2));
            }
            return Ok(acc + 0x8000_0000_0000_0000 * ((byte % 2) as u64));
        }
        Err(BinError::InvalidLength)
    }

    /// Reads a value.
    pub fn read<T: BinaryData>(&mut self) -> (res: Result<T, BinError>)
        ensures
            match T::parse(old(self)@) {
                Ok((m, n)) => (res matches Ok(v) && v.model() == m) && final(self)@ == old(
                    self,
                )@.skip(n),
                Err(e) => res matches Err(f) && f == e,
            },
    {
        T::read_binary(self)
    }
}

/// A larger index has a larger weight.
pub proof fn lemma_pow128_mono(a: nat, b: nat)
    requires
        a <= b,
    ensures
        1 <= pow128(a) <= pow128(b),
    decreases b,
{
    if a < b {
        lemma_pow128_mono(a, (b - 1) as nat);
    } else if a > 0 {
        lemma_pow128_mono((a - 1) as nat, (a - 1) as nat);
    }
}

/// A value that has a binary encoding.
pub trait BinaryData: Sized {
    /// What a value means, apart from how it is held in memory.
    type Model;

    /// What this value means.
    spec fn model(&self) -> Self::Model;

    /// The values that are read back as they were written.
    spec fn encodable(m: Self::Model) -> bool;

    /// The encoding of a value.
    spec fn bytes(m: Self::Model) -> Seq<u8>;

    /// The value at the front of `b` and the number of bytes it takes.
    spec fn parse(b: Seq<u8>) -> Result<(Self::Model, int), BinError>;

    /// Reads a value.
    fn read_binary(r: &mut BinaryReader<'_>) -> (res: Result<Self, BinError>)
        ensures
            match Self::parse(old(r)@) {
                Ok((m, n)) => (res matches Ok(v) && v.model() == m) && final(r)@ == old(r)@.skip(n),
                Err(e) => res matches Err(f) && f == e,
            },
    ;

    /// Appends the encoding of this value.
    fn write_binary(&self, out: &mut Vec<u8>)
        ensures
            final(out)@ == old(out)@ + Self::bytes(self.model()),
    ;

    /// A value is read back from its encoding, whatever follows it.
    proof fn lemma_round_trip(m: Self::Model, rest: Seq<u8>)
        requires
            Self::encodable(m),
        ensures
            Self::parse(Self::bytes(m) + rest) == Ok::<(Self::Model, int), BinError>(
                (m, Self::bytes(m).len() as int),
            ),
    ;

    /// A value takes no more bytes than there are.
    proof fn lemma_parse_len(b: Seq<u8>)
        ensures
            Self::parse(b) matches Ok((_, n)) ==> 0 <= n <= b.len(),
    ;
}

/// After a one-byte tag and a value, what is left is what follows both.
pub proof fn lemma_after_tag<T: BinaryData>(b: Seq<u8>)
    requires
        b.len() > 0,
    ensures
        T::parse(b.skip(1)) matches Ok((_, n)) ==> b.skip(1).skip(n) == b.skip(n + 1),
{
    T::lemma_parse_len(b.skip(1));
    if let Ok((_, n)) = T::parse(b.skip(1)) {
        assert(b.skip(1).skip(n) =~= b.skip(n + 1));
    }
}

/// The `n` little endian bytes of `v`.
pub open spec fn le_bytes(v: nat, n: nat) -> Seq<u8>
    decreases n,
{
    if n == 0 {
        Seq::empty()
    } else {
        seq![(v % 256) as u8] + le_bytes(v / 256, (n - 1) as nat)
    }
}

/// The number whose little endian bytes are `b`.
pub open spec fn le_value(b: Seq<u8>) -> nat
    decreases b.len(),
{
    if b.len() == 0 {
        0
    } else {
        b[0] as nat + 256 * le_value(b.skip(1))
    }
}

/// Two bytes of a number.
pub proof fn lemma_le_bytes_two(v: nat)
    ensures
        le_bytes(v, 2) =~= seq![(v % 256) as u8, (v / 256 % 256) as u8],
{
    reveal_with_fuel(le_bytes, 3);
}

/// Four bytes of a number.
pub proof fn lemma_le_bytes_four(v: nat)
    ensures
        le_bytes(v, 4) =~= seq![
            (v % 256) as u8,
            (v / 256 % 256) as u8,
            (v / 0x10000 % 256) as u8,
            (v / 0x1000000 % 256) as u8,
        ],
{
    reveal_with_fuel(le_bytes, 5);
}

/// The number that two bytes stand for.
pub proof fn lemma_le_value_two(b: Seq<u8>)
    requires
        b.len() == 2,
    ensures
        le_value(b) == b[0] + 0x100 * b[1],
{
    reveal_with_fuel(le_value, 3);
}

/// The number that four bytes stand for.
pub proof fn lemma_le_value_four(b: Seq<u8>)
    requires
        b.len() == 4,
    ensures
        le_value(b) == b[0] + 0x100 * b[1] + 0x10000 * b[2] + 0x1000000 * b[3],
{
    reveal_with_fuel(le_value, 5);
}

impl BinaryData for u8 {
    type Model = u8;

    open spec fn model(&self) -> u8 {
        *self
    }

    open spec fn encodable(m: u8) -> bool {
        true
    }

    open spec fn bytes(m: u8) -> Seq<u8> {
        seq![m]
    }

    open spec fn parse(b: Seq<u8>) -> Result<(u8, int), BinError> {
        if b.len() == 0 {
            Err(BinError::UnexpectedEof)
        } else {
            Ok((b[0], 1))
        }
    }

    fn read_binary(r: &mut BinaryReader<'_>) -> (res: Result<u8, BinError>) {
        r.byte()
    }

    fn write_binary(&self, out: &mut Vec<u8>) {
        out.push(*self);
        assert(out@ =~= old(out)@ + seq![*self]);
    }

    proof fn lemma_round_trip(m: u8, rest: Seq<u8>) {
    }

    proof fn lemma_parse_len(b: Seq<u8>) {
    }
}

impl BinaryData for i8 {
    type Model = i8;

    open spec fn model(&self) -> i8 {
        *self
    }

    open spec fn encodable(m: i8) -> bool {
        true
    }

    open spec fn bytes(m: i8) -> Seq<u8> {
        seq![
            (if m < 0 {
                m + 0x100
            } else {
                m as int
            }) as u8,
        ]
    }

    open spec fn parse(b: Seq<u8>) -> Result<(i8, int), BinError> {
        if b.len() == 0 {
            Err(BinError::UnexpectedEof)
        } else if b[0] < 0x80 {
            Ok((b[0] as i8, 1))
        } else {
            Ok(((b[0] - 0x100) as i8, 1))
        }
    }

    fn read_binary(r: &mut BinaryReader<'_>) -> (res: Result<i8, BinError>) {
        match r.byte() {
            Ok(b) => {
                if b < 0x80 {
                    Ok(b as i8)
                } else {
                    Ok((b as i16 - 0x100) as i8)
                }
            },
            Err(e) => Err(e),
        }
    }

    fn write_binary(&self, out: &mut Vec<u8>) {
        let v: i16 = *self as i16;
        out.push(
            if v < 0 {
                (v + 0x100) as u8
            } else {
                v as u8
            },
        );
        assert(out@ =~= old(out)@ + Self::bytes(*self));
    }

    proof fn lemma_round_trip(m: i8, rest: Seq<u8>) {
    }

    proof fn lemma_parse_len(b: Seq<u8>) {
    }
}

impl BinaryData for bool {
    type Model = bool;

    open spec fn model(&self) -> bool {
        *self
    }

    open spec fn encodable(m: bool) -> bool {
        true
    }

    open spec fn bytes(m: bool) -> Seq<u8> {
        seq![
            if m {
                1u8
            } else {
                0u8
            },
        ]
    }

    open spec fn parse(b: Seq<u8>) -> Result<(bool, int), BinError> {
        if b.len() == 0 {
            Err(BinError::UnexpectedEof)
        } else {
            Ok((b[0] == 1, 1))
        }
    }

    fn read_binary(r: &mut BinaryReader<'_>) -> (res: Result<bool, BinError>) {
        match r.byte() {
            Ok(b) => Ok(b == 1),
            Err(e) => Err(e),
        }
    }

    fn write_binary(&self, out: &mut Vec<u8>) {
        out.push(
            if *self {
                1u8
            } else {
                0u8
            },
        );
        assert(out@ =~= old(out)@ + Self::bytes(*self));
    }

    proof fn lemma_round_trip(m: bool, rest: Seq<u8>) {
    }

    proof fn lemma_parse_len(b: Seq<u8>) {
    }
}

impl BinaryData for u16 {
    type Model = u16;

    open spec fn model(&self) -> u16 {
        *self
    }

    open spec fn encodable(m: u16) -> bool {
        true
    }

    open spec fn bytes(m: u16) -> Seq<u8> {
        le_bytes(m as nat, 2)
    }

    open spec fn parse(b: Seq<u8>) -> Result<(u16, int), BinError> {
        if b.len() < 2 {
            Err(BinError::UnexpectedEof)
        } else {
            Ok((le_value(b.take(2)) as u16, 2))
        }
    }

    fn read_binary(r: &mut BinaryReader<'_>) -> (res: Result<u16, BinError>) {
        match r.take(2) {
            Ok(s) => {
                proof {
                    lemma_le_value_two(s@);
                }
                Ok(s[0] as u16 + 0x100 * (s[1] as u16))
            },
            Err(e) => Err(e),
        }
    }

    fn write_binary(&self, out: &mut Vec<u8>) {
        let v: u16 = *self;
        out.push((v % 256) as u8);
        out.push((v / 256 % 256) as u8);
        proof {
            lemma_le_bytes_two(v as nat);
            assert(out@ =~= old(out)@ + Self::bytes(v));
        }
    }

    proof fn lemma_round_trip(m: u16, rest: Seq<u8>) {
        lemma_le_bytes_two(m as nat);
        let b = Self::bytes(m) + rest;
        assert(b.take(2) =~= Self::bytes(m));
        lemma_le_value_two(b.take(2));
    }

    proof fn lemma_parse_len(b: Seq<u8>) {
    }
}

impl BinaryData for u32 {
    type Model = u32;

    open spec fn model(&self) -> u32 {
        *self
    }

    open spec fn encodable(m: u32) -> bool {
        true
    }

    open spec fn bytes(m: u32) -> Seq<u8> {
        le_bytes(m as nat, 4)
    }

    open spec fn parse(b: Seq<u8>) -> Result<(u32, int), BinError> {
        if b.len() < 4 {
            Err(BinError::UnexpectedEof)
        } else {
            Ok((le_value(b.take(4)) as u32, 4))
        }
    }

    fn read_binary(r: &mut BinaryReader<'_>) -> (res: Result<u32, BinError>) {
        match r.take(4) {
            Ok(s) => {
                proof {
                    lemma_le_value_four(s@);
                }
                Ok(
                    s[0] as u32 + 0x100 * (s[1] as u32) + 0x10000 * (s[2] as u32) + 0x1000000 * (
                    s[3] as u32),
                )
            },
            Err(e) => Err(e),
        }
    }

    fn write_binary(&self, out: &mut Vec<u8>) {
        let v: u32 = *self;
        out.push((v % 256) as u8);
        out.push((v / 256 % 256) as u8);
        out.push((v / 0x10000 % 256) as u8);
        out.push((v / 0x1000000 % 256) as u8);
        proof {
            lemma_le_bytes_four(v as nat);
            assert(out@ =~= old(out)@ + Self::bytes(v));
        }
    }

    proof fn lemma_round_trip(m: u32, rest: Seq<u8>) {
        lemma_le_bytes_four(m as nat);
        let b = Self::bytes(m) + rest;
        assert(b.take(4) =~= Self::bytes(m));
        lemma_le_value_four(b.take(4));
    }

    proof fn lemma_parse_len(b: Seq<u8>) {
    }
}

/// The unsigned number with the bits of the two's complement of `v`.
pub open spec fn unsigned32(v: i32) -> u32 {
    (if v < 0 {
        v + 0x1_0000_0000
    } else {
        v as int
    }) as u32
}

/// The signed number whose two's complement has the bits of `v`.
pub open spec fn signed32(v: u32) -> i32 {
    (if v < 0x8000_0000 {
        v as int
    } else {
        v - 0x1_0000_0000
    }) as i32
}

/// The bits of a signed number as an unsigned one.
pub fn to_unsigned32(v: i32) -> (res: u32)
    ensures
        res == unsigned32(v),
{
    if v < 0 {
        (v as i64 + 0x1_0000_0000) as u32
    } else {
        v as u32
    }
}

/// The signed number with the bits of an unsigned one.
pub fn to_signed32(v: u32) -> (res: i32)
    ensures
        res == signed32(v),
{
    if v < 0x8000_0000 {
        v as i32
    } else {
        (v as i64 - 0x1_0000_0000) as i32
    }
}

impl BinaryData for i32 {
    type Model = i32;

    open spec fn model(&self) -> i32 {
        *self
    }

    open spec fn encodable(m: i32) -> bool {
        true
    }

    open spec fn bytes(m: i32) -> Seq<u8> {
        u32::bytes(unsigned32(m))
    }

    open spec fn parse(b: Seq<u8>) -> Result<(i32, int), BinError> {
        match u32::parse(b) {
            Ok((v, n)) => Ok((signed32(v), n)),
            Err(e) => Err(e),
        }
    }

    fn read_binary(r: &mut BinaryReader<'_>) -> (res: Result<i32, BinError>) {
        match u32::read_binary(r) {
            Ok(v) => Ok(to_signed32(v)),
            Err(e) => Err(e),
        }
    }

    fn write_binary(&self, out: &mut Vec<u8>) {
        to_unsigned32(*self).write_binary(out)
    }

    proof fn lemma_round_trip(m: i32, rest: Seq<u8>) {
        u32::lemma_round_trip(unsigned32(m), rest);
    }

    proof fn lemma_parse_len(b: Seq<u8>) {
    }
}

impl BinaryData for () {
    type Model = ();

    open spec fn model(&self) -> () {
        ()
    }

    open spec fn encodable(m: ()) -> bool {
        true
    }

    open spec fn bytes(m: ()) -> Seq<u8> {
        Seq::empty()
    }

    open spec fn parse(b: Seq<u8>) -> Result<((), int), BinError> {
        Ok(((), 0))
    }

    fn read_binary(r: &mut BinaryReader<'_>) -> (res: Result<(), BinError>) {
        assert(r@.skip(0) =~= r@);
        Ok(())
    }

    fn write_binary(&self, out: &mut Vec<u8>) {
        assert(out@ =~= out@ + Seq::<u8>::empty());
    }

    proof fn lemma_round_trip(m: (), rest: Seq<u8>) {
    }

    proof fn lemma_parse_len(b: Seq<u8>) {
    }
}

/// The pairs that are read back as they were written.
#[verifier::opaque]
pub open spec fn pair_encodable<A: BinaryData, B: BinaryData>(m: (A::Model, B::Model)) -> bool {
    A::encodable(m.0) && B::encodable(m.1)
}

/// The encoding of a pair: that of its first value, and then that of its second.
#[verifier::opaque]
pub open spec fn pair_bytes<A: BinaryData, B: BinaryData>(m: (A::Model, B::Model)) -> Seq<u8> {
    A::bytes(m.0) + B::bytes(m.1)
}

/// The pair at the front of `b`.
#[verifier::opaque]
pub open spec fn parse_pair<A: BinaryData, B: BinaryData>(b: Seq<u8>) -> Result<
    ((A::Model, B::Model), int),
    BinError,
> {
    match A::parse(b) {
        Ok((x, n)) => match B::parse(b.skip(n)) {
            Ok((y, k)) => Ok(((x, y), n + k)),
            Err(e) => Err(e),
        },
        Err(e) => Err(e),
    }
}

impl<A: BinaryData, B: BinaryData> BinaryData for (A, B) {
    type Model = (A::Model, B::Model);

    open spec fn model(&self) -> (A::Model, B::Model) {
        (self.0.model(), self.1.model())
    }

    open spec fn encodable(m: (A::Model, B::Model)) -> bool {
        pair_encodable::<A, B>(m)
    }

    open spec fn bytes(m: (A::Model, B::Model)) -> Seq<u8> {
        pair_bytes::<A, B>(m)
    }

    open spec fn parse(b: Seq<u8>) -> Result<((A::Model, B::Model), int), BinError> {
        parse_pair::<A, B>(b)
    }

    fn read_binary(r: &mut BinaryReader<'_>) -> (res: Result<(A, B), BinError>) {
        reveal(parse_pair);
        let ghost start = r@;
        let x = match A::read_binary(r) {
            Ok(x) => x,
            Err(e) => {
                return Err(e);
            },
        };
        let ghost middle = r@;
        let y = match B::read_binary(r) {
            Ok(y) => y,
            Err(e) => {
                return Err(e);
            },
        };
        proof {
            A::lemma_parse_len(start);
            B::lemma_parse_len(middle);
            let n = A::parse(start)->Ok_0.1;
            let k = B::parse(middle)->Ok_0.1;
            assert(start.skip(n).skip(k) =~= start.skip(n + k));
        }
        Ok((x, y))
    }

    fn write_binary(&self, out: &mut Vec<u8>) {
        write2(&self.0, &self.1, out);
    }

    proof fn lemma_round_trip(m: (A::Model, B::Model), rest: Seq<u8>) {
        reveal(pair_encodable);
        reveal(pair_bytes);
        reveal(parse_pair);
        let b = Self::bytes(m) + rest;
        assert(b =~= A::bytes(m.0) + (B::bytes(m.1) + rest));
        A::lemma_round_trip(m.0, B::bytes(m.1) + rest);
        B::lemma_round_trip(m.1, rest);
        assert(b.skip(A::bytes(m.0).len() as int) =~= B::bytes(m.1) + rest);
    }

    proof fn lemma_parse_len(b: Seq<u8>) {
        reveal(parse_pair);
        A::lemma_parse_len(b);
        if let Ok((_, n)) = A::parse(b) {
            B::lemma_parse_len(b.skip(n));
        }
    }
}

/// Appends two values, as the pair of them.
pub fn write2<A: BinaryData, B: BinaryData>(a: &A, b: &B, out: &mut Vec<u8>)
    ensures
        final(out)@ == old(out)@ + <(A, B) as BinaryData>::bytes((a.model(), b.model())),
{
    reveal(pair_bytes);
    a.write_binary(out);
    b.write_binary(out);
    assert(out@ =~= old(out)@ + pair_bytes::<A, B>((a.model(), b.model())));
}

/// Appends three values, as nested pairs of them.
pub fn write3<
    A: BinaryData,
    B: BinaryData,
    C: BinaryData,
>(
    a: &A,
    b: &B,
    c: &C,
    out: &mut Vec<u8>,
)
    ensures
        final(out)@ == old(out)@ + <(A, (B, C)) as BinaryData>::bytes(
            (a.model(), (b.model(), c.model())),
        ),
{
    reveal(pair_bytes);
    a.write_binary(out);
    write2(b, c, out);
    assert(out@ =~= old(out)@ + <(A, (B, C)) as BinaryData>::bytes(
        (a.model(), (b.model(), c.model())),
    ));
}

/// Appends four values, as nested pairs of them.
pub fn write4<
    A: BinaryData,
    B: BinaryData,
    C: BinaryData,
    D: BinaryData,
>(
    a: &A,
    b: &B,
    c: &C,
    d: &D,
    out: &mut Vec<u8>,
)
    ensures
        final(out)@ == old(out)@ + <(A, (B, (C, D))) as BinaryData>::bytes(
            (a.model(), (b.model(), (c.model(), d.model()))),
        ),
{
    reveal(pair_bytes);
    a.write_binary(out);
    write3(b, c, d, out);
    assert(out@ =~= old(out)@ + <(A, (B, (C, D))) as BinaryData>::bytes(
        (a.model(), (b.model(), (c.model(), d.model()))),
    ));
}

/// Appends five values, as nested pairs of them.
pub fn write5<
    A: BinaryData,
    B: BinaryData,
    C: BinaryData,
    D: BinaryData,
    E: BinaryData,
>(
    a: &A,
    b: &B,
    c: &C,
    d: &D,
    e: &E,
    out: &mut Vec<u8>,
)
    ensures
        final(out)@ == old(out)@ + <(A, (B, (C, (D, E)))) as BinaryData>::bytes(
            (a.model(), (b.model(), (c.model(), (d.model(), e.model())))),
        ),
{
    reveal(pair_bytes);
    a.write_binary(out);
    write4(b, c, d, e, out);
    assert(out@ =~= old(out)@ + <(A, (B, (C, (D, E)))) as BinaryData>::bytes(
        (a.model(), (b.model(), (c.model(), (d.model(), e.model())))),
    ));
}

/// Appends six values, as nested pairs of them.
pub fn write6<
    A: BinaryData,
    B: BinaryData,
    C: BinaryData,
    D: BinaryData,
    E: BinaryData,
    F: BinaryData,
>(
    a: &A,
    b: &B,
    c: &C,
    d: &D,
    e: &E,
    f: &F,
    out: &mut Vec<u8>,
)
    ensures
        final(out)@ == old(out)@ + <(A, (B, (C, (D, (E, F))))) as BinaryData>::bytes(
            (a.model(), (b.model(), (c.model(), (d.model(), (e.model(), f.model()))))),
        ),
{
    reveal(pair_bytes);
    a.write_binary(out);
    write5(b, c, d, e, f, out);
    assert(out@ =~= old(out)@ + <(A, (B, (C, (D, (E, F))))) as BinaryData>::bytes(
        (a.model(), (b.model(), (c.model(), (d.model(), (e.model(), f.model()))))),
    ));
}

/// Appends seven values, as nested pairs of them.
pub fn write7<
    A: BinaryData,
    B: BinaryData,
    C: BinaryData,
    D: BinaryData,
    E: BinaryData,
    F: BinaryData,
    G: BinaryData,
>(
    a: &A,
    b: &B,
    c: &C,
    d: &D,
    e: &E,
    f: &F,
    g: &G,
    out: &mut Vec<u8>,
)
    ensures
        final(out)@ == old(out)@ + <(A, (B, (C, (D, (E, (F, G)))))) as BinaryData>::bytes(
            (a.model(), (b.model(), (c.model(), (d.model(), (e.model(), (f.model(), g.model())))))),
        ),
{
    reveal(pair_bytes);
    a.write_binary(out);
    write6(b, c, d, e, f, g, out);
    assert(out@ =~= old(out)@ + <(A, (B, (C, (D, (E, (F, G)))))) as BinaryData>::bytes(
        (a.model(), (b.model(), (c.model(), (d.model(), (e.model(), (f.model(), g.model())))))),
    ));
}

/// Appends eight values, as nested pairs of them.
pub fn write8<
    A: BinaryData,
    B: BinaryData,
    C: BinaryData,
    D: BinaryData,
    E: BinaryData,
    F: BinaryData,
    G: BinaryData,
    H: BinaryData,
>(
    a: &A,
    b: &B,
    c: &C,
    d: &D,
    e: &E,
    f: &F,
    g: &G,
    h: &H,
    out: &mut Vec<u8>,
)
    ensures
        final(out)@ == old(out)@ + <(A, (B, (C, (D, (E, (F, (G, H))))))) as BinaryData>::bytes(
            (a.model(), (b.model(), (c.model(), (d.model(), (e.model(), (f.model(), (g.model(), h.model()))))))),
        ),
{
    reveal(pair_bytes);
    a.write_binary(out);
    write7(b, c, d, e, f, g, h, out);
    assert(out@ =~= old(out)@ + <(A, (B, (C, (D, (E, (F, (G, H))))))) as BinaryData>::bytes(
        (a.model(), (b.model(), (c.model(), (d.model(), (e.model(), (f.model(), (g.model(), h.model()))))))),
    ));
}

/// Appends nine values, as nested pairs of them.
pub fn write9<
    A: BinaryData,
    B: BinaryData,
    C: BinaryData,
    D: BinaryData,
    E: BinaryData,
    F: BinaryData,
    G: BinaryData,
    H: BinaryData,
    I: BinaryData,
>(
    a: &A,
    b: &B,
    c: &C,
    d: &D,
    e: &E,
    f: &F,
    g: &G,
    h: &H,
    i: &I,
    out: &mut Vec<u8>,
)
    ensures
        final(out)@ == old(out)@ + <(A, (B, (C, (D, (E, (F, (G, (H, I)))))))) as BinaryData>::bytes(
            (a.model(), (b.model(), (c.model(), (d.model(), (e.model(), (f.model(), (g.model(), (h.model(), i.model())))))))),
        ),
{
    reveal(pair_bytes);
    a.write_binary(out);
    write8(b, c, d, e, f, g, h, i, out);
    assert(out@ =~= old(out)@ + <(A, (B, (C, (D, (E, (F, (G, (H, I)))))))) as BinaryData>::bytes(
        (a.model(), (b.model(), (c.model(), (d.model(), (e.model(), (f.model(), (g.model(), (h.model(), i.model())))))))),
    ));
}

/// Whether this optional value is read back as it was written.
#[verifier::opaque]
pub open spec fn option_encodable<T: BinaryData>(m: Option<T::Model>) -> bool {
    m matches Some(x) ==> T::encodable(x)
}

/// The encoding of this optional value.
#[verifier::opaque]
pub open spec fn option_bytes<T: BinaryData>(m: Option<T::Model>) -> Seq<u8> {
    match m {
        Some(x) => bool::bytes(true) + T::bytes(x),
        None => bool::bytes(false),
    }
}

/// The optional value at the front of `b`.
#[verifier::opaque]
pub open spec fn parse_option<T: BinaryData>(b: Seq<u8>) -> Result<(Option<T::Model>, int), BinError> {
    match bool::parse(b) {
        Ok((true, _)) => match T::parse(b.skip(1)) {
            Ok((x, n)) => Ok((Some(x), n + 1)),
            Err(e) => Err(e),
        },
        Ok((false, _)) => Ok((None, 1)),
        Err(e) => Err(e),
    }
}

impl<T: BinaryData> BinaryData for Option<T> {
    type Model = Option<T::Model>;

    open spec fn model(&self) -> Option<T::Model> {
        match *self {
            Some(x) => Some(x.model()),
            None => None,
        }
    }

    open spec fn encodable(m: Option<T::Model>) -> bool {
        option_encodable::<T>(m)
    }

    open spec fn bytes(m: Option<T::Model>) -> Seq<u8> {
        option_bytes::<T>(m)
    }

    open spec fn parse(b: Seq<u8>) -> Result<(Option<T::Model>, int), BinError> {
        parse_option::<T>(b)
    }

    fn read_binary(r: &mut BinaryReader<'_>) -> (res: Result<Option<T>, BinError>) {
        reveal(parse_option);
        let ghost start = r@;
        let present: bool = match bool::read_binary(r) {
            Ok(x) => x,
            Err(e) => {
                return Err(e);
            },
        };
        if !present {
            return Ok(None);
        }
        match T::read_binary(r) {
            Ok(x) => {
                proof {
                    T::lemma_parse_len(start.skip(1));
                    let n = T::parse(start.skip(1))->Ok_0.1;
                    assert(start.skip(1).skip(n) =~= start.skip(n + 1));
                }
                Ok(Some(x))
            },
            Err(e) => Err(e),
        }
    }

    fn write_binary(&self, out: &mut Vec<u8>) {
        reveal(option_bytes);
        match self {
            Some(x) => {
                true.write_binary(out);
                x.write_binary(out);
                assert(out@ =~= old(out)@ + Self::bytes(self.model()));
            },
            None => {
                false.write_binary(out);
            },
        }
    }

    proof fn lemma_round_trip(m: Option<T::Model>, rest: Seq<u8>) {
        reveal(option_encodable);
        reveal(option_bytes);
        reveal(parse_option);
        let b = Self::bytes(m) + rest;
        if let Some(x) = m {
            assert(b.skip(1) =~= T::bytes(x) + rest);
            T::lemma_round_trip(x, rest);
        }
    }

    proof fn lemma_parse_len(b: Seq<u8>) {
        reveal(parse_option);
        if b.len() > 0 {
            T::lemma_parse_len(b.skip(1));
        }
    }
}

/// Whether this result is read back as it was written.
#[verifier::opaque]
pub open spec fn result_encodable<T: BinaryData, E: BinaryData>(m: Result<T::Model, E::Model>) -> bool {
    match m {
        Ok(x) => T::encodable(x),
        Err(x) => E::encodable(x),
    }
}

/// The encoding of this result.
#[verifier::opaque]
pub open spec fn result_bytes<T: BinaryData, E: BinaryData>(m: Result<T::Model, E::Model>) -> Seq<u8> {
    match m {
        Ok(x) => bool::bytes(true) + T::bytes(x),
        Err(x) => bool::bytes(false) + E::bytes(x),
    }
}

/// The result at the front of `b`.
#[verifier::opaque]
pub open spec fn parse_result<T: BinaryData, E: BinaryData>(b: Seq<u8>) -> Result<(Result<T::Model, E::Model>, int), BinError> {
    match bool::parse(b) {
        Ok((true, _)) => match T::parse(b.skip(1)) {
            Ok((x, n)) => Ok((Ok(x), n + 1)),
            Err(e) => Err(e),
        },
        Ok((false, _)) => match E::parse(b.skip(1)) {
            Ok((x, n)) => Ok((Err(x), n + 1)),
            Err(e) => Err(e),
        },
        Err(e) => Err(e),
    }
}

impl<T: BinaryData, E: BinaryData> BinaryData for Result<T, E> {
    type Model = Result<T::Model, E::Model>;

    open spec fn model(&self) -> Result<T::Model, E::Model> {
        match *self {
            Ok(x) => Ok(x.model()),
            Err(x) => Err(x.model()),
        }
    }

    open spec fn encodable(m: Result<T::Model, E::Model>) -> bool {
        result_encodable::<T, E>(m)
    }

    open spec fn bytes(m: Result<T::Model, E::Model>) -> Seq<u8> {
        result_bytes::<T, E>(m)
    }

    open spec fn parse(b: Seq<u8>) -> Result<(Result<T::Model, E::Model>, int), BinError> {
        parse_result::<T, E>(b)
    }

    fn read_binary(r: &mut BinaryReader<'_>) -> (res: Result<Result<T, E>, BinError>) {
        reveal(parse_result);
        let ghost start = r@;
        let good: bool = match bool::read_binary(r) {
            Ok(x) => x,
            Err(e) => {
                return Err(e);
            },
        };
        if good {
            match T::read_binary(r) {
                Ok(x) => {
                    proof {
                        T::lemma_parse_len(start.skip(1));
                        let n = T::parse(start.skip(1))->Ok_0.1;
                        assert(start.skip(1).skip(n) =~= start.skip(n + 1));
                    }
                    Ok(Ok(x))
                },
                Err(e) => Err(e),
            }
        } else {
            match E::read_binary(r) {
                Ok(x) => {
                    proof {
                        E::lemma_parse_len(start.skip(1));
                        let n = E::parse(start.skip(1))->Ok_0.1;
                        assert(start.skip(1).skip(n) =~= start.skip(n + 1));
                    }
                    Ok(Err(x))
                },
                Err(e) => Err(e),
            }
        }
    }

    fn write_binary(&self, out: &mut Vec<u8>) {
        reveal(result_bytes);
        match self {
            Ok(x) => {
                true.write_binary(out);
                x.write_binary(out);
                assert(out@ =~= old(out)@ + Self::bytes(self.model()));
            },
            Err(x) => {
                false.write_binary(out);
                x.write_binary(out);
                assert(out@ =~= old(out)@ + Self::bytes(self.model()));
            },
        }
    }

    proof fn lemma_round_trip(m: Result<T::Model, E::Model>, rest: Seq<u8>) {
        reveal(result_encodable);
        reveal(result_bytes);
        reveal(parse_result);
        let b = Self::bytes(m) + rest;
        match m {
            Ok(x) => {
                assert(b.skip(1) =~= T::bytes(x) + rest);
                T::lemma_round_trip(x, rest);
            },
            Err(x) => {
                assert(b.skip(1) =~= E::bytes(x) + rest);
                E::lemma_round_trip(x, rest);
            },
        }
    }

    proof fn lemma_parse_len(b: Seq<u8>) {
        reveal(parse_result);
        if b.len() > 0 {
            T::lemma_parse_len(b.skip(1));
            E::lemma_parse_len(b.skip(1));
        }
    }
}

/// The encodings of the elements of a list, one after the other.
pub open spec fn list_bytes<T: BinaryData>(s: Seq<T::Model>) -> Seq<u8>
    decreases s.len(),
{
    if s.len() == 0 {
        Seq::empty()
    } else {
        T::bytes(s[0]) + list_bytes::<T>(s.skip(1))
    }
}

/// The first `count` elements at the front of `b` and the number of bytes they take.
pub open spec fn parse_list<T: BinaryData>(b: Seq<u8>, count: nat) -> Result<
    (Seq<T::Model>, int),
    BinError,
>
    decreases count,
{
    if count == 0 {
        Ok((Seq::empty(), 0))
    } else {
        match T::parse(b) {
            Ok((x, n)) => match parse_list::<T>(b.skip(n), (count - 1) as nat) {
                Ok((rest, k)) => Ok((seq![x] + rest, n + k)),
                Err(e) => Err(e),
            },
            Err(e) => Err(e),
        }
    }
}

/// The elements of a list are read back from their encodings.
pub proof fn lemma_list_round_trip<T: BinaryData>(s: Seq<T::Model>, rest: Seq<u8>)
    requires
        forall|i: int| 0 <= i < s.len() ==> T::encodable(#[trigger] s[i]),
    ensures
        parse_list::<T>(list_bytes::<T>(s) + rest, s.len()) == Ok::<
            (Seq<T::Model>, int),
            BinError,
        >((s, list_bytes::<T>(s).len() as int)),
    decreases s.len(),
{
    let b = list_bytes::<T>(s) + rest;
    if s.len() == 0 {
        assert(s =~= Seq::empty());
    } else {
        let tail = s.skip(1);
        assert(b =~= T::bytes(s[0]) + (list_bytes::<T>(tail) + rest));
        assert(T::encodable(s[0]));
        T::lemma_round_trip(s[0], list_bytes::<T>(tail) + rest);
        assert forall|i: int| 0 <= i < tail.len() implies T::encodable(#[trigger] tail[i]) by {
            assert(tail[i] == s[i + 1]);
        }
        lemma_list_round_trip::<T>(tail, rest);
        assert(b.skip(T::bytes(s[0]).len() as int) =~= list_bytes::<T>(tail) + rest);
        assert(seq![s[0]] + tail =~= s);
    }
}

/// The elements of a list take no more bytes than there are, and are as many as asked for.
pub proof fn lemma_parse_list_len<T: BinaryData>(b: Seq<u8>, count: nat)
    ensures
        parse_list::<T>(b, count) matches Ok((s, n)) ==> 0 <= n <= b.len() && s.len() == count,
    decreases count,
{
    if count > 0 {
        T::lemma_parse_len(b);
        if let Ok((_, n)) = T::parse(b) {
            lemma_parse_list_len::<T>(b.skip(n), (count - 1) as nat);
        }
    }
}

/// What the elements of a list mean.
pub open spec fn models<T: BinaryData>(s: Seq<T>) -> Seq<T::Model> {
    Seq::new(s.len(), |i: int| s[i].model())
}

/// Appends the elements of a list.
pub fn write_list<T: BinaryData>(items: &Vec<T>, out: &mut Vec<u8>)
    ensures
        final(out)@ == old(out)@ + list_bytes::<T>(models(items@)),
{
    let ghost start = out@;
    let ghost all = models(items@);
    let mut i: usize = 0;
    assert(all.skip(0) =~= all);
    while i < items.len()
        invariant
            i <= items.len(),
            all == models(items@),
            out@ + list_bytes::<T>(all.skip(i as int)) == start + list_bytes::<T>(all),
        decreases items.len() - i,
    {
        let ghost before = out@;
        items[i].write_binary(out);
        proof {
            let here = all.skip(i as int);
            assert(here.skip(1) =~= all.skip(i + 1));
            assert(here[0] == items@[i as int].model());
            assert(out@ + list_bytes::<T>(all.skip(i + 1)) =~= before + list_bytes::<T>(here));
        }
        i += 1;
    }
    assert(all.skip(i as int) =~= Seq::empty());
    assert(out@ =~= start + list_bytes::<T>(all));
}

/// Reads `count` elements.
pub fn read_list<T: BinaryData>(r: &mut BinaryReader<'_>, count: u64) -> (res: Result<
    Vec<T>,
    BinError,
>)
    ensures
        match parse_list::<T>(old(r)@, count as nat) {
            Ok((s, n)) => (res matches Ok(v) && models(v@) == s) && final(r)@ == old(r)@.skip(n),
            Err(e) => res matches Err(f) && f == e,
        },
{
    let ghost start = r@;
    let mut items: Vec<T> = Vec::new();
    let mut i: u64 = 0;
    let ghost mut pos: int = 0;
    proof {
        assert(start.skip(0) =~= start);
        lemma_parse_list_len::<T>(start, count as nat);
        match parse_list::<T>(start, count as nat) {
            Ok((s, n)) => {
                assert(models(items@) + s =~= s);
            },
            Err(_) => {},
        }
    }
    while i < count
        invariant
            i <= count,
            start == old(r)@,
            items.len() == i,
            0 <= pos <= start.len(),
            r@ == start.skip(pos),
            parse_list::<T>(start, count as nat) == (match parse_list::<T>(
                r@,
                (count - i) as nat,
            ) {
                Ok((s, n)) => Ok::<(Seq<T::Model>, int), BinError>(
                    (models(items@) + s, pos + n),
                ),
                Err(e) => Err(e),
            }),
        decreases count - i,
    {
        let ghost here = r@;
        let ghost before = items@;
        let x = match T::read_binary(r) {
            Ok(x) => x,
            Err(e) => {
                return Err(e);
            },
        };
        items.push(x);
        proof {
            T::lemma_parse_len(here);
            let n = T::parse(here)->Ok_0.1;
            assert(here.skip(n) =~= start.skip(pos + n));
            pos = pos + n;
            match parse_list::<T>(r@, (count - i - 1) as nat) {
                Ok((s, k)) => {
                    assert(models(items@) + s =~= models(before) + (seq![x.model()] + s));
                },
                Err(_) => {},
            }
        }
        i += 1;
    }
    assert(models(items@) + Seq::<T::Model>::empty() =~= models(items@));
    Ok(items)
}

/// Whether this list is read back as it was written.
#[verifier::opaque]
pub open spec fn vec_encodable<T: BinaryData>(m: Seq<T::Model>) -> bool {
    &&& m.len() <= u64::MAX
    &&& forall|i: int| 0 <= i < m.len() ==> T::encodable(#[trigger] m[i])
}

/// The encoding of this list.
#[verifier::opaque]
pub open spec fn vec_bytes<T: BinaryData>(m: Seq<T::Model>) -> Seq<u8> {
    uleb_bytes(m.len()) + list_bytes::<T>(m)
}

/// The list at the front of `b`.
#[verifier::opaque]
pub open spec fn parse_vec<T: BinaryData>(b: Seq<u8>) -> Result<(Seq<T::Model>, int), BinError> {
    match parse_uleb(b) {
        Ok((count, n)) => match parse_list::<T>(b.skip(n), count as nat) {
            Ok((s, k)) => Ok((s, n + k)),
            Err(e) => Err(e),
        },
        Err(e) => Err(e),
    }
}

impl<T: BinaryData> BinaryData for Vec<T> {
    type Model = Seq<T::Model>;

    open spec fn model(&self) -> Seq<T::Model> {
        models(self@)
    }

    open spec fn encodable(m: Seq<T::Model>) -> bool {
        vec_encodable::<T>(m)
    }

    open spec fn bytes(m: Seq<T::Model>) -> Seq<u8> {
        vec_bytes::<T>(m)
    }

    open spec fn parse(b: Seq<u8>) -> Result<(Seq<T::Model>, int), BinError> {
        parse_vec::<T>(b)
    }

    fn read_binary(r: &mut BinaryReader<'_>) -> (res: Result<Vec<T>, BinError>) {
        reveal(parse_vec);
        let ghost start = r@;
        let count: u64 = match r.uleb() {
            Ok(n) => n,
            Err(e) => {
                return Err(e);
            },
        };
        proof {
            lemma_uleb_scan_len(start, uleb64_groups());
            lemma_parse_list_len::<T>(r@, count as nat);
            if let Ok((_, k)) = parse_list::<T>(r@, count as nat) {
                let n = parse_uleb(start)->Ok_0.1;
                assert(start.skip(n).skip(k) =~= start.skip(n + k));
            }
        }
        read_list::<T>(r, count)
    }

    fn write_binary(&self, out: &mut Vec<u8>) {
        reveal(vec_bytes);
        write_uleb(self.len() as u64, out);
        write_list(self, out);
        assert(out@ =~= old(out)@ + Self::bytes(self.model()));
    }

    proof fn lemma_round_trip(m: Seq<T::Model>, rest: Seq<u8>) {
        reveal(vec_encodable);
        reveal(vec_bytes);
        reveal(parse_vec);
        let b = Self::bytes(m) + rest;
        assert(b =~= uleb_bytes(m.len()) + (list_bytes::<T>(m) + rest));
        lemma_uleb64_round_trip(m.len() as u64, list_bytes::<T>(m) + rest);
        assert(b.skip(uleb_bytes(m.len()).len() as int) =~= list_bytes::<T>(m) + rest);
        lemma_list_round_trip::<T>(m, rest);
    }

    proof fn lemma_parse_len(b: Seq<u8>) {
        reveal(parse_vec);
        lemma_uleb_scan_len(b, uleb64_groups());
        if let Ok((count, n)) = parse_uleb(b) {
            lemma_parse_list_len::<T>(b.skip(n), count as nat);
        }
    }
}

impl<T: BinaryData> BinaryData for Arc<T> {
    type Model = T::Model;

    open spec fn model(&self) -> T::Model {
        (**self).model()
    }

    open spec fn encodable(m: T::Model) -> bool {
        T::encodable(m)
    }

    open spec fn bytes(m: T::Model) -> Seq<u8> {
        T::bytes(m)
    }

    open spec fn parse(b: Seq<u8>) -> Result<(T::Model, int), BinError> {
        T::parse(b)
    }

    fn read_binary(r: &mut BinaryReader<'_>) -> (res: Result<Arc<T>, BinError>) {
        match T::read_binary(r) {
            Ok(x) => Ok(Arc::new(x)),
            Err(e) => Err(e),
        }
    }

    fn write_binary(&self, out: &mut Vec<u8>) {
        (**self).write_binary(out)
    }

    proof fn lemma_round_trip(m: T::Model, rest: Seq<u8>) {
        T::lemma_round_trip(m, rest);
    }

    proof fn lemma_parse_len(b: Seq<u8>) {
        T::lemma_parse_len(b);
    }
}

/// The text that `String::from_utf8_lossy` makes of bytes.
pub uninterp spec fn lossy_text(b: Seq<u8>) -> Seq<char>;

/// The text of `bytes`, by `String::from_utf8_lossy`: the text that they encode where they
/// are valid UTF-8, and else one with a replacement character for each invalid sequence, of
/// which there is at least one. The rest of that text is only named.
#[verifier::external_body]
fn text_from_bytes(bytes: &[u8]) -> (res: String)
    ensures
        res@ == lossy_text(bytes@),
        valid_utf8(bytes@) ==> res@ == decode_utf8(bytes@),
        !valid_utf8(bytes@) ==> res@.contains('\u{FFFD}'),
{
    String::from_utf8_lossy(bytes).into_owned()
}

/// Reads a text of `len` bytes.
pub fn read_text(r: &mut BinaryReader<'_>, len: u64) -> (res: Result<String, BinError>)
    ensures
        if len > old(r)@.len() {
            res matches Err(e) && e == BinError::UnexpectedEof
        } else {
            (res matches Ok(s) && s@ == text_of(old(r)@.take(len as int))) && final(r)@ == old(
                r,
            )@.skip(len as int)
        },
        res matches Ok(s) ==> valid_utf8(old(r)@.take(len as int)) || s@.contains('\u{FFFD}'),
{
    match r.take(len) {
        Ok(s) => Ok(text_from_bytes(s)),
        Err(e) => Err(e),
    }
}

/// Whether this text is read back as it was written.
#[verifier::opaque]
pub open spec fn string_encodable(m: Seq<char>) -> bool {
    encode_utf8(m).len() <= u64::MAX
}

/// The encoding of this text.
#[verifier::opaque]
pub open spec fn string_bytes(m: Seq<char>) -> Seq<u8> {
    uleb_bytes(encode_utf8(m).len()) + encode_utf8(m)
}

/// The text at the front of `b`.
#[verifier::opaque]
pub open spec fn parse_string(b: Seq<u8>) -> Result<(Seq<char>, int), BinError> {
    match parse_uleb(b) {
        Ok((len, n)) => if len > b.len() - n {
            Err(BinError::UnexpectedEof)
        } else {
            Ok((text_of(b.subrange(n, n + len)), n + len))
        },
        Err(e) => Err(e),
    }
}

impl BinaryData for String {
    type Model = Seq<char>;

    open spec fn model(&self) -> Seq<char> {
        self@
    }

    open spec fn encodable(m: Seq<char>) -> bool {
        string_encodable(m)
    }

    open spec fn bytes(m: Seq<char>) -> Seq<u8> {
        string_bytes(m)
    }

    open spec fn parse(b: Seq<u8>) -> Result<(Seq<char>, int), BinError> {
        parse_string(b)
    }

    fn read_binary(r: &mut BinaryReader<'_>) -> (res: Result<String, BinError>) {
        reveal(parse_string);
        let ghost start = r@;
        let len: u64 = match r.uleb() {
            Ok(n) => n,
            Err(e) => {
                return Err(e);
            },
        };
        proof {
            lemma_uleb_scan_len(start, uleb64_groups());
        }
        match read_text(r, len) {
            Ok(s) => {
                proof {
                    let n = parse_uleb(start)->Ok_0.1;
                    assert(start.skip(n).take(len as int) =~= start.subrange(n, n + len));
                    assert(start.skip(n).skip(len as int) =~= start.skip(n + len));
                }
                Ok(s)
            },
            Err(e) => Err(e),
        }
    }

    fn write_binary(&self, out: &mut Vec<u8>) {
        reveal(string_bytes);
        let bytes = self.as_str().as_bytes();
        write_uleb(bytes.len() as u64, out);
        out.extend_from_slice(bytes);
        assert(out@ =~= old(out)@ + Self::bytes(self@));
    }

    proof fn lemma_round_trip(m: Seq<char>, rest: Seq<u8>) {
        reveal(string_encodable);
        reveal(string_bytes);
        reveal(parse_string);
        let e = encode_utf8(m);
        let b = Self::bytes(m) + rest;
        assert(b =~= uleb_bytes(e.len()) + (e + rest));
        lemma_uleb64_round_trip(e.len() as u64, e + rest);
        let n = uleb_bytes(e.len()).len() as int;
        assert(b.subrange(n, n + e.len()) =~= e);
        encode_utf8_valid_utf8(m);
        encode_utf8_decode_utf8(m);
    }

    proof fn lemma_parse_len(b: Seq<u8>) {
        reveal(parse_string);
        lemma_uleb_scan_len(b, uleb64_groups());
    }
}

/// The bytes of the text at the front of `b`.
pub open spec fn content(b: Seq<u8>) -> Seq<u8> {
    match parse_uleb(b) {
        Ok((len, n)) => b.subrange(n, n + len),
        Err(_) => Seq::empty(),
    }
}

/// The text that bytes stand for: what they encode where they are valid UTF-8.
pub open spec fn text_of(b: Seq<u8>) -> Seq<char> {
    if valid_utf8(b) {
        decode_utf8(b)
    } else {
        lossy_text(b)
    }
}

/// A number below the size of a word is what its four digits to the base of a byte make.
proof fn lemma_four_digits(v: int)
    requires
        0 <= v < 0x1_0000_0000,
    ensures
        v == v % 256 + 0x100 * (v / 256 % 256) + 0x1_0000 * (v / 0x1_0000 % 256) + 0x100_0000 * (v
            / 0x100_0000 % 256),
{
    let a = v / 256;
    let b = v / 0x1_0000;
    let c = v / 0x100_0000;
    assert(b == a / 256);
    assert(c == b / 256);
    assert(c % 256 == c);
    assert(v == 256 * a + v % 256);
    assert(a == 256 * b + a % 256);
    assert(b == 256 * c + b % 256);
}

/// How small numbers are written: in a byte, and a negative one as it is counted modulo the size
/// of a byte.
pub proof fn law_byte_bytes(a: u8, b: i8)
    ensures
        u8::bytes(a) == seq![a],
        i8::bytes(b).len() == 1,
        i8::bytes(b)[0] as int == b as int % 0x100,
{
    if b < 0 {
        assert(b as int % 0x100 == b + 0x100);
    }
}

/// How numbers without a sign are written: the lowest byte first.
#[verifier::spinoff_prover]
pub proof fn law_number_bytes(c: u16, d: u32)
    ensures
        u16::bytes(c).len() == 2,
        u16::bytes(c)[0] + 0x100 * u16::bytes(c)[1] == c,
        u32::bytes(d).len() == 4,
        u32::bytes(d)[0] + 0x100 * u32::bytes(d)[1] + 0x1_0000 * u32::bytes(d)[2] + 0x100_0000
            * u32::bytes(d)[3] == d,
{
    lemma_le_bytes_two(c as nat);
    lemma_le_bytes_four(d as nat);
    lemma_four_digits(d as int);
}

/// How numbers with a sign are written: as they are counted modulo the size of a word, the lowest
/// byte first.
#[verifier::spinoff_prover]
pub proof fn law_signed_bytes(e: i32)
    ensures
        i32::bytes(e).len() == 4,
        i32::bytes(e)[0] + 0x100 * i32::bytes(e)[1] + 0x1_0000 * i32::bytes(e)[2] + 0x100_0000
            * i32::bytes(e)[3] == e as int % 0x1_0000_0000,
{
    law_number_bytes(0, unsigned32(e));
    assert(unsigned32(e) as int == e as int % 0x1_0000_0000);
}

/// How truth is written, what may be there or not, what went well or did not, and two things one
/// after the other.
pub proof fn law_compound_bytes<A: BinaryData, B: BinaryData>(a: A::Model, b: B::Model)
    ensures
        bool::bytes(true) == seq![1u8],
        bool::bytes(false) == seq![0u8],
        <Option<A> as BinaryData>::bytes(None) == seq![0u8],
        <Option<A> as BinaryData>::bytes(Some(a)) == seq![1u8] + A::bytes(a),
        <Result<A, B> as BinaryData>::bytes(Ok(a)) == seq![1u8] + A::bytes(a),
        <Result<A, B> as BinaryData>::bytes(Err(b)) == seq![0u8] + B::bytes(b),
        <(A, B) as BinaryData>::bytes((a, b)) == A::bytes(a) + B::bytes(b),
{
    reveal(option_bytes);
    reveal(result_bytes);
    reveal(pair_bytes);
}

/// How a length is written: seven bits to a byte, the lowest first, and every byte but the last
/// with its highest bit set.
pub proof fn law_length_bytes(v: nat)
    ensures
        v < 128 ==> uleb_bytes(v) == seq![v as u8],
        v >= 128 ==> uleb_bytes(v).len() > 1 && uleb_bytes(v)[0] == 128 + v % 128 && uleb_bytes(
            v,
        ).skip(1) == uleb_bytes(v / 128),
{
    if v >= 128 {
        let low = seq![(v % 128 + 128) as u8];
        assert((low + uleb_bytes(v / 128)).skip(1) =~= uleb_bytes(v / 128));
        assert(uleb_bytes(v / 128).len() > 0);
    }
}

/// How a text is written: how many bytes it has, and then the bytes.
pub proof fn law_text_bytes(s: Seq<char>)
    ensures
        String::bytes(s) == uleb_bytes(encode_utf8(s).len()) + encode_utf8(s),
{
    reveal(string_bytes);
}

/// How a list is written: how many there are, and then each of them, in order.
pub proof fn law_list_bytes<T: BinaryData>(s: Seq<T::Model>, x: T::Model)
    ensures
        <Vec<T> as BinaryData>::bytes(s) == uleb_bytes(s.len()) + list_bytes::<T>(s),
        list_bytes::<T>(Seq::empty()) == Seq::<u8>::empty(),
        list_bytes::<T>(seq![x] + s) == T::bytes(x) + list_bytes::<T>(s),
{
    reveal(vec_bytes);
    let all = seq![x] + s;
    assert(all.skip(1) =~= s);
    assert(all[0] == x);
}

/// How numbers are read: from as many bytes as they take, the lowest first, and not at all from
/// fewer.
#[verifier::spinoff_prover]
pub proof fn law_numbers_read(b: Seq<u8>)
    ensures
        b.len() == 0 ==> u8::parse(b) is Err && i8::parse(b) is Err && bool::parse(b) is Err,
        b.len() > 0 ==> u8::parse(b) == Ok::<(u8, int), BinError>((b[0], 1int)),
        b.len() > 0 ==> bool::parse(b) == Ok::<(bool, int), BinError>((b[0] == 1, 1int)),
        b.len() > 0 ==> (i8::parse(b) matches Ok((v, n)) && n == 1 && (v - b[0]) % 0x100 == 0),
        b.len() < 2 ==> u16::parse(b) == Err::<(u16, int), BinError>(BinError::UnexpectedEof),
        b.len() >= 2 ==> (u16::parse(b) matches Ok((v, n)) && n == 2 && v == b[0] + 0x100 * b[1]),
        b.len() < 4 ==> u32::parse(b) == Err::<(u32, int), BinError>(BinError::UnexpectedEof),
        b.len() >= 4 ==> (u32::parse(b) matches Ok((v, n)) && n == 4 && v == b[0] + 0x100 * b[1]
            + 0x1_0000 * b[2] + 0x100_0000 * b[3]),
        b.len() < 4 ==> i32::parse(b) == Err::<(i32, int), BinError>(BinError::UnexpectedEof),
        b.len() >= 4 ==> (i32::parse(b) matches Ok((v, n)) && n == 4 && (v == b[0] + 0x100 * b[1]
            + 0x1_0000 * b[2] + 0x100_0000 * b[3] || v + 0x1_0000_0000 == b[0] + 0x100 * b[1]
            + 0x1_0000 * b[2] + 0x100_0000 * b[3])),
{
    if b.len() >= 2 {
        lemma_le_value_two(b.take(2));
    }
    if b.len() >= 4 {
        lemma_le_value_four(b.take(4));
    }
}

/// How what is made of parts is read: whether there is something first, and then what it is; two
/// things one after the other; and after a fault in one, none.
pub proof fn law_parts_read<A: BinaryData, B: BinaryData>(b: Seq<u8>)
    ensures
        b.len() == 0 ==> <Option<A> as BinaryData>::parse(b) is Err && <Result<
            A,
            B,
        > as BinaryData>::parse(b) is Err,
        b.len() > 0 && b[0] == 1 ==> (match A::parse(b.skip(1)) {
            Ok((x, n)) => <Option<A> as BinaryData>::parse(b) == Ok::<
                (Option<A::Model>, int),
                BinError,
            >((Some(x), n + 1)) && <Result<A, B> as BinaryData>::parse(b) == Ok::<
                (Result<A::Model, B::Model>, int),
                BinError,
            >((Ok(x), n + 1)),
            Err(e) => <Option<A> as BinaryData>::parse(b) == Err::<
                (Option<A::Model>, int),
                BinError,
            >(e),
        }),
        b.len() > 0 && b[0] != 1 ==> <Option<A> as BinaryData>::parse(b) == Ok::<
            (Option<A::Model>, int),
            BinError,
        >((None, 1int)) && (match B::parse(b.skip(1)) {
            Ok((x, n)) => <Result<A, B> as BinaryData>::parse(b) == Ok::<
                (Result<A::Model, B::Model>, int),
                BinError,
            >((Err(x), n + 1)),
            Err(e) => <Result<A, B> as BinaryData>::parse(b) is Err,
        }),
        match A::parse(b) {
            Ok((x, n)) => match B::parse(b.skip(n)) {
                Ok((y, k)) => <(A, B) as BinaryData>::parse(b) == Ok::<
                    ((A::Model, B::Model), int),
                    BinError,
                >(((x, y), n + k)),
                Err(e) => <(A, B) as BinaryData>::parse(b) is Err,
            },
            Err(e) => <(A, B) as BinaryData>::parse(b) == Err::<
                ((A::Model, B::Model), int),
                BinError,
            >(e),
        },
{
    reveal(parse_option);
    reveal(parse_result);
    reveal(parse_pair);
}

/// A length that does not come to an end is a fault after its last group, and an end of the bytes
/// before.
proof fn lemma_no_length_end(b: Seq<u8>, groups: nat)
    requires
        groups > 0,
        forall|i: int| 0 <= i < b.len() && i < groups ==> #[trigger] b[i] >= 128,
    ensures
        b.len() >= groups ==> uleb_scan(b, groups) == Err::<(nat, int), BinError>(
            BinError::InvalidLength,
        ),
        b.len() < groups ==> uleb_scan(b, groups) == Err::<(nat, int), BinError>(
            BinError::UnexpectedEof,
        ),
    decreases groups,
{
    if b.len() > 0 && groups > 1 {
        assert(b[0] >= 128);
        let c = b.skip(1);
        assert forall|i: int| 0 <= i < c.len() && i < groups - 1 implies #[trigger] c[i] >= 128 by {
            assert(c[i] == b[i + 1]);
        }
        lemma_no_length_end(c, (groups - 1) as nat);
    } else if b.len() > 0 {
        assert(b[0] >= 128);
    }
}

/// How a length is read: it ends with the first byte whose highest bit is not set, within ten.
pub proof fn law_lengths_read(b: Seq<u8>)
    ensures
        b.len() > 0 && b[0] < 128 ==> parse_uleb(b) == Ok::<(u64, int), BinError>(
            (b[0] as u64, 1int),
        ),
        b.len() > 1 && b[0] >= 128 && b[1] < 128 ==> parse_uleb(b) == Ok::<(u64, int), BinError>(
            ((b[0] - 128 + 128 * b[1]) as u64, 2int),
        ),
        b.len() >= 10 && (forall|i: int| 0 <= i < 10 ==> #[trigger] b[i] >= 128) ==> parse_uleb(b)
            == Err::<(u64, int), BinError>(BinError::InvalidLength),
        b.len() < 10 && (forall|i: int| 0 <= i < b.len() ==> #[trigger] b[i] >= 128)
            ==> parse_uleb(b) == Err::<(u64, int), BinError>(BinError::UnexpectedEof),
{
    if b.len() >= 10 && (forall|i: int| 0 <= i < 10 ==> #[trigger] b[i] >= 128) {
        lemma_no_length_end(b, 10);
    }
    if b.len() < 10 && (forall|i: int| 0 <= i < b.len() ==> #[trigger] b[i] >= 128) {
        lemma_no_length_end(b, 10);
    }
    if b.len() > 1 && b[0] >= 128 && b[1] < 128 {
        let c = b.skip(1);
        assert(c[0] == b[1]);
        assert(uleb_scan(c, 9) == Ok::<(nat, int), BinError>((b[1] as nat, 1int)));
    }
}

/// How a text is read: as many bytes as its length says, if there are so many.
pub proof fn law_texts_read(len: u64, body: Seq<u8>, rest: Seq<u8>)
    ensures
        body.len() < len ==> String::parse(uleb_bytes(len as nat) + body) == Err::<
            (Seq<char>, int),
            BinError,
        >(BinError::UnexpectedEof),
        body.len() == len && valid_utf8(body) ==> String::parse(
            uleb_bytes(len as nat) + body + rest,
        ) == Ok::<(Seq<char>, int), BinError>(
            (decode_utf8(body), (uleb_bytes(len as nat).len() + len) as int),
        ),
{
    reveal(parse_string);
    let h = uleb_bytes(len as nat);
    lemma_uleb64_round_trip(len, body);
    lemma_uleb64_round_trip(len, body + rest);
    let all = h + body + rest;
    assert(h + (body + rest) =~= all);
    if body.len() == len {
        assert(all.subrange(h.len() as int, h.len() + len) =~= body);
    }
}

/// What faults in bytes are called.
pub proof fn law_fault_words()
    ensures
        BinError::UnexpectedEof.text() == "unexpected EOF"@,
        BinError::InvalidLength.text() == "invalid length"@,
        BinError::StringTooLong.text() == "string too long"@,
        BinError::InvalidRoomId.text() == "invalid room id"@,
        BinError::InvalidVariant.text() == "invalid variant"@,
{
}

} // verus!
