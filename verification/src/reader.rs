//! Slice-based little-endian binary reader.
//!
//! A [`Reader`] is a cursor over a borrowed byte slice. Its view is the
//! sequence of bytes not yet consumed. Every parse step is specified by a
//! pure function on that sequence returning either the decoded value and the
//! number of bytes it consumed, or the error it reports.

use vstd::prelude::*;
use vstd::slice::slice_subrange;

use crate::error::ParseError;

verus! {

broadcast use {vstd::seq_lib::lemma_seq_skip_nothing, vstd::seq_lib::lemma_seq_skip_of_skip};

/// Outcome of a parse step: the value and the number of bytes consumed.
pub type Parsed<T> = Result<(T, int), ParseError>;

/// `after` is what remains of `before` once `n` bytes were consumed.
pub open spec fn consumed(before: Seq<u8>, after: Seq<u8>, n: int) -> bool {
    0 <= n <= before.len() && after == before.skip(n)
}

/// `after` is a suffix of `before`: the cursor only moved forward.
pub open spec fn moved_forward(before: Seq<u8>, after: Seq<u8>) -> bool {
    after.len() <= before.len() && after == before.skip(before.len() - after.len())
}

/// The executable result `r` and the cursor move from `before` to `after`
/// agree with the specified outcome `s`. On success the cursor advanced by
/// exactly the consumed count; on failure it only moved forward.
pub open spec fn agrees<T>(
    r: Result<T, ParseError>,
    before: Seq<u8>,
    after: Seq<u8>,
    s: Parsed<T>,
) -> bool {
    match s {
        Ok((v, n)) => r == Ok::<T, ParseError>(v) && consumed(before, after, n),
        Err(e) => r == Err::<T, ParseError>(e) && moved_forward(before, after),
    }
}

/// Reading `n` bytes from `s`.
pub open spec fn spec_take(s: Seq<u8>, n: int) -> Parsed<Seq<u8>> {
    if s.len() < n {
        Err(ParseError::Truncated { needed: n as usize, got: s.len() as usize })
    } else {
        Ok((s.take(n), n))
    }
}

pub open spec fn spec_u8(s: Seq<u8>) -> Parsed<u8> {
    if s.len() < 1 {
        Err(ParseError::Truncated { needed: 1, got: s.len() as usize })
    } else {
        Ok((s[0], 1))
    }
}

/// Little-endian value of the first two bytes.
pub open spec fn le16(s: Seq<u8>) -> int {
    s[0] + s[1] * 0x100
}

/// Little-endian value of the first four bytes.
pub open spec fn le32(s: Seq<u8>) -> int {
    s[0] + s[1] * 0x100 + s[2] * 0x1_0000 + s[3] * 0x100_0000
}

/// Two's-complement reading of a 32-bit unsigned value.
pub open spec fn signed32(u: int) -> int {
    if u < 0x8000_0000 { u } else { u - 0x1_0000_0000 }
}

pub open spec fn spec_u16(s: Seq<u8>) -> Parsed<u16> {
    if s.len() < 2 {
        Err(ParseError::Truncated { needed: 2, got: s.len() as usize })
    } else {
        Ok((le16(s) as u16, 2))
    }
}

pub open spec fn spec_u32(s: Seq<u8>) -> Parsed<u32> {
    if s.len() < 4 {
        Err(ParseError::Truncated { needed: 4, got: s.len() as usize })
    } else {
        Ok((le32(s) as u32, 4))
    }
}

pub open spec fn spec_i32(s: Seq<u8>) -> Parsed<i32> {
    if s.len() < 4 {
        Err(ParseError::Truncated { needed: 4, got: s.len() as usize })
    } else {
        Ok((signed32(le32(s)) as i32, 4))
    }
}

/// Little-endian value of the first eight bytes.
pub open spec fn le64(s: Seq<u8>) -> int {
    le32(s) + le32(s.skip(4)) * 0x1_0000_0000
}

pub open spec fn spec_u64(s: Seq<u8>) -> Parsed<u64> {
    if s.len() < 8 {
        Err(ParseError::Truncated { needed: 8, got: s.len() as usize })
    } else {
        Ok((le64(s) as u64, 8))
    }
}

pub open spec fn spec_bool(s: Seq<u8>) -> Parsed<bool> {
    match spec_u8(s) {
        Ok((b, n)) => Ok((b != 0, n)),
        Err(e) => Err(e),
    }
}

/// `128^n`.
pub open spec fn pow128(n: nat) -> nat
    decreases n,
{
    if n == 0 { 1 } else { 128 * pow128((n - 1) as nat) }
}

/// Value of the first `k` LEB128 groups of `s`: the low seven bits of byte
/// `j` weigh `128^j`.
pub open spec fn leb_value(s: Seq<u8>, k: nat) -> int
    decreases k,
{
    if k == 0 {
        0
    } else {
        leb_value(s, (k - 1) as nat) + (s[k - 1] % 128) * pow128((k - 1) as nat)
    }
}

/// LEB128 decoding starting at byte `i`, all earlier bytes having the
/// continuation bit set. Bytes 0..8 may continue; the tenth byte must end
/// the number and may only carry the top bit of a 64-bit value.
pub open spec fn varuint_from(s: Seq<u8>, i: nat) -> Parsed<u64>
    decreases 9 - i,
{
    if s.len() <= i {
        Err(ParseError::Truncated { needed: 1, got: 0 })
    } else if i >= 9 {
        if s[9] > 1 {
            Err(ParseError::VarUIntOverflow)
        } else {
            Ok((leb_value(s, 10) as u64, 10))
        }
    } else if s[i as int] < 128 {
        Ok((leb_value(s, i + 1) as u64, (i + 1) as int))
    } else {
        varuint_from(s, i + 1)
    }
}

/// Unsigned LEB128 varint, at most ten bytes, value below `2^64`.
pub open spec fn spec_varuint(s: Seq<u8>) -> Parsed<u64> {
    varuint_from(s, 0)
}

/// Cursor over a borrowed byte slice.
#[derive(Debug)]
pub struct Reader<'a> {
    data: &'a [u8],
    pos: usize,
}

impl<'a> View for Reader<'a> {
    type V = Seq<u8>;

    /// The bytes not yet consumed.
    closed spec fn view(&self) -> Seq<u8> {
        self.data@.skip(self.pos as int)
    }
}

impl<'a> Clone for Reader<'a> {
    /// A second cursor at the same position over the same bytes.
    fn clone(&self) -> (r: Self)
        ensures
            r@ == self@,
    {
        proof {
            use_type_invariant(self);
        }
        Reader { data: self.data, pos: self.pos }
    }
}

proof fn lemma_pow128_facts(n: nat)
    requires
        n <= 9,
    ensures
        pow128(n) > 0,
        n <= 8 ==> 128 * pow128(n) <= 0x8000_0000_0000_0000,
        n == 9 ==> pow128(n) == 0x8000_0000_0000_0000,
    decreases n,
{
    reveal_with_fuel(pow128, 10);
}

proof fn lemma_leb_bound(s: Seq<u8>, k: nat)
    requires
        k <= s.len(),
    ensures
        0 <= leb_value(s, k) < pow128(k),
    decreases k,
{
    if k > 0 {
        lemma_leb_bound(s, (k - 1) as nat);
        let w = pow128((k - 1) as nat);
        assert(0 <= (s[k - 1] % 128) * w <= 127 * w) by (nonlinear_arith)
            requires
                w >= 0,
        ;
    }
}

impl<'a> Reader<'a> {
    #[verifier::type_invariant]
    closed spec fn inv(&self) -> bool {
        self.pos <= self.data@.len()
    }

    /// A reader positioned at the start of `data`.
    pub fn new(data: &'a [u8]) -> (r: Self)
        ensures
            r@ == data@,
    {
        let r = Reader { data, pos: 0 };
        assert(r.data@.skip(0) =~= data@);
        r
    }

    /// Number of bytes not yet consumed.
    pub fn remaining(&self) -> (n: usize)
        ensures
            n == self@.len(),
    {
        proof {
            use_type_invariant(self);
        }
        self.data.len() - self.pos
    }

    /// Whether every byte has been consumed.
    pub fn is_eof(&self) -> (b: bool)
        ensures
            b == (self@.len() == 0),
    {
        proof {
            use_type_invariant(self);
        }
        self.pos >= self.data.len()
    }

    fn require(&self, needed: usize) -> (r: Result<(), ParseError>)
        ensures
            r is Ok <==> needed <= self@.len(),
            r is Err ==> r == Err::<(), ParseError>(
                ParseError::Truncated { needed, got: self@.len() as usize },
            ),
    {
        if self.remaining() < needed {
            return Err(ParseError::Truncated { needed, got: self.remaining() });
        }
        Ok(())
    }

    /// The next `n` bytes, as a slice of the underlying buffer.
    pub fn read_bytes(&mut self, n: usize) -> (r: Result<&'a [u8], ParseError>)
        ensures
            match spec_take(old(self)@, n as int) {
                Ok((v, k)) => r is Ok && r->Ok_0@ == v && consumed(old(self)@, final(self)@, k),
                Err(e) => r == Err::<&'a [u8], ParseError>(e) && final(self)@ == old(self)@,
            },
    {
        proof {
            use_type_invariant(&*self);
        }
        self.require(n)?;
        let start = self.pos;
        let len = self.data.len();
        assert(n <= len - start);
        let end = start + n;
        let bytes = slice_subrange(self.data, start, end);
        self.pos = end;
        proof {
            assert(bytes@ =~= old(self)@.take(n as int));
            assert(self@ =~= old(self)@.skip(n as int));
        }
        Ok(bytes)
    }

    pub fn read_u8(&mut self) -> (r: Result<u8, ParseError>)
        ensures
            agrees(r, old(self)@, final(self)@, spec_u8(old(self)@)),
            r is Err ==> final(self)@ == old(self)@,
    {
        let b = self.read_bytes(1)?;
        proof {
            assert(b@[0] == old(self)@[0]);
        }
        Ok(b[0])
    }

    pub fn read_u16(&mut self) -> (r: Result<u16, ParseError>)
        ensures
            agrees(r, old(self)@, final(self)@, spec_u16(old(self)@)),
            r is Err ==> final(self)@ == old(self)@,
    {
        let b = self.read_bytes(2)?;
        proof {
            assert(b@[0] == old(self)@[0] && b@[1] == old(self)@[1]);
        }
        Ok(b[0] as u16 + (b[1] as u16) * 0x100)
    }

    pub fn read_u32(&mut self) -> (r: Result<u32, ParseError>)
        ensures
            agrees(r, old(self)@, final(self)@, spec_u32(old(self)@)),
            r is Err ==> final(self)@ == old(self)@,
    {
        let b = self.read_bytes(4)?;
        proof {
            assert(b@[0] == old(self)@[0] && b@[1] == old(self)@[1]);
            assert(b@[2] == old(self)@[2] && b@[3] == old(self)@[3]);
        }
        Ok(b[0] as u32 + (b[1] as u32) * 0x100 + (b[2] as u32) * 0x1_0000 + (b[3] as u32)
            * 0x100_0000)
    }

    pub fn read_u64(&mut self) -> (r: Result<u64, ParseError>)
        ensures
            agrees(r, old(self)@, final(self)@, spec_u64(old(self)@)),
            r is Err ==> final(self)@ == old(self)@,
    {
        let b = self.read_bytes(8)?;
        proof {
            let o = old(self)@;
            assert(b@[0] == o[0] && b@[1] == o[1] && b@[2] == o[2] && b@[3] == o[3]);
            assert(b@[4] == o.skip(4)[0] && b@[5] == o.skip(4)[1]);
            assert(b@[6] == o.skip(4)[2] && b@[7] == o.skip(4)[3]);
        }
        let lo: u64 = b[0] as u64 + (b[1] as u64) * 0x100 + (b[2] as u64) * 0x1_0000 + (b[3] as u64)
            * 0x100_0000;
        let hi: u64 = b[4] as u64 + (b[5] as u64) * 0x100 + (b[6] as u64) * 0x1_0000 + (b[7] as u64)
            * 0x100_0000;
        Ok(lo + hi * 0x1_0000_0000)
    }

    pub fn read_i32(&mut self) -> (r: Result<i32, ParseError>)
        ensures
            agrees(r, old(self)@, final(self)@, spec_i32(old(self)@)),
            r is Err ==> final(self)@ == old(self)@,
    {
        let u = self.read_u32()?;
        if u < 0x8000_0000 {
            Ok(u as i32)
        } else {
            let below: u32 = 0xFFFF_FFFF - u;
            Ok(-(below as i32) - 1)
        }
    }

    pub fn read_bool(&mut self) -> (r: Result<bool, ParseError>)
        ensures
            agrees(r, old(self)@, final(self)@, spec_bool(old(self)@)),
            r is Err ==> final(self)@ == old(self)@,
    {
        Ok(self.read_u8()? != 0)
    }

    /// LEB128 unsigned varint, capped at 10 bytes (effectively `u64`).
    pub fn read_varuint(&mut self) -> (r: Result<u64, ParseError>)
        ensures
            agrees(r, old(self)@, final(self)@, spec_varuint(old(self)@)),
    {
        let ghost s = self@;
        let mut result: u64 = 0;
        let mut weight: u64 = 1;
        let mut i: usize = 0;
        while i < 9
            invariant
                i <= 9,
                s == old(self)@,
                i <= s.len(),
                self@ == s.skip(i as int),
                weight == pow128(i as nat),
                result == leb_value(s, i as nat),
                varuint_from(s, 0) == varuint_from(s, i as nat),
            decreases 9 - i,
        {
            proof {
                lemma_pow128_facts(i as nat);
                lemma_leb_bound(s, i as nat);
            }
            let byte = match self.read_u8() {
                Ok(b) => b,
                Err(e) => {
                    proof {
                        assert(self@ == s.skip(i as int));
                        assert(s.skip(i as int) == self@);
                    }
                    return Err(e);
                },
            };
            proof {
                assert(byte == s[i as int]);
                assert(self@ =~= s.skip(i + 1));
            }
            let low: u64 = (byte % 128) as u64;
            proof {
                assert(low * weight <= 127 * weight) by (nonlinear_arith)
                    requires
                        low <= 127,
                ;
            }
            result = result + low * weight;
            weight = weight * 128;
            i = i + 1;
            if byte < 128 {
                return Ok(result);
            }
        }
        proof {
            lemma_pow128_facts(9);
            lemma_leb_bound(s, 9);
        }
        let byte = match self.read_u8() {
            Ok(b) => b,
            Err(e) => {
                proof {
                    assert(s.skip(9) == self@);
                }
                return Err(e);
            },
        };
        proof {
            assert(byte == s[9]);
            assert(self@ =~= s.skip(10));
        }
        if byte > 1 {
            proof {
                assert(s.skip(10) == self@);
            }
            return Err(ParseError::VarUIntOverflow);
        }
        result = result + (byte as u64) * weight;
        Ok(result)
    }

    /// The next `n` bytes as an isolated child reader; the parent advances
    /// past them and the child cannot read beyond them.
    pub fn read_bounded(&mut self, n: usize) -> (r: Result<Reader<'a>, ParseError>)
        ensures
            match spec_take(old(self)@, n as int) {
                Ok((v, k)) => r is Ok && r->Ok_0@ == v && consumed(old(self)@, final(self)@, k),
                Err(e) => r == Err::<Reader<'a>, ParseError>(e) && final(self)@ == old(self)@,
            },
    {
        Ok(Reader::new(self.read_bytes(n)?))
    }
}

} // verus!
