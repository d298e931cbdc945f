//! CRDT identifiers and last-writer-wins values.

use vstd::prelude::*;

use crate::error::ParseError;
use crate::reader::{agrees, consumed, moved_forward, spec_u8, spec_varuint, Parsed, Reader};
use crate::tag::{
    spec_bool_field, spec_byte_field, spec_float_bits_field, spec_id_field, spec_string_subblock,
    spec_subblock,
};

verus! {

broadcast use {vstd::seq_lib::lemma_seq_skip_nothing, vstd::seq_lib::lemma_seq_skip_of_skip};

/// CRDT identifier, doubling as a logical timestamp.
///
/// `author` is the per-file author index; `seq` is that author's sequence
/// number. The pair `(0, 0)` is the start/end sentinel; `(0, 1)` is the
/// scene-tree root.
#[derive(Debug, Clone, Copy, PartialEq, Eq, Structural, PartialOrd, Ord, Hash)]
pub struct CrdtId {
    pub author: u8,
    pub seq: u64,
}

impl CrdtId {
    /// The start/end sentinel `(0, 0)`.
    pub fn sentinel() -> (id: CrdtId)
        ensures
            id == (CrdtId { author: 0, seq: 0 }),
    {
        CrdtId { author: 0, seq: 0 }
    }

    /// The scene-tree root `(0, 1)`.
    pub fn root() -> (id: CrdtId)
        ensures
            id == (CrdtId { author: 0, seq: 1 }),
    {
        CrdtId { author: 0, seq: 1 }
    }
}

/// Last-writer-wins wrapper. On conflict, the value with the highest
/// `timestamp` wins.
#[derive(Debug, Clone, Copy, PartialEq, Eq)]
pub struct LwwValue<T> {
    pub timestamp: CrdtId,
    pub value: T,
}

/// A raw `CrdtId`: one author byte, then a varuint sequence number.
pub open spec fn spec_crdt_id(s: Seq<u8>) -> Parsed<CrdtId> {
    match spec_u8(s) {
        Err(e) => Err(e),
        Ok((author, n)) => match spec_varuint(s.skip(n)) {
            Err(e) => Err(e),
            Ok((seq, k)) => Ok((CrdtId { author, seq }, n + k)),
        },
    }
}

/// An LWW sub-block at `index`: timestamp id at field 1, value at field 2
/// parsed by `value`. The consumed count is that of the whole sub-block.
pub open spec fn spec_lww<T>(
    s: Seq<u8>,
    index: u32,
    value: spec_fn(Seq<u8>) -> Parsed<T>,
) -> Parsed<LwwValue<T>> {
    match spec_subblock(s, index) {
        Err(e) => Err(e),
        Ok((sub, n)) => match spec_id_field(sub, 1) {
            Err(e) => Err(e),
            Ok((timestamp, k)) => match value(sub.skip(k)) {
                Err(e) => Err(e),
                Ok((v, _)) => Ok((LwwValue { timestamp, value: v }, n)),
            },
        },
    }
}

pub open spec fn spec_lww_id(s: Seq<u8>, index: u32) -> Parsed<LwwValue<CrdtId>> {
    spec_lww(s, index, |t: Seq<u8>| spec_id_field(t, 2))
}

pub open spec fn spec_lww_bool(s: Seq<u8>, index: u32) -> Parsed<LwwValue<bool>> {
    spec_lww(s, index, |t: Seq<u8>| spec_bool_field(t, 2))
}

pub open spec fn spec_lww_byte(s: Seq<u8>, index: u32) -> Parsed<LwwValue<u8>> {
    spec_lww(s, index, |t: Seq<u8>| spec_byte_field(t, 2))
}

pub open spec fn spec_lww_float_bits(s: Seq<u8>, index: u32) -> Parsed<LwwValue<u32>> {
    spec_lww(s, index, |t: Seq<u8>| spec_float_bits_field(t, 2))
}

pub open spec fn spec_lww_string(s: Seq<u8>, index: u32) -> Parsed<LwwValue<Seq<char>>> {
    spec_lww(s, index, |t: Seq<u8>| spec_string_subblock(t, 2))
}

/// Outcome of an LWW read agrees with its specification.
pub open spec fn lww_agrees<T, U>(
    r: Result<LwwValue<T>, ParseError>,
    before: Seq<u8>,
    after: Seq<u8>,
    s: Parsed<LwwValue<U>>,
    view: spec_fn(T) -> U,
) -> bool {
    match s {
        Ok((v, n)) => r is Ok && r->Ok_0.timestamp == v.timestamp && view(r->Ok_0.value)
            == v.value && consumed(before, after, n),
        Err(e) => r is Err && r->Err_0 == e && moved_forward(before, after),
    }
}

impl<'a> Reader<'a> {
    /// Read a raw `CrdtId` (`uint8 + varuint`), with no tag prefix.
    pub fn read_crdt_id(&mut self) -> (r: Result<CrdtId, ParseError>)
        ensures
            agrees(r, old(self)@, final(self)@, spec_crdt_id(old(self)@)),
    {
        let author = self.read_u8()?;
        let seq = self.read_varuint()?;
        Ok(CrdtId { author, seq })
    }

    pub fn read_lww_id(&mut self, index: u32) -> (r: Result<LwwValue<CrdtId>, ParseError>)
        ensures
            lww_agrees(r, old(self)@, final(self)@, spec_lww_id(old(self)@, index), |x: CrdtId| x),
    {
        let mut sub = self.read_subblock(index)?;
        let timestamp = sub.read_id(1)?;
        let value = sub.read_id(2)?;
        Ok(LwwValue { timestamp, value })
    }

    pub fn read_lww_bool(&mut self, index: u32) -> (r: Result<LwwValue<bool>, ParseError>)
        ensures
            lww_agrees(r, old(self)@, final(self)@, spec_lww_bool(old(self)@, index), |x: bool| x),
    {
        let mut sub = self.read_subblock(index)?;
        let timestamp = sub.read_id(1)?;
        let value = sub.read_bool_field(2)?;
        Ok(LwwValue { timestamp, value })
    }

    pub fn read_lww_byte(&mut self, index: u32) -> (r: Result<LwwValue<u8>, ParseError>)
        ensures
            lww_agrees(r, old(self)@, final(self)@, spec_lww_byte(old(self)@, index), |x: u8| x),
    {
        let mut sub = self.read_subblock(index)?;
        let timestamp = sub.read_id(1)?;
        let value = sub.read_byte(2)?;
        Ok(LwwValue { timestamp, value })
    }

    /// LWW float, returned as the raw bits of the IEEE single.
    pub fn read_lww_float_bits(&mut self, index: u32) -> (r: Result<LwwValue<u32>, ParseError>)
        ensures
            lww_agrees(r, old(self)@, final(self)@, spec_lww_float_bits(old(self)@, index), |x: u32| x),
    {
        let mut sub = self.read_subblock(index)?;
        let timestamp = sub.read_id(1)?;
        let value = sub.read_float_bits(2)?;
        Ok(LwwValue { timestamp, value })
    }

    pub fn read_lww_string(&mut self, index: u32) -> (r: Result<LwwValue<String>, ParseError>)
        ensures
            lww_agrees(r, old(self)@, final(self)@, spec_lww_string(old(self)@, index), |x: String| x@),
    {
        let mut sub = self.read_subblock(index)?;
        let timestamp = sub.read_id(1)?;
        let value = sub.read_string_subblock(2)?.to_owned();
        Ok(LwwValue { timestamp, value })
    }
}

} // verus!
