//! Free-function readers over a byte cursor: the primitive layer of the
//! format (little-endian integers, varuints, CRDT ids, tags and raw
//! sub-blocks), each a thin entry point over [`Reader`].

use vstd::prelude::*;

use crate::crdt::{spec_crdt_id, CrdtId};
use crate::error::ParseError;
use crate::reader::{
    agrees, consumed, moved_forward, spec_bool, spec_i32, spec_u16, spec_u32, spec_u8,
    spec_varuint, Reader,
};
use crate::tag::{spec_subblock, spec_tag, Tag};

verus! {

pub fn read_u8(r: &mut Reader<'_>) -> (res: Result<u8, ParseError>)
    ensures
        agrees(res, old(r)@, final(r)@, spec_u8(old(r)@)),
{
    r.read_u8()
}

pub fn read_u16(r: &mut Reader<'_>) -> (res: Result<u16, ParseError>)
    ensures
        agrees(res, old(r)@, final(r)@, spec_u16(old(r)@)),
{
    r.read_u16()
}

pub fn read_u32(r: &mut Reader<'_>) -> (res: Result<u32, ParseError>)
    ensures
        agrees(res, old(r)@, final(r)@, spec_u32(old(r)@)),
{
    r.read_u32()
}

pub fn read_i32(r: &mut Reader<'_>) -> (res: Result<i32, ParseError>)
    ensures
        agrees(res, old(r)@, final(r)@, spec_i32(old(r)@)),
{
    r.read_i32()
}

pub fn read_bool(r: &mut Reader<'_>) -> (res: Result<bool, ParseError>)
    ensures
        agrees(res, old(r)@, final(r)@, spec_bool(old(r)@)),
{
    r.read_bool()
}

/// LEB128 unsigned varint, up to 10 bytes (effectively `u64`).
pub fn read_varuint(r: &mut Reader<'_>) -> (res: Result<u64, ParseError>)
    ensures
        agrees(res, old(r)@, final(r)@, spec_varuint(old(r)@)),
{
    r.read_varuint()
}

pub fn read_crdt_id(r: &mut Reader<'_>) -> (res: Result<CrdtId, ParseError>)
    ensures
        agrees(res, old(r)@, final(r)@, spec_crdt_id(old(r)@)),
{
    r.read_crdt_id()
}

pub fn read_tag(r: &mut Reader<'_>) -> (res: Result<Tag, ParseError>)
    ensures
        agrees(res, old(r)@, final(r)@, spec_tag(old(r)@)),
{
    r.read_tag()
}

/// Read a length-prefixed sub-block at `index`, returning its raw bytes.
pub fn read_subblock(r: &mut Reader<'_>, index: u32) -> (res: Result<Vec<u8>, ParseError>)
    ensures
        match spec_subblock(old(r)@, index) {
            Ok((content, n)) => res is Ok && res->Ok_0@ == content && consumed(
                old(r)@,
                final(r)@,
                n,
            ),
            Err(e) => res is Err && res->Err_0 == e && moved_forward(old(r)@, final(r)@),
        },
{
    let mut sub = r.read_subblock(index)?;
    let n = sub.remaining();
    let ghost content = sub@;
    let bytes = sub.read_bytes(n).unwrap();
    proof {
        assert(bytes@ =~= content);
    }
    Ok(vstd::slice::slice_to_vec(bytes))
}

} // verus!
