//! Scene tree blocks and tree node blocks.

use vstd::prelude::*;

use crate::crdt::{
    spec_lww_bool, spec_lww_byte, spec_lww_float_bits, spec_lww_id, spec_lww_string, CrdtId,
    LwwValue,
};
use crate::error::ParseError;
use crate::reader::{agrees, consumed, moved_forward, Parsed, Reader};
use crate::tag::{lemma_forward_trans, spec_bool_field, spec_id_field, spec_subblock};

verus! {

broadcast use {vstd::seq_lib::lemma_seq_skip_nothing, vstd::seq_lib::lemma_seq_skip_of_skip};

#[derive(Debug, Clone, Copy, PartialEq, Eq, Structural)]
pub struct SceneTreeBlock {
    pub tree_id: CrdtId,
    pub node_id: CrdtId,
    pub is_update: bool,
    pub parent_id: CrdtId,
}

#[derive(Debug)]
pub struct TreeNodeBlock {
    pub node_id: CrdtId,
    pub label: LwwValue<String>,
    pub visible: LwwValue<bool>,
    pub anchor: Option<Anchor>,
}

/// Group anchor, in the LWW-wrapped layout at indices 7-10. The threshold
/// and origin are IEEE singles kept as raw bits.
#[derive(Debug, Clone, Copy)]
pub struct Anchor {
    pub anchor_id: LwwValue<CrdtId>,
    pub anchor_type: LwwValue<u8>,
    pub anchor_threshold: LwwValue<u32>,
    pub anchor_origin_x: LwwValue<u32>,
}

/// A scene tree block: tree id (1), node id (2), is-update flag (3), and a
/// sub-block (4) whose field 1 is the parent id.
pub open spec fn spec_scene_tree_block(s: Seq<u8>) -> Parsed<SceneTreeBlock> {
    match spec_id_field(s, 1) {
        Err(e) => Err(e),
        Ok((tree_id, n1)) => match spec_id_field(s.skip(n1), 2) {
            Err(e) => Err(e),
            Ok((node_id, n2)) => match spec_bool_field(s.skip(n1 + n2), 3) {
                Err(e) => Err(e),
                Ok((is_update, n3)) => match spec_subblock(s.skip(n1 + n2 + n3), 4) {
                    Err(e) => Err(e),
                    Ok((sub, n4)) => match spec_id_field(sub, 1) {
                        Err(e) => Err(e),
                        Ok((parent_id, _)) => Ok(
                            (
                                SceneTreeBlock { tree_id, node_id, is_update, parent_id },
                                n1 + n2 + n3 + n4,
                            ),
                        ),
                    },
                },
            },
        },
    }
}

/// The parts of a tree node block that the page assembly uses: node id
/// (1), LWW label (2) and LWW visibility (3), with the consumed count.
pub open spec fn spec_tree_node_head(s: Seq<u8>) -> Parsed<(CrdtId, Seq<char>, bool)> {
    match spec_id_field(s, 1) {
        Err(e) => Err(e),
        Ok((node_id, n1)) => match spec_lww_string(s.skip(n1), 2) {
            Err(e) => Err(e),
            Ok((label, n2)) => match spec_lww_bool(s.skip(n1 + n2), 3) {
                Err(e) => Err(e),
                Ok((visible, n3)) => Ok(((node_id, label.value, visible.value), n1 + n2 + n3)),
            },
        },
    }
}

/// The optional anchor: absent when the body is exhausted, otherwise four
/// LWW fields at indices 7 to 10.
pub open spec fn spec_anchor(s: Seq<u8>) -> Result<Option<Anchor>, ParseError> {
    if s.len() == 0 {
        Ok(None)
    } else {
        match spec_lww_id(s, 7) {
            Err(e) => Err(e),
            Ok((anchor_id, n1)) => match spec_lww_byte(s.skip(n1), 8) {
                Err(e) => Err(e),
                Ok((anchor_type, n2)) => match spec_lww_float_bits(s.skip(n1 + n2), 9) {
                    Err(e) => Err(e),
                    Ok((anchor_threshold, n3)) => match spec_lww_float_bits(
                        s.skip(n1 + n2 + n3),
                        10,
                    ) {
                        Err(e) => Err(e),
                        Ok((anchor_origin_x, _)) => Ok(
                            Some(Anchor { anchor_id, anchor_type, anchor_threshold, anchor_origin_x }),
                        ),
                    },
                },
            },
        }
    }
}

/// A whole tree node block: the head, then the optional anchor.
pub open spec fn spec_tree_node_block(s: Seq<u8>) -> Result<
    ((CrdtId, Seq<char>, bool), Option<Anchor>),
    ParseError,
> {
    match spec_tree_node_head(s) {
        Err(e) => Err(e),
        Ok((head, n)) => match spec_anchor(s.skip(n)) {
            Err(e) => Err(e),
            Ok(anchor) => Ok((head, anchor)),
        },
    }
}

pub fn read_scene_tree_block(body: &mut Reader<'_>) -> (r: Result<SceneTreeBlock, ParseError>)
    ensures
        agrees(r, old(body)@, final(body)@, spec_scene_tree_block(old(body)@)),
{
    let ghost s = body@;
    let tree_id = body.read_id(1)?;
    let ghost s1 = body@;
    let node_id = match body.read_id(2) {
        Ok(v) => v,
        Err(e) => {
            proof {
                lemma_forward_trans(s, s1, body@);
            }
            return Err(e);
        },
    };
    let ghost s2 = body@;
    let is_update = match body.read_bool_field(3) {
        Ok(v) => v,
        Err(e) => {
            proof {
                lemma_forward_trans(s, s2, body@);
            }
            return Err(e);
        },
    };
    let ghost s3 = body@;
    let mut parent_sub = match body.read_subblock(4) {
        Ok(v) => v,
        Err(e) => {
            proof {
                lemma_forward_trans(s, s3, body@);
            }
            return Err(e);
        },
    };
    let parent_id = match parent_sub.read_id(1) {
        Ok(v) => v,
        Err(e) => {
            proof {
                lemma_forward_trans(s, s3, body@);
            }
            return Err(e);
        },
    };
    Ok(SceneTreeBlock { tree_id, node_id, is_update, parent_id })
}

fn read_anchor(body: &mut Reader<'_>) -> (r: Result<Option<Anchor>, ParseError>)
    ensures
        match spec_anchor(old(body)@) {
            Ok(a) => r == Ok::<Option<Anchor>, ParseError>(a),
            Err(e) => r == Err::<Option<Anchor>, ParseError>(e),
        },
{
    if body.is_eof() {
        return Ok(None);
    }
    let anchor_id = body.read_lww_id(7)?;
    let anchor_type = body.read_lww_byte(8)?;
    let anchor_threshold = body.read_lww_float_bits(9)?;
    let anchor_origin_x = body.read_lww_float_bits(10)?;
    Ok(Some(Anchor { anchor_id, anchor_type, anchor_threshold, anchor_origin_x }))
}

pub fn read_tree_node_block(body: &mut Reader<'_>) -> (r: Result<TreeNodeBlock, ParseError>)
    ensures
        match spec_tree_node_block(old(body)@) {
            Ok((head, anchor)) => r is Ok && r->Ok_0.node_id == head.0 && r->Ok_0.label.value@
                == head.1 && r->Ok_0.visible.value == head.2 && r->Ok_0.anchor == anchor,
            Err(e) => r is Err && r->Err_0 == e,
        },
{
    let node_id = body.read_id(1)?;
    let label = body.read_lww_string(2)?;
    let visible = body.read_lww_bool(3)?;
    let anchor = read_anchor(body)?;
    Ok(TreeNodeBlock { node_id, label, visible, anchor })
}

} // verus!
