//! Page representation, assembled from the blocks of a `.rm` v6 file.
//!
//! A file is the 43-byte magic followed by blocks. Each block is decoded
//! into the intermediate collections below; once every block is read the
//! scene-tree layers directly under the root are assembled, each with its
//! name, visibility and live strokes.

use vstd::prelude::*;

use crate::blocks::{
    read_block_header, read_file_header, spec_block_header, spec_block_type,
    spec_read_file_header, BlockHeader, BlockType,
};
use crate::crdt::{spec_lww_bool, spec_lww_id, CrdtId};
use crate::error::ParseError;
use crate::reader::{le32, spec_take, spec_u32, Reader};
use crate::scene::items::{read_scene_item, spec_item_envelope, ItemType};
use crate::scene::line::{read_line, spec_line, Line, LineView};
use crate::scene::text::RootText;
use crate::scene::tree::{
    read_scene_tree_block, read_tree_node_block, spec_scene_tree_block, spec_tree_node_block,
    SceneTreeBlock,
};
use crate::tag::{spec_id_field, spec_subblock};

verus! {

broadcast use {vstd::seq_lib::lemma_seq_skip_nothing, vstd::seq_lib::lemma_seq_skip_of_skip};

#[derive(Debug)]
pub struct Page {
    pub layers: Vec<Layer>,
    /// The root text block, when the page has one.
    pub text: Option<RootText>,
    /// Present in firmware 3.14+ via the scene info block.
    pub paper_size: Option<(u32, u32)>,
}

#[derive(Debug)]
pub struct Layer {
    pub node_id: CrdtId,
    pub name: String,
    pub visible: bool,
    pub lines: Vec<Line>,
}

pub struct LayerView {
    pub node_id: CrdtId,
    pub name: Seq<char>,
    pub visible: bool,
    pub lines: Seq<LineView>,
}

pub struct PageView {
    pub layers: Seq<LayerView>,
    pub text: Option<Seq<u8>>,
    pub paper_size: Option<(u32, u32)>,
}

impl View for Layer {
    type V = LayerView;

    open spec fn view(&self) -> LayerView {
        LayerView {
            node_id: self.node_id,
            name: self.name@,
            visible: self.visible,
            lines: self.lines@.map_values(|l: Line| l@),
        }
    }
}

impl View for Page {
    type V = PageView;

    open spec fn view(&self) -> PageView {
        PageView {
            layers: self.layers@.map_values(|l: Layer| l@),
            text: text_view(self.text),
            paper_size: self.paper_size,
        }
    }
}

/// The body bytes of an optional root text block.
pub open spec fn text_view(t: Option<RootText>) -> Option<Seq<u8>> {
    match t {
        Some(r) => Some(r.body@),
        None => None,
    }
}

/// What the blocks read so far contribute: scene-tree records, node
/// properties `(id, label, visible)`, live strokes with their parent node,
/// the latest root text block and the latest paper size.
pub struct Collected {
    pub trees: Seq<SceneTreeBlock>,
    pub nodes: Seq<(CrdtId, Seq<char>, bool)>,
    pub lines: Seq<(CrdtId, LineView)>,
    pub text: Option<Seq<u8>>,
    pub paper_size: Option<(u32, u32)>,
}

pub open spec fn empty_collected() -> Collected {
    Collected {
        trees: Seq::empty(),
        nodes: Seq::empty(),
        lines: Seq::empty(),
        text: None,
        paper_size: None,
    }
}

/// The optional paper size of a scene info block: current layer (1), then
/// while bytes remain background visibility (2), root document visibility
/// (3), and a sub-block (5) holding width and height.
pub open spec fn spec_paper_size(s: Seq<u8>) -> Result<Option<(u32, u32)>, ParseError> {
    match spec_lww_id(s, 1) {
        Err(e) => Err(e),
        Ok((_, n1)) => if s.skip(n1).len() == 0 {
            Ok(None)
        } else {
            match spec_lww_bool(s.skip(n1), 2) {
                Err(e) => Err(e),
                Ok((_, n2)) => if s.skip(n1 + n2).len() == 0 {
                    Ok(None)
                } else {
                    match spec_lww_bool(s.skip(n1 + n2), 3) {
                        Err(e) => Err(e),
                        Ok((_, n3)) => if s.skip(n1 + n2 + n3).len() == 0 {
                            Ok(None)
                        } else {
                            match spec_subblock(s.skip(n1 + n2 + n3), 5) {
                                Err(e) => Err(e),
                                Ok((sub, _)) => match spec_u32(sub) {
                                    Err(e) => Err(e),
                                    Ok((w, k)) => match spec_u32(sub.skip(k)) {
                                        Err(e) => Err(e),
                                        Ok((h, _)) => Ok(Some((w, h))),
                                    },
                                },
                            }
                        },
                    }
                },
            }
        },
    }
}

/// How one block body changes what has been collected. Group items are
/// validated and dropped; a stroke is kept only when its item is not
/// deleted; a root text block is kept whole, replacing any earlier one;
/// every other block type is skipped.
pub open spec fn spec_block_step(h: BlockHeader, body: Seq<u8>, acc: Collected) -> Result<
    Collected,
    ParseError,
> {
    match spec_block_type(h.block_type) {
        Some(BlockType::SceneTree) => match spec_scene_tree_block(body) {
            Err(e) => Err(e),
            Ok((t, _)) => Ok(Collected { trees: acc.trees.push(t), ..acc }),
        },
        Some(BlockType::TreeNode) => match spec_tree_node_block(body) {
            Err(e) => Err(e),
            Ok((head, _)) => Ok(Collected { nodes: acc.nodes.push(head), ..acc }),
        },
        Some(BlockType::SceneGroupItem) => match spec_item_envelope(body, ItemType::Group) {
            Err(e) => Err(e),
            Ok((env, _)) => match env.value {
                Some(v) => match spec_id_field(v, 2) {
                    Err(e) => Err(e),
                    Ok(_) => Ok(acc),
                },
                None => Ok(acc),
            },
        },
        Some(BlockType::SceneLineItem) => match spec_item_envelope(body, ItemType::Line) {
            Err(e) => Err(e),
            Ok((env, _)) => match env.value {
                Some(v) => match spec_line(v, h.current_version) {
                    Err(e) => Err(e),
                    Ok((line, _)) => if env.deleted_length == 0 {
                        Ok(Collected { lines: acc.lines.push((env.parent_id, line)), ..acc })
                    } else {
                        Ok(acc)
                    },
                },
                None => Ok(acc),
            },
        },
        Some(BlockType::RootText) => Ok(Collected { text: Some(body), ..acc }),
        Some(BlockType::SceneInfo) => match spec_paper_size(body) {
            Err(e) => Err(e),
            Ok(p) => Ok(Collected { paper_size: p, ..acc }),
        },
        _ => Ok(acc),
    }
}

/// Decode every block of `s` in order, starting from `acc`.
pub open spec fn spec_collect(s: Seq<u8>, acc: Collected) -> Result<Collected, ParseError>
    decreases s.len(),
{
    if s.len() == 0 {
        Ok(acc)
    } else {
        match spec_block_header(s) {
            Err(e) => Err(e),
            Ok((h, n)) => match spec_take(s.skip(n), h.length as int) {
                Err(e) => Err(e),
                Ok((body, k)) => match spec_block_step(h, body, acc) {
                    Err(e) => Err(e),
                    Ok(next) => if 0 < n && 0 <= k && n + k <= s.len() {
                        spec_collect(s.skip(n + k), next)
                    } else {
                        Ok(next)
                    },
                },
            },
        }
    }
}

/// No earlier scene-tree record has the same tree id as record `i`.
pub open spec fn first_seen(trees: Seq<SceneTreeBlock>, i: int) -> bool {
    forall|j: int| 0 <= j < i ==> trees[j].tree_id != trees[i].tree_id
}

/// Label and visibility of the last node record with this id.
pub open spec fn node_lookup(nodes: Seq<(CrdtId, Seq<char>, bool)>, id: CrdtId) -> Option<
    (Seq<char>, bool),
>
    decreases nodes.len(),
{
    if nodes.len() == 0 {
        None
    } else if nodes.last().0 == id {
        Some((nodes.last().1, nodes.last().2))
    } else {
        node_lookup(nodes.drop_last(), id)
    }
}

/// The strokes whose parent is `id`, in file order.
pub open spec fn lines_of(lines: Seq<(CrdtId, LineView)>, id: CrdtId) -> Seq<LineView>
    decreases lines.len(),
{
    if lines.len() == 0 {
        Seq::empty()
    } else {
        let prev = lines_of(lines.drop_last(), id);
        if lines.last().0 == id {
            prev.push(lines.last().1)
        } else {
            prev
        }
    }
}

/// The layer for scene-tree node `id`: named and shown as its last node
/// record says (unnamed and visible when there is none), holding its strokes.
pub open spec fn layer_for(c: Collected, id: CrdtId) -> LayerView {
    let (name, visible) = match node_lookup(c.nodes, id) {
        Some(p) => p,
        None => (Seq::empty(), true),
    };
    LayerView { node_id: id, name, visible, lines: lines_of(c.lines, id) }
}

/// Layers from the first `k` scene-tree records: one per tree id, at its
/// first occurrence, when that record's parent is the root.
pub open spec fn layers_upto(c: Collected, k: nat) -> Seq<LayerView>
    decreases k,
{
    if k == 0 {
        Seq::empty()
    } else {
        let prev = layers_upto(c, (k - 1) as nat);
        let t = c.trees[k - 1];
        if first_seen(c.trees, k - 1) && t.parent_id == (CrdtId { author: 0, seq: 1 }) {
            prev.push(layer_for(c, t.tree_id))
        } else {
            prev
        }
    }
}

pub open spec fn spec_assemble(c: Collected) -> PageView {
    PageView { layers: layers_upto(c, c.trees.len()), text: c.text, paper_size: c.paper_size }
}

/// A whole page file: the magic, then blocks up to the end, assembled.
pub open spec fn spec_parse_page(s: Seq<u8>) -> Result<PageView, ParseError> {
    match spec_read_file_header(s) {
        Err(e) => Err(e),
        Ok((_, n)) => match spec_collect(s.skip(n), empty_collected()) {
            Err(e) => Err(e),
            Ok(c) => Ok(spec_assemble(c)),
        },
    }
}

struct NodeProps {
    node_id: CrdtId,
    label: String,
    visible: bool,
}

struct LineRecord {
    parent_id: CrdtId,
    line: Line,
}

struct Intermediate {
    trees: Vec<SceneTreeBlock>,
    nodes: Vec<NodeProps>,
    lines: Vec<LineRecord>,
    text: Option<RootText>,
    paper_size: Option<(u32, u32)>,
}

impl View for Intermediate {
    type V = Collected;

    closed spec fn view(&self) -> Collected {
        Collected {
            trees: self.trees@,
            nodes: self.nodes@.map_values(|n: NodeProps| (n.node_id, n.label@, n.visible)),
            lines: self.lines@.map_values(|r: LineRecord| (r.parent_id, r.line@)),
            text: text_view(self.text),
            paper_size: self.paper_size,
        }
    }
}

/// Extract the optional paper size from a scene info block body; every
/// field after the current layer is optional, detected by remaining bytes.
fn read_paper_size(body: &mut Reader<'_>) -> (r: Result<Option<(u32, u32)>, ParseError>)
    ensures
        match spec_paper_size(old(body)@) {
            Ok(p) => r == Ok::<Option<(u32, u32)>, ParseError>(p),
            Err(e) => r == Err::<Option<(u32, u32)>, ParseError>(e),
        },
{
    let _current_layer = body.read_lww_id(1)?;
    if body.is_eof() {
        return Ok(None);
    }
    let _background_visible = body.read_lww_bool(2)?;
    if body.is_eof() {
        return Ok(None);
    }
    let _root_document_visible = body.read_lww_bool(3)?;
    if body.is_eof() {
        return Ok(None);
    }
    let mut sub = body.read_subblock(5)?;
    let width = sub.read_u32()?;
    let height = sub.read_u32()?;
    Ok(Some((width, height)))
}

/// Decode one block body into `inter`.
fn collect_block(inter: &mut Intermediate, header: BlockHeader, body: &mut Reader<'_>) -> (r:
    Result<(), ParseError>)
    ensures
        match spec_block_step(header, old(body)@, old(inter)@) {
            Ok(next) => r is Ok && final(inter)@ == next,
            Err(e) => r == Err::<(), ParseError>(e),
        },
{
    let ghost before = inter@;
    match header.kind() {
        Some(BlockType::SceneTree) => {
            let t = read_scene_tree_block(body)?;
            inter.trees.push(t);
            proof {
                assert(inter@.trees =~= before.trees.push(t));
                assert(inter@.nodes =~= before.nodes);
                assert(inter@.lines =~= before.lines);
            }
        },
        Some(BlockType::TreeNode) => {
            let n = read_tree_node_block(body)?;
            let ghost head = (n.node_id, n.label.value@, n.visible.value);
            let props = NodeProps { node_id: n.node_id, label: n.label.value, visible: n.visible.value };
            inter.nodes.push(props);
            proof {
                assert(inter@.nodes =~= before.nodes.push(head));
                assert(inter@.lines =~= before.lines);
            }
        },
        Some(BlockType::SceneGroupItem) => {
            let envelope = read_scene_item(body, ItemType::Group)?;
            match envelope.value {
                Some(mut sub) => {
                    let _ = sub.read_id(2)?;
                },
                None => {},
            }
        },
        Some(BlockType::SceneLineItem) => {
            let envelope = read_scene_item(body, ItemType::Line)?;
            let parent_id = envelope.parent_id;
            let deleted_length = envelope.deleted_length;
            match envelope.value {
                Some(mut sub) => {
                    let line = read_line(&mut sub, header.current_version)?;
                    if deleted_length == 0 {
                        let ghost lv = line@;
                        inter.lines.push(LineRecord { parent_id, line });
                        proof {
                            assert(inter@.lines =~= before.lines.push((parent_id, lv)));
                            assert(inter@.nodes =~= before.nodes);
                        }
                    }
                },
                None => {},
            }
        },
        Some(BlockType::RootText) => {
            let n = body.remaining();
            let bytes = body.read_bytes(n)?;
            let kept = vstd::slice::slice_to_vec(bytes);
            inter.text = Some(RootText { body: kept });
            proof {
                assert(bytes@ =~= old(body)@);
                assert(inter@.nodes =~= before.nodes);
                assert(inter@.lines =~= before.lines);
            }
        },
        Some(BlockType::SceneInfo) => {
            inter.paper_size = read_paper_size(body)?;
            proof {
                assert(inter@.nodes =~= before.nodes);
                assert(inter@.lines =~= before.lines);
            }
        },
        _ => {},
    }
    Ok(())
}

/// Parse one full `.rm` v6 file into a [`Page`].
pub fn parse_page(bytes: &[u8]) -> (r: Result<Page, ParseError>)
    ensures
        match spec_parse_page(bytes@) {
            Ok(p) => r is Ok && r->Ok_0@ == p,
            Err(e) => r is Err && r->Err_0 == e,
        },
{
    let mut reader = Reader::new(bytes);
    read_file_header(&mut reader)?;
    let ghost start = reader@;
    let mut inter = Intermediate {
        trees: Vec::new(),
        nodes: Vec::new(),
        lines: Vec::new(),
        text: None,
        paper_size: None,
    };
    proof {
        assert(inter@.nodes =~= empty_collected().nodes);
        assert(inter@.lines =~= empty_collected().lines);
        assert(inter@.trees =~= empty_collected().trees);
    }
    while !reader.is_eof()
        invariant
            spec_collect(reader@, inter@) == spec_collect(start, empty_collected()),
            spec_read_file_header(bytes@) matches Ok((_, n)) && start == bytes@.skip(n),
        decreases reader@.len(),
    {
        let ghost s = reader@;
        let header = read_block_header(&mut reader)?;
        let mut body = reader.read_bounded(header.length as usize)?;
        collect_block(&mut inter, header, &mut body)?;
        proof {
            assert(s.skip(8).skip(header.length as int) == s.skip(8 + header.length));
        }
    }
    Ok(assemble(inter))
}

fn lookup_node(nodes: &Vec<NodeProps>, id: CrdtId) -> (r: Option<(String, bool)>)
    ensures
        match node_lookup(nodes@.map_values(|n: NodeProps| (n.node_id, n.label@, n.visible)), id) {
            Some((name, visible)) => r is Some && r->Some_0.0@ == name && r->Some_0.1 == visible,
            None => r is None,
        },
{
    let ghost view = nodes@.map_values(|n: NodeProps| (n.node_id, n.label@, n.visible));
    let mut i: usize = nodes.len();
    while i > 0
        invariant
            i <= nodes@.len(),
            view == nodes@.map_values(|n: NodeProps| (n.node_id, n.label@, n.visible)),
            node_lookup(view, id) == node_lookup(view.take(i as int), id),
        decreases i,
    {
        let n = &nodes[i - 1];
        proof {
            assert(view.take(i as int).drop_last() =~= view.take(i - 1));
        }
        if n.node_id == id {
            return Some((n.label.clone(), n.visible));
        }
        i = i - 1;
    }
    proof {
        assert(view.take(0) =~= Seq::<(CrdtId, Seq<char>, bool)>::empty());
    }
    None
}

fn collect_lines(lines: &Vec<LineRecord>, id: CrdtId) -> (r: Vec<Line>)
    ensures
        r@.map_values(|l: Line| l@) == lines_of(
            lines@.map_values(|rec: LineRecord| (rec.parent_id, rec.line@)),
            id,
        ),
{
    let ghost view = lines@.map_values(|rec: LineRecord| (rec.parent_id, rec.line@));
    let mut out: Vec<Line> = Vec::new();
    let mut i: usize = 0;
    while i < lines.len()
        invariant
            i <= lines@.len(),
            view == lines@.map_values(|rec: LineRecord| (rec.parent_id, rec.line@)),
            out@.map_values(|l: Line| l@) == lines_of(view.take(i as int), id),
        decreases lines@.len() - i,
    {
        proof {
            assert(view.take(i + 1).drop_last() =~= view.take(i as int));
        }
        if lines[i].parent_id == id {
            let l = lines[i].line.duplicate();
            let ghost prev = out@;
            out.push(l);
            proof {
                assert(out@.map_values(|l: Line| l@) =~= prev.map_values(|l: Line| l@).push(l@));
            }
        }
        i = i + 1;
    }
    proof {
        assert(view.take(lines@.len() as int) =~= view);
    }
    out
}

fn seen_before(trees: &Vec<SceneTreeBlock>, i: usize) -> (b: bool)
    requires
        i < trees@.len(),
    ensures
        b == !first_seen(trees@, i as int),
{
    let mut j: usize = 0;
    while j < i
        invariant
            i < trees@.len(),
            j <= i,
            forall|k: int| 0 <= k < j ==> trees@[k].tree_id != trees@[i as int].tree_id,
        decreases i - j,
    {
        if trees[j].tree_id == trees[i].tree_id {
            return true;
        }
        j = j + 1;
    }
    false
}

/// Turn the collected records into layers, in first-occurrence order of the
/// scene-tree records that hang directly under the root.
fn assemble(inter: Intermediate) -> (p: Page)
    ensures
        p@ == spec_assemble(inter@),
        p@.text == inter@.text,
        p@.paper_size == inter@.paper_size,
{
    let ghost c = inter@;
    let mut layers: Vec<Layer> = Vec::new();
    let mut i: usize = 0;
    while i < inter.trees.len()
        invariant
            c == inter@,
            i <= inter.trees@.len(),
            layers@.map_values(|l: Layer| l@) == layers_upto(c, i as nat),
        decreases inter.trees@.len() - i,
    {
        let tree = inter.trees[i];
        let root = CrdtId::root();
        if !seen_before(&inter.trees, i) && tree.parent_id == root {
            let id = tree.tree_id;
            let (name, visible) = match lookup_node(&inter.nodes, id) {
                Some(p) => p,
                None => (String::new(), true),
            };
            let layer_lines = collect_lines(&inter.lines, id);
            let layer = Layer { node_id: id, name, visible, lines: layer_lines };
            let ghost prev = layers@;
            proof {
                assert(layer@ == layer_for(c, id));
            }
            layers.push(layer);
            proof {
                assert(layers@.map_values(|l: Layer| l@) =~= prev.map_values(|l: Layer| l@).push(
                    layer@,
                ));
            }
        }
        i = i + 1;
    }
    Page { layers, text: inter.text, paper_size: inter.paper_size }
}

/// A scene info block's paper size is (width, height) in on-disk order: the
/// first little-endian u32 of its sub-block 5, then the second, where that
/// sub-block is the one the block holds after its leading fields.
pub proof fn law_paper_size_is_width_then_height(s: Seq<u8>, w: u32, h: u32)
    requires
        spec_paper_size(s) == Ok::<Option<(u32, u32)>, ParseError>(Some((w, h))),
    ensures
        exists|n: int|
            (#[trigger] spec_subblock(s.skip(n), 5) matches Ok((sub, _)) && sub.len() >= 8 && w
                == le32(sub) as u32 && h == le32(sub.skip(4)) as u32),
{
    let (_, n1) = spec_lww_id(s, 1)->Ok_0;
    let (_, n2) = spec_lww_bool(s.skip(n1), 2)->Ok_0;
    let (_, n3) = spec_lww_bool(s.skip(n1 + n2), 3)->Ok_0;
    let (sub, m) = spec_subblock(s.skip(n1 + n2 + n3), 5)->Ok_0;
    assert(spec_subblock(s.skip(n1 + n2 + n3), 5) == Ok::<(Seq<u8>, int), ParseError>((sub, m)));
    assert(sub.skip(4).len() >= 4);
}

} // verus!
