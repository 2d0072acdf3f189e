//! The project graph: an arena of nodes, the timeline's sequences, track
//! lists, tracks and blocks among them.

use crate::list::{contains, copy_of, retain_not};
use crate::rational::Rational;
use crate::text::same_text;
use vstd::prelude::*;

verus! {

/// The identity of a node: its slot in the arena.
pub type NodeId = u64;

/// The identity that names no node.
pub const INVALID_ID: u64 = 0xffff_ffff_ffff_ffff;

/// The kind of media a track carries.
#[derive(Clone, Copy, Debug, PartialEq, Eq, Structural)]
pub enum TrackType {
    Video,
    Audio,
    Subtitle,
}

/// The timeline extent of a block.
///
/// The playback speed is carried as the bit pattern of its double; nothing
/// here interprets it.
#[derive(Clone, Copy, Debug)]
pub struct Block {
    pub in_point: Rational,
    pub out_point: Rational,
    pub media_in: Rational,
    pub track: Option<NodeId>,
    pub speed_bits: u64,
}

/// One video stream of a sequence.
#[derive(Clone, Copy, Debug)]
pub struct VideoParams {
    pub width: i32,
    pub height: i32,
    pub frame_rate: Rational,
    pub pixel_format: i32,
    pub channels: i32,
    pub interlaced: bool,
}

/// A sequence: its streams, its track lists and its playhead.
#[derive(Debug)]
pub struct Sequence {
    pub video_params: Vec<VideoParams>,
    pub track_lists: Vec<NodeId>,
    pub playhead: Rational,
}

/// What a [`Sequence`] holds.
#[verifier::ext_equal]
pub struct SequenceModel {
    pub video_params: Seq<VideoParams>,
    pub track_lists: Seq<NodeId>,
    pub playhead: Rational,
}

/// The tracks of one kind, in stack order.
#[derive(Debug)]
pub struct TrackList {
    pub kind: TrackType,
    pub tracks: Vec<NodeId>,
    pub sequence: Option<NodeId>,
    pub array_base: i32,
}

/// What a [`TrackList`] holds.
#[verifier::ext_equal]
pub struct TrackListModel {
    pub kind: TrackType,
    pub tracks: Seq<NodeId>,
    pub sequence: Option<NodeId>,
    pub array_base: i32,
}

/// A track: its blocks in timeline order, and its flags.
#[derive(Debug)]
pub struct Track {
    pub kind: TrackType,
    pub index: i32,
    pub blocks: Vec<NodeId>,
    pub track_list: Option<NodeId>,
    pub muted: bool,
    pub locked: bool,
}

/// What a [`Track`] holds.
#[verifier::ext_equal]
pub struct TrackModel {
    pub kind: TrackType,
    pub index: i32,
    pub blocks: Seq<NodeId>,
    pub track_list: Option<NodeId>,
    pub muted: bool,
    pub locked: bool,
}

/// A transition block: `in_offset` reaches into the block before it and
/// `out_offset` into the block after it.
#[derive(Clone, Copy, Debug)]
pub struct Transition {
    pub core: Block,
    pub in_offset: Rational,
    pub out_offset: Rational,
}

/// A media file: its path, the last component of that path (empty when it
/// has none), and the number of streams its probe recorded.
#[derive(Debug)]
pub struct Footage {
    pub filename: String,
    pub base_name: String,
    pub streams: usize,
}

/// What a [`Footage`] holds.
#[verifier::ext_equal]
pub struct FootageModel {
    pub filename: Seq<char>,
    pub base_name: Seq<char>,
    pub streams: usize,
}

/// What a node does in the graph.
#[derive(Debug)]
pub enum Behavior {
    Sequence(Sequence),
    TrackList(TrackList),
    Track(Track),
    Clip(Block),
    Gap(Block),
    Transition(Transition),
    Adjustment(Block),
    Footage(Footage),
    Folder(Vec<NodeId>),
    Opaque,
}

/// What a [`Behavior`] holds.
#[verifier::ext_equal]
pub enum BehaviorModel {
    Sequence(SequenceModel),
    TrackList(TrackListModel),
    Track(TrackModel),
    Clip(Block),
    Gap(Block),
    Transition(Transition),
    Adjustment(Block),
    Footage(FootageModel),
    Folder(Seq<NodeId>),
    Opaque,
}

/// One input of a node; element -1 is the input itself, other elements are
/// the entries of an array input.
#[derive(Debug)]
pub struct Input {
    pub id: String,
    pub element: i32,
    pub connectable: bool,
    pub source: Option<NodeId>,
}

/// What an [`Input`] holds.
#[verifier::ext_equal]
pub struct InputModel {
    pub id: Seq<char>,
    pub element: i32,
    pub connectable: bool,
    pub source: Option<NodeId>,
}

/// Where a node sits inside a context's editor; the coordinates are carried
/// as the bit patterns of their doubles.
#[derive(Clone, Copy, Debug)]
pub struct ContextPosition {
    pub context: NodeId,
    pub x_bits: u64,
    pub y_bits: u64,
    pub expanded: bool,
}

/// A node of the graph.
#[derive(Debug)]
pub struct Node {
    pub type_id: String,
    pub label: String,
    pub color: i32,
    pub links: Vec<NodeId>,
    pub bin_folder: Option<NodeId>,
    pub inputs: Vec<Input>,
    pub positions: Vec<ContextPosition>,
    pub behavior: Behavior,
}

/// What a [`Node`] holds.
#[verifier::ext_equal]
pub struct NodeModel {
    pub type_id: Seq<char>,
    pub label: Seq<char>,
    pub color: i32,
    pub links: Seq<NodeId>,
    pub bin_folder: Option<NodeId>,
    pub inputs: Seq<InputModel>,
    pub positions: Seq<ContextPosition>,
    pub behavior: BehaviorModel,
}

/// A project's nodes, in arena order, and its root folder.
#[derive(Debug)]
pub struct Graph {
    pub slots: Vec<Option<Node>>,
    pub root: Option<NodeId>,
}

/// What a [`Graph`] holds.
#[verifier::ext_equal]
pub struct GraphModel {
    pub slots: Seq<Option<NodeModel>>,
    pub root: Option<NodeId>,
}

impl View for Sequence {
    type V = SequenceModel;

    open spec fn view(&self) -> SequenceModel {
        SequenceModel {
            video_params: self.video_params@,
            track_lists: self.track_lists@,
            playhead: self.playhead,
        }
    }
}

impl View for TrackList {
    type V = TrackListModel;

    open spec fn view(&self) -> TrackListModel {
        TrackListModel {
            kind: self.kind,
            tracks: self.tracks@,
            sequence: self.sequence,
            array_base: self.array_base,
        }
    }
}

impl View for Track {
    type V = TrackModel;

    open spec fn view(&self) -> TrackModel {
        TrackModel {
            kind: self.kind,
            index: self.index,
            blocks: self.blocks@,
            track_list: self.track_list,
            muted: self.muted,
            locked: self.locked,
        }
    }
}

impl View for Footage {
    type V = FootageModel;

    open spec fn view(&self) -> FootageModel {
        FootageModel {
            filename: self.filename@,
            base_name: self.base_name@,
            streams: self.streams,
        }
    }
}

impl View for Behavior {
    type V = BehaviorModel;

    open spec fn view(&self) -> BehaviorModel {
        match self {
            Behavior::Sequence(s) => BehaviorModel::Sequence(s@),
            Behavior::TrackList(l) => BehaviorModel::TrackList(l@),
            Behavior::Track(t) => BehaviorModel::Track(t@),
            Behavior::Clip(b) => BehaviorModel::Clip(*b),
            Behavior::Gap(b) => BehaviorModel::Gap(*b),
            Behavior::Transition(t) => BehaviorModel::Transition(*t),
            Behavior::Adjustment(b) => BehaviorModel::Adjustment(*b),
            Behavior::Footage(f) => BehaviorModel::Footage(f@),
            Behavior::Folder(c) => BehaviorModel::Folder(c@),
            Behavior::Opaque => BehaviorModel::Opaque,
        }
    }
}

impl View for Input {
    type V = InputModel;

    open spec fn view(&self) -> InputModel {
        InputModel {
            id: self.id@,
            element: self.element,
            connectable: self.connectable,
            source: self.source,
        }
    }
}

/// What a list of inputs holds.
pub open spec fn inputs_model(inputs: Seq<Input>) -> Seq<InputModel> {
    Seq::new(inputs.len(), |i: int| inputs[i]@)
}

impl View for Node {
    type V = NodeModel;

    open spec fn view(&self) -> NodeModel {
        NodeModel {
            type_id: self.type_id@,
            label: self.label@,
            color: self.color,
            links: self.links@,
            bin_folder: self.bin_folder,
            inputs: inputs_model(self.inputs@),
            positions: self.positions@,
            behavior: self.behavior@,
        }
    }
}

/// What an arena slot holds.
pub open spec fn slot_model(slot: Option<Node>) -> Option<NodeModel> {
    match slot {
        Some(node) => Some(node@),
        None => None,
    }
}

/// What an arena holds.
pub open spec fn slots_model(slots: Seq<Option<Node>>) -> Seq<Option<NodeModel>> {
    Seq::new(slots.len(), |i: int| slot_model(slots[i]))
}

impl View for Graph {
    type V = GraphModel;

    open spec fn view(&self) -> GraphModel {
        GraphModel { slots: slots_model(self.slots@), root: self.root }
    }
}

/// The input a clip reads its picture from.
pub const TEXTURE_INPUT: &'static str = "tex_in";

/// The input of a transition that the block before it feeds.
pub const OUT_BLOCK: &'static str = "out_block_in";

/// The input of a transition that the block after it feeds.
pub const IN_BLOCK: &'static str = "in_block_in";

/// The extent of a block behavior, whatever its kind.
pub open spec fn extent_of(b: BehaviorModel) -> Option<Block> {
    match b {
        BehaviorModel::Clip(core) => Some(core),
        BehaviorModel::Gap(core) => Some(core),
        BehaviorModel::Transition(t) => Some(t.core),
        BehaviorModel::Adjustment(core) => Some(core),
        _ => None,
    }
}

/// The block behavior with its extent replaced; other behaviors unchanged.
pub open spec fn with_extent(b: BehaviorModel, core: Block) -> BehaviorModel {
    match b {
        BehaviorModel::Clip(_) => BehaviorModel::Clip(core),
        BehaviorModel::Gap(_) => BehaviorModel::Gap(core),
        BehaviorModel::Transition(t) => BehaviorModel::Transition(Transition { core, ..t }),
        BehaviorModel::Adjustment(_) => BehaviorModel::Adjustment(core),
        _ => b,
    }
}

/// The first input at or after `from` that is `id` itself, no array entry.
pub open spec fn input_from(inputs: Seq<InputModel>, id: Seq<char>, from: int) -> Option<int>
    decreases inputs.len() - from,
{
    if from < 0 || from >= inputs.len() {
        None
    } else if inputs[from].id == id && inputs[from].element == -1 {
        Some(from)
    } else {
        input_from(inputs, id, from + 1)
    }
}

impl NodeModel {
    /// The index of the input `id` itself.
    pub open spec fn input(self, id: Seq<char>) -> Option<int> {
        input_from(self.inputs, id, 0)
    }

    /// What feeds the input `id`.
    pub open spec fn source(self, id: Seq<char>) -> Option<NodeId> {
        match self.input(id) {
            Some(i) => self.inputs[i].source,
            None => None,
        }
    }

    /// The node with the input at index `i` fed by `source`.
    pub open spec fn fed(self, i: int, source: Option<NodeId>) -> NodeModel {
        NodeModel {
            inputs: self.inputs.update(i, InputModel { source, ..self.inputs[i] }),
            ..self
        }
    }
}

/// A node without its links to `id`.
pub open spec fn unlinked(node: Option<NodeModel>, id: NodeId) -> Option<NodeModel> {
    match node {
        Some(n) => Some(NodeModel { links: crate::list::without(n.links, id), ..n }),
        None => None,
    }
}

impl GraphModel {
    /// The node at `id`, when the slot is taken.
    pub open spec fn node(self, id: NodeId) -> Option<NodeModel> {
        if id < self.slots.len() {
            self.slots[id as int]
        } else {
            None
        }
    }

    /// The graph with the node at `id` replaced.
    pub open spec fn with_node(self, id: NodeId, node: NodeModel) -> GraphModel {
        GraphModel { slots: self.slots.update(id as int, Some(node)), ..self }
    }

    /// The graph without the node at `id`, which nothing links to any more.
    pub open spec fn taken(self, id: NodeId) -> GraphModel {
        GraphModel {
            slots: Seq::new(
                self.slots.len(),
                |i: int|
                    if i == id {
                        None
                    } else {
                        unlinked(self.slots[i], id)
                    },
            ),
            ..self
        }
    }

    /// The graph with one more node, at the end of the arena.
    pub open spec fn appended(self, node: NodeModel) -> GraphModel {
        GraphModel { slots: self.slots.push(Some(node)), ..self }
    }

    /// The identity the next node gets.
    pub open spec fn next_id(self) -> NodeId {
        self.slots.len() as u64
    }

    /// The sequence at `id`.
    pub open spec fn sequence(self, id: NodeId) -> Option<SequenceModel> {
        match self.node(id) {
            Some(n) => match n.behavior {
                BehaviorModel::Sequence(s) => Some(s),
                _ => None,
            },
            None => None,
        }
    }

    /// The track list at `id`.
    pub open spec fn track_list(self, id: NodeId) -> Option<TrackListModel> {
        match self.node(id) {
            Some(n) => match n.behavior {
                BehaviorModel::TrackList(l) => Some(l),
                _ => None,
            },
            None => None,
        }
    }

    /// The track at `id`.
    pub open spec fn track(self, id: NodeId) -> Option<TrackModel> {
        match self.node(id) {
            Some(n) => match n.behavior {
                BehaviorModel::Track(t) => Some(t),
                _ => None,
            },
            None => None,
        }
    }

    /// The clip at `id`.
    pub open spec fn clip(self, id: NodeId) -> Option<Block> {
        match self.node(id) {
            Some(n) => match n.behavior {
                BehaviorModel::Clip(core) => Some(core),
                _ => None,
            },
            None => None,
        }
    }

    /// The transition at `id`.
    pub open spec fn transition(self, id: NodeId) -> Option<Transition> {
        match self.node(id) {
            Some(n) => match n.behavior {
                BehaviorModel::Transition(t) => Some(t),
                _ => None,
            },
            None => None,
        }
    }

    /// The footage at `id`.
    pub open spec fn footage(self, id: NodeId) -> Option<FootageModel> {
        match self.node(id) {
            Some(n) => match n.behavior {
                BehaviorModel::Footage(f) => Some(f),
                _ => None,
            },
            None => None,
        }
    }

    /// The children of the folder at `id`.
    pub open spec fn folder(self, id: NodeId) -> Option<Seq<NodeId>> {
        match self.node(id) {
            Some(n) => match n.behavior {
                BehaviorModel::Folder(c) => Some(c),
                _ => None,
            },
            None => None,
        }
    }

    /// The extent of the block at `id`, whatever its kind.
    pub open spec fn block(self, id: NodeId) -> Option<Block> {
        match self.node(id) {
            Some(n) => extent_of(n.behavior),
            None => None,
        }
    }

    /// The graph with the extent of the block at `id` replaced.
    pub open spec fn with_block(self, id: NodeId, core: Block) -> GraphModel {
        match self.node(id) {
            Some(n) => self.with_node(
                id,
                NodeModel { behavior: with_extent(n.behavior, core), ..n },
            ),
            None => self,
        }
    }

    /// What feeds the input `input` of the node at `id`.
    pub open spec fn connected_output(self, id: NodeId, input: Seq<char>) -> Option<NodeId> {
        match self.node(id) {
            Some(n) => n.source(input),
            None => None,
        }
    }

    /// The links of the node at `id`.
    pub open spec fn links(self, id: NodeId) -> Seq<NodeId> {
        match self.node(id) {
            Some(n) => n.links,
            None => Seq::empty(),
        }
    }

    /// The graph with `to` among the links of `from`.
    pub open spec fn with_link(self, from: NodeId, to: NodeId) -> GraphModel {
        match self.node(from) {
            Some(n) => if n.links.contains(to) {
                self
            } else {
                self.with_node(from, NodeModel { links: n.links.push(to), ..n })
            },
            None => self,
        }
    }

    /// The graph with `to` dropped from the links of `from`.
    pub open spec fn without_link(self, from: NodeId, to: NodeId) -> GraphModel {
        match self.node(from) {
            Some(n) => self.with_node(from, NodeModel { links: crate::list::without(n.links, to), ..n }),
            None => self,
        }
    }

    /// The graph with the input `input` of `to` fed by `source`.
    pub open spec fn with_source(
        self,
        to: NodeId,
        input: Seq<char>,
        source: Option<NodeId>,
    ) -> GraphModel {
        match self.node(to) {
            Some(n) => match n.input(input) {
                Some(i) => self.with_node(to, n.fed(i, source)),
                None => self,
            },
            None => self,
        }
    }
}

impl Node {
    /// A node of type `type_id` with no label, colour, links or inputs.
    pub fn new(type_id: &str, behavior: Behavior) -> (n: Node)
        ensures
            n@ == new_node(type_id@, behavior@),
    {
        Node {
            type_id: type_id.to_owned(),
            label: String::new(),
            color: -1,
            links: Vec::new(),
            bin_folder: None,
            inputs: Vec::new(),
            positions: Vec::new(),
            behavior,
        }
    }

    /// Adds a connectable, unconnected input.
    pub fn add_input(&mut self, id: &str)
        ensures
            final(self)@ == with_input(old(self)@, id@),
    {
        let ghost before = self@;
        self.inputs.push(
            Input { id: id.to_owned(), element: -1, connectable: true, source: None },
        );
        assert(self@.inputs =~= with_input(before, id@).inputs);
    }

    /// The index of the input `id` itself.
    pub fn input(&self, id: &str) -> (r: Option<usize>)
        ensures
            match r {
                Some(i) => self@.input(id@) == Some(i as int) && i < self.inputs.len(),
                None => self@.input(id@) is None,
            },
    {
        let mut i: usize = 0;
        while i < self.inputs.len()
            invariant
                i <= self.inputs.len(),
                self@.input(id@) == input_from(self@.inputs, id@, i as int),
            decreases self.inputs.len() - i,
        {
            let found: bool = same_text(self.inputs[i].id.as_str(), id) && self.inputs[i].element
                == -1;
            assert(self@.inputs[i as int] == self.inputs@[i as int]@);
            if found {
                return Some(i);
            }
            i = i + 1;
        }
        None
    }
}

/// A node with no label, colour, links or inputs.
pub open spec fn new_node(type_id: Seq<char>, behavior: BehaviorModel) -> NodeModel {
    NodeModel {
        type_id,
        label: Seq::empty(),
        color: (-1) as i32,
        links: Seq::empty(),
        bin_folder: None,
        inputs: Seq::empty(),
        positions: Seq::empty(),
        behavior,
    }
}

/// The node with one more connectable, unconnected input.
pub open spec fn with_input(n: NodeModel, id: Seq<char>) -> NodeModel {
    NodeModel {
        inputs: n.inputs.push(InputModel { id, element: (-1) as i32, connectable: true, source: None }),
        ..n
    }
}

impl Graph {
    /// An empty graph.
    pub fn new() -> (g: Graph)
        ensures
            g@ == (GraphModel { slots: Seq::empty(), root: None }),
    {
        Graph { slots: Vec::new(), root: None }
    }

    /// The node at `id`, when the slot is taken.
    pub fn get(&self, id: NodeId) -> (r: Option<&Node>)
        ensures
            match r {
                Some(node) => self@.node(id) == Some(node@),
                None => self@.node(id) is None,
            },
    {
        if id >= self.slots.len() as u64 {
            return None;
        }
        match &self.slots[id as usize] {
            Some(node) => Some(node),
            None => None,
        }
    }

    /// The node at `id`, for writing.
    pub fn get_mut(&mut self, id: NodeId) -> (r: Option<&mut Node>)
        ensures
            match r {
                Some(node) => {
                    &&& old(self)@.node(id) == Some(node@)
                    &&& final(self)@ == old(self)@.with_node(id, final(node)@)
                },
                None => old(self)@.node(id) is None && final(self)@ == old(self)@,
            },
    {
        if id >= self.slots.len() as u64 {
            return None;
        }
        match &mut self.slots[id as usize] {
            Some(node) => Some(node),
            None => None,
        }
    }

    /// Whether a node stands at `id`.
    pub fn is_valid(&self, id: NodeId) -> (b: bool)
        ensures
            b == (self@.node(id) is Some),
    {
        self.get(id).is_some()
    }

    /// Adds a node at the end of the arena.
    pub fn add_node(&mut self, node: Node) -> (id: NodeId)
        ensures
            id == old(self)@.slots.len(),
            id == old(self)@.next_id(),
            old(self)@.node(id) is None,
            final(self)@ == old(self)@.appended(node@),
    {
        let id: u64 = self.slots.len() as u64;
        self.slots.push(Some(node));
        id
    }

    /// Takes the node at `id` out of the arena, and the links to it with it;
    /// its slot stays free.
    pub fn take_node(&mut self, id: NodeId) -> (r: Option<Node>)
        ensures
            match r {
                Some(node) => old(self)@.node(id) == Some(node@) && final(self)@ == old(
                    self,
                )@.taken(id),
                None => old(self)@.node(id) is None && final(self)@ == old(self)@,
            },
    {
        if id >= self.slots.len() as u64 {
            return None;
        }
        let node: Option<Node> = self.slots[id as usize].take();
        if node.is_none() {
            assert(self@.slots =~= old(self)@.slots);
            return None;
        }
        let n: usize = self.slots.len();
        let mut i: usize = 0;
        while i < n
            invariant
                i <= n,
                n == self@.slots.len(),
                id < n,
                self@.slots.len() == old(self)@.slots.len(),
                self@.root == old(self)@.root,
                self@.slots[id as int] is None,
                forall|j: int|
                    0 <= j < i && j != id ==> #[trigger] self@.slots[j] == unlinked(
                        old(self)@.slots[j],
                        id,
                    ),
                forall|j: int|
                    i <= j < n && j != id ==> #[trigger] self@.slots[j] == old(self)@.slots[j],
            decreases n - i,
        {
            let ghost before = self@;
            if let Some(other) = self.get_mut(i as u64) {
                other.links = retain_not(&other.links, id);
            }
            assert(forall|j: int|
                0 <= j < n && j != i ==> #[trigger] self@.slots[j] == before.slots[j]);
            i = i + 1;
        }
        assert(self@.slots =~= old(self)@.taken(id).slots);
        node
    }

    /// Puts a node back into the free slot `id`; a slot that is taken, or
    /// outside the arena, leaves the graph unchanged.
    pub fn add_entry(&mut self, node: Node, id: NodeId)
        ensures
            final(self)@ == (if id < old(self)@.slots.len() && old(self)@.node(id) is None {
                old(self)@.with_node(id, node@)
            } else {
                old(self)@
            }),
    {
        if id < self.slots.len() as u64 && self.slots[id as usize].is_none() {
            self.slots[id as usize] = Some(node);
        }
    }

    /// What feeds the input `input` of the node at `id`.
    pub fn connected_output(&self, id: NodeId, input: &str) -> (r: Option<NodeId>)
        ensures
            r == self@.connected_output(id, input@),
    {
        match self.get(id) {
            Some(node) => match node.input(input) {
                Some(i) => {
                    assert(node@.inputs[i as int] == node.inputs@[i as int]@);
                    node.inputs[i].source
                },
                None => None,
            },
            None => None,
        }
    }

    /// Feeds the input `input` of `to` from `source`, when that input exists.
    pub fn set_source(&mut self, to: NodeId, input: &str, source: Option<NodeId>)
        ensures
            final(self)@ == old(self)@.with_source(to, input@, source),
    {
        if let Some(node) = self.get_mut(to) {
            let ghost before = node@;
            if let Some(i) = node.input(input) {
                node.inputs[i].source = source;
                assert(node@.inputs =~= before.fed(i as int, source).inputs);
                assert(node@ =~= before.fed(i as int, source));
            }
        }
    }

    /// The links of the node at `id`.
    pub fn links_of(&self, id: NodeId) -> (r: Vec<NodeId>)
        ensures
            r@ == self@.links(id),
    {
        match self.get(id) {
            Some(node) => copy_of(&node.links),
            None => Vec::new(),
        }
    }

    /// Puts `to` among the links of `from`.
    pub fn add_link(&mut self, from: NodeId, to: NodeId)
        ensures
            final(self)@ == old(self)@.with_link(from, to),
    {
        if let Some(node) = self.get_mut(from) {
            if !contains(&node.links, to) {
                node.links.push(to);
            }
        }
    }

    /// Drops `to` from the links of `from`.
    pub fn remove_link(&mut self, from: NodeId, to: NodeId)
        ensures
            final(self)@ == old(self)@.without_link(from, to),
    {
        if let Some(node) = self.get_mut(from) {
            node.links = retain_not(&node.links, to);
        }
    }

    /// Writes the extent of the block at `id`; `false` when it is no block.
    pub fn set_block(&mut self, id: NodeId, core: Block) -> (b: bool)
        ensures
            b == (old(self)@.block(id) is Some),
            final(self)@ == old(self)@.with_block(id, core),
    {
        match self.get_mut(id) {
            Some(node) => match &mut node.behavior {
                Behavior::Clip(b) => {
                    *b = core;
                    true
                },
                Behavior::Gap(b) => {
                    *b = core;
                    true
                },
                Behavior::Transition(t) => {
                    t.core = core;
                    true
                },
                Behavior::Adjustment(b) => {
                    *b = core;
                    true
                },
                _ => false,
            },
            None => false,
        }
    }
}

} // verus!
