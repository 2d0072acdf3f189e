//! Project-level edits: sequences, folders, text entries, tracks, footage.

use crate::commands::{mount, unmount, Command, Edit, TrackFlag};
use crate::errors::EditError;
use crate::graph::{
    Behavior, Footage, Graph, Node, NodeId, Sequence, TrackList, TrackType, VideoParams,
};
use crate::list::{contains, copy_of};
use crate::queries::{
    folder_children, footage_behavior, footage_ids, sequence_behavior, sequence_ids,
    track_behavior, track_list_behavior, track_list_of,
};
use crate::rational::Rational;
use vstd::prelude::*;

verus! {

/// The type of sequence nodes.
pub const SEQUENCE_TYPE_ID: &'static str = "org.olivevideoeditor.Olive.sequence";

/// The type of track lists.
pub const TRACK_LIST_TYPE_ID: &'static str = "org.olivevideoeditor.Olive.tracklist";

/// The type of folders.
pub const FOLDER_TYPE_ID: &'static str = "org.olivevideoeditor.Olive.folder";

/// The label a text entry starts with.
pub const TEXT_FOOTAGE_LABEL: &'static str = "文本";

/// The pixel format of a stream that has to be made up: 32-bit float.
pub const FLOAT_PIXEL_FORMAT: i32 = 4;

/// The channel count of a stream that has to be made up.
pub const RGBA_CHANNELS: i32 = 4;

/// The format of a sequence's picture.
#[derive(Clone, Copy, Debug)]
pub struct PictureFormat {
    pub width: i32,
    pub height: i32,
    pub rate: Rational,
    pub interlaced: bool,
}

/// `streams` with the first one set to `format`; a stream is made up when
/// there is none.
pub open spec fn formatted(streams: Seq<VideoParams>, format: PictureFormat) -> Seq<VideoParams> {
    if streams.len() == 0 {
        seq![
            VideoParams {
                width: format.width,
                height: format.height,
                frame_rate: format.rate,
                pixel_format: FLOAT_PIXEL_FORMAT,
                channels: RGBA_CHANNELS,
                interlaced: format.interlaced,
            },
        ]
    } else {
        streams.update(
            0,
            VideoParams {
                width: format.width,
                height: format.height,
                frame_rate: format.rate,
                interlaced: format.interlaced,
                ..streams[0]
            },
        )
    }
}

fn apply_format(streams: &mut Vec<VideoParams>, format: PictureFormat)
    ensures
        final(streams)@ == formatted(old(streams)@, format),
{
    if streams.len() == 0 {
        streams.push(
            VideoParams {
                width: format.width,
                height: format.height,
                frame_rate: format.rate,
                pixel_format: FLOAT_PIXEL_FORMAT,
                channels: RGBA_CHANNELS,
                interlaced: format.interlaced,
            },
        );
        assert(streams@ =~= formatted(old(streams)@, format));
    } else {
        let first: VideoParams = streams[0];
        streams[0] =
        VideoParams {
            width: format.width,
            height: format.height,
            frame_rate: format.rate,
            interlaced: format.interlaced,
            ..first
        };
    }
}

impl crate::graph::GraphModel {
    /// The graph with the track lists of the sequence at `seq` replaced.
    pub open spec fn with_lists(self, seq: NodeId, lists: Seq<NodeId>) -> crate::graph::GraphModel {
        match self.sequence(seq) {
            Some(s) => self.with_behavior(
                seq,
                crate::graph::BehaviorModel::Sequence(
                    crate::graph::SequenceModel { track_lists: lists, ..s },
                ),
            ),
            None => self,
        }
    }

    /// The graph with a track list of `kind` on the sequence at `seq`: the
    /// one there is, or a new one at the end of the sequence's lists.
    pub open spec fn with_track_list(
        self,
        seq: NodeId,
        kind: TrackType,
    ) -> crate::graph::GraphModel {
        match (self.track_list_of(seq, kind), self.sequence(seq)) {
            (None, Some(s)) => self.appended(
                crate::graph::new_node(
                    TRACK_LIST_TYPE_ID@,
                    crate::graph::BehaviorModel::TrackList(
                        crate::graph::TrackListModel {
                            kind,
                            tracks: Seq::empty(),
                            sequence: Some(seq),
                            array_base: s.track_lists.len() as i32,
                        },
                    ),
                ),
            ).with_lists(seq, s.track_lists.push(self.next_id())),
            _ => self,
        }
    }

    /// The list that [`GraphModel::with_track_list`] leaves the sequence
    /// with; none when `seq` is no sequence.
    pub open spec fn track_list_after(self, seq: NodeId, kind: TrackType) -> Option<NodeId> {
        match (self.track_list_of(seq, kind), self.sequence(seq)) {
            (Some(list), _) => Some(list),
            (None, Some(_)) => Some(self.next_id()),
            (None, None) => None,
        }
    }
}

/// The sequence's track list of `kind`, created when there is none.
pub fn find_or_create_track_list(g: &mut Graph, seq: NodeId, kind: TrackType) -> (r: Option<NodeId>)
    ensures
        r == old(g)@.track_list_after(seq, kind),
        final(g)@ == old(g)@.with_track_list(seq, kind),
{
    if let Some(list) = track_list_of(g, seq, kind) {
        return Some(list);
    }
    let count: usize = match sequence_behavior(g, seq) {
        Some(s) => s.track_lists.len(),
        None => return None,
    };
    let list: NodeId = g.add_node(
        Node::new(
            TRACK_LIST_TYPE_ID,
            Behavior::TrackList(
                TrackList {
                    kind,
                    tracks: Vec::new(),
                    sequence: Some(seq),
                    array_base: count as i32,
                },
            ),
        ),
    );
    if let Some(node) = g.get_mut(seq) {
        if let Behavior::Sequence(s) = &mut node.behavior {
            s.track_lists.push(list);
        }
    }
    Some(list)
}

/// The sequence node that a creation adds.
pub open spec fn sequence_node(name: Seq<char>, streams: Seq<VideoParams>) -> crate::graph::NodeModel {
    crate::graph::NodeModel {
        label: name,
        ..crate::graph::new_node(
            SEQUENCE_TYPE_ID@,
            crate::graph::BehaviorModel::Sequence(
                crate::graph::SequenceModel {
                    video_params: streams,
                    track_lists: Seq::empty(),
                    playhead: Rational { num: 0, den: 1 },
                },
            ),
        )
    }
}

/// The graph with a sequence added and mounted in the root folder.
pub open spec fn with_sequence(
    g: crate::graph::GraphModel,
    name: Seq<char>,
    streams: Seq<VideoParams>,
) -> crate::graph::GraphModel {
    let added = g.appended(sequence_node(name, streams));
    match g.root {
        Some(root) => added.mounted(root, g.next_id()),
        None => added,
    }
}

/// Creates a sequence with the default streams; see
/// [`create_sequence_with_params`].
pub fn create_sequence(g: &mut Graph, name: &str, default_streams: Vec<VideoParams>) -> (r: (
    NodeId,
    Vec<Command>,
))
    ensures
        ({
            let mounted = with_sequence(old(g)@, name@, default_streams@);
            let id = old(g)@.next_id();
            let video = mounted.with_track_list(id, TrackType::Video);
            let both = video.with_track_list(id, TrackType::Audio);
            let v = mounted.track_list_after(id, TrackType::Video).unwrap();
            let a = video.track_list_after(id, TrackType::Audio).unwrap();
            &&& r.0 == id
            &&& final(g)@ == both
            &&& r.1@ == seq![
                Command::AddTrack { list: v },
                Command::AddTrack { list: v },
                Command::AddTrack { list: a },
                Command::AddTrack { list: a },
            ]
        }),
{
    create_sequence_with_params(g, name, None, default_streams)
}

/// Creates a sequence mounted in the root folder, with two video and two
/// audio tracks. `params` sets the format of the first of the streams a new
/// sequence starts with. The mount and the tracks are part of the creation
/// and make no row; the host adds the tracks that are returned.
pub fn create_sequence_with_params(
    g: &mut Graph,
    name: &str,
    params: Option<PictureFormat>,
    default_streams: Vec<VideoParams>,
) -> (r: (NodeId, Vec<Command>))
    ensures
        ({
            let streams = match params {
                Some(format) => formatted(default_streams@, format),
                None => default_streams@,
            };
            let mounted = with_sequence(old(g)@, name@, streams);
            let id = old(g)@.next_id();
            let video = mounted.with_track_list(id, TrackType::Video);
            let both = video.with_track_list(id, TrackType::Audio);
            let v = mounted.track_list_after(id, TrackType::Video).unwrap();
            let a = video.track_list_after(id, TrackType::Audio).unwrap();
            &&& r.0 == id
            &&& final(g)@ == both
            &&& r.1@ == seq![
                Command::AddTrack { list: v },
                Command::AddTrack { list: v },
                Command::AddTrack { list: a },
                Command::AddTrack { list: a },
            ]
        }),
{
    let mut streams: Vec<VideoParams> = default_streams;
    if let Some(format) = params {
        apply_format(&mut streams, format);
    }
    let mut node: Node = Node::new(
        SEQUENCE_TYPE_ID,
        Behavior::Sequence(
            Sequence {
                video_params: streams,
                track_lists: Vec::new(),
                playhead: Rational::zero(),
            },
        ),
    );
    node.label = name.to_owned();
    let seq: NodeId = g.add_node(node);
    if let Some(root) = g.root {
        mount(g, root, seq);
    }
    let ghost mounted = g@;
    proof {
        assert(mounted.sequence(seq) is Some);
    }
    let mut tracks: Vec<Command> = Vec::new();
    if let Some(list) = find_or_create_track_list(g, seq, TrackType::Video) {
        tracks.push(Command::AddTrack { list });
        tracks.push(Command::AddTrack { list });
    }
    let ghost video = g@;
    proof {
        assert(video.sequence(seq) is Some);
    }
    if let Some(list) = find_or_create_track_list(g, seq, TrackType::Audio) {
        tracks.push(Command::AddTrack { list });
        tracks.push(Command::AddTrack { list });
    }
    assert(tracks@ =~= seq![
        Command::AddTrack {
            list: mounted.track_list_after(seq, TrackType::Video).unwrap(),
        },
        Command::AddTrack {
            list: mounted.track_list_after(seq, TrackType::Video).unwrap(),
        },
        Command::AddTrack { list: video.track_list_after(seq, TrackType::Audio).unwrap() },
        Command::AddTrack { list: video.track_list_after(seq, TrackType::Audio).unwrap() },
    ]);
    (seq, tracks)
}

/// A new folder under `name`, with nothing in it.
pub open spec fn folder_node(name: Seq<char>) -> crate::graph::NodeModel {
    crate::graph::NodeModel {
        label: name,
        ..crate::graph::new_node(
            FOLDER_TYPE_ID@,
            crate::graph::BehaviorModel::Folder(Seq::empty()),
        )
    }
}

/// Creates a folder under the root, as one "New Folder" row that covers the
/// mount.
pub fn create_folder(g: &mut Graph, name: &str) -> (r: Result<(NodeId, Edit), EditError>)
    ensures
        match old(g)@.root {
            None => r == Err::<(NodeId, Edit), EditError>(EditError::NoRoot) && final(g)@
                == old(g)@,
            Some(root) => {
                &&& r is Ok
                &&& r.unwrap().0 == old(g)@.next_id()
                &&& final(g)@ == old(g)@.appended(folder_node(name@))
                &&& r.unwrap().1.name@ == "New Folder"@
                &&& r.unwrap().1.commands@ == seq![
                    Command::AddChild { folder: root, child: r.unwrap().0 },
                ]
            },
        },
{
    let root: NodeId = match g.root {
        Some(root) => root,
        None => return Err(EditError::NoRoot),
    };
    let mut node: Node = Node::new(FOLDER_TYPE_ID, Behavior::Folder(Vec::new()));
    node.label = name.to_owned();
    let id: NodeId = g.add_node(node);
    let mut commands: Vec<Command> = Vec::new();
    commands.push(Command::AddChild { folder: root, child: id });
    assert(commands@ =~= seq![Command::AddChild { folder: root, child: id }]);
    Ok((id, Edit { name: "New Folder", commands }))
}

/// Why a text entry is refused.
#[derive(Clone, Copy, Debug, PartialEq, Eq, Structural)]
pub enum TextEntryError {
    /// The project has no root folder.
    NoRoot,
    /// No text generator is registered.
    NotRegistered,
}

/// A text entry's row: the node and its mount. Between an undo and the next
/// redo the row holds the node, so no orphan outlives the undo.
#[derive(Debug)]
pub struct TextEntry {
    pub id: NodeId,
    pub folder: NodeId,
    pub parked: Option<Node>,
}

impl TextEntry {
    /// Puts the node back under its old identity when the row holds it, and
    /// mounts it.
    pub fn redo(&mut self, g: &mut Graph)
        ensures
            ({
                let missing = old(g)@.node(old(self).id) is None;
                let back = if missing && old(self).parked is Some && old(self).id
                    < old(g)@.slots.len() {
                    old(g)@.with_node(old(self).id, old(self).parked.unwrap()@)
                } else {
                    old(g)@
                };
                &&& final(g)@ == back.mounted(old(self).folder, old(self).id)
                &&& final(self).id == old(self).id
                &&& final(self).folder == old(self).folder
                &&& missing ==> final(self).parked is None
                &&& !missing ==> final(self).parked == old(self).parked
            }),
    {
        if !g.is_valid(self.id) {
            if let Some(node) = self.parked.take() {
                g.add_entry(node, self.id);
            }
        }
        mount(g, self.folder, self.id);
    }

    /// Takes the node out of its folder and out of the graph.
    pub fn undo(&mut self, g: &mut Graph)
        ensures
            ({
                let detached = old(g)@.unmounted(old(self).folder, old(self).id);
                &&& final(self).id == old(self).id
                &&& final(self).folder == old(self).folder
                &&& match detached.node(old(self).id) {
                    Some(node) => {
                        &&& final(self).parked is Some
                        &&& final(self).parked.unwrap()@ == node
                        &&& final(g)@ == detached.taken(old(self).id)
                    },
                    None => final(self).parked is None && final(g)@ == detached,
                }
            }),
    {
        unmount(g, self.folder, self.id);
        self.parked = g.take_node(self.id);
    }
}

/// Adds a text entry to the root folder. `created` is the node the registry
/// makes for the text generator's type. The row's first redo is left to the
/// caller, as for every row.
pub fn create_text_footage_node(g: &mut Graph, created: Option<Node>) -> (r: Result<
    TextEntry,
    TextEntryError,
>)
    ensures
        match (old(g)@.root, created) {
            (None, _) => r == Err::<TextEntry, TextEntryError>(TextEntryError::NoRoot) && final(g)@
                == old(g)@,
            (Some(_), None) => r == Err::<TextEntry, TextEntryError>(
                TextEntryError::NotRegistered,
            ) && final(g)@ == old(g)@,
            (Some(root), Some(node)) => {
                &&& r is Ok
                &&& r.unwrap().id == old(g)@.next_id()
                &&& r.unwrap().folder == root
                &&& r.unwrap().parked is None
                &&& final(g)@ == old(g)@.appended(
                    crate::graph::NodeModel { label: TEXT_FOOTAGE_LABEL@, ..node@ },
                )
            },
        },
{
    let root: NodeId = match g.root {
        Some(root) => root,
        None => return Err(TextEntryError::NoRoot),
    };
    match created {
        None => Err(TextEntryError::NotRegistered),
        Some(node) => {
            let mut node: Node = node;
            node.label = TEXT_FOOTAGE_LABEL.to_owned();
            let id: NodeId = g.add_node(node);
            Ok(TextEntry { id, folder: root, parked: None })
        },
    }
}

/// The sequences among `ids` that are not in `children`.
pub open spec fn orphans(ids: Seq<NodeId>, children: Seq<NodeId>) -> Seq<NodeId>
    decreases ids.len(),
{
    if ids.len() == 0 {
        Seq::empty()
    } else if children.contains(ids.last()) {
        orphans(ids.drop_last(), children)
    } else {
        orphans(ids.drop_last(), children).push(ids.last())
    }
}

/// The graph with `ids` mounted in `folder`, in order.
pub open spec fn with_mounted(
    g: crate::graph::GraphModel,
    folder: NodeId,
    ids: Seq<NodeId>,
) -> crate::graph::GraphModel
    decreases ids.len(),
{
    if ids.len() == 0 {
        g
    } else {
        with_mounted(g, folder, ids.drop_last()).mounted(folder, ids.last())
    }
}

/// Mounts every sequence that is not in the root folder there. Makes no row.
pub fn ensure_sequences_mounted(g: &mut Graph)
    ensures
        final(g)@ == (match old(g)@.root {
            None => old(g)@,
            Some(root) => with_mounted(
                old(g)@,
                root,
                orphans(
                    crate::queries::members(
                        old(g)@,
                        crate::queries::NodeClass::Sequence,
                        old(g)@.slots.len(),
                    ),
                    match old(g)@.folder(root) {
                        Some(c) => c,
                        None => Seq::empty(),
                    },
                ),
            ),
        }),
{
    let root: NodeId = match g.root {
        Some(root) => root,
        None => return,
    };
    let children: Vec<NodeId> = match folder_children(g, root) {
        Some(c) => copy_of(c),
        None => Vec::new(),
    };
    let ids: Vec<NodeId> = sequence_ids(g);
    let mut lost: Vec<NodeId> = Vec::new();
    let mut i: usize = 0;
    while i < ids.len()
        invariant
            i <= ids.len(),
            lost@ == orphans(ids@.take(i as int), children@),
        decreases ids.len() - i,
    {
        proof {
            assert(ids@.take(i + 1).drop_last() == ids@.take(i as int));
        }
        if !contains(&children, ids[i]) {
            lost.push(ids[i]);
        }
        i = i + 1;
    }
    assert(ids@.take(i as int) == ids@);
    let ghost start = g@;
    let mut i: usize = 0;
    while i < lost.len()
        invariant
            i <= lost.len(),
            g@ == with_mounted(start, root, lost@.take(i as int)),
        decreases lost.len() - i,
    {
        proof {
            assert(lost@.take(i + 1).drop_last() == lost@.take(i as int));
        }
        mount(g, root, lost[i]);
        i = i + 1;
    }
    assert(lost@.take(i as int) == lost@);
}

/// The graph with the node at `seq` under `name` and, where it is a sequence,
/// of the picture format given.
pub open spec fn reformatted(
    g: crate::graph::GraphModel,
    seq: NodeId,
    name: Seq<char>,
    format: PictureFormat,
) -> crate::graph::GraphModel {
    match g.node(seq) {
        None => g,
        Some(n) => g.with_node(
            seq,
            crate::graph::NodeModel {
                label: name,
                behavior: match n.behavior {
                    crate::graph::BehaviorModel::Sequence(s) => {
                        crate::graph::BehaviorModel::Sequence(
                            crate::graph::SequenceModel {
                                video_params: formatted(s.video_params, format),
                                ..s
                            },
                        )
                    },
                    other => other,
                },
                ..n
            },
        ),
    }
}

/// Applies a name and a picture format to a sequence. Makes no row. A node
/// that is no sequence is renamed before it is refused.
pub fn set_sequence_parameters(g: &mut Graph, seq: NodeId, name: &str, format: PictureFormat) -> (r:
    Result<(), EditError>)
    ensures
        final(g)@ == reformatted(old(g)@, seq, name@, format),
        match old(g)@.node(seq) {
            None => r == Err::<(), EditError>(EditError::SequenceGone),
            Some(n) => match n.behavior {
                crate::graph::BehaviorModel::Sequence(_) => r is Ok,
                _ => r == Err::<(), EditError>(EditError::NotASequence),
            },
        },
{
    match g.get_mut(seq) {
        None => Err(EditError::SequenceGone),
        Some(node) => {
            node.label = name.to_owned();
            match &mut node.behavior {
                Behavior::Sequence(s) => {
                    apply_format(&mut s.video_params, format);
                    Ok(())
                },
                _ => Err(EditError::NotASequence),
            }
        },
    }
}

/// An "Add Track" row under way: the list, and its tracks before.
#[derive(Debug)]
pub struct TrackAddition {
    pub list: NodeId,
    pub before: Vec<NodeId>,
    pub edit: Edit,
}

/// Starts adding a track of `kind` to the sequence; the list is created when
/// there is none. Once the host has carried the row out,
/// [`added_track_index`] tells where the track is.
pub fn add_track(g: &mut Graph, seq: NodeId, kind: TrackType) -> (r: Result<
    TrackAddition,
    EditError,
>)
    ensures
        final(g)@ == old(g)@.with_track_list(seq, kind),
        match old(g)@.track_list_after(seq, kind) {
            None => r == Err::<TrackAddition, EditError>(EditError::NoList),
            Some(list) => {
                &&& r is Ok
                &&& r.unwrap().list == list
                &&& r.unwrap().before@ == (match final(g)@.track_list(list) {
                    Some(l) => l.tracks,
                    None => Seq::empty(),
                })
                &&& r.unwrap().edit.name@ == "Add Track"@
                &&& r.unwrap().edit.commands@ == seq![Command::AddTrack { list }]
            },
        },
{
    match find_or_create_track_list(g, seq, kind) {
        None => Err(EditError::NoList),
        Some(list) => {
            let before: Vec<NodeId> = match track_list_behavior(g, list) {
                Some(l) => copy_of(&l.tracks),
                None => Vec::new(),
            };
            let mut commands: Vec<Command> = Vec::new();
            commands.push(Command::AddTrack { list });
            assert(commands@ =~= seq![Command::AddTrack { list }]);
            Ok(TrackAddition { list, before, edit: Edit { name: "Add Track", commands } })
        },
    }
}

/// The first index at or after `from` whose track is not in `before`.
pub open spec fn first_new(tracks: Seq<NodeId>, before: Seq<NodeId>, from: int) -> Option<int>
    decreases tracks.len() - from,
{
    if from < 0 || from >= tracks.len() {
        None
    } else if !before.contains(tracks[from]) {
        Some(from)
    } else {
        first_new(tracks, before, from + 1)
    }
}

/// Where the track that a row added is in its list.
pub fn added_track_index(g: &Graph, addition: &TrackAddition) -> (r: Result<usize, EditError>)
    ensures
        match g@.track_list(addition.list) {
            None => r == Err::<usize, EditError>(EditError::NoAddedList),
            Some(l) => match first_new(l.tracks, addition.before@, 0) {
                None => r == Err::<usize, EditError>(EditError::NoAddedTrack),
                Some(i) => r is Ok && r.unwrap() == i,
            },
        },
{
    match track_list_behavior(g, addition.list) {
        None => Err(EditError::NoAddedList),
        Some(l) => {
            let mut i: usize = 0;
            while i < l.tracks.len()
                invariant
                    i <= l.tracks.len(),
                    g@.track_list(addition.list) == Some(l@),
                    first_new(l.tracks@, addition.before@, 0) == first_new(
                        l.tracks@,
                        addition.before@,
                        i as int,
                    ),
                decreases l.tracks.len() - i,
            {
                if !contains(&addition.before, l.tracks[i]) {
                    return Ok(i);
                }
                i = i + 1;
            }
            Err(EditError::NoAddedTrack)
        },
    }
}

/// Removes `track` from its list, as one "Remove Track" row.
pub fn remove_track(track: NodeId) -> (e: Edit)
    ensures
        e.name@ == "Remove Track"@,
        e.commands@ == seq![Command::RemoveTrack { track }],
{
    let mut commands: Vec<Command> = Vec::new();
    commands.push(Command::RemoveTrack { track });
    assert(commands@ =~= seq![Command::RemoveTrack { track }]);
    Edit { name: "Remove Track", commands }
}

/// What setting a track flag comes to: nothing when it is set that way.
pub open spec fn flag_plan(
    g: crate::graph::GraphModel,
    track: NodeId,
    flag: TrackFlag,
    value: bool,
) -> Result<Seq<Command>, EditError> {
    match g.track(track) {
        None => Err(EditError::FlagOfNonTrack),
        Some(t) => {
            let before = match flag {
                TrackFlag::Muted => t.muted,
                TrackFlag::Locked => t.locked,
            };
            if before == value {
                Ok(Seq::empty())
            } else {
                Ok(seq![Command::SetFlag { track, flag, before, after: value }])
            }
        },
    }
}

fn set_track_flag(g: &Graph, track: NodeId, flag: TrackFlag, value: bool, name: &'static str) -> (r:
    Result<Option<Edit>, EditError>)
    ensures
        crate::clip_edits::is_row(r, flag_plan(g@, track, flag, value), name@),
{
    let t = match track_behavior(g, track) {
        Some(t) => t,
        None => return Err(EditError::FlagOfNonTrack),
    };
    let before: bool = match flag {
        TrackFlag::Muted => t.muted,
        TrackFlag::Locked => t.locked,
    };
    let mut commands: Vec<Command> = Vec::new();
    if before != value {
        commands.push(Command::SetFlag { track, flag, before, after: value });
    }
    assert(commands@ =~= flag_plan(g@, track, flag, value).unwrap());
    Ok(crate::clip_edits::row(name, commands))
}

/// Sets a track's muted flag, as one "Set Track Muted" row. On video and
/// subtitle tracks this is the visibility toggle.
pub fn set_track_muted(g: &Graph, track: NodeId, muted: bool) -> (r: Result<
    Option<Edit>,
    EditError,
>)
    ensures
        crate::clip_edits::is_row(
            r,
            flag_plan(g@, track, TrackFlag::Muted, muted),
            "Set Track Muted"@,
        ),
{
    set_track_flag(g, track, TrackFlag::Muted, muted, "Set Track Muted")
}

/// Sets a track's locked flag, as one "Set Track Locked" row.
pub fn set_track_locked(g: &Graph, track: NodeId, locked: bool) -> (r: Result<
    Option<Edit>,
    EditError,
>)
    ensures
        crate::clip_edits::is_row(
            r,
            flag_plan(g@, track, TrackFlag::Locked, locked),
            "Set Track Locked"@,
        ),
{
    set_track_flag(g, track, TrackFlag::Locked, locked, "Set Track Locked")
}

/// The footage node for a probed file, labelled by its base name, or by its
/// whole path when it has none.
pub open spec fn footage_node(
    filename: Seq<char>,
    base_name: Seq<char>,
    streams: usize,
) -> crate::graph::NodeModel {
    crate::graph::NodeModel {
        label: if base_name.len() > 0 {
            base_name
        } else {
            filename
        },
        ..crate::graph::new_node(
            crate::queries::FOOTAGE_TYPE_ID@,
            crate::graph::BehaviorModel::Footage(
                crate::graph::FootageModel { filename, base_name, streams },
            ),
        )
    }
}

/// Adds the footage of a file that was probed, as one "Import Footage" row
/// that covers the mount in the root folder. A file that fails its probe
/// does not get here, so it leaves nothing behind.
pub fn import_footage(g: &mut Graph, filename: &str, base_name: &str, streams: usize) -> (r: Result<
    (NodeId, Edit),
    EditError,
>)
    ensures
        match old(g)@.root {
            None => r == Err::<(NodeId, Edit), EditError>(EditError::NoRoot) && final(g)@
                == old(g)@,
            Some(root) => {
                &&& r is Ok
                &&& r.unwrap().0 == old(g)@.next_id()
                &&& final(g)@ == old(g)@.appended(footage_node(filename@, base_name@, streams))
                &&& r.unwrap().1.name@ == "Import Footage"@
                &&& r.unwrap().1.commands@ == seq![
                    Command::AddChild { folder: root, child: r.unwrap().0 },
                ]
            },
        },
{
    let root: NodeId = match g.root {
        Some(root) => root,
        None => return Err(EditError::NoRoot),
    };
    let mut node: Node = Node::new(
        crate::queries::FOOTAGE_TYPE_ID,
        Behavior::Footage(
            Footage {
                filename: filename.to_owned(),
                base_name: base_name.to_owned(),
                streams,
            },
        ),
    );
    node.label = if base_name.is_empty() {
        filename.to_owned()
    } else {
        base_name.to_owned()
    };
    let id: NodeId = g.add_node(node);
    let mut commands: Vec<Command> = Vec::new();
    commands.push(Command::AddChild { folder: root, child: id });
    assert(commands@ =~= seq![Command::AddChild { folder: root, child: id }]);
    Ok((id, Edit { name: "Import Footage", commands }))
}

/// Whether the footage at `id` names a file that no probe has recorded.
pub open spec fn unprobed(g: crate::graph::GraphModel, id: NodeId) -> bool {
    match g.footage(id) {
        Some(f) => f.streams == 0 && f.filename.len() > 0,
        None => false,
    }
}

/// The unprobed ones among `ids`.
pub open spec fn unprobed_among(g: crate::graph::GraphModel, ids: Seq<NodeId>) -> Seq<NodeId>
    decreases ids.len(),
{
    if ids.len() == 0 {
        Seq::empty()
    } else if unprobed(g, ids.last()) {
        unprobed_among(g, ids.drop_last()).push(ids.last())
    } else {
        unprobed_among(g, ids.drop_last())
    }
}

/// The footage to probe again: a file is named, and no stream is recorded.
pub fn unprobed_footage(g: &Graph) -> (r: Vec<NodeId>)
    ensures
        r@ == unprobed_among(
            g@,
            crate::queries::members(
                g@,
                crate::queries::NodeClass::Footage,
                g@.slots.len(),
            ),
        ),
{
    let ids: Vec<NodeId> = footage_ids(g);
    let mut r: Vec<NodeId> = Vec::new();
    let mut i: usize = 0;
    while i < ids.len()
        invariant
            i <= ids.len(),
            r@ == unprobed_among(g@, ids@.take(i as int)),
        decreases ids.len() - i,
    {
        proof {
            assert(ids@.take(i + 1).drop_last() == ids@.take(i as int));
        }
        if let Some(f) = footage_behavior(g, ids[i]) {
            if f.streams == 0 && !f.filename.as_str().is_empty() {
                r.push(ids[i]);
            }
        }
        i = i + 1;
    }
    assert(ids@.take(i as int) == ids@);
    r
}

/// The probed duration of footage, in seconds and as a fraction: nothing
/// while it is unknown, or not positive.
pub fn footage_duration_seconds(duration: Rational) -> (r: Option<Rational>)
    ensures
        r == if duration.den != 0 && duration.num != 0 && (duration.num > 0 <==> duration.den > 0) {
            Some(duration)
        } else {
            None
        },
{
    if duration.den == 0 || duration.num == 0 || (duration.num > 0) != (duration.den > 0) {
        None
    } else {
        Some(duration)
    }
}

/// The graph with a probe of the footage at `id` on record.
pub open spec fn probed(
    g: crate::graph::GraphModel,
    id: NodeId,
    filename: Seq<char>,
    streams: usize,
) -> crate::graph::GraphModel {
    match g.footage(id) {
        Some(f) => g.with_behavior(
            id,
            crate::graph::BehaviorModel::Footage(
                crate::graph::FootageModel { filename, streams, ..f },
            ),
        ),
        None => g,
    }
}

/// Records a probe: the resolved path of the file and its streams. A node
/// that is no footage is left alone.
pub fn record_probe(g: &mut Graph, id: NodeId, filename: &str, streams: usize)
    ensures
        final(g)@ == probed(old(g)@, id, filename@, streams),
{
    if let Some(node) = g.get_mut(id) {
        if let Behavior::Footage(f) = &mut node.behavior {
            f.filename = filename.to_owned();
            f.streams = streams;
        }
    }
}

} // verus!
