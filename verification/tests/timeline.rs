//! The project graph: queries, placement, edits, transitions and links.

use oak_app::clip_edits::{
    ripple_trim_clip, roll_edit, slide_clip, slip_clip, split_clip, split_clips_preserving_links,
    trim_clip,
};
use oak_app::clipboard::{copy_clips, paste_clips, ClipboardClip};
use oak_app::commands::{Command, Edit, Port};
use oak_app::default_transition::add_default_transition;
use oak_app::edges::{
    connect_command, disconnect_command, set_context_position_command, EdgeError,
};
use oak_app::errors::EditError;
use oak_app::extent::sequence_length;
use oak_app::graph::{
    Behavior, Block, Graph, Node, NodeId, Track, TrackType, VideoParams, IN_BLOCK, INVALID_ID,
    OUT_BLOCK, TEXTURE_INPUT,
};
use oak_app::links::{place_footage_clips_linked, set_clips_linked};
use oak_app::moves::{
    delete_clip, move_clip, move_clip_to_track, move_clip_with_links, remove_node,
    ripple_delete_clip,
};
use oak_app::placement::{
    create_adjustment_layer, create_footage_clip, place_footage_clip, place_generator_clip,
    place_nested_sequence_clip, place_text_clip, ADJUSTMENT_TYPE_ID, TEXT_FOOTAGE_TYPE_ID,
};
use oak_app::project::{
    add_track, added_track_index, create_folder, create_sequence, create_sequence_with_params,
    create_text_footage_node, ensure_sequences_mounted, find_or_create_track_list,
    footage_duration_seconds, import_footage, record_probe, remove_track, set_sequence_parameters,
    set_track_locked, set_track_muted, unprobed_footage, PictureFormat, TextEntryError,
    FOLDER_TYPE_ID, TEXT_FOOTAGE_LABEL,
};
use oak_app::queries::{
    block_core_of, clip_behavior, clip_color_index, clip_ids, clip_range, clip_track,
    folder_children, folder_ids, footage_behavior, footage_display_name, footage_ids, id_of,
    is_folder, is_timeline_clip, multicam_nodes, node_label, node_type_id, sequence_behavior,
    sequence_ids, sequence_playhead, sequence_set_playhead, sequence_time_base,
    sequence_video_params, track_behavior, track_ids, track_list_behavior, track_list_of,
    track_locked, track_muted, MULTICAM_TYPE_ID,
};
use oak_app::rational::Rational;
use oak_app::timebase::{gcd, rational_to_ts, ts_to_rational};
use oak_app::transitions::{
    add_transition_at_edge, add_transition_at_seam, transition_of_clip,
};
use oak_app::upstream::{clip_media_filename, find_input_footage};
use oak_app::wedges::{clip_transition_widths, set_transition_length};

const TB: (i64, i64) = (1, 25);
const BOGUS: NodeId = 9_000_001;

fn parts(r: Rational) -> (i64, i64) {
    (r.num, r.den)
}

fn at(ts: i64) -> Rational {
    ts_to_rational(ts, TB)
}

fn frames(r: Rational) -> i64 {
    rational_to_ts(r, TB)
}

fn hd() -> Vec<VideoParams> {
    vec![VideoParams {
        width: 1920,
        height: 1080,
        frame_rate: Rational { num: 25, den: 1 },
        pixel_format: 4,
        channels: 4,
        interlaced: false,
    }]
}

fn project() -> Graph {
    let mut g = Graph::new();
    let root = g.add_node(Node::new(FOLDER_TYPE_ID, Behavior::Folder(Vec::new())));
    g.root = Some(root);
    g
}

/// What the host did to a track, to be taken back.
struct Placed {
    track: NodeId,
    before: Vec<NodeId>,
    after: Vec<NodeId>,
    block: NodeId,
    core_before: Block,
    core_after: Block,
}

fn set_blocks(g: &mut Graph, track: NodeId, blocks: Vec<NodeId>) {
    if let Behavior::Track(t) = &mut g.get_mut(track).expect("a track").behavior {
        t.blocks = blocks;
    }
}

fn add_host_track(g: &mut Graph, list: NodeId) -> NodeId {
    let (kind, index) = {
        let l = track_list_behavior(g, list).expect("a list");
        (l.kind, l.tracks.len() as i32)
    };
    let track = g.add_node(Node::new(
        "track",
        Behavior::Track(Track {
            kind,
            index,
            blocks: Vec::new(),
            track_list: Some(list),
            muted: false,
            locked: false,
        }),
    ));
    if let Behavior::TrackList(l) = &mut g.get_mut(list).unwrap().behavior {
        l.tracks.push(track);
    }
    track
}

/// Places a block at the end of its track, behind a gap where one is needed.
fn place(g: &mut Graph, list: NodeId, index: i32, block: NodeId, at: Rational) -> Placed {
    let track = track_list_behavior(g, list).expect("a list").tracks[index as usize];
    let before = track_behavior(g, track).expect("a track").blocks.clone();
    let core_before = block_core_of(g, block).expect("a block");
    let length = core_before.out_point.checked_sub(core_before.in_point).unwrap();
    let core_after = Block {
        in_point: at,
        out_point: at.checked_add(length).unwrap(),
        track: Some(track),
        ..core_before
    };
    let mut after: Vec<NodeId> = before.clone();
    let end = match before.last() {
        Some(&last) => block_core_of(g, last).map(|c| c.out_point).unwrap_or(Rational::zero()),
        None => Rational::zero(),
    };
    if end.is_before(at) {
        let gap = g.add_node(Node::new(
            "gap",
            Behavior::Gap(Block {
                in_point: end,
                out_point: at,
                media_in: Rational::zero(),
                track: Some(track),
                speed_bits: 0,
            }),
        ));
        after.push(gap);
    }
    after.push(block);
    g.set_block(block, core_after);
    set_blocks(g, track, after.clone());
    Placed { track, before, after, block, core_before, core_after }
}

fn run(g: &mut Graph, edit: &Edit) -> Vec<Placed> {
    let mut done = Vec::new();
    for c in &edit.commands {
        match *c {
            Command::PlaceBlock { list, track_index, block, at } => {
                done.push(place(g, list, track_index, block, at));
            }
            Command::AddTrack { list } => {
                add_host_track(g, list);
            }
            other => {
                assert!(!other.is_for_host(), "{other:?}");
                other.redo(g);
            }
        }
    }
    done
}

fn undo_row(g: &mut Graph, edit: &Edit, done: &[Placed]) {
    edit.undo(g);
    for p in done.iter().rev() {
        g.set_block(p.block, p.core_before);
        set_blocks(g, p.track, p.before.clone());
    }
}

fn redo_row(g: &mut Graph, edit: &Edit, done: &[Placed]) {
    for p in done {
        g.set_block(p.block, p.core_after);
        set_blocks(g, p.track, p.after.clone());
    }
    edit.redo(g);
}

fn sequence(g: &mut Graph, name: &str) -> NodeId {
    let (seq, tracks) = create_sequence(g, name, hd());
    let row = Edit { name: "", commands: tracks };
    run(g, &row);
    seq
}

fn with_footage() -> (Graph, NodeId, NodeId) {
    let mut g = project();
    let seq = sequence(&mut g, "Seq");
    let (footage, edit) = import_footage(&mut g, "/tmp/clip.mp4", "clip.mp4", 2).expect("import");
    run(&mut g, &edit);
    (g, seq, footage)
}

fn video_track(g: &Graph, seq: NodeId) -> NodeId {
    track_ids(g, seq, TrackType::Video)[0]
}

fn place_clip(g: &mut Graph, seq: NodeId, footage: NodeId, from: i64, to: i64) -> NodeId {
    let (clip, edit) =
        place_footage_clip(g, seq, footage, TrackType::Video, 0, from, to, 0).expect("place");
    run(g, &edit);
    clip
}

fn linked_pair(g: &mut Graph, seq: NodeId, footage: NodeId, from: i64, to: i64) -> Vec<NodeId> {
    let targets = vec![(TrackType::Video, 0), (TrackType::Audio, 0)];
    let (ids, edit) =
        place_footage_clips_linked(g, seq, footage, &targets, from, to, 0).expect("linked");
    run(g, &edit);
    ids
}

fn linked(g: &Graph, a: NodeId, b: NodeId) -> bool {
    g.links_of(a).contains(&b) && g.links_of(b).contains(&a)
}

fn range(g: &Graph, clip: NodeId) -> (i64, i64, i64) {
    let (i, o, m) = clip_range(g, clip).expect("a clip");
    (frames(i), frames(o), frames(m))
}

fn opaque(g: &mut Graph) -> NodeId {
    g.add_node(Node::new("test.opaque", Behavior::Opaque))
}

fn set_owner(g: &mut Graph, block: NodeId, track: Option<NodeId>) {
    let core = block_core_of(g, block).expect("a block");
    g.set_block(block, Block { track, ..core });
}

fn set_list(g: &mut Graph, track: NodeId, list: Option<NodeId>) {
    if let Behavior::Track(t) = &mut g.get_mut(track).unwrap().behavior {
        t.track_list = list;
    }
}

#[test]
fn track_flag_setters_toggle_and_undo() {
    let (mut g, seq, _) = with_footage();
    let track = video_track(&g, seq);
    assert_eq!(track_muted(&g, track), Some(false));
    assert_eq!(track_locked(&g, track), Some(false));
    let mute = set_track_muted(&g, track, true).expect("mute the track").unwrap();
    mute.redo(&mut g);
    assert_eq!(track_muted(&g, track), Some(true));
    let lock = set_track_locked(&g, track, true).expect("lock the track").unwrap();
    lock.redo(&mut g);
    assert_eq!(track_locked(&g, track), Some(true));
    lock.undo(&mut g);
    assert_eq!(track_locked(&g, track), Some(false));
    mute.undo(&mut g);
    assert_eq!(track_muted(&g, track), Some(false));
    mute.redo(&mut g);
    assert_eq!(track_muted(&g, track), Some(true));
}

#[test]
fn track_flag_setter_noop_when_unchanged() {
    let (g, seq, _) = with_footage();
    let track = track_ids(&g, seq, TrackType::Audio)[0];
    assert!(set_track_muted(&g, track, false).expect("mute already false").is_none());
    assert!(set_track_locked(&g, track, false).expect("lock already false").is_none());
}

#[test]
fn track_flag_setters_reject_non_tracks() {
    let (g, seq, _) = with_footage();
    assert!(set_track_muted(&g, seq, true).is_err());
    assert!(set_track_locked(&g, seq, true).is_err());
}

#[test]
fn undo_redo_cycles_converge_to_the_same_state() {
    let (mut g, seq, footage) = with_footage();
    let targets = vec![(TrackType::Video, 0), (TrackType::Audio, 0)];
    let (ids, edit) =
        place_footage_clips_linked(&mut g, seq, footage, &targets, 0, 10, 0).expect("linked");
    let done = run(&mut g, &edit);
    let track = video_track(&g, seq);
    for cycle in 0..2 {
        undo_row(&mut g, &edit, &done);
        assert_eq!(track_behavior(&g, track).unwrap().blocks.len(), 0, "cycle {cycle}");
        assert!(!linked(&g, ids[0], ids[1]));
        assert_eq!(g.connected_output(ids[0], TEXTURE_INPUT), None);
        redo_row(&mut g, &edit, &done);
        assert_eq!(track_behavior(&g, track).unwrap().blocks, vec![ids[0]]);
        assert!(linked(&g, ids[0], ids[1]), "cycle {cycle}: redo must restore the exact state");
        assert_eq!(g.connected_output(ids[0], TEXTURE_INPUT), Some(footage));
        assert_eq!(range(&g, ids[0]), (0, 10, 0));
    }
}

#[test]
fn clips_get_a_creation_time_label_and_stable_color() {
    let (mut g, seq, footage) = with_footage();
    let first = place_clip(&mut g, seq, footage, 0, 10);
    let color = g.get(first).unwrap().color;
    assert_ne!(color, -1, "the clip color is locked in at creation");
    assert_eq!(color, clip_color_index(first));
    assert_eq!(node_label(&g, first), "clip.mp4", "the clip is named after its footage");
    let _second = place_clip(&mut g, seq, footage, 10, 20);
    assert_eq!(g.get(first).unwrap().color, color, "the color survives later edits");
    for clip in linked_pair(&mut g, seq, footage, 20, 30) {
        assert_eq!(node_label(&g, clip), "clip.mp4");
    }
}

#[test]
fn paste_links_the_group_in_node_core_links() {
    let (mut g, seq, footage) = with_footage();
    let dropped = linked_pair(&mut g, seq, footage, 0, 10);
    let items = copy_clips(&g, &dropped).expect("copy");
    assert_eq!(items.len(), 2, "both clips copied");
    let (pasted, edit) = paste_clips(&mut g, seq, &items, 20).expect("paste");
    let done = run(&mut g, &edit);
    assert_eq!(pasted.len(), 2);
    assert!(linked(&g, pasted[0], pasted[1]));
    undo_row(&mut g, &edit, &done);
    assert!(!linked(&g, pasted[0], pasted[1]), "undo unlinks the pair");
    redo_row(&mut g, &edit, &done);
    assert!(linked(&g, pasted[0], pasted[1]), "redo relinks the pair");
}

#[test]
fn deleting_one_of_a_linked_pair_clears_the_partner_link() {
    let (mut g, seq, footage) = with_footage();
    let pair = linked_pair(&mut g, seq, footage, 0, 10);
    let (video, audio) = (pair[0], pair[1]);
    let edit = delete_clip(&g, video).expect("delete the video clip").unwrap();
    assert!(edit.commands.iter().any(|c| matches!(c, Command::ReplaceWithGap { .. })));
    assert!(edit.commands.iter().any(|c| matches!(c, Command::RemoveNode { node } if *node == video)));
    g.take_node(video);
    assert!(!g.links_of(audio).contains(&video), "the survivor holds no stale reference");
    let edit = move_clip_with_links(&g, audio, None, 30, &vec![video])
        .expect("move the survivor")
        .unwrap();
    assert_eq!(edit.commands.len(), 1);
    assert!(matches!(edit.commands[0],
        Command::MoveBlock { block, at: t, .. } if block == audio && frames(t) == 30));
}

#[test]
fn drop_undo_keeps_links_created_after_the_drop() {
    let (mut g, seq, footage) = with_footage();
    let targets = vec![(TrackType::Video, 0), (TrackType::Audio, 0)];
    let (ids, edit) =
        place_footage_clips_linked(&mut g, seq, footage, &targets, 0, 10, 0).expect("linked");
    let done = run(&mut g, &edit);
    let (video, audio) = (ids[0], ids[1]);
    let third = create_footage_clip(&mut g, footage, Rational::zero(), at(10));
    g.add_link(video, third);
    g.add_link(third, video);
    undo_row(&mut g, &edit, &done);
    assert!(linked(&g, video, third), "the later link survives the drop's undo");
    assert!(!g.links_of(video).contains(&audio), "the drop's own link is removed");
    assert!(!g.links_of(audio).contains(&video));
}

#[test]
fn moving_a_linked_clip_skips_the_off_track_partner() {
    let (mut g, seq, footage) = with_footage();
    let pair = linked_pair(&mut g, seq, footage, 0, 10);
    let (video, audio) = (pair[0], pair[1]);
    set_owner(&mut g, audio, None);
    assert!(clip_track(&g, audio).is_none(), "audio is off-track now");
    assert!(linked(&g, video, audio), "the link itself survives");
    let edit =
        move_clip_with_links(&g, video, None, 40, &vec![audio]).expect("the move").unwrap();
    assert_eq!(edit.commands.len(), 1, "only the on-track clip moves");
    assert!(matches!(edit.commands[0],
        Command::MoveBlock { block, at: t, .. } if block == video && frames(t) == 40));
}

#[test]
fn add_track_undo_redo_cycles_converge() {
    let mut g = project();
    let seq = sequence(&mut g, "Add Track Cycles");
    assert_eq!(track_ids(&g, seq, TrackType::Video).len(), 2, "default 2 video tracks");
    assert_eq!(track_ids(&g, seq, TrackType::Audio).len(), 2);
    let addition = add_track(&mut g, seq, TrackType::Video).expect("add a track");
    assert!(added_track_index(&g, &addition).is_err());
    run(&mut g, &addition.edit);
    let index = added_track_index(&g, &addition).expect("the new track");
    assert_eq!(index, 2, "the new track is the third video track");
    let track = track_ids(&g, seq, TrackType::Video)[index];
    for cycle in 0..3 {
        if let Behavior::TrackList(l) = &mut g.get_mut(addition.list).unwrap().behavior {
            l.tracks.pop();
        }
        let parked = g.take_node(track).unwrap();
        assert_eq!(track_ids(&g, seq, TrackType::Video).len(), 2, "cycle {cycle}");
        g.add_entry(parked, track);
        if let Behavior::TrackList(l) = &mut g.get_mut(addition.list).unwrap().behavior {
            l.tracks.push(track);
        }
        assert!(g.is_valid(track), "cycle {cycle}: the same track node is back");
        assert_eq!(track_ids(&g, seq, TrackType::Video)[index], track);
    }
}

#[test]
fn move_trim_delete_split_cycles_converge() {
    let (mut g, seq, footage) = with_footage();
    let clip = place_clip(&mut g, seq, footage, 20, 30);
    let trim = trim_clip(&g, clip, 22, 28).expect("trim").unwrap();
    trim.redo(&mut g);
    for _ in 0..3 {
        trim.undo(&mut g);
        assert_eq!(range(&g, clip), (20, 30, 0));
        trim.redo(&mut g);
        assert_eq!(range(&g, clip), (22, 28, 2));
    }
    let split = split_clip(&g, clip, 25).expect("split").unwrap();
    assert!(matches!(split.commands[0],
        Command::Split { block, at: t } if block == clip && frames(t) == 25));
    let moved = move_clip(&g, clip, 40).expect("move").unwrap();
    assert!(matches!(moved.commands[0],
        Command::MoveBlock { block, at: t, .. } if block == clip && frames(t) == 40));
    let deleted = ripple_delete_clip(&g, clip).expect("ripple delete").unwrap();
    assert!(deleted.commands.iter().any(|c| matches!(c,
        Command::RippleRemove { from, to, .. } if frames(*from) == 22 && frames(*to) == 28)));
}

#[test]
fn create_folder_and_sequence_mount_under_root() {
    let mut g = project();
    let root = g.root.unwrap();
    let (folder, edit) = create_folder(&mut g, "Folder 1").expect("create folder");
    run(&mut g, &edit);
    let (seq, _) = create_sequence_with_params(
        &mut g,
        "Seq 4K",
        Some(PictureFormat {
            width: 3840,
            height: 2160,
            rate: Rational { num: 24000, den: 1001 },
            interlaced: true,
        }),
        hd(),
    );
    let children = folder_children(&g, root).unwrap().clone();
    assert!(children.contains(&folder), "the folder mounts under root");
    assert!(children.contains(&seq), "the sequence mounts under root");
    assert_eq!(folder_ids(&g).len(), 2, "the root folder itself plus the new folder");
    edit.undo(&mut g);
    assert!(!folder_children(&g, root).unwrap().contains(&folder));
}

#[test]
fn create_sequence_with_params_sets_first_stream_format() {
    let mut g = project();
    let (seq, _) = create_sequence_with_params(
        &mut g,
        "Interlaced",
        Some(PictureFormat {
            width: 1280,
            height: 720,
            rate: Rational { num: 30000, den: 1001 },
            interlaced: true,
        }),
        hd(),
    );
    let (width, height, rate) = sequence_video_params(&g, seq).expect("video params");
    assert_eq!((width, height), (1280, 720));
    assert_eq!((rate.numerator(), rate.denominator()), (30000, 1001));
    assert!(sequence_behavior(&g, seq).unwrap().video_params[0].interlaced);
}

#[test]
fn ensure_sequences_mounted_reattaches_orphans() {
    let mut g = project();
    let root = g.root.unwrap();
    let seq = sequence(&mut g, "Legacy");
    if let Behavior::Folder(children) = &mut g.get_mut(root).unwrap().behavior {
        children.retain(|&c| c != seq);
    }
    assert!(!folder_children(&g, root).unwrap().contains(&seq));
    ensure_sequences_mounted(&mut g);
    assert!(folder_children(&g, root).unwrap().contains(&seq));
    ensure_sequences_mounted(&mut g);
    assert_eq!(folder_children(&g, root).unwrap().iter().filter(|&&c| c == seq).count(), 1);
}

#[test]
fn set_sequence_parameters_updates_name_and_format() {
    let mut g = project();
    let (seq, _) = create_sequence_with_params(
        &mut g,
        "Before",
        Some(PictureFormat {
            width: 1280,
            height: 720,
            rate: Rational { num: 25, den: 1 },
            interlaced: false,
        }),
        hd(),
    );
    set_sequence_parameters(
        &mut g,
        seq,
        "After",
        PictureFormat {
            width: 1920,
            height: 1080,
            rate: Rational { num: 30000, den: 1001 },
            interlaced: true,
        },
    )
    .expect("update parameters");
    assert_eq!(node_label(&g, seq), "After");
    let (width, height, rate) = sequence_video_params(&g, seq).expect("video params");
    assert_eq!((width, height), (1920, 1080));
    assert_eq!((rate.numerator(), rate.denominator()), (30000, 1001));
    assert!(sequence_behavior(&g, seq).unwrap().video_params[0].interlaced);
}

#[test]
fn adjustment_layer_trim_and_delete_cycles_converge() {
    let (mut g, seq, _) = with_footage();
    let track = video_track(&g, seq);
    let (adj, edit) = create_adjustment_layer(&mut g, seq, track, 50, 125).expect("create");
    run(&mut g, &edit);
    assert!(clip_ids(&g, track).contains(&adj), "an adjustment layer counts as a timeline block");
    assert_eq!(range(&g, adj), (50, 125, 0));
    assert_eq!(clip_track(&g, adj), Some(track), "the block knows its track");
    assert_eq!(parts(sequence_length(&g, seq)), parts(at(125)));
    let trim = trim_clip(&g, adj, 50, 100).expect("trim the adjustment layer").unwrap();
    trim.redo(&mut g);
    assert_eq!(range(&g, adj), (50, 100, 0), "the out-trim lands on the adjustment layer");
    for _ in 0..3 {
        trim.undo(&mut g);
        trim.redo(&mut g);
        assert_eq!(range(&g, adj), (50, 100, 0));
    }
    let delete = delete_clip(&g, adj).expect("delete the adjustment layer").unwrap();
    assert!(delete.commands.iter().any(|c| matches!(c,
        Command::ReplaceWithGap { track: t, block } if *t == track && *block == adj)));
}

#[test]
fn create_adjustment_layer_places_on_video_track_and_undoes() {
    let (mut g, seq, _) = with_footage();
    let track = video_track(&g, seq);
    let (adj, edit) = create_adjustment_layer(&mut g, seq, track, 50, 125).expect("create");
    assert_eq!(edit.name, "Add Adjustment Layer");
    let done = run(&mut g, &edit);
    assert_eq!(clip_ids(&g, track), vec![adj], "the layer is the track's only block");
    assert_eq!(range(&g, adj), (50, 125, 0));
    assert_eq!(clip_track(&g, adj), Some(track));
    assert_eq!(node_type_id(&g, adj), ADJUSTMENT_TYPE_ID);
    assert!(clip_behavior(&g, adj).is_none(), "an adjustment layer, not a clip");
    undo_row(&mut g, &edit, &done);
    assert_eq!(clip_track(&g, adj), None, "the undo detaches the block from its track");
    assert!(g.is_valid(adj), "the detached block stays in the graph as an orphan");
    redo_row(&mut g, &edit, &done);
    assert_eq!(clip_track(&g, adj), Some(track), "the redo re-places the same block");
}

#[test]
fn create_adjustment_layer_rejects_audio_tracks_and_bad_ranges() {
    let (mut g, seq, _) = with_footage();
    let video = video_track(&g, seq);
    let audio = track_ids(&g, seq, TrackType::Audio)[0];
    let nodes = g.slots.len();
    assert!(create_adjustment_layer(&mut g, seq, audio, 0, 25).is_err());
    assert!(create_adjustment_layer(&mut g, seq, video, 25, 25).is_err());
    assert!(create_adjustment_layer(&mut g, seq, video, 50, 25).is_err());
    assert!(create_adjustment_layer(&mut g, seq, video, -1, 25).is_err());
    assert_eq!(g.slots.len(), nodes, "no node was created for the rejected calls");
    assert!(clip_ids(&g, video).is_empty());
}

fn text_node() -> Node {
    Node::new(TEXT_FOOTAGE_TYPE_ID, Behavior::Opaque)
}

#[test]
fn create_text_footage_mounts_under_root_and_undoes() {
    let mut g = project();
    let root = g.root.unwrap();
    let mut entry = create_text_footage_node(&mut g, Some(text_node())).expect("create text");
    entry.redo(&mut g);
    let text = entry.id;
    assert_eq!(node_type_id(&g, text), TEXT_FOOTAGE_TYPE_ID);
    assert_eq!(node_label(&g, text), TEXT_FOOTAGE_LABEL);
    assert_eq!(g.get(text).unwrap().bin_folder, Some(root));
    assert!(folder_children(&g, root).unwrap().contains(&text));
    entry.undo(&mut g);
    assert!(!folder_children(&g, root).unwrap().contains(&text), "the undo unmounts the entry");
    assert!(!g.is_valid(text), "the undo removes the node itself — no orphan outlives it");
    entry.redo(&mut g);
    assert!(folder_children(&g, root).unwrap().contains(&text), "the redo remounts the entry");
    assert_eq!(node_type_id(&g, text), TEXT_FOOTAGE_TYPE_ID);
    assert_eq!(g.get(text).unwrap().bin_folder, Some(root));
}

#[test]
fn place_text_clip_wires_the_generator_and_spans_the_range() {
    let (mut g, seq, _) = with_footage();
    let mut entry = create_text_footage_node(&mut g, Some(text_node())).expect("create text");
    entry.redo(&mut g);
    let text = entry.id;
    let track = video_track(&g, seq);
    let (clip, edit) = place_text_clip(&mut g, seq, text, 0, 12, 137).expect("place the text");
    run(&mut g, &edit);
    assert_eq!(range(&g, clip), (12, 137, 0), "the clip spans the dropped frames");
    assert_eq!(g.connected_output(clip, TEXTURE_INPUT), Some(text));
    assert_eq!(clip_track(&g, clip), Some(track));
    let (folder, _) = create_folder(&mut g, "Not Text").expect("create folder");
    assert!(place_text_clip(&mut g, seq, folder, 0, 0, 10).is_err());
    assert!(place_text_clip(&mut g, seq, text, 9, 0, 10).is_err());
}

fn two_touching_clips() -> (Graph, NodeId, NodeId, NodeId, NodeId, Rational) {
    let (mut g, seq, footage) = with_footage();
    let a = place_clip(&mut g, seq, footage, 0, 10);
    let b = place_clip(&mut g, seq, footage, 10, 20);
    let track = video_track(&g, seq);
    (g, seq, track, a, b, at(3))
}

#[test]
fn default_transition_covers_both_ends_of_a_lone_clip() {
    let (mut g, seq, footage) = with_footage();
    let clip = place_clip(&mut g, seq, footage, 10, 30);
    let track = video_track(&g, seq);
    let (created, edit) =
        add_default_transition(&mut g, seq, &vec![clip], at(3)).expect("add transition");
    edit.redo(&mut g);
    assert_eq!(created, 2, "a lone clip takes both ends");
    let blocks = track_behavior(&g, track).unwrap().blocks.clone();
    let i = blocks.iter().position(|&b| b == clip).expect("clip on track");
    let (head, tail) = (blocks[i - 1], blocks[i + 1]);
    let zero = (0, 1);
    let edge = parts(at(6));
    let Behavior::Transition(h) = &g.get(head).unwrap().behavior else { panic!("head") };
    assert_eq!((parts(h.in_offset), parts(h.out_offset)), (zero, edge));
    assert_eq!((parts(h.core.in_point), parts(h.core.out_point)), (parts(at(10)), parts(at(16))));
    assert_eq!(g.connected_output(head, IN_BLOCK), Some(clip));
    assert_eq!(g.connected_output(head, OUT_BLOCK), None);
    let Behavior::Transition(t) = &g.get(tail).unwrap().behavior else { panic!("tail") };
    assert_eq!((parts(t.in_offset), parts(t.out_offset)), (edge, zero));
    assert_eq!((parts(t.core.in_point), parts(t.core.out_point)), (parts(at(24)), parts(at(30))));
    assert_eq!(g.connected_output(tail, OUT_BLOCK), Some(clip));
    assert_eq!(g.connected_output(tail, IN_BLOCK), None);
    assert_eq!(transition_of_clip(&g, clip, true), Some(head));
    assert_eq!(transition_of_clip(&g, clip, false), Some(tail));

    // A second run has nothing left to build.
    let nodes = g.slots.len();
    assert!(add_default_transition(&mut g, seq, &vec![clip], at(3)).is_err());
    assert_eq!(g.slots.len(), nodes);

    edit.undo(&mut g);
    assert!(transition_of_clip(&g, clip, true).is_none());
    assert_eq!(track_behavior(&g, track).unwrap().blocks.len(), blocks.len() - 2);
}

#[test]
fn default_transition_covers_the_selected_seams() {
    let (mut g, seq, track, a, b, half) = two_touching_clips();
    let (created, edit) =
        add_default_transition(&mut g, seq, &vec![a, b], half).expect("add transition");
    edit.redo(&mut g);
    assert_eq!(created, 1, "both clips name the same seam; it is built once");
    let blocks = track_behavior(&g, track).unwrap().blocks.clone();
    assert_eq!(blocks.len(), 3, "the transition joins the track");
    let t = blocks[1];
    let core = block_core_of(&g, t).expect("transition core");
    assert_eq!((frames(core.in_point), frames(core.out_point)), (7, 13));
    let Behavior::Transition(x) = &g.get(t).unwrap().behavior else { panic!("transition") };
    assert_eq!((parts(x.in_offset), parts(x.out_offset)), (parts(half), parts(half)));
    assert_eq!(g.connected_output(t, OUT_BLOCK), Some(a));
    assert_eq!(g.connected_output(t, IN_BLOCK), Some(b));
    let widths = clip_transition_widths(&g, track);
    let of_a = widths.get(&a).unwrap();
    assert!(of_a.0.is_none());
    assert_eq!(of_a.1.map(parts), Some(parts(half)), "the head clip's tail wedge");
    let of_b = widths.get(&b).unwrap();
    assert_eq!(of_b.0.map(parts), Some(parts(half)), "the tail clip's head wedge");
    assert!(of_b.1.is_none());
    assert_eq!(transition_of_clip(&g, b, true), Some(t));
    assert_eq!(transition_of_clip(&g, a, false), Some(t));
    assert_eq!(transition_of_clip(&g, a, true), None);
    assert_eq!(transition_of_clip(&g, b, false), None);
    for _ in 0..3 {
        edit.undo(&mut g);
        assert_eq!(track_behavior(&g, track).unwrap().blocks, vec![a, b]);
        edit.redo(&mut g);
        assert_eq!(track_behavior(&g, track).unwrap().blocks, blocks);
    }
    let nodes = g.slots.len();
    assert!(add_default_transition(&mut g, seq, &vec![a, b], half).is_err());
    assert_eq!(g.slots.len(), nodes, "the refused batch changed nothing");
}

#[test]
fn transition_length_drag_moves_one_wedge_and_keeps_the_seam() {
    let (mut g, seq, _, a, b, half) = two_touching_clips();
    let (_, edit) = add_default_transition(&mut g, seq, &vec![a, b], half).expect("add");
    edit.redo(&mut g);
    let t = transition_of_clip(&g, b, true).expect("the head transition of b");
    let frame = at(1);
    let offsets = |g: &Graph| {
        let Behavior::Transition(x) = &g.get(t).unwrap().behavior else { panic!("transition") };
        (frames(x.in_offset), frames(x.out_offset))
    };
    let (applied, edit) = set_transition_length(&g, b, true, frame, at(5)).expect("grow");
    edit.redo(&mut g);
    assert_eq!(frames(applied), 5);
    assert_eq!(offsets(&g), (3, 5));
    let core = block_core_of(&g, t).unwrap();
    assert_eq!((frames(core.in_point), frames(core.out_point)), (7, 15));
    assert_eq!(range(&g, a).1, 10, "the seam does not move");
    edit.undo(&mut g);
    assert_eq!(offsets(&g), (3, 3));
    edit.redo(&mut g);
    assert_eq!(offsets(&g), (3, 5));

    let (applied, edit) = set_transition_length(&g, b, true, frame, at(9_999)).expect("clamp");
    edit.redo(&mut g);
    assert_eq!(frames(applied), 10, "clamped to the later clip's length");

    let (applied, edit) = set_transition_length(&g, a, false, frame, at(6)).expect("grow in");
    edit.redo(&mut g);
    assert_eq!(frames(applied), 6);
    assert_eq!(offsets(&g), (6, 10));

    assert!(set_transition_length(&g, b, false, frame, half).is_err());
    assert!(set_transition_length(&g, a, true, frame, half).is_err());
}

#[test]
fn bare_project_without_root_rejects_creations() {
    let mut bare = Graph::new();
    assert!(matches!(create_folder(&mut bare, "F"), Err(EditError::NoRoot)));
    assert!(matches!(
        create_text_footage_node(&mut bare, Some(text_node())),
        Err(TextEntryError::NoRoot)
    ));
    assert!(import_footage(&mut bare, "/tmp/a.mp4", "a.mp4", 1).is_err());
    let mut g = project();
    assert!(matches!(
        create_text_footage_node(&mut g, None),
        Err(TextEntryError::NotRegistered)
    ));
}

#[test]
fn reprobe_unprobed_footage_resolves_and_probes() {
    let mut g = project();
    let (probed, _) = import_footage(&mut g, "/tmp/a.mp4", "a.mp4", 2).expect("import");
    let (empty, _) = import_footage(&mut g, "b.mp4", "b.mp4", 0).expect("import");
    assert_eq!(unprobed_footage(&g), vec![empty]);
    record_probe(&mut g, empty, "/media/b.mp4", 3);
    assert!(unprobed_footage(&g).is_empty());
    let f = footage_behavior(&g, empty).unwrap();
    assert_eq!(f.filename, "/media/b.mp4");
    assert_eq!(f.streams, 3);
    assert_eq!(footage_behavior(&g, probed).unwrap().streams, 2);
    assert_eq!(footage_ids(&g), vec![probed, empty]);
}

#[test]
fn connect_and_disconnect_commands_validate_and_undo() {
    let (mut g, seq, footage) = with_footage();
    let clip = place_clip(&mut g, seq, footage, 0, 10);
    assert!(matches!(
        connect_command(&g, BOGUS, clip, TEXTURE_INPUT),
        Err(EdgeError::NodeNotFound)
    ));
    assert!(connect_command(&g, footage, BOGUS, TEXTURE_INPUT).is_err());
    assert!(matches!(
        connect_command(&g, footage, clip, "no_such_input"),
        Err(EdgeError::ConnectNoInput)
    ));
    let text = {
        let mut node = Node::new("test", Behavior::Opaque);
        node.add_input("file_in");
        node.inputs[0].connectable = false;
        g.add_node(node)
    };
    assert!(matches!(
        connect_command(&g, clip, text, "file_in"),
        Err(EdgeError::NotConnectable)
    ));
    assert!(matches!(
        connect_command(&g, footage, clip, TEXTURE_INPUT),
        Err(EdgeError::AlreadyConnected)
    ));

    let clip2 = create_footage_clip(&mut g, footage, Rational::zero(), at(10));
    let cmd = connect_command(&g, footage, clip2, TEXTURE_INPUT).expect("connect");
    cmd.redo(&mut g);
    assert_eq!(g.connected_output(clip2, TEXTURE_INPUT), Some(footage));
    cmd.undo(&mut g);
    assert_eq!(g.connected_output(clip2, TEXTURE_INPUT), None);

    assert!(matches!(
        disconnect_command(&g, clip2, "no_such_input"),
        Err(EdgeError::DisconnectNoInput)
    ));
    g.set_source(clip2, TEXTURE_INPUT, Some(footage));
    let cmd = disconnect_command(&g, clip2, TEXTURE_INPUT).expect("disconnect");
    cmd.redo(&mut g);
    assert_eq!(g.connected_output(clip2, TEXTURE_INPUT), None);
    cmd.undo(&mut g);
    assert_eq!(
        g.connected_output(clip2, TEXTURE_INPUT),
        Some(footage),
        "the undo restores the captured edge"
    );
    g.set_source(clip2, TEXTURE_INPUT, None);
    let cmd = disconnect_command(&g, clip2, TEXTURE_INPUT).expect("disconnect");
    cmd.redo(&mut g);
    cmd.undo(&mut g);
    assert_eq!(g.connected_output(clip2, TEXTURE_INPUT), None);
    assert!(EdgeError::ConnectNoInput.message("x").contains('x'));
}

#[test]
fn context_position_command_covers_create_update_and_remove() {
    let (mut g, seq, footage) = with_footage();
    let clip = place_clip(&mut g, seq, footage, 0, 10);
    let bits = |x: f64| x.to_bits();
    assert!(set_context_position_command(&g, BOGUS, seq, bits(1.0), bits(2.0)).is_err());
    assert!(set_context_position_command(&g, clip, BOGUS, bits(1.0), bits(2.0)).is_err());
    let positions = |g: &Graph| -> Vec<(NodeId, f64, f64, bool)> {
        g.get(clip)
            .unwrap()
            .positions
            .iter()
            .map(|p| (p.context, f64::from_bits(p.x_bits), f64::from_bits(p.y_bits), p.expanded))
            .collect()
    };
    let first = set_context_position_command(&g, clip, seq, bits(5.0), bits(6.0)).expect("set");
    first.redo(&mut g);
    assert_eq!(positions(&g), vec![(seq, 5.0, 6.0, false)]);
    first.undo(&mut g);
    assert!(positions(&g).is_empty(), "the created entry is removed on undo");
    let create = set_context_position_command(&g, clip, seq, bits(5.0), bits(6.0)).unwrap();
    create.redo(&mut g);
    let update = set_context_position_command(&g, clip, seq, bits(30.0), bits(40.0)).unwrap();
    update.redo(&mut g);
    assert_eq!(positions(&g), vec![(seq, 30.0, 40.0, false)]);
    update.undo(&mut g);
    assert_eq!(positions(&g), vec![(seq, 5.0, 6.0, false)], "the previous position returns");
}

#[test]
fn behavior_borrows_and_queries_on_missing_nodes() {
    let mut g = project();
    let root = g.root.unwrap();
    let seq = sequence(&mut g, "Borrows");
    let opaque = opaque(&mut g);

    assert!(is_folder(&g, root));
    assert!(!is_folder(&g, seq));
    assert!(!is_folder(&g, opaque));
    assert!(!is_folder(&g, BOGUS));
    assert!(sequence_behavior(&g, root).is_none());
    assert!(sequence_behavior(&g, opaque).is_none());
    assert!(sequence_behavior(&g, seq).is_some());
    assert!(track_list_behavior(&g, BOGUS).is_none());
    assert!(track_behavior(&g, BOGUS).is_none());
    assert!(clip_behavior(&g, BOGUS).is_none());
    assert!(footage_behavior(&g, BOGUS).is_none());
    assert!(clip_behavior(&g, opaque).is_none());
    assert!(footage_behavior(&g, opaque).is_none());
    assert_eq!(node_label(&g, BOGUS), "");
    assert_eq!(node_type_id(&g, opaque), "test.opaque");
    assert_eq!(node_type_id(&g, BOGUS), "");
    assert!(multicam_nodes(&g).is_empty());
    assert!(sequence_video_params(&g, BOGUS).is_none());
    assert!(sequence_time_base(&g, BOGUS).is_none());
    assert_eq!(parts(sequence_length(&g, BOGUS)), (0, 1));
    assert_eq!(parts(sequence_playhead(&g, BOGUS)), (0, 1));
    assert!(track_list_of(&g, BOGUS, TrackType::Video).is_none());
    assert!(track_ids(&g, BOGUS, TrackType::Video).is_empty());
    assert!(clip_ids(&g, BOGUS).is_empty());
    assert!(clip_range(&g, BOGUS).is_none());
    assert!(clip_track(&g, BOGUS).is_none());
    assert!(find_input_footage(&g, BOGUS).is_none());
    assert!(clip_media_filename(&g, BOGUS).is_none());
    assert!(block_core_of(&g, opaque).is_none());
    assert!(block_core_of(&g, seq).is_none());
    assert!(!is_timeline_clip(&g, BOGUS));
    assert!(!is_timeline_clip(&g, opaque));

    // A track's clips leave other entries out.
    let track = video_track(&g, seq);
    set_blocks(&mut g, track, vec![opaque]);
    assert!(clip_ids(&g, track).is_empty());

    let core = Block {
        in_point: Rational::zero(),
        out_point: at(1),
        media_in: Rational::zero(),
        track: None,
        speed_bits: 0,
    };
    assert!(!g.set_block(BOGUS, core));
    assert!(!g.set_block(opaque, core));
}

#[test]
fn sequence_length_skips_dangling_and_non_block_entries() {
    let (mut g, seq, footage) = with_footage();
    let clip = place_clip(&mut g, seq, footage, 0, 10);
    let track = video_track(&g, seq);
    let list = track_list_of(&g, seq, TrackType::Video).unwrap();
    let extra = opaque(&mut g);
    assert_eq!(parts(sequence_length(&g, seq)), parts(at(10)));
    if let Behavior::Sequence(s) = &mut g.get_mut(seq).unwrap().behavior {
        s.track_lists.push(BOGUS);
    }
    if let Behavior::TrackList(l) = &mut g.get_mut(list).unwrap().behavior {
        l.tracks.push(BOGUS);
    }
    set_blocks(&mut g, track, vec![clip, BOGUS, extra]);
    assert_eq!(parts(sequence_length(&g, seq)), parts(at(10)));
    assert_eq!(range(&g, clip), (0, 10, 0));
}

#[test]
fn block_core_mut_covers_gap_transition_and_adjustment() {
    let (mut g, seq, footage) = with_footage();
    let track = video_track(&g, seq);
    let b = place_clip(&mut g, seq, footage, 10, 20);
    let c = place_clip(&mut g, seq, footage, 20, 30);
    let gap = track_behavior(&g, track).unwrap().blocks[0];
    let (transition, edit) = add_transition_at_seam(&mut g, b, c, at(2)).expect("transition");
    edit.redo(&mut g);
    let (adj, edit) = create_adjustment_layer(&mut g, seq, track, 40, 60).expect("adjustment");
    run(&mut g, &edit);
    for (id, speed) in [(gap, 1.25f64), (transition, 1.5), (adj, 1.75)] {
        let core = block_core_of(&g, id).expect("a block");
        assert!(g.set_block(id, Block { speed_bits: speed.to_bits(), ..core }));
        assert_eq!(block_core_of(&g, id).map(|c| f64::from_bits(c.speed_bits)), Some(speed));
    }
    let core = block_core_of(&g, adj).unwrap();
    assert!(!g.set_block(BOGUS, core));
    assert!(!g.set_block(seq, core));
}

#[test]
fn track_list_creation_and_track_setter_paths() {
    let mut g = project();
    assert!(find_or_create_track_list(&mut g, BOGUS, TrackType::Video).is_none());
    let seq = sequence(&mut g, "Lists");
    let list = find_or_create_track_list(&mut g, seq, TrackType::Video).expect("the list");
    assert_eq!(
        find_or_create_track_list(&mut g, seq, TrackType::Video),
        Some(list),
        "an existing list is reused"
    );
    assert!(find_or_create_track_list(&mut g, seq, TrackType::Subtitle).is_some());
    assert!(track_ids(&g, seq, TrackType::Subtitle).is_empty());
    assert!(add_track(&mut g, BOGUS, TrackType::Video).is_err());
    assert_eq!(track_muted(&g, BOGUS), None);
    assert_eq!(track_locked(&g, BOGUS), None);
    let track = video_track(&g, seq);
    let edit = remove_track(track);
    assert_eq!(edit.name, "Remove Track");
    assert!(matches!(edit.commands[0], Command::RemoveTrack { track: t } if t == track));
    assert!(edit.commands[0].is_for_host());
}

#[test]
fn clip_placement_validation_and_footage_label_fallback() {
    let (mut g, seq, footage) = with_footage();
    let v = TrackType::Video;
    let refused = |r: Result<(NodeId, Edit), EditError>| r.expect_err("refused");
    assert_eq!(
        refused(place_footage_clip(&mut g, seq, footage, v, 0, -1, 10, 0)),
        EditError::ClipRange
    );
    assert!(place_footage_clip(&mut g, seq, footage, v, 0, 10, 10, 0).is_err());
    assert!(place_footage_clip(&mut g, seq, footage, v, 0, 0, 10, -2).is_err());
    assert_eq!(
        refused(place_footage_clip(&mut g, seq, footage, TrackType::Subtitle, 0, 0, 10, 0)),
        EditError::TrackKind
    );
    assert_eq!(
        refused(place_footage_clip(&mut g, seq, BOGUS, v, 0, 0, 10, 0)),
        EditError::NoFootage
    );
    assert_eq!(
        refused(place_footage_clip(&mut g, seq, footage, v, 99, 0, 10, 0)),
        EditError::TrackIndex { index: 99, count: 2 }
    );
    assert_eq!(
        refused(place_footage_clip(&mut g, BOGUS, footage, v, 0, 0, 10, 0)),
        EditError::NoRate
    );
    let one = vec![(v, 0)];
    assert!(place_footage_clips_linked(&mut g, seq, footage, &one, 0, 10, 0).is_err());
    let both = vec![(v, 0), (TrackType::Audio, 0)];
    assert!(place_footage_clips_linked(&mut g, seq, BOGUS, &both, 0, 10, 0).is_err());
    let odd = vec![(v, 0), (TrackType::Subtitle, 0)];
    assert!(place_footage_clips_linked(&mut g, seq, footage, &odd, 0, 10, 0).is_err());

    g.get_mut(footage).unwrap().label.clear();
    assert_eq!(footage_display_name(&g, footage), "clip.mp4");
    let clip = place_clip(&mut g, seq, footage, 0, 10);
    assert_eq!(node_label(&g, clip), "clip.mp4");
    assert_eq!(g.connected_output(clip, TEXTURE_INPUT), Some(footage));
    assert_eq!(range(&g, clip), (0, 10, 0));
    assert_eq!(clip_media_filename(&g, clip).as_deref(), Some("/tmp/clip.mp4"));

    let list = track_list_of(&g, seq, v).unwrap();
    if let Behavior::Sequence(s) = &mut g.get_mut(seq).unwrap().behavior {
        s.track_lists.retain(|&l| l != list);
    }
    assert_eq!(
        refused(place_footage_clip(&mut g, seq, footage, v, 0, 20, 30, 0)),
        EditError::NoList
    );
}

#[test]
fn nested_and_generator_clip_placement_paths() {
    let (mut g, host, _) = with_footage();
    let source = sequence(&mut g, "Source Seq");
    let mut entry = create_text_footage_node(&mut g, Some(text_node())).expect("text node");
    entry.redo(&mut g);
    let text = entry.id;
    assert!(place_nested_sequence_clip(&mut g, host, source, 0, -1, 10).is_err());
    assert!(place_nested_sequence_clip(&mut g, host, source, 0, 10, 10).is_err());
    assert!(place_nested_sequence_clip(&mut g, host, BOGUS, 0, 0, 10).is_err());
    assert!(place_nested_sequence_clip(&mut g, host, source, 9, 0, 10).is_err());
    let (nested, edit) =
        place_nested_sequence_clip(&mut g, host, source, 0, 0, 25).expect("nested clip");
    run(&mut g, &edit);
    assert!(node_label(&g, nested).contains("序列"));
    assert_eq!(g.connected_output(nested, TEXTURE_INPUT), Some(source));
    assert_eq!(range(&g, nested).1, 25);

    assert!(place_generator_clip(&mut g, host, text, 0, 5, 5).is_err());
    assert!(place_generator_clip(&mut g, host, BOGUS, 0, 0, 10).is_err());
    assert!(place_generator_clip(&mut g, host, text, 9, 0, 10).is_err());
    let (generator, edit) =
        place_generator_clip(&mut g, host, text, 0, 30, 55).expect("generator clip");
    run(&mut g, &edit);
    assert_eq!(g.connected_output(generator, TEXTURE_INPUT), Some(text));
    assert_eq!(range(&g, generator).1, 55);
    assert!(place_text_clip(&mut g, host, BOGUS, 0, 0, 10).is_err());
}

#[test]
fn copy_and_paste_cover_skip_and_error_branches() {
    let (mut g, seq, footage) = with_footage();
    let pair = linked_pair(&mut g, seq, footage, 0, 10);
    let (video, audio) = (pair[0], pair[1]);
    let double = 2.0f64.to_bits();
    let core = block_core_of(&g, video).unwrap();
    g.set_block(video, Block { speed_bits: double, ..core });
    let track = video_track(&g, seq);
    let (adj, edit) = create_adjustment_layer(&mut g, seq, track, 50, 60).expect("adjustment");
    run(&mut g, &edit);
    let items = copy_clips(&g, &vec![adj, BOGUS, video, audio]).expect("copy");
    assert_eq!(items.len(), 2, "only the two real clips are captured");
    assert!(items.iter().any(|i| i.speed_bits == double && i.kind == TrackType::Video));

    let copied = |g: &Graph, clip: NodeId| copy_clips(g, &vec![clip]).expect("copy").len();
    let audio_track = clip_track(&g, audio).unwrap();
    set_owner(&mut g, audio, None);
    assert_eq!(copied(&g, audio), 0, "a trackless clip is skipped");
    set_owner(&mut g, audio, Some(audio_track));
    let (folder, _) = create_folder(&mut g, "Fake Track").expect("folder");
    set_owner(&mut g, video, Some(folder));
    assert_eq!(copied(&g, video), 0, "a non-track owner is skipped");
    set_owner(&mut g, video, Some(track));
    let list = track_list_of(&g, seq, TrackType::Video).unwrap();
    set_list(&mut g, track, None);
    assert_eq!(copied(&g, video), 0, "a listless track is skipped");
    set_list(&mut g, track, Some(BOGUS));
    assert_eq!(copied(&g, video), 0, "a dangling list is skipped");
    set_list(&mut g, track, Some(list));

    assert!(matches!(paste_clips(&mut g, seq, &Vec::new(), 0), Err(EditError::ClipboardEmpty)));
    let zero_rate = PictureFormat {
        width: 10,
        height: 10,
        rate: Rational { num: 0, den: 1 },
        interlaced: false,
    };
    let (zero, _) = create_sequence_with_params(&mut g, "Zero Paste", Some(zero_rate), hd());
    assert!(paste_clips(&mut g, zero, &items, 0).is_err());
    let subtitle = ClipboardClip { kind: TrackType::Subtitle, ..items[0].clone() };
    assert!(paste_clips(&mut g, seq, &vec![subtitle], 0).is_err());
    let saved = track_list_behavior(&g, list).unwrap().tracks.clone();
    if let Behavior::TrackList(l) = &mut g.get_mut(list).unwrap().behavior {
        l.tracks.clear();
    }
    let video_item = ClipboardClip { kind: TrackType::Video, ..items[0].clone() };
    assert!(matches!(
        paste_clips(&mut g, seq, &vec![video_item], 0),
        Err(EditError::NoPasteTrack)
    ));
    if let Behavior::TrackList(l) = &mut g.get_mut(list).unwrap().behavior {
        l.tracks = saved;
    }
    let bad = ClipboardClip { footage: BOGUS, ..items[0].clone() };
    assert!(paste_clips(&mut g, seq, &vec![bad], 0).is_err());

    let clamped = ClipboardClip { track_index: 99, ..items[0].clone() };
    let (pasted, edit) =
        paste_clips(&mut g, seq, &vec![clamped, items[1].clone()], 100).expect("paste");
    let done = run(&mut g, &edit);
    assert_eq!(pasted.len(), 2);
    assert!(g.links_of(pasted[0]).contains(&pasted[1]), "the pasted group is linked");
    assert_eq!(clip_behavior(&g, pasted[0]).map(|c| c.speed_bits), Some(double));
    assert_eq!(range(&g, pasted[0]).0, 100, "the paste lands at the playhead");
    assert_eq!(
        clip_track(&g, pasted[0]),
        track_ids(&g, seq, TrackType::Video).last().copied(),
        "the out-of-range track index clamps to the last track"
    );
    undo_row(&mut g, &edit, &done);
    assert!(!linked(&g, pasted[0], pasted[1]));
    redo_row(&mut g, &edit, &done);
    assert!(linked(&g, pasted[0], pasted[1]));
}

#[test]
fn split_trim_ripple_roll_slide_slip_and_move_paths() {
    let (mut g, seq, footage) = with_footage();
    let track = video_track(&g, seq);
    let a = place_clip(&mut g, seq, footage, 0, 10);
    let b = place_clip(&mut g, seq, footage, 10, 20);
    let c = place_clip(&mut g, seq, footage, 20, 30);

    // split
    assert!(split_clip(&g, BOGUS, 5).is_err());
    assert!(matches!(split_clip(&g, a, 0), Err(EditError::SplitTime { time: 0 })));
    assert!(split_clip(&g, a, 10).is_err());
    assert!(split_clip(&g, a, 5).expect("split").is_some());
    assert!(split_clips_preserving_links(&g, &Vec::new(), 5).expect("nothing").is_none());
    let pair = linked_pair(&mut g, seq, footage, 40, 50);
    let both = split_clips_preserving_links(&g, &pair, 45).expect("split the pair").unwrap();
    assert_eq!(both.blocks, pair);
    assert_eq!(frames(both.at), 45);

    // trim
    assert!(trim_clip(&g, a, -1, 5).is_err());
    assert!(trim_clip(&g, a, 5, 5).is_err());
    assert!(trim_clip(&g, BOGUS, 0, 5).is_err());
    assert!(trim_clip(&g, a, 0, 10).expect("unchanged trim").is_none());
    let e = trim_clip(&g, a, 2, 8).expect("trim both ends").unwrap();
    e.redo(&mut g);
    assert_eq!(range(&g, a), (2, 8, 2), "the trim-in shifts the media in-point with the edge");
    e.undo(&mut g);
    assert_eq!(range(&g, a), (0, 10, 0));
    let e = trim_clip(&g, a, 2, 10).expect("in-only trim").unwrap();
    e.redo(&mut g);
    assert_eq!(range(&g, a), (2, 10, 2));
    e.undo(&mut g);
    let e = trim_clip(&g, a, 0, 8).expect("out-only trim").unwrap();
    e.redo(&mut g);
    assert_eq!(range(&g, a), (0, 8, 0));
    e.undo(&mut g);

    // ripple trim
    assert!(ripple_trim_clip(&g, BOGUS, true, 5).is_err());
    assert!(ripple_trim_clip(&g, b, true, 10).expect("null delta").is_none());
    let e = ripple_trim_clip(&g, b, true, 12).expect("ripple in").unwrap();
    e.redo(&mut g);
    assert_eq!(range(&g, b).0, 12);
    assert_eq!(range(&g, c).0, 22, "the tail shifted right");
    e.undo(&mut g);
    let e = ripple_trim_clip(&g, b, false, 18).expect("ripple out").unwrap();
    e.redo(&mut g);
    assert_eq!(range(&g, b).1, 18);
    assert_eq!(range(&g, c).0, 18, "the tail followed the out edge");
    e.undo(&mut g);
    assert_eq!(range(&g, c).0, 20);

    // roll
    assert!(roll_edit(&g, track, footage, b, 15).is_err());
    assert!(matches!(roll_edit(&g, track, a, c, 15), Err(EditError::NoBoundary)));
    assert!(matches!(roll_edit(&g, track, a, b, 0), Err(EditError::BoundaryEscapes)));
    assert!(roll_edit(&g, track, a, b, 10).expect("unmoved boundary").is_none());
    let e = roll_edit(&g, track, a, b, 12).expect("roll").unwrap();
    assert!(matches!(e.commands[0],
        Command::RollTrim { track: t, block, length } if t == track && block == a && frames(length) == 12));

    // slide
    assert!(slide_clip(&g, BOGUS, 5).is_err());
    assert!(slide_clip(&g, b, 10).expect("unmoved slide").is_none());
    let e = slide_clip(&g, b, 15).expect("slide right").unwrap();
    e.redo(&mut g);
    assert_eq!((range(&g, b).0, range(&g, a).1, range(&g, c).0), (15, 15, 25));
    e.undo(&mut g);
    let e = slide_clip(&g, b, 0).expect("slide onto zero").unwrap();
    e.redo(&mut g);
    assert_eq!(range(&g, b).0, 0);
    assert_eq!(range(&g, a).1, 10, "the collapsing left neighbor is left alone");
    e.undo(&mut g);
    let e = slide_clip(&g, b, 20).expect("slide onto the right neighbor").unwrap();
    e.redo(&mut g);
    assert_eq!(range(&g, b).0, 20);
    assert_eq!(range(&g, c).0, 20, "the right neighbor keeps its length");
    e.undo(&mut g);

    // slip
    assert!(slip_clip(&g, BOGUS, 5).is_err());
    assert!(slip_clip(&g, b, -5).expect("clamped slip is a no-op").is_none());
    let e = slip_clip(&g, b, 7).expect("slip").unwrap();
    e.redo(&mut g);
    assert_eq!(range(&g, b), (10, 20, 7), "the range stays put");
    e.undo(&mut g);

    // move
    assert!(move_clip(&g, BOGUS, 3).is_err());
    let lands = |e: &Edit, clip: NodeId| -> Option<i64> {
        e.commands.iter().find_map(|c| match *c {
            Command::MoveBlock { block, at: t, .. } if block == clip => Some(frames(t)),
            Command::PlaceBlock { block, at: t, .. } if block == clip => Some(frames(t)),
            _ => None,
        })
    };
    let e = move_clip(&g, b, -50).expect("move clamps to zero").unwrap();
    assert_eq!(lands(&e, b), Some(0));
    let e = move_clip(&g, b, 40).expect("move").unwrap();
    assert_eq!(lands(&e, b), Some(40));

    // move to another track
    let track2 = track_ids(&g, seq, TrackType::Video)[1];
    let (folder, _) = create_folder(&mut g, "Dest Folder").expect("folder");
    assert!(move_clip_to_track(&g, BOGUS, track2, 0).is_err());
    assert!(move_clip_to_track(&g, b, folder, 0).is_err());
    let d = create_footage_clip(&mut g, footage, Rational::zero(), at(10));
    assert!(move_clip_to_track(&g, d, track2, 0).is_err());
    let e = move_clip_to_track(&g, b, track2, 30).expect("cross-track move").unwrap();
    assert_eq!(lands(&e, b), Some(30));
    assert!(e.commands.iter().any(|c| matches!(c,
        Command::PlaceBlock { track_index: 1, block, .. } if *block == b)));

    // move with links
    let (v2, a2) = (pair[0], pair[1]);
    let e = move_clip_with_links(&g, v2, Some(track2), 100, &vec![a2]).expect("group").unwrap();
    assert_eq!((lands(&e, v2), lands(&e, a2)), (Some(100), Some(100)));
    let e = move_clip_with_links(&g, v2, None, -50, &vec![a2]).expect("clamped").unwrap();
    assert_eq!((lands(&e, v2), lands(&e, a2)), (Some(0), Some(0)));
    let e = move_clip_with_links(&g, v2, None, 20, &vec![v2, BOGUS, d]).expect("ignored").unwrap();
    assert_eq!(lands(&e, v2), Some(20));
    assert_eq!(lands(&e, d), None);
}

#[test]
fn transition_error_matrix_and_edge_paths() {
    let (mut g, seq, footage) = with_footage();
    let track = video_track(&g, seq);
    let half = at(2);
    let zero = Rational::zero();
    let a = place_clip(&mut g, seq, footage, 0, 10);
    let b = place_clip(&mut g, seq, footage, 10, 20);

    let (t, edit) = add_transition_at_seam(&mut g, a, b, half).expect("seam transition");
    edit.redo(&mut g);
    assert_eq!(transition_of_clip(&g, b, true), Some(t));
    edit.undo(&mut g);
    assert!(transition_of_clip(&g, b, true).is_none());
    edit.redo(&mut g);
    assert_eq!(transition_of_clip(&g, b, true), Some(t));
    assert!(matches!(edit.commands[1],
        Command::Connect { from, to, port: Port::OutBlock } if from == a && to == t));

    let seam = |g: &mut Graph, p: NodeId, n: NodeId, half: Rational| {
        add_transition_at_seam(g, p, n, half).expect_err("refused")
    };
    let _ = seam(&mut g, a, b, half);
    assert_eq!(seam(&mut g, a, b, zero), EditError::TransitionLength);
    assert_eq!(seam(&mut g, footage, b, half), EditError::OutgoingNotAClip);
    assert_eq!(seam(&mut g, a, footage, half), EditError::IncomingNotAClip);
    let c = place_clip(&mut g, seq, footage, 100, 110);
    let d = place_clip(&mut g, seq, footage, 200, 210);
    assert_eq!(seam(&mut g, c, d, half), EditError::NotContiguous);
    let e = place_clip(&mut g, seq, footage, 300, 310);
    let f = place_clip(&mut g, seq, footage, 310, 320);
    set_owner(&mut g, e, None);
    assert_eq!(seam(&mut g, e, f, half), EditError::OutgoingNotOnTrack);
    let g1 = place_clip(&mut g, seq, footage, 400, 410);
    let (h, edit) =
        place_footage_clip(&mut g, seq, footage, TrackType::Video, 1, 410, 420, 0).expect("place");
    run(&mut g, &edit);
    assert_eq!(seam(&mut g, g1, h, half), EditError::DifferentTracks);
    let (folder, _) = create_folder(&mut g, "Not A Track").expect("folder");
    set_owner(&mut g, g1, Some(folder));
    set_owner(&mut g, h, Some(folder));
    assert_eq!(seam(&mut g, g1, h, half), EditError::TransitionTrack);
    set_owner(&mut g, g1, Some(track));

    let i = place_clip(&mut g, seq, footage, 500, 510);
    let j = place_clip(&mut g, seq, footage, 510, 520);
    let extra = opaque(&mut g);
    let mut blocks = track_behavior(&g, track).unwrap().blocks.clone();
    let at_i = blocks.iter().position(|&x| x == i).unwrap();
    blocks.insert(at_i + 1, extra);
    set_blocks(&mut g, track, blocks);
    assert_eq!(seam(&mut g, i, j, half), EditError::NotAdjacent);

    let edge = |g: &mut Graph, clip: NodeId, length: Rational| {
        add_transition_at_edge(g, clip, true, length).expect_err("refused")
    };
    assert_eq!(edge(&mut g, a, zero), EditError::TransitionLength);
    assert_eq!(edge(&mut g, footage, half), EditError::EdgeNotAClip);
    assert_eq!(edge(&mut g, BOGUS, half), EditError::EdgeNotAClip);
    assert_eq!(edge(&mut g, e, half), EditError::EdgeNotOnTrack);
    let track2 = track_ids(&g, seq, TrackType::Video)[1];
    set_owner(&mut g, i, Some(track2));
    assert_eq!(edge(&mut g, i, half), EditError::EdgeNotListed);
    set_owner(&mut g, i, Some(track));
    assert_eq!(edge(&mut g, b, half), EditError::EdgeTaken);

    let lone = place_clip(&mut g, seq, footage, 600, 610);
    let (head, edit) = add_transition_at_edge(&mut g, lone, true, half).expect("head");
    edit.redo(&mut g);
    assert_eq!(transition_of_clip(&g, lone, true), Some(head));
    assert!(add_transition_at_edge(&mut g, lone, true, half).is_err());
    let (tail, edit) = add_transition_at_edge(&mut g, lone, false, half).expect("tail");
    edit.redo(&mut g);
    assert_eq!(transition_of_clip(&g, lone, false), Some(tail));
    let frame = at(1);
    let (applied, edit) =
        set_transition_length(&g, lone, true, frame, zero).expect("clamp to one frame");
    edit.redo(&mut g);
    assert_eq!(parts(applied), parts(frame));
    assert!(set_transition_length(&g, BOGUS, true, frame, half).is_err());
    assert!(clip_transition_widths(&g, BOGUS).is_empty());
    let widths = clip_transition_widths(&g, track);
    let of_lone = widths.get(&lone).expect("lone clip widths");
    assert!(of_lone.0.is_some() && of_lone.1.is_some());

    assert!(matches!(
        add_default_transition(&mut g, BOGUS, &vec![lone], half),
        Err(EditError::NoSequence)
    ));
    let extra2 = opaque(&mut g);
    assert!(matches!(
        add_default_transition(&mut g, seq, &vec![extra2, footage], half),
        Err(EditError::NothingToBuild)
    ));
    let other = sequence(&mut g, "Other Seq");
    let other_clip = place_clip(&mut g, other, footage, 0, 10);
    assert!(add_default_transition(&mut g, seq, &vec![other_clip], half).is_err());
    let lone2 = place_clip(&mut g, seq, footage, 700, 710);
    let list = track_behavior(&g, track).unwrap().track_list;
    set_list(&mut g, track, None);
    assert!(add_default_transition(&mut g, seq, &vec![lone2], half).is_err());
    set_list(&mut g, track, list);
    let kept: Vec<NodeId> =
        track_behavior(&g, track).unwrap().blocks.iter().copied().filter(|&x| x != lone2).collect();
    set_blocks(&mut g, track, kept);
    assert!(add_default_transition(&mut g, seq, &vec![lone2], half).is_err());
    let (adj, edit) = create_adjustment_layer(&mut g, seq, track, 800, 820).expect("adjustment");
    run(&mut g, &edit);
    assert!(add_default_transition(&mut g, seq, &vec![adj], half).is_err());
}

#[test]
fn remove_node_and_empty_multi_command_paths() {
    let edit = remove_node(42);
    assert!(matches!(edit.commands[0], Command::RemoveNode { node: 42 }));
    assert!(edit.commands[0].is_for_host());
    let (mut g, seq, footage) = with_footage();
    let b = place_clip(&mut g, seq, footage, 10, 20);
    let parked = g.take_node(b).unwrap();
    assert!(!g.is_valid(b));
    g.add_entry(parked, b);
    assert_eq!(range(&g, b).0, 10);
}

#[test]
fn timestamp_conversion_edge_cases() {
    let r = |num: i64, den: i64| Rational::new(num, den);
    // Round half away from zero.
    assert_eq!(rational_to_ts(r(-1, 2), (1, 1)), -1);
    assert_eq!(rational_to_ts(r(-1, 3), (1, 1)), 0);
    assert_eq!(rational_to_ts(r(1, 2), (1, 1)), 1);
    assert_eq!(rational_to_ts(r(1, 3), (1, 1)), 0);
    // Degenerate timebases and the null rational answer zero.
    assert_eq!(rational_to_ts(r(1, 2), (0, 1)), 0);
    assert_eq!(rational_to_ts(r(1, 2), (1, 0)), 0);
    assert_eq!(rational_to_ts(Rational::null(), (1, 1)), 0);
    // Timestamp -> reduced rational.
    assert_eq!(parts(ts_to_rational(2, (1, 25))), (2, 25));
    assert_eq!(parts(ts_to_rational(0, (1001, 30000))), (0, 1));
    assert_eq!(parts(ts_to_rational(30000, (1001, 30000))), (1001, 1));
    // Whole-frame round trips are exact.
    let tb = (1001, 30000);
    for frame in [0i64, 1, 7, 300, -5] {
        assert_eq!(rational_to_ts(ts_to_rational(frame, tb), tb), frame);
    }
    // The identity -> node bridge rejects the sentinel.
    assert!(id_of(999_999).is_some());
    assert!(id_of(INVALID_ID).is_none());
    assert_eq!(gcd(12, -18), 6);
}

#[test]
fn find_input_footage_handles_cycles() {
    let (mut g, _, footage) = with_footage();
    let source = create_footage_clip(&mut g, footage, Rational::zero(), at(10));
    let mut node = Node::new("org.olivevideoeditor.Olive.keymix", Behavior::Opaque);
    node.add_input("tex_in");
    node.add_input("mask_in");
    let keymix = g.add_node(node);
    g.set_source(keymix, "tex_in", Some(source));
    g.set_source(keymix, "mask_in", Some(source));
    assert!(find_input_footage(&g, keymix).is_none());
    // With the source wired, the footage is found through it.
    g.set_source(source, TEXTURE_INPUT, Some(footage));
    assert_eq!(find_input_footage(&g, keymix), Some(footage));
    // A cycle ends.
    g.set_source(source, TEXTURE_INPUT, Some(keymix));
    assert!(find_input_footage(&g, keymix).is_none());
}

#[test]
fn set_clips_linked_links_and_unlinks_the_set() {
    let (mut g, seq, footage) = with_footage();
    let a = place_clip(&mut g, seq, footage, 0, 10);
    let b = place_clip(&mut g, seq, footage, 10, 20);
    assert!(set_clips_linked(&g, &vec![a], true).is_none(), "a single block is a no-op");
    let link = set_clips_linked(&g, &vec![a, b], true).expect("link the pair");
    link.redo(&mut g);
    assert!(linked(&g, a, b));
    link.undo(&mut g);
    assert!(!linked(&g, a, b));
    link.redo(&mut g);
    assert!(linked(&g, a, b));
    let unlink = set_clips_linked(&g, &vec![a, b], false).expect("unlink the pair");
    unlink.redo(&mut g);
    assert!(!linked(&g, a, b));
    unlink.undo(&mut g);
    assert!(linked(&g, a, b), "the undo restores the prior topology");
}

#[test]
fn sequence_and_move_misc_paths() {
    let (mut g, seq, footage) = with_footage();
    let clip = place_clip(&mut g, seq, footage, 0, 10);
    let track = video_track(&g, seq);
    let list = track_list_of(&g, seq, TrackType::Video).unwrap();
    assert_eq!(parts(sequence_playhead(&g, seq)), (0, 1));
    sequence_set_playhead(&mut g, seq, Rational { num: 3, den: 2 });
    assert_eq!(parts(sequence_playhead(&g, seq)), (3, 2));
    sequence_set_playhead(&mut g, BOGUS, Rational { num: 1, den: 1 });

    let one = PictureFormat {
        width: 1,
        height: 1,
        rate: Rational { num: 1, den: 1 },
        interlaced: false,
    };
    assert!(matches!(
        set_sequence_parameters(&mut g, BOGUS, "x", one),
        Err(EditError::SequenceGone)
    ));
    let (folder, _) = create_folder(&mut g, "Not A Sequence").expect("folder");
    assert!(matches!(
        set_sequence_parameters(&mut g, folder, "x", one),
        Err(EditError::NotASequence)
    ));
    if let Behavior::Sequence(s) = &mut g.get_mut(seq).unwrap().behavior {
        s.video_params.clear();
    }
    let small = PictureFormat {
        width: 640,
        height: 360,
        rate: Rational { num: 24, den: 1 },
        interlaced: true,
    };
    set_sequence_parameters(&mut g, seq, "Recreated", small).expect("empty stream list");
    let (w, h, rate) = sequence_video_params(&g, seq).unwrap();
    assert_eq!((w, h, parts(rate)), (640, 360, (24, 1)));
    if let Behavior::Sequence(s) = &mut g.get_mut(seq).unwrap().behavior {
        s.video_params = hd();
    }

    set_list(&mut g, track, None);
    assert!(move_clip(&g, clip, 20).is_err(), "a clip on a listless track cannot move");
    set_list(&mut g, track, Some(list));
    assert!(move_clip(&g, clip, 20).expect("the restored list moves again").is_some());

    set_owner(&mut g, clip, None);
    assert!(move_clip_with_links(&g, clip, None, 5, &Vec::new()).is_err());

    let b = place_clip(&mut g, seq, footage, 30, 40);
    if let Behavior::TrackList(l) = &mut g.get_mut(list).unwrap().behavior {
        l.sequence = None;
    }
    let items = copy_clips(&g, &vec![b]).expect("copy");
    assert_eq!(items.len(), 1, "the fallback timebase still copies");
    let from = clip_range(&g, b).unwrap().0;
    assert_eq!(
        items[0].start_ts,
        (from.numerator() * 25) / from.denominator(),
        "the fallback treats the rational as 25fps seconds"
    );
}

#[test]
fn multicams_and_sequences_are_listed() {
    let mut g = project();
    let seq = sequence(&mut g, "A");
    let multicam = g.add_node(Node::new(MULTICAM_TYPE_ID, Behavior::Opaque));
    assert_eq!(multicam_nodes(&g), vec![multicam]);
    assert_eq!(sequence_ids(&g), vec![seq]);
    assert_eq!(sequence_time_base(&g, seq), Some((1, 25)));
}

#[test]
fn times_add_up_exactly() {
    let a = Rational::new(1, 3);
    let b = Rational::new(1, 6);
    assert_eq!(a.checked_add(b).map(parts), Some((1, 2)));
    assert_eq!(a.checked_sub(b).map(parts), Some((1, 6)));
    assert!(b.is_before(a) && !a.is_before(b));
    assert!(Rational { num: 2, den: 6 }.same(a));
    assert_eq!(parts(a.max(b)), (1, 3));
    assert_eq!(parts(a.min(b)), (1, 6));
    assert!(Rational::null().is_null());
    let huge = Rational { num: i64::MAX, den: 1 };
    assert!(huge.checked_add(Rational { num: 1, den: 1 }).is_none());
}

#[test]
fn edits_refuse_times_out_of_range() {
    let (mut g, seq, footage) = with_footage();
    let clip = place_clip(&mut g, seq, footage, 0, 10);
    let far = Rational { num: i64::MAX, den: 1 };
    assert!(add_transition_at_edge(&mut g, clip, true, far).is_ok(), "the last time there is");
    let core = block_core_of(&g, clip).unwrap();
    g.set_block(clip, Block { in_point: far, ..core });
    assert!(matches!(
        add_transition_at_edge(&mut g, clip, true, far),
        Err(EditError::TimeOutOfRange)
    ));
    assert!(!EditError::TimeOutOfRange.message().is_empty());
}

#[test]
fn footage_duration_needs_a_positive_fraction() {
    let seconds = |num: i64, den: i64| footage_duration_seconds(Rational { num, den }).map(parts);
    assert_eq!(seconds(5, 2), Some((5, 2)));
    assert_eq!(seconds(0, 1), None);
    assert_eq!(seconds(-5, 2), None);
    assert_eq!(seconds(0, 0), None);
    assert_eq!(seconds(7, 0), None);
}

#[test]
fn a_ripple_trim_keeps_the_joins_behind_the_clip() {
    let (mut g, seq, footage) = with_footage();
    let a = place_clip(&mut g, seq, footage, 0, 10);
    let b = place_clip(&mut g, seq, footage, 10, 20);
    let c = place_clip(&mut g, seq, footage, 20, 30);
    let start = ripple_trim_clip(&g, a, true, 4).expect("start edge").unwrap();
    start.redo(&mut g);
    assert_eq!(range(&g, a), (4, 10, 4), "the out point is the anchor");
    assert_eq!(range(&g, b), (14, 24, 0));
    assert_eq!(range(&g, c), (24, 34, 0), "the tail still meets");
    start.undo(&mut g);
    let end = ripple_trim_clip(&g, a, false, 6).expect("end edge").unwrap();
    end.redo(&mut g);
    assert_eq!(range(&g, a), (0, 6, 0), "the in point is the anchor");
    assert_eq!(range(&g, b), (6, 16, 0), "no hole opens");
    assert_eq!(range(&g, c), (16, 26, 0));
    end.undo(&mut g);
    assert_eq!(range(&g, c), (20, 30, 0));
}

#[test]
fn wedges_are_keyed_by_clips_and_as_wide_as_the_transition_reaches() {
    let (mut g, seq, footage) = with_footage();
    let track = video_track(&g, seq);
    let a = place_clip(&mut g, seq, footage, 0, 10);
    let b = place_clip(&mut g, seq, footage, 10, 20);
    let (wedge, edit) = add_transition_at_seam(&mut g, a, b, at(2)).expect("seam");
    edit.redo(&mut g);
    let widths = clip_transition_widths(&g, track);
    assert_eq!(widths.len(), 2, "the transition itself is not keyed");
    assert!(!widths.contains_key(&wedge));
    assert_eq!(widths[&a].0.map(frames), None);
    assert_eq!(widths[&a].1.map(frames), Some(2));
    assert_eq!(widths[&b].0.map(frames), Some(2));
    assert_eq!(widths[&b].1.map(frames), None);
}

#[test]
fn clips_on_frames_are_copied_as_those_frames() {
    let (mut g, seq, footage) = with_footage();
    let (clip, edit) =
        place_footage_clip(&mut g, seq, footage, TrackType::Video, 0, 7, 19, 5).expect("place");
    run(&mut g, &edit);
    let items = copy_clips(&g, &vec![clip]).expect("copy");
    assert_eq!(items.len(), 1);
    assert_eq!(
        (items[0].start_ts, items[0].length_ts, items[0].media_in_ts),
        (7, 12, 5)
    );
}

#[test]
fn a_pasted_group_of_three_is_linked_throughout() {
    let (mut g, seq, footage) = with_footage();
    let clips = vec![
        place_clip(&mut g, seq, footage, 0, 10),
        place_clip(&mut g, seq, footage, 10, 20),
        place_clip(&mut g, seq, footage, 20, 30),
    ];
    set_clips_linked(&g, &clips, true).expect("link the three").redo(&mut g);
    let items = copy_clips(&g, &clips).expect("copy");
    let (pasted, edit) = paste_clips(&mut g, seq, &items, 50).expect("paste");
    edit.redo(&mut g);
    assert!(linked(&g, pasted[0], pasted[1]));
    assert!(linked(&g, pasted[0], pasted[2]));
    assert!(linked(&g, pasted[1], pasted[2]));
    assert_eq!(g.connected_output(pasted[2], TEXTURE_INPUT), Some(footage));
    edit.undo(&mut g);
    assert!(g.links_of(pasted[0]).is_empty());
    assert_eq!(g.connected_output(pasted[2], TEXTURE_INPUT), None);
}

#[test]
fn a_nested_clip_spans_the_frames_it_is_dropped_on() {
    let (mut g, host, _) = with_footage();
    let source = sequence(&mut g, "Source Seq");
    let (nested, edit) =
        place_nested_sequence_clip(&mut g, host, source, 0, 10, 25).expect("nested clip");
    assert_eq!(range(&g, nested), (10, 25, 0), "the clip enters with both its ends");
    run(&mut g, &edit);
    assert_eq!(range(&g, nested), (10, 25, 0));
    assert_eq!(g.connected_output(nested, TEXTURE_INPUT), Some(source));
}

#[test]
fn undoing_an_empty_disconnect_leaves_later_edges() {
    let (mut g, _, footage) = with_footage();
    let clip = create_footage_clip(&mut g, footage, Rational::zero(), at(10));
    let cmd = disconnect_command(&g, clip, TEXTURE_INPUT).expect("disconnect");
    cmd.redo(&mut g);
    assert_eq!(g.connected_output(clip, TEXTURE_INPUT), None);
    g.set_source(clip, TEXTURE_INPUT, Some(footage));
    cmd.undo(&mut g);
    assert_eq!(g.connected_output(clip, TEXTURE_INPUT), Some(footage));
}

#[test]
fn a_slide_keeps_the_far_ends_of_the_neighbours() {
    let (mut g, seq, footage) = with_footage();
    let a = place_clip(&mut g, seq, footage, 0, 10);
    let b = place_clip(&mut g, seq, footage, 10, 20);
    let c = place_clip(&mut g, seq, footage, 20, 30);
    let d = place_clip(&mut g, seq, footage, 30, 40);
    let edit = slide_clip(&g, b, 13).expect("slide").unwrap();
    edit.redo(&mut g);
    assert_eq!(range(&g, a), (0, 13, 0));
    assert_eq!(range(&g, b), (13, 23, 0));
    assert_eq!(range(&g, c), (23, 30, 3));
    assert_eq!(range(&g, d), (30, 40, 0));
    edit.undo(&mut g);
    assert_eq!(range(&g, a), (0, 10, 0));
    assert_eq!(range(&g, c), (20, 30, 0));
}

#[test]
fn a_seam_named_by_both_its_clips_takes_one_transition() {
    let (mut g, seq, footage) = with_footage();
    let a = place_clip(&mut g, seq, footage, 0, 10);
    let b = place_clip(&mut g, seq, footage, 10, 20);
    let lone = place_clip(&mut g, seq, footage, 30, 40);
    let track = video_track(&g, seq);
    let before = track_behavior(&g, track).unwrap().blocks.clone();
    let (n, edit) =
        add_default_transition(&mut g, seq, &vec![b, a, lone], at(2)).expect("transitions");
    edit.redo(&mut g);
    assert_eq!(n, 3, "one at the seam, one at either end of the lone clip");
    let after = track_behavior(&g, track).unwrap().blocks.clone();
    assert_eq!(after.len(), before.len() + n);
    let kept: Vec<NodeId> = after.iter().copied().filter(|x| before.contains(x)).collect();
    assert_eq!(kept, before, "the blocks that were there keep their order");
    assert_eq!(transition_of_clip(&g, a, false), transition_of_clip(&g, b, true));
    assert!(transition_of_clip(&g, a, false).is_some());
    assert_eq!(range(&g, a), (0, 10, 0));
    assert_eq!(range(&g, b), (10, 20, 0));
}

#[test]
fn a_flag_leaves_the_other_flag() {
    let (mut g, seq, _) = with_footage();
    let track = video_track(&g, seq);
    set_track_locked(&g, track, true).expect("lock").unwrap().redo(&mut g);
    let mute = set_track_muted(&g, track, true).expect("mute").unwrap();
    mute.redo(&mut g);
    assert_eq!((track_muted(&g, track), track_locked(&g, track)), (Some(true), Some(true)));
    mute.undo(&mut g);
    assert_eq!((track_muted(&g, track), track_locked(&g, track)), (Some(false), Some(true)));
}

#[test]
fn the_content_length_is_the_end_of_a_block() {
    let (mut g, seq, footage) = with_footage();
    assert_eq!(parts(sequence_length(&g, seq)), (0, 1));
    place_clip(&mut g, seq, footage, 0, 10);
    place_clip(&mut g, seq, footage, 15, 33);
    assert_eq!(parts(sequence_length(&g, seq)), parts(at(33)));
}

#[test]
fn a_backward_timebase_rounds_away_from_zero_too() {
    assert_eq!(rational_to_ts(Rational::new(1, 2), (-1, 1)), -1);
    assert_eq!(rational_to_ts(Rational::new(-1, 2), (-1, 1)), 1);
    assert_eq!(rational_to_ts(Rational::new(1, 3), (-1, 1)), 0);
    assert_eq!(rational_to_ts(Rational::new(3, 2), (1, -1)), -2);
}

#[test]
fn default_transitions_on_trimmed_clips_are_built_once() {
    let (mut g, seq, footage) = with_footage();
    let clips = vec![
        place_clip(&mut g, seq, footage, 0, 10),
        place_clip(&mut g, seq, footage, 10, 20),
        place_clip(&mut g, seq, footage, 20, 30),
    ];
    for (i, &clip) in clips.iter().enumerate() {
        let from = 10 * i as i64;
        trim_clip(&g, clip, from, from + 8).expect("trim").unwrap().redo(&mut g);
    }
    let track = video_track(&g, seq);
    assert_eq!(track_behavior(&g, track).unwrap().blocks, clips, "holes, but no gap blocks");

    let (created, edit) = add_default_transition(&mut g, seq, &clips, at(1)).expect("add");
    edit.redo(&mut g);
    assert_eq!(created, 6, "both ends of every clip");
    let blocks = track_behavior(&g, track).unwrap().blocks.clone();
    assert_eq!(blocks.len(), 9);
    for (i, &clip) in clips.iter().enumerate() {
        assert_eq!(blocks[3 * i + 1], clip);
        assert_eq!(transition_of_clip(&g, clip, true), Some(blocks[3 * i]));
        assert_eq!(transition_of_clip(&g, clip, false), Some(blocks[3 * i + 2]));
    }

    let nodes = g.slots.len();
    assert!(matches!(
        add_default_transition(&mut g, seq, &clips, at(1)),
        Err(EditError::NothingToBuild)
    ));
    assert_eq!(g.slots.len(), nodes);
    edit.undo(&mut g);
    assert_eq!(track_behavior(&g, track).unwrap().blocks, clips);
}

#[test]
fn a_clip_with_a_transition_elsewhere_on_its_track_is_not_lone() {
    let (mut g, seq, footage) = with_footage();
    let clip = place_clip(&mut g, seq, footage, 0, 10);
    let (t, edit) = add_transition_at_edge(&mut g, clip, false, at(2)).expect("tail");
    edit.redo(&mut g);
    let track = video_track(&g, seq);
    let gap = opaque(&mut g);
    if let Behavior::Track(track) = &mut g.get_mut(track).unwrap().behavior {
        track.blocks = vec![clip, gap, t];
    }
    assert_eq!(transition_of_clip(&g, clip, false), None);
    assert!(add_default_transition(&mut g, seq, &vec![clip], at(1)).is_err());
}

#[test]
fn pasted_clips_that_were_not_linked_hang_on_the_first_alone() {
    let (mut g, seq, footage) = with_footage();
    let clips = vec![
        place_clip(&mut g, seq, footage, 0, 10),
        place_clip(&mut g, seq, footage, 10, 20),
        place_clip(&mut g, seq, footage, 20, 30),
    ];
    let items = copy_clips(&g, &clips).expect("copy");
    assert_eq!(items[1].clip, clips[1]);
    assert!(items[1].links.is_empty());
    let (pasted, edit) = paste_clips(&mut g, seq, &items, 50).expect("paste");
    edit.redo(&mut g);
    assert!(linked(&g, pasted[0], pasted[1]));
    assert!(linked(&g, pasted[0], pasted[2]));
    assert!(!g.links_of(pasted[1]).contains(&pasted[2]));
    assert!(!g.links_of(pasted[2]).contains(&pasted[1]));
}

#[test]
fn cut_clips_that_were_linked_come_back_linked() {
    let (mut g, seq, footage) = with_footage();
    let clips = vec![
        place_clip(&mut g, seq, footage, 0, 10),
        place_clip(&mut g, seq, footage, 10, 20),
        place_clip(&mut g, seq, footage, 20, 30),
    ];
    let pair = vec![clips[1], clips[2]];
    set_clips_linked(&g, &pair, true).expect("link").redo(&mut g);
    let items = copy_clips(&g, &clips).expect("copy");
    set_clips_linked(&g, &pair, false).expect("unlink").redo(&mut g);
    let (pasted, edit) = paste_clips(&mut g, seq, &items, 50).expect("paste");
    edit.redo(&mut g);
    assert!(linked(&g, pasted[1], pasted[2]), "as they were when copied");
    let other = place_clip(&mut g, seq, footage, 90, 95);
    g.add_link(pasted[1], other);
    edit.undo(&mut g);
    assert_eq!(g.links_of(pasted[1]), vec![other], "a later link stays");
}

#[test]
fn a_slide_counts_times_not_fractions() {
    let (mut g, seq, footage) = with_footage();
    let clip = place_clip(&mut g, seq, footage, 10, 20);
    let core = block_core_of(&g, clip).unwrap();
    let loose = Rational { num: core.in_point.num * 3, den: core.in_point.den * 3 };
    g.set_block(clip, Block { in_point: loose, ..core });
    assert!(slide_clip(&g, clip, 10).expect("slide").is_none(), "it is there already");
    slide_clip(&g, clip, 12).expect("slide").unwrap().redo(&mut g);
    assert_eq!((range(&g, clip).0, range(&g, clip).1), (12, 22));
}
