//! What new sequences, footage and tracks look like.

use crate::graph::{NodeId, TrackType, VideoParams};
use crate::project::PictureFormat;
use crate::rational::Rational;
use vstd::prelude::*;

verus! {

/// A format is that of the first stream afterwards; what else the stream holds
/// stays, and so does every other stream. A stream that has to be made up
/// holds four channels of 32-bit float.
pub proof fn lemma_format_applied(streams: Seq<VideoParams>, format: PictureFormat)
    ensures
        ({
            let now = crate::project::formatted(streams, format);
            &&& now.len() == (if streams.len() == 0 {
                1
            } else {
                streams.len()
            })
            &&& now[0].width == format.width
            &&& now[0].height == format.height
            &&& now[0].frame_rate == format.rate
            &&& now[0].interlaced == format.interlaced
            &&& streams.len() == 0 ==> now[0].pixel_format == 4 && now[0].channels == 4
            &&& streams.len() > 0 ==> now[0].pixel_format == streams[0].pixel_format
                && now[0].channels == streams[0].channels
            &&& forall|i: int| 1 <= i < streams.len() ==> #[trigger] now[i] == streams[i]
        }),
{
}

/// Making sure of a list leaves one that is there alone, and else adds one,
/// empty and last among the sequence's lists, that knows its sequence.
pub proof fn lemma_list_made(g: crate::graph::GraphModel, seq: NodeId, kind: TrackType)
    requires
        g.slots.len() < u64::MAX,
        g.sequence(seq) is Some,
        seq < g.slots.len(),
        g.sequence(seq).unwrap().track_lists.len() <= i32::MAX,
    ensures
        ({
            let now = g.with_track_list(seq, kind);
            let id = g.next_id();
            let lists = g.sequence(seq).unwrap().track_lists;
            &&& g.track_list_of(seq, kind) is Some ==> now == g && g.track_list_after(seq, kind)
                == g.track_list_of(seq, kind)
            &&& g.track_list_of(seq, kind) is None ==> {
                &&& g.track_list_after(seq, kind) == Some(id)
                &&& now.slots.len() == g.slots.len() + 1
                &&& now.sequence(seq) is Some
                &&& now.sequence(seq).unwrap().track_lists == lists.push(id)
                &&& now.sequence(seq).unwrap().video_params
                    == g.sequence(seq).unwrap().video_params
                &&& now.sequence(seq).unwrap().playhead == g.sequence(seq).unwrap().playhead
                &&& now.track_list(id) is Some
                &&& now.track_list(id).unwrap().kind == kind
                &&& now.track_list(id).unwrap().tracks.len() == 0
                &&& now.track_list(id).unwrap().sequence == Some(seq)
                &&& now.track_list(id).unwrap().array_base == lists.len()
                &&& now.node(seq).unwrap().label == g.node(seq).unwrap().label
                &&& forall|other: NodeId|
                    other != seq && other != id ==> #[trigger] now.node(other) == g.node(other)
            }
        }),
{
}

/// A new sequence has its name, its streams, the playhead at the origin, and
/// two lists, one for video and one for audio, in that order and empty; it is
/// mounted last in the root folder. Nothing else changes.
pub proof fn lemma_sequence_made(
    g: crate::graph::GraphModel,
    root: NodeId,
    name: Seq<char>,
    streams: Seq<VideoParams>,
)
    requires
        g.slots.len() + 2 < u64::MAX,
        g.root == Some(root),
        root < g.slots.len(),
        g.folder(root) is Some,
        crate::project_laws::children_exist(g, root),
    ensures
        ({
            let id = g.next_id();
            let mounted = crate::project::with_sequence(g, name, streams);
            let video = mounted.with_track_list(id, TrackType::Video);
            let now = video.with_track_list(id, TrackType::Audio);
            let v = (id + 1) as u64;
            let a = (id + 2) as u64;
            let s = now.sequence(id).unwrap();
            &&& mounted.track_list_after(id, TrackType::Video) == Some(v)
            &&& video.track_list_after(id, TrackType::Audio) == Some(a)
            &&& now.slots.len() == g.slots.len() + 3
            &&& now.sequence(id) is Some
            &&& s.video_params == streams
            &&& s.playhead == (Rational { num: 0, den: 1 })
            &&& s.track_lists == seq![v, a]
            &&& now.node(id).unwrap().label == name
            &&& now.node(id).unwrap().type_id == "org.olivevideoeditor.Olive.sequence"@
            &&& now.node(id).unwrap().bin_folder == Some(root)
            &&& now.track_list_of(id, TrackType::Video) == Some(v)
            &&& now.track_list_of(id, TrackType::Audio) == Some(a)
            &&& now.track_list(v).unwrap().tracks.len() == 0
            &&& now.track_list(a).unwrap().tracks.len() == 0
            &&& now.track_list(v).unwrap().sequence == Some(id)
            &&& now.track_list(a).unwrap().sequence == Some(id)
            &&& now.folder(root) == Some(g.folder(root).unwrap().push(id))
            &&& forall|other: NodeId|
                other < g.slots.len() && other != root ==> #[trigger] now.node(other) == g.node(
                    other,
                )
        }),
{
    let id = g.next_id();
    let v = (id + 1) as u64;
    let a = (id + 2) as u64;
    let c = g.folder(root).unwrap();
    let added = g.appended(crate::project::sequence_node(name, streams));
    assert(added.folder(root) == Some(c));
    assert(!c.contains(id)) by {
        if c.contains(id) {
            let i = choose|i: int| 0 <= i < c.len() && c[i] == id;
            assert(c[i] < g.slots.len());
        }
    }
    let mounted = crate::project::with_sequence(g, name, streams);
    let noted = added.with_bin(id, Some(root));
    assert(noted.folder(root) == Some(c));
    assert(mounted.sequence(id).unwrap().track_lists.len() == 0);
    assert(mounted.track_list_of(id, TrackType::Video) is None);
    lemma_list_made(mounted, id, TrackType::Video);
    let video = mounted.with_track_list(id, TrackType::Video);
    let lists = video.sequence(id).unwrap().track_lists;
    assert(lists =~= seq![v]);
    reveal_with_fuel(crate::queries::list_from, 3);
    assert(video.track_list_of(id, TrackType::Audio) is None);
    lemma_list_made(video, id, TrackType::Audio);
    let now = video.with_track_list(id, TrackType::Audio);
    assert(now.sequence(id).unwrap().track_lists =~= seq![v, a]);
    assert(now.track_list(v) == video.track_list(v));
    assert forall|other: NodeId| other < g.slots.len() && other != root implies #[trigger] now.node(
        other,
    ) == g.node(other) by {
        assert(video.node(other) == mounted.node(other));
        assert(now.node(other) == video.node(other));
    }
    assert(video.node(root) == mounted.node(root));
    assert(now.node(root) == video.node(root));
}

proof fn lemma_mounted_in_order(g: crate::graph::GraphModel, folder: NodeId, ids: Seq<NodeId>)
    requires
        g.folder(folder) is Some,
        ids.no_duplicates(),
        forall|i: int|
            0 <= i < ids.len() ==> !g.folder(folder).unwrap().contains(#[trigger] ids[i]) && ids[i]
                != folder && g.node(ids[i]) is Some,
    ensures
        ({
            let now = crate::project::with_mounted(g, folder, ids);
            &&& now.folder(folder) == Some(g.folder(folder).unwrap() + ids)
            &&& forall|id: NodeId|
                id != folder && !ids.contains(id) ==> #[trigger] now.node(id) == g.node(id)
            &&& forall|id: NodeId|
                ids.contains(id) ==> now.node(id) is Some && #[trigger] now.node(id).unwrap() == (
                crate::graph::NodeModel { bin_folder: Some(folder), ..g.node(id).unwrap() })
        }),
    decreases ids.len(),
{
    let c = g.folder(folder).unwrap();
    if ids.len() == 0 {
        assert(c + ids =~= c);
    } else {
        let init = ids.drop_last();
        let last = ids[ids.len() - 1];
        assert forall|i: int| 0 <= i < init.len() implies !c.contains(#[trigger] init[i])
            && init[i] != folder && g.node(init[i]) is Some by {
            assert(init[i] == ids[i]);
        }
        lemma_mounted_in_order(g, folder, init);
        let done = crate::project::with_mounted(g, folder, init);
        let now = crate::project::with_mounted(g, folder, ids);
        assert(!init.contains(last)) by {
            if init.contains(last) {
                let i = choose|i: int| 0 <= i < init.len() && init[i] == last;
                assert(ids[i] == ids[ids.len() - 1]);
            }
        }
        assert(done.node(last) == g.node(last));
        let noted = done.with_bin(last, Some(folder));
        assert(noted.folder(folder) == Some(c + init));
        assert(!(c + init).contains(last)) by {
            if (c + init).contains(last) {
                let i = choose|i: int| 0 <= i < (c + init).len() && (c + init)[i] == last;
                if i < c.len() {
                    assert(c.contains(c[i]));
                } else {
                    assert(init.contains(init[i - c.len()]));
                }
            }
        }
        assert((c + init).push(last) =~= c + ids);
        assert forall|id: NodeId| ids.contains(id) <==> init.contains(id) || id == last by {
            if ids.contains(id) {
                let i = choose|i: int| 0 <= i < ids.len() && ids[i] == id;
                if i < init.len() {
                    assert(init[i] == id);
                }
            }
            if init.contains(id) {
                let i = choose|i: int| 0 <= i < init.len() && init[i] == id;
                assert(ids[i] == id);
            }
        }
        assert forall|id: NodeId| ids.contains(id) implies now.node(id) is Some
            && #[trigger] now.node(id).unwrap() == (crate::graph::NodeModel {
            bin_folder: Some(folder),
            ..g.node(id).unwrap()
        }) by {
            if id != last {
                assert(init.contains(id));
                let i = choose|i: int| 0 <= i < ids.len() && ids[i] == id;
                assert(ids[i] != folder);
                assert(now.node(id) == done.node(id));
            } else {
                assert(ids[ids.len() - 1] != folder);
            }
        }
        assert forall|id: NodeId| id != folder && !ids.contains(id) implies #[trigger] now.node(id)
            == g.node(id) by {
            assert(!init.contains(id));
            assert(done.node(id) == g.node(id));
        }
    }
}

/// The sequences that are not among the children, in their order.
pub proof fn lemma_orphans_listed(ids: Seq<NodeId>, children: Seq<NodeId>)
    ensures
        crate::project::orphans(ids, children) == ids.filter(|id: NodeId| !children.contains(id)),
    decreases ids.len(),
{
    reveal(Seq::filter);
    if ids.len() > 0 {
        lemma_orphans_listed(ids.drop_last(), children);
    }
}

/// Mounting the sequences that are in no root folder lists them behind what it
/// holds, in arena order, and notes the folder on each; nothing else changes.
pub proof fn lemma_sequences_mounted(g: crate::graph::GraphModel, root: NodeId)
    requires
        g.slots.len() <= u64::MAX,
        g.folder(root) is Some,
    ensures
        ({
            let missing = crate::project_laws::unmounted_sequences(g, root);
            let now = crate::project::with_mounted(g, root, missing);
            let c = g.folder(root).unwrap();
            &&& forall|id: NodeId|
                missing.contains(id) <==> id < g.slots.len() && g.sequence(id) is Some
                    && !c.contains(id)
            &&& forall|i: int, j: int|
                0 <= i < j < missing.len() ==> #[trigger] missing[i] < #[trigger] missing[j]
            &&& now.folder(root) == Some(c + missing)
            &&& forall|id: NodeId|
                missing.contains(id) ==> now.sequence(id) == g.sequence(id) && #[trigger] now.node(
                    id,
                ).unwrap().bin_folder == Some(root)
            &&& forall|id: NodeId|
                id != root && !missing.contains(id) ==> #[trigger] now.node(id) == g.node(id)
        }),
{
    let class = crate::queries::NodeClass::Sequence;
    let ids = crate::queries::members(g, class, g.slots.len());
    let c = g.folder(root).unwrap();
    let missing = crate::project_laws::unmounted_sequences(g, root);
    let now = crate::project::with_mounted(g, root, missing);
    crate::queries::lemma_members(g, class, g.slots.len());
    lemma_orphans_ordered(ids, c);
    assert forall|id: NodeId| missing.contains(id) <==> id < g.slots.len() && g.sequence(id) is Some
        && !c.contains(id) by {
        crate::project_laws::lemma_orphans(ids, c, id);
    }
    assert forall|i: int| 0 <= i < missing.len() implies !c.contains(#[trigger] missing[i])
        && missing[i] != root && g.node(missing[i]) is Some by {
        assert(missing.contains(missing[i]));
    }
    lemma_mounted_in_order(g, root, missing);
    assert forall|id: NodeId| missing.contains(id) implies now.sequence(id) == g.sequence(id)
        && #[trigger] now.node(id).unwrap().bin_folder == Some(root) by {
        assert(now.node(id).unwrap() == (crate::graph::NodeModel {
            bin_folder: Some(root),
            ..g.node(id).unwrap()
        }));
    }
}

proof fn lemma_orphans_ordered(ids: Seq<NodeId>, children: Seq<NodeId>)
    requires
        forall|i: int, j: int| 0 <= i < j < ids.len() ==> ids[i] < ids[j],
    ensures
        ({
            let left = crate::project::orphans(ids, children);
            &&& forall|i: int, j: int|
                0 <= i < j < left.len() ==> #[trigger] left[i] < #[trigger] left[j]
            &&& left.no_duplicates()
            &&& left.len() > 0 ==> ids.len() > 0 && left[left.len() - 1] <= ids[ids.len() - 1]
        }),
    decreases ids.len(),
{
    if ids.len() > 0 {
        lemma_orphans_ordered(ids.drop_last(), children);
    }
}

/// Imported footage is named after its file, and after the whole path when the
/// file has no name of its own; it holds what the probe found and is fed by
/// nothing.
pub proof fn lemma_footage_made(filename: Seq<char>, base_name: Seq<char>, streams: usize)
    ensures
        ({
            let n = crate::project::footage_node(filename, base_name, streams);
            &&& base_name.len() > 0 ==> n.label == base_name
            &&& base_name.len() == 0 ==> n.label == filename
            &&& n.type_id == "org.olivevideoeditor.Olive.footage"@
            &&& n.behavior is Footage
            &&& n.behavior->Footage_0.filename == filename
            &&& n.behavior->Footage_0.base_name == base_name
            &&& n.behavior->Footage_0.streams == streams
            &&& n.links.len() == 0
            &&& n.inputs.len() == 0
            &&& n.bin_folder is None
        }),
{
}

/// The footage to probe again names a file and records no stream; it is listed
/// in the order given, and every such footage is.
pub proof fn lemma_unprobed_listed(g: crate::graph::GraphModel, ids: Seq<NodeId>)
    ensures
        crate::project::unprobed_among(g, ids) == ids.filter(|id: NodeId| never_probed(g, id)),
    decreases ids.len(),
{
    reveal(Seq::filter);
    if ids.len() > 0 {
        lemma_unprobed_listed(g, ids.drop_last());
    }
}

/// Whether the node at `id` is footage that names a file and records no
/// stream.
pub open spec fn never_probed(g: crate::graph::GraphModel, id: NodeId) -> bool {
    g.footage(id) matches Some(f) && f.filename.len() > 0 && f.streams == 0
}

/// The track that was added is the first that was not there before, and there
/// is none exactly when every track was.
pub proof fn lemma_added_track(tracks: Seq<NodeId>, before: Seq<NodeId>, from: int)
    requires
        0 <= from,
    ensures
        match crate::project::first_new(tracks, before, from) {
            Some(i) => from <= i < tracks.len() && !before.contains(tracks[i]) && forall|j: int|
                from <= j < i ==> before.contains(#[trigger] tracks[j]),
            None => forall|j: int|
                from <= j < tracks.len() ==> before.contains(#[trigger] tracks[j]),
        },
    decreases tracks.len() - from,
{
    if from < tracks.len() && before.contains(tracks[from]) {
        lemma_added_track(tracks, before, from + 1);
    }
}

/// A track pushed behind those that were there is found at its place.
pub proof fn lemma_pushed_track(before: Seq<NodeId>, track: NodeId)
    requires
        !before.contains(track),
    ensures
        crate::project::first_new(before.push(track), before, 0) == Some(before.len() as int),
{
    let tracks = before.push(track);
    lemma_added_track(tracks, before, 0);
    match crate::project::first_new(tracks, before, 0) {
        Some(i) => {
            if i < before.len() {
                assert(before.contains(before[i]));
            }
        },
        None => {
            assert(before.contains(tracks[before.len() as int]));
        },
    }
}

/// A new folder has the name given and holds nothing.
pub proof fn lemma_folder_made(name: Seq<char>)
    ensures
        ({
            let n = crate::project::folder_node(name);
            &&& n.label == name
            &&& n.type_id == "org.olivevideoeditor.Olive.folder"@
            &&& n.behavior is Folder
            &&& n.behavior->Folder_0.len() == 0
            &&& n.links.len() == 0
            &&& n.inputs.len() == 0
            &&& n.bin_folder is None
        }),
{
}

/// A sequence that is given a name and a format has them, and keeps its lists,
/// its playhead and its further streams; what is no sequence is renamed alone.
pub proof fn lemma_reformatted(
    g: crate::graph::GraphModel,
    seq: NodeId,
    name: Seq<char>,
    format: PictureFormat,
)
    ensures
        ({
            let now = crate::project::reformatted(g, seq, name, format);
            &&& crate::redo_laws::only_at(g, now, seq)
            &&& g.node(seq) is None ==> now == g
            &&& g.node(seq) matches Some(n) ==> {
                &&& now.node(seq) is Some
                &&& ({
                    let m = now.node(seq).unwrap();
                    &&& m.label == name
                    &&& m.type_id == n.type_id
                    &&& m.color == n.color
                    &&& m.links == n.links
                    &&& m.inputs == n.inputs
                    &&& m.bin_folder == n.bin_folder
                    &&& !(n.behavior is Sequence) ==> m.behavior == n.behavior
                })
            }
            &&& g.sequence(seq) matches Some(s) ==> {
                &&& now.sequence(seq) is Some
                &&& ({
                    let t = now.sequence(seq).unwrap();
                    &&& t.track_lists == s.track_lists
                    &&& t.playhead == s.playhead
                    &&& t.video_params.len() >= 1
                    &&& t.video_params[0].width == format.width
                    &&& t.video_params[0].height == format.height
                    &&& t.video_params[0].frame_rate == format.rate
                    &&& t.video_params[0].interlaced == format.interlaced
                    &&& forall|i: int|
                        1 <= i < s.video_params.len() ==> #[trigger] t.video_params[i]
                            == s.video_params[i]
                })
            }
        }),
{
    if let Some(s) = g.sequence(seq) {
        lemma_format_applied(s.video_params, format);
    }
}

/// A probe records the path and the streams with the footage, which keeps the
/// rest; what is no footage is left alone.
pub proof fn lemma_probed(
    g: crate::graph::GraphModel,
    id: NodeId,
    filename: Seq<char>,
    streams: usize,
)
    ensures
        ({
            let now = crate::project::probed(g, id, filename, streams);
            &&& crate::redo_laws::only_at(g, now, id)
            &&& g.footage(id) is None ==> now == g
            &&& g.footage(id) matches Some(f) ==> {
                &&& now.footage(id) is Some
                &&& now.footage(id).unwrap().filename == filename
                &&& now.footage(id).unwrap().streams == streams
                &&& now.footage(id).unwrap().base_name == f.base_name
                &&& now.node(id).unwrap().label == g.node(id).unwrap().label
                &&& now.node(id).unwrap().links == g.node(id).unwrap().links
                &&& now.node(id).unwrap().bin_folder == g.node(id).unwrap().bin_folder
            }
        }),
{
}

/// The playhead is where it was moved to, whatever was there before, and the
/// sequence keeps the rest; what is no sequence is left alone.
pub proof fn lemma_playhead_moved(g: crate::graph::GraphModel, seq: NodeId, time: Rational)
    ensures
        ({
            let now = crate::queries::with_playhead(g, seq, time);
            &&& crate::redo_laws::only_at(g, now, seq)
            &&& g.sequence(seq) is None ==> now == g
            &&& g.sequence(seq) matches Some(s) ==> {
                &&& now.sequence(seq) is Some
                &&& now.sequence(seq).unwrap().playhead == time
                &&& now.sequence(seq).unwrap().video_params == s.video_params
                &&& now.sequence(seq).unwrap().track_lists == s.track_lists
                &&& now.node(seq).unwrap().label == g.node(seq).unwrap().label
                &&& now.node(seq).unwrap().links == g.node(seq).unwrap().links
            }
        }),
{
}

} // verus!
