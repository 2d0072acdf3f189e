//! Why an edit is refused.

use crate::text::{decimal, joined, signed_decimal};
use vstd::prelude::*;

verus! {

/// Why an edit is refused.
#[derive(Clone, Copy, Debug, PartialEq, Eq, Structural)]
pub enum EditError {
    /// A time leaves the 64-bit range.
    TimeOutOfRange,
    /// A footage clip's timestamps do not span a range.
    ClipRange,
    /// A clip's timestamps do not span a range.
    SpanRange,
    /// An adjustment layer's timestamps do not span a range.
    AdjustmentRange,
    /// A trim's timestamps do not span a range.
    TrimRange,
    /// The track kind takes no clips.
    TrackKind,
    /// The track takes no adjustment layers.
    AdjustmentKind,
    /// The footage is not in the project.
    NoFootage,
    /// The text entry is not in the project.
    NoTextEntry,
    /// The generator is not in the project.
    NoGenerator,
    /// The nested sequence is not in the project.
    NoSourceSequence,
    /// The sequence has no frame rate.
    NoRate,
    /// The host sequence has no frame rate.
    NoHostRate,
    /// The clip's sequence has no frame rate.
    NoClipRate,
    /// The sequence of the clip's list has no frame rate.
    NoListRate,
    /// A linked clip's sequence has no frame rate.
    NoLinkedRate,
    /// The sequence has no list of the kind.
    NoList,
    /// The host sequence has no video list.
    NoHostList,
    /// The track is not in the project.
    TrackNotInProject,
    /// The track is in no list.
    TrackWithoutList,
    /// The track's list does not hold it.
    TrackNotInList,
    /// A linked placement names fewer than two tracks.
    OneTrack,
    /// The node is no clip.
    NotAClip,
    /// The left node of a roll is no clip.
    NotAClipA,
    /// The right node of a roll is no clip.
    NotAClipB,
    /// The clip is on no track.
    NotOnTrack,
    /// The clip's track does not hold it.
    NotOnItsTrack,
    /// The clip's track is in no list.
    NoClipList,
    /// The destination track is in no list.
    NoDestinationList,
    /// The rolled clips share no boundary.
    NoBoundary,
    /// The rolled boundary leaves the clips.
    BoundaryEscapes,
    /// The transition has no length.
    TransitionLength,
    /// The block before the seam is no clip.
    OutgoingNotAClip,
    /// The block after the seam is no clip.
    IncomingNotAClip,
    /// The clips do not touch.
    NotContiguous,
    /// The clip before the seam is on no track.
    OutgoingNotOnTrack,
    /// The clips are on different tracks.
    DifferentTracks,
    /// The clip's track is not in the project.
    TransitionTrack,
    /// The clips are not listed back to back.
    NotAdjacent,
    /// The seam carries a transition.
    SeamTaken,
    /// The block with the edge is no clip.
    EdgeNotAClip,
    /// The clip with the edge is on no track.
    EdgeNotOnTrack,
    /// The clip's track does not list it.
    EdgeNotListed,
    /// The edge carries a transition.
    EdgeTaken,
    /// The sequence is not in the project.
    NoSequence,
    /// No seam or edge takes a transition.
    NothingToBuild,
    /// The edge carries no transition.
    NoTransition,
    /// The flag's node is no track.
    FlagOfNonTrack,
    /// Nothing was copied.
    ClipboardEmpty,
    /// The sequence has no track of the clip's kind.
    NoPasteTrack,
    /// The project has no root folder.
    NoRoot,
    /// The sequence is stale.
    SequenceGone,
    /// The node is no sequence.
    NotASequence,
    /// An end of the edge is stale.
    ConnectStale,
    /// The list shows no new track.
    NoAddedTrack,
    /// The list is gone after adding a track.
    NoAddedList,
    /// A marker stands at the time.
    MarkerTaken,
    /// No marker stands at the time.
    NoMarker,
    /// The list has no track of that index.
    TrackIndex { index: usize, count: usize },
    /// The split time is not strictly inside the clip.
    SplitTime { time: i64 },
}

/// The text an error is reported with.
pub open spec fn message_text(e: EditError) -> Seq<char> {
    match e {
        EditError::TimeOutOfRange => "the time is out of range"@,
        EditError::ClipRange => "invalid clip range (need 0 <= in < out and media_in >= 0)"@,
        EditError::SpanRange => "invalid clip range (need 0 <= in < out)"@,
        EditError::AdjustmentRange => "invalid adjustment layer range (need 0 <= in < out)"@,
        EditError::TrimRange => "invalid trim range (need 0 <= new_in < new_out)"@,
        EditError::TrackKind => "clips are only supported on video and audio tracks"@,
        EditError::AdjustmentKind => "adjustment layers are only supported on video tracks"@,
        EditError::NoFootage => "the footage node is not in the project"@,
        EditError::NoTextEntry => "the text entry is not in the project"@,
        EditError::NoGenerator => "the generator node is not in the project"@,
        EditError::NoSourceSequence => "the source sequence is not in the project"@,
        EditError::NoRate => "sequence has no valid frame rate"@,
        EditError::NoHostRate => "host sequence has no valid frame rate"@,
        EditError::NoClipRate => "the clip's sequence has no valid frame rate"@,
        EditError::NoListRate => "the sequence has no valid frame rate"@,
        EditError::NoLinkedRate => "a linked clip's sequence has no valid frame rate"@,
        EditError::NoList => "sequence has no track list for this type"@,
        EditError::NoHostList => "host sequence has no video track list"@,
        EditError::TrackNotInProject => "the track is not in the project"@,
        EditError::TrackWithoutList => "the track is not in a track list"@,
        EditError::TrackNotInList => "the track is not in its list"@,
        EditError::OneTrack => "linked placement needs at least two tracks"@,
        EditError::NotAClip => "the node is not a clip"@,
        EditError::NotAClipA => "node a is not a clip"@,
        EditError::NotAClipB => "node b is not a clip"@,
        EditError::NotOnTrack => "the clip is not on a track"@,
        EditError::NotOnItsTrack => "the clip is not on its track"@,
        EditError::NoClipList => "the clip's track has no list"@,
        EditError::NoDestinationList => "the destination track has no list"@,
        EditError::NoBoundary => "roll edit: the clips do not share a boundary"@,
        EditError::BoundaryEscapes => "roll edit: boundary would escape the adjacent clips"@,
        EditError::TransitionLength => "transition: the length must be positive"@,
        EditError::OutgoingNotAClip => "transition: the outgoing block is not a clip"@,
        EditError::IncomingNotAClip => "transition: the incoming block is not a clip"@,
        EditError::NotContiguous => "transition: the clips are not contiguous at the seam"@,
        EditError::OutgoingNotOnTrack => "transition: the outgoing clip is not on a track"@,
        EditError::DifferentTracks => "transition: the clips are not on the same track"@,
        EditError::TransitionTrack => "transition: the track is not in the project"@,
        EditError::NotAdjacent => "transition: the clips are not adjacent on the track"@,
        EditError::SeamTaken => "transition: the seam already carries a transition"@,
        EditError::EdgeNotAClip => "transition: the block is not a clip"@,
        EditError::EdgeNotOnTrack => "transition: the clip is not on a track"@,
        EditError::EdgeNotListed => "transition: the clip is not on the track"@,
        EditError::EdgeTaken => "transition: the edge already carries a transition"@,
        EditError::NoSequence => "transition: the sequence is not in the project"@,
        EditError::NothingToBuild => "transition: no seam or clip edge accepts a transition"@,
        EditError::NoTransition => "transition: the clip has no transition on that edge"@,
        EditError::FlagOfNonTrack => "set track flag: the node is not a track"@,
        EditError::ClipboardEmpty => "the clipboard is empty"@,
        EditError::NoPasteTrack => "no track of the clip's kind to paste onto"@,
        EditError::NoRoot => "the project has no root folder"@,
        EditError::SequenceGone => "sequence no longer exists"@,
        EditError::NotASequence => "entry is not a sequence"@,
        EditError::ConnectStale => "connect: node not found"@,
        EditError::NoAddedTrack => "add track command produced no track"@,
        EditError::NoAddedList => "add track command produced no track list"@,
        EditError::MarkerTaken => "a marker already exists at that time"@,
        EditError::NoMarker => "no marker at that time"@,
        EditError::TrackIndex { index, count } => "track index "@ + crate::text::decimal_text(
            index as nat,
        ) + " out of range ("@ + crate::text::decimal_text(count as nat) + " tracks)"@,
        EditError::SplitTime { time } => "split time "@ + crate::text::signed_text(time as int)
            + " is not strictly inside the clip"@,
    }
}

impl EditError {
    /// The text the error is reported with.
    pub fn message(&self) -> (r: String)
        ensures
            r@ == message_text(*self),
    {
        match *self {
            EditError::TimeOutOfRange => "the time is out of range".to_owned(),
            EditError::ClipRange => "invalid clip range (need 0 <= in < out and media_in >= 0)".to_owned(),
            EditError::SpanRange => "invalid clip range (need 0 <= in < out)".to_owned(),
            EditError::AdjustmentRange => "invalid adjustment layer range (need 0 <= in < out)".to_owned(),
            EditError::TrimRange => "invalid trim range (need 0 <= new_in < new_out)".to_owned(),
            EditError::TrackKind => "clips are only supported on video and audio tracks".to_owned(),
            EditError::AdjustmentKind => "adjustment layers are only supported on video tracks".to_owned(),
            EditError::NoFootage => "the footage node is not in the project".to_owned(),
            EditError::NoTextEntry => "the text entry is not in the project".to_owned(),
            EditError::NoGenerator => "the generator node is not in the project".to_owned(),
            EditError::NoSourceSequence => "the source sequence is not in the project".to_owned(),
            EditError::NoRate => "sequence has no valid frame rate".to_owned(),
            EditError::NoHostRate => "host sequence has no valid frame rate".to_owned(),
            EditError::NoClipRate => "the clip's sequence has no valid frame rate".to_owned(),
            EditError::NoListRate => "the sequence has no valid frame rate".to_owned(),
            EditError::NoLinkedRate => "a linked clip's sequence has no valid frame rate".to_owned(),
            EditError::NoList => "sequence has no track list for this type".to_owned(),
            EditError::NoHostList => "host sequence has no video track list".to_owned(),
            EditError::TrackNotInProject => "the track is not in the project".to_owned(),
            EditError::TrackWithoutList => "the track is not in a track list".to_owned(),
            EditError::TrackNotInList => "the track is not in its list".to_owned(),
            EditError::OneTrack => "linked placement needs at least two tracks".to_owned(),
            EditError::NotAClip => "the node is not a clip".to_owned(),
            EditError::NotAClipA => "node a is not a clip".to_owned(),
            EditError::NotAClipB => "node b is not a clip".to_owned(),
            EditError::NotOnTrack => "the clip is not on a track".to_owned(),
            EditError::NotOnItsTrack => "the clip is not on its track".to_owned(),
            EditError::NoClipList => "the clip's track has no list".to_owned(),
            EditError::NoDestinationList => "the destination track has no list".to_owned(),
            EditError::NoBoundary => "roll edit: the clips do not share a boundary".to_owned(),
            EditError::BoundaryEscapes => "roll edit: boundary would escape the adjacent clips".to_owned(),
            EditError::TransitionLength => "transition: the length must be positive".to_owned(),
            EditError::OutgoingNotAClip => "transition: the outgoing block is not a clip".to_owned(),
            EditError::IncomingNotAClip => "transition: the incoming block is not a clip".to_owned(),
            EditError::NotContiguous => "transition: the clips are not contiguous at the seam".to_owned(),
            EditError::OutgoingNotOnTrack => "transition: the outgoing clip is not on a track".to_owned(),
            EditError::DifferentTracks => "transition: the clips are not on the same track".to_owned(),
            EditError::TransitionTrack => "transition: the track is not in the project".to_owned(),
            EditError::NotAdjacent => "transition: the clips are not adjacent on the track".to_owned(),
            EditError::SeamTaken => "transition: the seam already carries a transition".to_owned(),
            EditError::EdgeNotAClip => "transition: the block is not a clip".to_owned(),
            EditError::EdgeNotOnTrack => "transition: the clip is not on a track".to_owned(),
            EditError::EdgeNotListed => "transition: the clip is not on the track".to_owned(),
            EditError::EdgeTaken => "transition: the edge already carries a transition".to_owned(),
            EditError::NoSequence => "transition: the sequence is not in the project".to_owned(),
            EditError::NothingToBuild => "transition: no seam or clip edge accepts a transition".to_owned(),
            EditError::NoTransition => "transition: the clip has no transition on that edge".to_owned(),
            EditError::FlagOfNonTrack => "set track flag: the node is not a track".to_owned(),
            EditError::ClipboardEmpty => "the clipboard is empty".to_owned(),
            EditError::NoPasteTrack => "no track of the clip's kind to paste onto".to_owned(),
            EditError::NoRoot => "the project has no root folder".to_owned(),
            EditError::SequenceGone => "sequence no longer exists".to_owned(),
            EditError::NotASequence => "entry is not a sequence".to_owned(),
            EditError::ConnectStale => "connect: node not found".to_owned(),
            EditError::NoAddedTrack => "add track command produced no track".to_owned(),
            EditError::NoAddedList => "add track command produced no track list".to_owned(),
            EditError::MarkerTaken => "a marker already exists at that time".to_owned(),
            EditError::NoMarker => "no marker at that time".to_owned(),
            EditError::TrackIndex { index, count } => {
                let head: String = joined("track index ", decimal(index as u64).as_str());
                let tail: String = joined(
                    joined(head.as_str(), " out of range (").as_str(),
                    decimal(count as u64).as_str(),
                );
                joined(tail.as_str(), " tracks)")
            },
            EditError::SplitTime { time } => {
                let head: String = joined("split time ", signed_decimal(time).as_str());
                joined(head.as_str(), " is not strictly inside the clip")
            },
        }
    }
}

} // verus!
