//! A sequence's markers and work area.
//!
//! A sequence that has not been opened has neither: every query then finds
//! nothing, and every write is ignored.

use crate::errors::EditError;
use crate::rational::Rational;
use vstd::prelude::*;

verus! {

/// One marker: its in point, name and colour index.
#[derive(Debug)]
pub struct Marker {
    pub time: Rational,
    pub name: String,
    pub color: i32,
}

/// What a [`Marker`] holds.
#[verifier::ext_equal]
pub struct MarkerModel {
    pub time: Rational,
    pub name: Seq<char>,
    pub color: i32,
}

impl View for Marker {
    type V = MarkerModel;

    open spec fn view(&self) -> MarkerModel {
        MarkerModel { time: self.time, name: self.name@, color: self.color }
    }
}

/// What a list of markers holds.
pub open spec fn markers_model(markers: Seq<Marker>) -> Seq<MarkerModel> {
    Seq::new(markers.len(), |i: int| markers[i]@)
}

/// What an open sequence's list holds; nothing without one.
pub open spec fn list_model(list: Option<&Vec<Marker>>) -> Seq<MarkerModel> {
    match list {
        Some(l) => markers_model(l@),
        None => Seq::empty(),
    }
}

/// The markers as the timeline shows them.
pub fn markers_of(list: Option<&Vec<Marker>>) -> (r: Vec<Marker>)
    ensures
        markers_model(r@) == list_model(list),
{
    let mut r: Vec<Marker> = Vec::new();
    if let Some(l) = list {
        let mut i: usize = 0;
        while i < l.len()
            invariant
                i <= l.len(),
                markers_model(r@) =~= markers_model(l@).take(i as int),
            decreases l.len() - i,
        {
            let ghost before = markers_model(r@);
            let m: Marker = Marker {
                time: l[i].time,
                name: l[i].name.clone(),
                color: l[i].color,
            };
            r.push(m);
            assert(m@ == markers_model(l@)[i as int]);
            assert(markers_model(r@) =~= before.push(m@));
            assert(markers_model(l@).take(i + 1) =~= markers_model(l@).take(i as int).push(
                markers_model(l@)[i as int],
            ));
            i = i + 1;
        }
        assert(markers_model(l@).take(i as int) =~= markers_model(l@));
    }
    r
}

/// The first marker at or after `from` that stands at `time`.
pub open spec fn marker_from(markers: Seq<MarkerModel>, time: Rational, from: int) -> Option<int>
    decreases markers.len() - from,
{
    if from < 0 || from >= markers.len() {
        None
    } else if crate::rational::same_time(markers[from].time, time) {
        Some(from)
    } else {
        marker_from(markers, time, from + 1)
    }
}

/// The index of the first marker that stands at `time`.
pub fn marker_index_at(list: Option<&Vec<Marker>>, time: Rational) -> (r: Option<usize>)
    ensures
        match r {
            Some(i) => marker_from(list_model(list), time, 0) == Some(i as int) && i < list_model(
                list,
            ).len(),
            None => marker_from(list_model(list), time, 0) is None,
        },
{
    let l: &Vec<Marker> = match list {
        Some(l) => l,
        None => return None,
    };
    let mut i: usize = 0;
    while i < l.len()
        invariant
            i <= l.len(),
            list_model(list) == markers_model(l@),
            marker_from(list_model(list), time, 0) == marker_from(
                markers_model(l@),
                time,
                i as int,
            ),
        decreases l.len() - i,
    {
        if l[i].time.same(time) {
            return Some(i);
        }
        i = i + 1;
    }
    None
}

/// A change to the markers, which the host carries out as one row.
#[derive(Debug)]
pub enum MarkerEdit {
    /// "Add Marker".
    Add { time: Rational, name: String, color: i32 },
    /// "Remove Marker".
    Remove { index: usize },
}

/// Adds a marker; a time that carries one is refused.
pub fn marker_add(list: Option<&Vec<Marker>>, time: Rational, name: &str, color: i32) -> (r: Result<
    MarkerEdit,
    EditError,
>)
    ensures
        if marker_from(list_model(list), time, 0) is Some {
            r == Err::<MarkerEdit, EditError>(EditError::MarkerTaken)
        } else {
            &&& r is Ok
            &&& r.unwrap() matches MarkerEdit::Add { time: t, name: n, color: c } && t == time
                && n@ == name@ && c == color
        },
{
    if marker_index_at(list, time).is_some() {
        Err(EditError::MarkerTaken)
    } else {
        Ok(MarkerEdit::Add { time, name: name.to_owned(), color })
    }
}

/// Removes the first marker at `time`; a time without one is refused.
pub fn marker_remove(list: Option<&Vec<Marker>>, time: Rational) -> (r: Result<
    MarkerEdit,
    EditError,
>)
    ensures
        match marker_from(list_model(list), time, 0) {
            None => r == Err::<MarkerEdit, EditError>(EditError::NoMarker),
            Some(i) => r is Ok && (r.unwrap() matches MarkerEdit::Remove { index } && index == i),
        },
{
    match marker_index_at(list, time) {
        None => Err(EditError::NoMarker),
        Some(index) => Ok(MarkerEdit::Remove { index }),
    }
}

/// No two markers stand at one time.
pub open spec fn times_distinct(markers: Seq<MarkerModel>) -> bool {
    forall|i: int, j: int|
        0 <= i < j < markers.len() ==> !crate::rational::same_time(
            (#[trigger] markers[i]).time,
            (#[trigger] markers[j]).time,
        )
}

proof fn lemma_no_marker(markers: Seq<MarkerModel>, time: Rational, from: int)
    requires
        0 <= from,
        marker_from(markers, time, from) is None,
    ensures
        forall|i: int|
            from <= i < markers.len() ==> !crate::rational::same_time(
                (#[trigger] markers[i]).time,
                time,
            ),
    decreases markers.len() - from,
{
    if from < markers.len() {
        lemma_no_marker(markers, time, from + 1);
    }
}

/// A marker that is not refused keeps the times distinct, wherever the list
/// takes it.
pub proof fn lemma_added_marker_is_alone(markers: Seq<MarkerModel>, added: MarkerModel, at: int)
    requires
        times_distinct(markers),
        marker_from(markers, added.time, 0) is None,
        0 <= at <= markers.len(),
    ensures
        times_distinct(markers.insert(at, added)),
{
    lemma_no_marker(markers, added.time, 0);
    let all = markers.insert(at, added);
    assert forall|i: int, j: int| 0 <= i < j < all.len() implies !crate::rational::same_time(
        (#[trigger] all[i]).time,
        (#[trigger] all[j]).time,
    ) by {
        let x = if i < at {
            i
        } else {
            i - 1
        };
        let y = if j < at {
            j
        } else {
            j - 1
        };
        if i == at {
            assert(all[j] == markers[y]);
        } else if j == at {
            assert(all[i] == markers[x]);
        } else {
            assert(all[i] == markers[x]);
            assert(all[j] == markers[y]);
        }
    }
}

/// A marker that was added is the one found at its time, and taking that one
/// out brings the list back.
pub proof fn lemma_added_marker_is_found(markers: Seq<MarkerModel>, added: MarkerModel, at: int)
    requires
        marker_from(markers, added.time, 0) is None,
        0 <= at <= markers.len(),
    ensures
        marker_from(markers.insert(at, added), added.time, 0) == Some(at),
        markers.insert(at, added).remove(at) == markers,
{
    lemma_no_marker(markers, added.time, 0);
    let all = markers.insert(at, added);
    assert(all.remove(at) =~= markers);
    assert forall|i: int| 0 <= i < at implies !crate::rational::same_time(
        (#[trigger] all[i]).time,
        added.time,
    ) by {
        assert(all[i] == markers[i]);
    }
    lemma_found_at(all, added.time, 0, at);
}

proof fn lemma_found_at(markers: Seq<MarkerModel>, time: Rational, from: int, at: int)
    requires
        0 <= from <= at < markers.len(),
        crate::rational::same_time(markers[at].time, time),
        forall|i: int|
            from <= i < at ==> !crate::rational::same_time((#[trigger] markers[i]).time, time),
    ensures
        marker_from(markers, time, from) == Some(at),
    decreases at - from,
{
    if from < at {
        assert(!crate::rational::same_time(markers[from].time, time));
        lemma_found_at(markers, time, from + 1, at);
    }
}

/// A stretch of the timeline.
#[derive(Clone, Copy, Debug)]
pub struct TimeRange {
    pub from: Rational,
    pub to: Rational,
}

/// A sequence's work area.
#[derive(Clone, Copy, Debug)]
pub struct WorkArea {
    pub enabled: bool,
    pub range: TimeRange,
}

/// The work area's flag and range.
pub fn workarea_state(area: Option<&WorkArea>) -> (r: Option<(bool, TimeRange)>)
    ensures
        r == (match area {
            Some(a) => Some((a.enabled, a.range)),
            None => None,
        }),
{
    match area {
        Some(a) => Some((a.enabled, a.range)),
        None => None,
    }
}

/// Writes the work area's flag and range. Makes no row.
pub fn workarea_set(area: &mut Option<WorkArea>, enabled: bool, range: TimeRange)
    ensures
        *final(area) == (match *old(area) {
            Some(_) => Some(WorkArea { enabled, range }),
            None => None,
        }),
{
    if area.is_some() {
        *area = Some(WorkArea { enabled, range });
    }
}

/// A work area change, as one "Set Workarea" row.
#[derive(Clone, Copy, Debug)]
pub struct WorkAreaEdit {
    pub before: WorkArea,
    pub after: WorkArea,
}

/// Sets the work area's flag and range undoably. `old_range` is the range
/// before the change, such as the one a drag started from.
pub fn workarea_set_undoable(
    area: Option<&WorkArea>,
    enabled: bool,
    range: TimeRange,
    old_range: TimeRange,
) -> (r: Option<WorkAreaEdit>)
    ensures
        r == (match area {
            Some(a) => Some(
                WorkAreaEdit {
                    before: WorkArea { enabled: a.enabled, range: old_range },
                    after: WorkArea { enabled, range },
                },
            ),
            None => None,
        }),
{
    match area {
        Some(a) => Some(
            WorkAreaEdit {
                before: WorkArea { enabled: a.enabled, range: old_range },
                after: WorkArea { enabled, range },
            },
        ),
        None => None,
    }
}

impl WorkAreaEdit {
    /// Carries the change out.
    pub fn redo(&self, area: &mut Option<WorkArea>)
        ensures
            *final(area) == (match *old(area) {
                Some(_) => Some(self.after),
                None => None,
            }),
    {
        workarea_set(area, self.after.enabled, self.after.range);
    }

    /// Takes the change back.
    pub fn undo(&self, area: &mut Option<WorkArea>)
        ensures
            *final(area) == (match *old(area) {
                Some(_) => Some(self.before),
                None => None,
            }),
    {
        workarea_set(area, self.before.enabled, self.before.range);
    }
}

} // verus!
