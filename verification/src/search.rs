//! Finding actions by text: the filters of the shortcut list and of the
//! action search, and the search's own state.

use crate::text::{contains_text, joined, same_text, to_lower_case, trim};
use vstd::prelude::*;

verus! {

/// What stands between a menu path and an action's label.
pub const PATH_SEPARATOR: &'static str = " > ";

/// Whether one of an action's texts holds the query, all in lower case.
pub open spec fn some_holds(
    query: Seq<char>,
    label: Seq<char>,
    path: Seq<char>,
    shortcut: Option<Seq<char>>,
) -> bool {
    ||| crate::text::occurs_in(query, label)
    ||| crate::text::occurs_in(query, path)
    ||| shortcut is Some && crate::text::occurs_in(query, shortcut.unwrap())
}

/// Whether an action survives a query, whatever the case of the letters: the
/// query without the white space around it stands in the label, in the full
/// path, or in the shortcut. A blank query keeps everything.
pub open spec fn survives(
    label: Seq<char>,
    path: Seq<char>,
    shortcut: Option<Seq<char>>,
    query: Seq<char>,
) -> bool {
    let q = crate::text::trimmed(query);
    q.len() == 0 || some_holds(
        crate::text::lowered(q),
        crate::text::lowered(label),
        crate::text::lowered(path + PATH_SEPARATOR@ + label),
        match shortcut {
            Some(s) => Some(crate::text::lowered(s)),
            None => None,
        },
    )
}

/// Whether one of an action's texts holds the query. All are in lower case.
pub fn any_holds(query: &str, label: &str, path: &str, shortcut: Option<&str>) -> (r: bool)
    ensures
        r == some_holds(
            query@,
            label@,
            path@,
            match shortcut {
                Some(s) => Some(s@),
                None => None,
            },
        ),
{
    contains_text(label, query) || contains_text(path, query) || match shortcut {
        Some(s) => contains_text(s, query),
        None => false,
    }
}

/// Whether a row of the shortcut list survives the query.
pub fn keyboard_filter_matches(label: &str, path: &str, shortcut: Option<&str>, query: &str) -> (r:
    bool)
    ensures
        r == survives(
            label@,
            path@,
            match shortcut {
                Some(s) => Some(s@),
                None => None,
            },
            query@,
        ),
{
    let query: String = trim(query);
    if query.as_str().is_empty() {
        return true;
    }
    let query: String = to_lower_case(query.as_str());
    let label_lower: String = to_lower_case(label);
    let full: String = joined(joined(path, PATH_SEPARATOR).as_str(), label);
    let path_lower: String = to_lower_case(full.as_str());
    match shortcut {
        Some(s) => {
            let shortcut_lower: String = to_lower_case(s);
            any_holds(
                query.as_str(),
                label_lower.as_str(),
                path_lower.as_str(),
                Some(shortcut_lower.as_str()),
            )
        },
        None => any_holds(query.as_str(), label_lower.as_str(), path_lower.as_str(), None),
    }
}

/// Whether an item of the action search survives the query.
pub fn search_filter_matches(label: &str, path: &str, query: &str) -> (r: bool)
    ensures
        r == survives(label@, path@, None, query@),
{
    keyboard_filter_matches(label, path, None, query)
}

/// A blank query keeps everything.
pub proof fn lemma_blank_query(
    label: Seq<char>,
    path: Seq<char>,
    shortcut: Option<Seq<char>>,
    query: Seq<char>,
)
    requires
        crate::text::is_blank(query),
    ensures
        survives(label, path, shortcut, query),
{
    let none = Seq::<char>::empty();
    crate::text::lemma_trim_drops_blanks(query, none, none);
    assert(query + none + none =~= query);
}

/// Neither white space around an ASCII query nor the case of its letters
/// matters.
pub proof fn lemma_query_spelling(
    label: Seq<char>,
    path: Seq<char>,
    shortcut: Option<Seq<char>>,
    query: Seq<char>,
    other: Seq<char>,
    head: Seq<char>,
    tail: Seq<char>,
)
    requires
        crate::text::is_ascii_text(query),
        crate::text::same_but_for_case(query, other),
        crate::text::is_blank(head),
        crate::text::is_blank(tail),
    ensures
        survives(label, path, shortcut, head + other + tail) == survives(
            label,
            path,
            shortcut,
            query,
        ),
{
    crate::text::lemma_trim_drops_blanks(head, other, tail);
    crate::text::lemma_trimmed_case(query, other);
}

/// White space around a query does not matter, whatever the query.
pub proof fn lemma_query_blanks(
    label: Seq<char>,
    path: Seq<char>,
    shortcut: Option<Seq<char>>,
    query: Seq<char>,
    head: Seq<char>,
    tail: Seq<char>,
)
    requires
        crate::text::is_blank(head),
        crate::text::is_blank(tail),
    ensures
        survives(label, path, shortcut, head + query + tail) == survives(
            label,
            path,
            shortcut,
            query,
        ),
{
    crate::text::lemma_trim_drops_blanks(head, query, tail);
}

/// A shortcut only adds to what is found.
pub proof fn lemma_shortcut_adds(
    label: Seq<char>,
    path: Seq<char>,
    shortcut: Option<Seq<char>>,
    query: Seq<char>,
)
    ensures
        survives(label, path, None, query) ==> survives(label, path, shortcut, query),
{
}

/// Whatever stands in the full path of an action finds it, the path being an
/// ASCII text.
pub proof fn lemma_path_is_found(
    label: Seq<char>,
    path: Seq<char>,
    shortcut: Option<Seq<char>>,
    query: Seq<char>,
)
    requires
        crate::text::is_ascii_text(path + PATH_SEPARATOR@ + label),
        crate::text::occurs_in(query, path + PATH_SEPARATOR@ + label),
    ensures
        survives(label, path, shortcut, query),
{
    crate::text::lemma_lowered_part(query, path + PATH_SEPARATOR@ + label);
}

/// Whatever stands in the label of an action finds it, the label being an
/// ASCII text; so does what stands in its ASCII shortcut.
pub proof fn lemma_label_is_found(
    label: Seq<char>,
    path: Seq<char>,
    shortcut: Option<Seq<char>>,
    query: Seq<char>,
)
    requires
        ({
            ||| crate::text::is_ascii_text(label) && crate::text::occurs_in(query, label)
            ||| shortcut matches Some(s) && crate::text::is_ascii_text(s) && crate::text::occurs_in(
                query,
                s,
            )
        }),
    ensures
        survives(label, path, shortcut, query),
{
    if crate::text::is_ascii_text(label) && crate::text::occurs_in(query, label) {
        crate::text::lemma_lowered_part(query, label);
    } else {
        crate::text::lemma_lowered_part(query, shortcut.unwrap());
    }
}

/// The position of a row among the visible ones.
pub open spec fn row_position(visible: Seq<usize>, row: Option<usize>) -> Option<int> {
    match row {
        Some(c) => crate::forms::first_where(visible, |v: usize| v == c),
        None => None,
    }
}

/// The row selected after a move among the visible ones, around the ends:
/// the first or the last when the row before is not among them.
pub open spec fn stepped(visible: Seq<usize>, current: Option<usize>, delta: int) -> Option<usize> {
    if visible.len() == 0 {
        None
    } else {
        match row_position(visible, current) {
            Some(p) => Some(visible[(p + delta) % (visible.len() as int)]),
            None => if delta > 0 {
                Some(visible[0])
            } else {
                Some(visible.last())
            },
        }
    }
}

fn find_row(visible: &Vec<usize>, row: usize) -> (r: Option<usize>)
    ensures
        match r {
            Some(i) => i < visible.len() && crate::forms::first_where(
                visible@,
                |v: usize| v == row,
            ) == Some(i as int),
            None => crate::forms::first_where(visible@, |v: usize| v == row) is None,
        },
{
    let ghost p = |v: usize| v == row;
    let mut i: usize = 0;
    while i < visible.len()
        invariant
            i <= visible.len(),
            p == (|v: usize| v == row),
            forall|j: int| 0 <= j < i ==> !p(visible@[j]),
        decreases visible.len() - i,
    {
        if visible[i] == row {
            proof {
                assert(p(visible@[i as int]));
                crate::forms::lemma_first_where(visible@, p);
            }
            return Some(i);
        }
        assert(!p(visible@[i as int]));
        i = i + 1;
    }
    proof {
        crate::forms::lemma_first_where(visible@, p);
    }
    None
}

/// The row selected after a move by `delta` among the visible ones.
pub fn selection_step(visible: &Vec<usize>, current: Option<usize>, delta: i32) -> (r: Option<
    usize,
>)
    ensures
        r == stepped(visible@, current, delta as int),
{
    if visible.len() == 0 {
        return None;
    }
    let at: Option<usize> = match current {
        Some(c) => find_row(visible, c),
        None => None,
    };
    let next: usize = match at {
        Some(p) => {
            let n: i128 = visible.len() as i128;
            let sum: i128 = p as i128 + delta as i128;
            proof {
                vstd::arithmetic::div_mod::lemma_mod_bound(sum as int, n as int);
            }
            match sum.checked_rem_euclid(n) {
                Some(m) => m as usize,
                None => 0,
            }
        },
        None => if delta > 0 {
            0
        } else {
            visible.len() - 1
        },
    };
    Some(visible[next])
}

/// A step stays among the visible rows; there is one exactly when a row is
/// visible.
pub proof fn lemma_step_stays_visible(visible: Seq<usize>, current: Option<usize>, delta: int)
    ensures
        stepped(visible, current, delta) is Some <==> visible.len() > 0,
        stepped(visible, current, delta) matches Some(row) ==> visible.contains(row),
{
    if visible.len() > 0 {
        match row_position(visible, current) {
            Some(p) => {
                let n = visible.len() as int;
                vstd::arithmetic::div_mod::lemma_mod_bound(p + delta, n);
                assert(visible.contains(visible[(p + delta) % n]));
            },
            None => {
                assert(visible.contains(visible[0]));
                assert(visible.contains(visible.last()));
            },
        }
    }
}

/// A step down and a step up undo each other, when no row is visible twice.
pub proof fn lemma_step_back(visible: Seq<usize>, current: usize, delta: int)
    requires
        visible.no_duplicates(),
        visible.contains(current),
    ensures
        stepped(visible, stepped(visible, Some(current), delta), -delta) == Some(current),
{
    let n = visible.len() as int;
    let is_current = |v: usize| v == current;
    crate::forms::lemma_first_where(visible, is_current);
    assert(exists|i: int| 0 <= i < n && is_current(#[trigger] visible[i]));
    let p = row_position(visible, Some(current)).unwrap();
    let q = (p + delta) % n;
    vstd::arithmetic::div_mod::lemma_mod_bound(p + delta, n);
    let there = visible[q];
    let is_there = |v: usize| v == there;
    crate::forms::lemma_first_where(visible, is_there);
    assert(is_there(visible[q]));
    assert(row_position(visible, Some(there)) == Some(q));
    vstd::arithmetic::div_mod::lemma_sub_mod_noop_right(q, delta, n);
    vstd::arithmetic::div_mod::lemma_sub_mod_noop(p + delta, delta, n);
    assert((q - delta) % n == p % n) by {
        vstd::arithmetic::div_mod::lemma_mod_twice(p + delta, n);
        vstd::arithmetic::div_mod::lemma_sub_mod_noop(q, delta, n);
    }
    vstd::arithmetic::div_mod::lemma_small_mod(p as nat, n as nat);
}

/// An action that the search offers.
#[derive(Debug)]
pub struct ActionSearchItem {
    pub action: u64,
    pub label: String,
    pub path: String,
}

/// What an [`ActionSearchItem`] holds.
#[verifier::ext_equal]
pub struct ItemModel {
    pub action: u64,
    pub label: Seq<char>,
    pub path: Seq<char>,
}

impl View for ActionSearchItem {
    type V = ItemModel;

    open spec fn view(&self) -> ItemModel {
        ItemModel { action: self.action, label: self.label@, path: self.path@ }
    }
}

/// What a list of items holds.
pub open spec fn items_model(items: Seq<ActionSearchItem>) -> Seq<ItemModel> {
    Seq::new(items.len(), |i: int| items[i]@)
}

/// The items that survive a filter, in order.
pub open spec fn visible_items(items: Seq<ItemModel>, filter: Seq<char>) -> Seq<usize>
    decreases items.len(),
{
    if items.len() == 0 {
        Seq::empty()
    } else {
        let head = visible_items(items.drop_last(), filter);
        if survives(items.last().label, items.last().path, None, filter) {
            head.push((items.len() - 1) as usize)
        } else {
            head
        }
    }
}

/// The visible items are those that survive, each once and in order.
pub proof fn lemma_visible_items(items: Seq<ItemModel>, filter: Seq<char>)
    requires
        items.len() <= usize::MAX,
    ensures
        visible_items(items, filter).len() <= items.len(),
        forall|row: usize|
            visible_items(items, filter).contains(row) <==> row < items.len() && survives(
                items[row as int].label,
                items[row as int].path,
                None,
                filter,
            ),
        forall|i: int, j: int|
            0 <= i < j < visible_items(items, filter).len() ==> visible_items(items, filter)[i]
                < visible_items(items, filter)[j],
    decreases items.len(),
{
    if items.len() > 0 {
        let head = visible_items(items.drop_last(), filter);
        let all = visible_items(items, filter);
        lemma_visible_items(items.drop_last(), filter);
        assert forall|i: int| 0 <= i < head.len() implies head[i] < items.len() - 1 by {
            assert(head.contains(head[i]));
        }
        let last = (items.len() - 1) as usize;
        assert forall|row: usize| all.contains(row) <==> row < items.len() && survives(
            items[row as int].label,
            items[row as int].path,
            None,
            filter,
        ) by {
            if all.contains(row) {
                let i = choose|i: int| 0 <= i < all.len() && all[i] == row;
                if i < head.len() {
                    assert(head.contains(head[i]));
                }
            }
            if row < items.len() && survives(
                items[row as int].label,
                items[row as int].path,
                None,
                filter,
            ) {
                if row < last {
                    assert(items.drop_last()[row as int] == items[row as int]);
                    assert(head.contains(row));
                    let i = choose|i: int| 0 <= i < head.len() && head[i] == row;
                    assert(all[i] == row);
                } else {
                    assert(all.last() == row);
                }
            }
        }
    }
}

/// The action search: a query over the items, and the selected one.
#[derive(Debug)]
pub struct ActionSearchContent {
    pub items: Vec<ActionSearchItem>,
    pub filter: String,
    pub selection: Option<usize>,
}

/// What an [`ActionSearchContent`] holds.
#[verifier::ext_equal]
pub struct SearchModel {
    pub items: Seq<ItemModel>,
    pub filter: Seq<char>,
    pub selection: Option<usize>,
}

impl View for ActionSearchContent {
    type V = SearchModel;

    open spec fn view(&self) -> SearchModel {
        SearchModel {
            items: items_model(self.items@),
            filter: self.filter@,
            selection: self.selection,
        }
    }
}

/// A request of the action search.
#[derive(Clone, Copy, Debug, PartialEq, Eq, Structural)]
pub enum ActionSearchEvent {
    /// Carry the action out and close the dialog.
    Execute(u64),
}

impl SearchModel {
    /// The items that survive the query.
    pub open spec fn visible(self) -> Seq<usize> {
        visible_items(self.items, self.filter)
    }

    /// The search with another query: its first item is selected.
    pub open spec fn queried(self, filter: Seq<char>) -> SearchModel {
        SearchModel {
            filter,
            selection: stepped(visible_items(self.items, filter), None, 1),
            ..self
        }
    }

    /// The search after a move of the selection.
    pub open spec fn moved(self, delta: int) -> SearchModel {
        SearchModel { selection: stepped(self.visible(), self.selection, delta), ..self }
    }

    /// The selected item's action.
    pub open spec fn selected_action(self) -> Option<u64> {
        match self.selection {
            Some(i) => if i < self.items.len() {
                Some(self.items[i as int].action)
            } else {
                None
            },
            None => None,
        }
    }

    /// What the selected item asks for.
    pub open spec fn executed(self) -> Option<ActionSearchEvent> {
        match self.selected_action() {
            Some(a) => Some(ActionSearchEvent::Execute(a)),
            None => None,
        }
    }

    /// Nothing is selected but a visible item.
    pub open spec fn consistent(self) -> bool {
        self.selection matches Some(row) ==> self.visible().contains(row)
    }
}

/// A key's effect on the search: whether it was taken, and what it asks for.
#[derive(Clone, Copy, Debug, PartialEq, Eq, Structural)]
pub struct SearchKey {
    pub taken: bool,
    pub event: Option<ActionSearchEvent>,
}

impl ActionSearchContent {
    /// The search over `items`, with no query and nothing selected.
    pub fn new(items: Vec<ActionSearchItem>) -> (r: ActionSearchContent)
        ensures
            r@ == (SearchModel {
                items: items_model(items@),
                filter: Seq::empty(),
                selection: None,
            }),
            r@.consistent(),
    {
        ActionSearchContent { items, filter: String::new(), selection: None }
    }

    /// The items that survive the query.
    pub fn visible(&self) -> (r: Vec<usize>)
        ensures
            r@ == self@.visible(),
            r.len() <= self.items.len(),
    {
        let ghost all = items_model(self.items@);
        let mut r: Vec<usize> = Vec::new();
        let mut i: usize = 0;
        assert(all.take(0) =~= Seq::empty());
        while i < self.items.len()
            invariant
                i <= self.items.len(),
                all == items_model(self.items@),
                r@ == visible_items(all.take(i as int), self.filter@),
                r.len() <= i,
            decreases self.items.len() - i,
        {
            assert(all.take(i + 1).drop_last() =~= all.take(i as int));
            assert(all.take(i + 1).last() == self.items@[i as int]@);
            if search_filter_matches(
                self.items[i].label.as_str(),
                self.items[i].path.as_str(),
                self.filter.as_str(),
            ) {
                r.push(i);
            }
            i = i + 1;
        }
        assert(all.take(i as int) =~= all);
        r
    }

    /// The query was edited.
    pub fn query_changed(&mut self, filter: &str)
        ensures
            final(self)@ == old(self)@.queried(filter@),
            final(self)@.consistent(),
    {
        self.filter = filter.to_owned();
        let visible: Vec<usize> = self.visible();
        proof {
            lemma_step_stays_visible(visible@, None, 1);
        }
        self.selection = selection_step(&visible, None, 1);
    }

    /// Moves the selection among the visible items.
    pub fn move_selection(&mut self, delta: i32)
        ensures
            final(self)@ == old(self)@.moved(delta as int),
            final(self)@.consistent(),
    {
        let visible: Vec<usize> = self.visible();
        proof {
            lemma_step_stays_visible(visible@, self.selection, delta as int);
        }
        self.selection = selection_step(&visible, self.selection, delta);
    }

    /// The selected action.
    pub fn selected_action(&self) -> (r: Option<u64>)
        ensures
            r == self@.selected_action(),
    {
        match self.selection {
            Some(i) => if i < self.items.len() {
                assert(self@.items[i as int] == self.items@[i as int]@);
                Some(self.items[i].action)
            } else {
                None
            },
            None => None,
        }
    }

    /// The query.
    pub fn filter(&self) -> (r: &str)
        ensures
            r@ == self@.filter,
    {
        self.filter.as_str()
    }

    /// What the selected item asks for.
    pub fn execute(&self) -> (r: Option<ActionSearchEvent>)
        ensures
            r == self@.executed(),
    {
        match self.selected_action() {
            Some(a) => Some(ActionSearchEvent::Execute(a)),
            None => None,
        }
    }

    /// A key while the search is open: Up, Down and Enter are the list's.
    pub fn key_down(&mut self, key: &str) -> (r: SearchKey)
        ensures
            if key@ == "up"@ {
                final(self)@ == old(self)@.moved(-1) && r == (SearchKey {
                    taken: true,
                    event: None,
                })
            } else if key@ == "down"@ {
                final(self)@ == old(self)@.moved(1) && r == (SearchKey {
                    taken: true,
                    event: None,
                })
            } else if key@ == "enter"@ {
                final(self)@ == old(self)@ && r == (SearchKey {
                    taken: true,
                    event: old(self)@.executed(),
                })
            } else {
                final(self)@ == old(self)@ && r == (SearchKey { taken: false, event: None })
            },
            old(self)@.consistent() ==> final(self)@.consistent(),
    {
        if same_text(key, "up") {
            self.move_selection(-1);
            SearchKey { taken: true, event: None }
        } else if same_text(key, "down") {
            self.move_selection(1);
            SearchKey { taken: true, event: None }
        } else if same_text(key, "enter") {
            SearchKey { taken: true, event: self.execute() }
        } else {
            SearchKey { taken: false, event: None }
        }
    }

    /// A press on an item: two in a row carry it out.
    pub fn item_pressed(&mut self, row: usize, click_count: usize) -> (r: Option<
        ActionSearchEvent,
    >)
        ensures
            final(self)@ == (SearchModel { selection: Some(row), ..old(self)@ }),
            r == if click_count >= 2 {
                final(self)@.executed()
            } else {
                None
            },
    {
        self.selection = Some(row);
        if click_count >= 2 {
            self.execute()
        } else {
            None
        }
    }
}

} // verus!
