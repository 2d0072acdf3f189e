//! What the readers and writers of text come to.

use crate::search::{ItemModel, SearchModel};
use vstd::prelude::*;

verus! {

/// Which characters are white space.
pub proof fn lemma_white_space(c: char)
    ensures
        c == ' ' || c == '\t' || c == '\n' || c == '\r' ==> crate::text::is_white_space(c),
        0x21 <= c as u32 <= 0x7e ==> !crate::text::is_white_space(c),
        crate::text::is_white_space(c) <==> {
            let n = c as u32;
            ||| (9 <= n && n <= 13)
            ||| n == 32
            ||| n == 133
            ||| n == 160
            ||| n == 5760
            ||| (8192 <= n && n <= 8202)
            ||| n == 8232
            ||| n == 8233
            ||| n == 8239
            ||| n == 8287
            ||| n == 12288
        },
{
}

proof fn lemma_head_cut(s: Seq<char>) -> (from: int)
    ensures
        0 <= from <= s.len(),
        crate::text::head_trimmed(s) == s.skip(from),
        crate::text::is_blank(s.take(from)),
        from < s.len() ==> !crate::text::is_white_space(s[from]),
    decreases s.len(),
{
    if s.len() > 0 && crate::text::is_white_space(s[0]) {
        let rest = s.subrange(1, s.len() as int);
        let from = lemma_head_cut(rest);
        assert(rest.skip(from) =~= s.skip(from + 1));
        assert forall|i: int| 0 <= i < from + 1 implies crate::text::is_white_space(
            #[trigger] s.take(from + 1)[i],
        ) by {
            if i > 0 {
                assert(rest.take(from)[i - 1] == s[i]);
            }
        }
        from + 1
    } else {
        assert(s.skip(0) =~= s);
        0
    }
}

proof fn lemma_tail_cut(s: Seq<char>) -> (to: int)
    ensures
        0 <= to <= s.len(),
        crate::text::tail_trimmed(s) == s.take(to),
        crate::text::is_blank(s.skip(to)),
        to > 0 ==> !crate::text::is_white_space(s[to - 1]),
    decreases s.len(),
{
    if s.len() > 0 && crate::text::is_white_space(s.last()) {
        let rest = s.drop_last();
        let to = lemma_tail_cut(rest);
        assert(rest.take(to) =~= s.take(to));
        assert forall|i: int| 0 <= i < s.len() - to implies crate::text::is_white_space(
            #[trigger] s.skip(to)[i],
        ) by {
            if i < rest.len() - to {
                assert(rest.skip(to)[i] == s[to + i]);
            }
        }
        to
    } else {
        assert(s.take(s.len() as int) =~= s);
        s.len() as int
    }
}

/// Trimming takes white space alone off a text, at its two ends, and all of
/// it there.
pub proof fn lemma_trim_takes_blanks(s: Seq<char>) -> (r: (int, int))
    ensures
        0 <= r.0 <= r.1 <= s.len(),
        crate::text::trimmed(s) == s.subrange(r.0, r.1),
        crate::text::is_blank(s.take(r.0)),
        crate::text::is_blank(s.skip(r.1)),
        r.0 < r.1 ==> !crate::text::is_white_space(s[r.0]) && !crate::text::is_white_space(
            s[r.1 - 1],
        ),
{
    let from = lemma_head_cut(s);
    let head = s.skip(from);
    let to = lemma_tail_cut(head);
    assert(head.take(to) =~= s.subrange(from, from + to));
    assert(head.skip(to) =~= s.skip(from + to));
    (from, from + to)
}

/// A text that holds a character other than white space keeps it.
pub proof fn lemma_trim_keeps(s: Seq<char>, i: int)
    requires
        0 <= i < s.len(),
        !crate::text::is_white_space(s[i]),
    ensures
        crate::text::trimmed(s).len() > 0,
        crate::text::trimmed(s).contains(s[i]),
{
    let (from, to) = lemma_trim_takes_blanks(s);
    if i < from {
        assert(s.take(from)[i] == s[i]);
    } else if i >= to {
        assert(s.skip(to)[i - to] == s[i]);
    } else {
        assert(crate::text::trimmed(s)[i - from] == s[i]);
    }
}

/// A number is written in decimal digits that are worth it, without a zero in
/// front.
pub proof fn lemma_decimal(n: nat)
    ensures
        crate::number_text::digits_value(crate::text::decimal_text(n)) == Some(n as int),
        crate::text::decimal_text(n).len() > 0,
        n > 0 ==> crate::text::decimal_text(n)[0] != '0',
        n == 0 ==> crate::text::decimal_text(n) == seq!['0'],
    decreases n,
{
    let s = crate::text::decimal_text(n);
    if n >= 10 {
        lemma_decimal(n / 10);
        assert(s.drop_last() =~= crate::text::decimal_text(n / 10));
    } else {
        assert(s.drop_last() =~= Seq::empty());
        reveal_with_fuel(crate::number_text::digits_value, 2);
    }
}

/// A number below zero is written with a minus sign in front.
pub proof fn lemma_signed(n: int)
    ensures
        n >= 0 ==> crate::text::signed_text(n) == crate::text::decimal_text(n as nat),
        n < 0 ==> crate::text::signed_text(n) == seq!['-'] + crate::text::decimal_text((-n) as nat),
{
    reveal_strlit("-");
    assert("-"@ =~= seq!['-']);
}

/// A row of digits is worth ten times the row before its last digit, and that
/// digit; a character that is no digit makes it no number.
pub proof fn lemma_digits(s: Seq<char>, c: char)
    ensures
        '0' <= c <= '9' && crate::number_text::digits_value(s) is Some
            ==> crate::number_text::digits_value(s.push(c)) == Some(
            crate::number_text::digits_value(s).unwrap() * 10 + (c as int - 48),
        ),
        !('0' <= c <= '9') ==> crate::number_text::digits_value(s.push(c)) is None,
        crate::number_text::digits_value(s) is None ==> crate::number_text::digits_value(
            s.push(c),
        ) is None,
        crate::number_text::digits_value(Seq::empty()) == Some(0int),
{
    assert(s.push(c).drop_last() =~= s);
}

/// An integer is read from digits, with a sign in front or without; it is
/// refused without a digit, with anything else among them, and beyond 64 bits.
pub proof fn lemma_integer_read(digits: Seq<char>)
    requires
        digits.len() > 0 ==> digits[0] != '-' && digits[0] != '+',
    ensures
        match crate::number_text::digits_value(digits) {
            None => {
                &&& crate::number_text::integer_of(digits) is None
                &&& crate::number_text::integer_of(seq!['-'] + digits) is None
                &&& crate::number_text::integer_of(seq!['+'] + digits) is None
            },
            Some(v) => {
                &&& digits.len() == 0 ==> crate::number_text::integer_of(digits) is None
                    && crate::number_text::integer_of(seq!['-'] + digits) is None
                &&& digits.len() > 0 ==> {
                    &&& i64::MIN <= v <= i64::MAX ==> crate::number_text::integer_of(digits)
                        == Some(v as i64) && crate::number_text::integer_of(seq!['+'] + digits)
                        == Some(v as i64)
                    &&& v > i64::MAX ==> crate::number_text::integer_of(digits) is None
                    &&& i64::MIN <= -v <= i64::MAX ==> crate::number_text::integer_of(
                        seq!['-'] + digits,
                    ) == Some((-v) as i64)
                    &&& -v < i64::MIN ==> crate::number_text::integer_of(
                        seq!['-'] + digits,
                    ) is None
                }
            },
        },
{
    assert((seq!['-'] + digits).skip(1) =~= digits);
    assert((seq!['+'] + digits).skip(1) =~= digits);
}

/// The letters A to Z are made small, and nothing else is changed.
pub proof fn lemma_small_letters(c: char)
    ensures
        'A' <= c <= 'Z' ==> crate::text::ascii_small(c) as u32 == c as u32 + 32,
        !('A' <= c <= 'Z') ==> crate::text::ascii_small(c) == c,
        'a' <= c <= 'z' || '0' <= c <= '9' ==> crate::text::ascii_small(c) == c,
{
}

/// What stands before the first separator is the head of a text.
pub proof fn lemma_head_found(head: Seq<char>, separator: Seq<char>, rest: Seq<char>)
    requires
        separator.len() > 0,
        forall|j: int|
            0 <= j < head.len() ==> !crate::text::starts_with(
                #[trigger] (head + separator + rest).skip(j),
                separator,
            ),
    ensures
        crate::text::head_of(head + separator + rest, separator) == head,
    decreases head.len(),
{
    let s = head + separator + rest;
    if head.len() == 0 {
        assert(s.take(separator.len() as int) =~= separator);
    } else {
        assert(s.skip(0) =~= s);
        assert(!crate::text::starts_with(s.skip(0), separator));
        let tail = head.skip(1);
        assert(s.skip(1) =~= tail + separator + rest);
        assert forall|j: int| 0 <= j < tail.len() implies !crate::text::starts_with(
            #[trigger] (tail + separator + rest).skip(j),
            separator,
        ) by {
            assert((tail + separator + rest).skip(j) =~= s.skip(j + 1));
        }
        lemma_head_found(tail, separator, rest);
        assert(seq![s[0]] + tail =~= head);
    }
}

/// A text without the separator is its own head.
pub proof fn lemma_head_whole(s: Seq<char>, separator: Seq<char>)
    requires
        forall|j: int|
            0 <= j < s.len() ==> !crate::text::starts_with(#[trigger] s.skip(j), separator),
    ensures
        crate::text::head_of(s, separator) == s,
    decreases s.len(),
{
    if s.len() > 0 {
        assert(s.skip(0) =~= s);
        assert(!crate::text::starts_with(s.skip(0), separator));
        let tail = s.skip(1);
        assert forall|j: int| 0 <= j < tail.len() implies !crate::text::starts_with(
            #[trigger] tail.skip(j),
            separator,
        ) by {
            assert(tail.skip(j) =~= s.skip(j + 1));
        }
        lemma_head_whole(tail, separator);
        assert(seq![s[0]] + tail =~= s);
    }
}

/// The first occurrence of a part gives way to what replaces it, and the text
/// behind it is replaced in turn.
pub proof fn lemma_replaced_first(
    head: Seq<char>,
    part: Seq<char>,
    rest: Seq<char>,
    with: Seq<char>,
)
    requires
        part.len() > 0,
        forall|j: int|
            0 <= j < head.len() ==> !crate::text::starts_with(
                #[trigger] (head + part + rest).skip(j),
                part,
            ),
    ensures
        crate::text::replaced(head + part + rest, part, with) == head + with
            + crate::text::replaced(rest, part, with),
    decreases head.len(),
{
    let s = head + part + rest;
    if head.len() == 0 {
        assert(s.take(part.len() as int) =~= part);
        assert(s.skip(part.len() as int) =~= rest);
        assert(head + with + crate::text::replaced(rest, part, with) =~= with
            + crate::text::replaced(rest, part, with));
    } else {
        assert(s.skip(0) =~= s);
        assert(!crate::text::starts_with(s.skip(0), part));
        let tail = head.skip(1);
        assert(s.skip(1) =~= tail + part + rest);
        assert forall|j: int| 0 <= j < tail.len() implies !crate::text::starts_with(
            #[trigger] (tail + part + rest).skip(j),
            part,
        ) by {
            assert((tail + part + rest).skip(j) =~= s.skip(j + 1));
        }
        lemma_replaced_first(tail, part, rest, with);
        assert(seq![s[0]] + (tail + with + crate::text::replaced(rest, part, with)) =~= head + with
            + crate::text::replaced(rest, part, with));
    }
}

/// A text starts with its head, and what is left of it is the rest.
pub proof fn lemma_head_stripped(head: Seq<char>, rest: Seq<char>)
    ensures
        crate::text::starts_with(head + rest, head),
        crate::text::without_head(head + rest, head) == rest,
        forall|s: Seq<char>|
            !crate::text::starts_with(s, head) ==> #[trigger] crate::text::without_head(s, head)
                == s,
{
    assert((head + rest).take(head.len() as int) =~= head);
    assert((head + rest).skip(head.len() as int) =~= rest);
}

/// An action is found by a query exactly when the query, without the white
/// space around it and whatever the case of its letters, stands in its label,
/// in its path with the label behind it, or in its shortcut, or is blank.
pub proof fn lemma_found(
    label: Seq<char>,
    path: Seq<char>,
    shortcut: Option<Seq<char>>,
    query: Seq<char>,
    at: int,
)
    requires
        0 <= at < query.len(),
        !crate::text::is_white_space(query[at]),
    ensures
        ({
            let q = crate::text::lowered(crate::text::trimmed(query));
            crate::search::survives(label, path, shortcut, query) <==> {
                ||| crate::text::occurs_in(q, crate::text::lowered(label))
                ||| crate::text::occurs_in(q, crate::text::lowered(path + " > "@ + label))
                ||| shortcut is Some && crate::text::occurs_in(
                    q,
                    crate::text::lowered(shortcut.unwrap()),
                )
            }
        }),
{
    lemma_trim_keeps(query, at);
}

/// A step moves to the next visible row, around the ends. Without a selected
/// row that is visible, a step down starts with the first row and a step up
/// with the last.
pub proof fn lemma_rows_stepped(visible: Seq<usize>, current: Option<usize>, p: int)
    requires
        visible.no_duplicates(),
    ensures
        visible.len() == 0 ==> crate::search::stepped(visible, current, 1) is None
            && crate::search::stepped(visible, current, -1) is None,
        0 <= p < visible.len() && current == Some(visible[p]) ==> {
            &&& crate::search::stepped(visible, current, 1) == Some(
                visible[if p + 1 == visible.len() {
                    0
                } else {
                    p + 1
                }],
            )
            &&& crate::search::stepped(visible, current, -1) == Some(
                visible[if p == 0 {
                    visible.len() - 1
                } else {
                    p - 1
                }],
            )
        },
        visible.len() > 0 && (current is None || !visible.contains(current.unwrap())) ==> {
            &&& crate::search::stepped(visible, current, 1) == Some(visible[0])
            &&& crate::search::stepped(visible, current, -1) == Some(visible[visible.len() - 1])
        },
{
    if let Some(c) = current {
        let is = |v: usize| v == c;
        crate::forms::lemma_first_where(visible, is);
        if 0 <= p < visible.len() && c == visible[p] {
            let n = visible.len() as int;
            assert(is(visible[p]));
            let k = crate::search::row_position(visible, current);
            assert(k is Some);
            assert(is(visible[k.unwrap()]));
            assert(k == Some(p));
            if p + 1 == n {
                vstd::arithmetic::div_mod::lemma_mod_self_0(n);
            } else {
                vstd::arithmetic::div_mod::lemma_small_mod((p + 1) as nat, n as nat);
            }
            if p == 0 {
                vstd::arithmetic::div_mod::lemma_mod_add_multiples_vanish(-1, n);
                vstd::arithmetic::div_mod::lemma_small_mod((n - 1) as nat, n as nat);
            } else {
                vstd::arithmetic::div_mod::lemma_small_mod((p - 1) as nat, n as nat);
            }
        }
        if !visible.contains(c) {
            if let Some(k) = crate::search::row_position(visible, current) {
                assert(is(visible[k]));
                assert(visible.contains(visible[k]));
            }
        }
    }
}

/// A query selects the first item it finds, and nothing when it finds none;
/// what is selected names its own action.
pub proof fn lemma_query_selects(m: SearchModel, filter: Seq<char>)
    ensures
        ({
            let now = m.queried(filter);
            let rows = crate::search::visible_items(m.items, filter);
            &&& now.items == m.items
            &&& now.filter == filter
            &&& rows.len() == 0 ==> now.selection is None
            &&& rows.len() > 0 ==> now.selection == Some(rows[0])
        }),
        m.selection matches Some(i) ==> i < m.items.len() ==> m.selected_action() == Some(
            m.items[i as int].action,
        ),
        m.selection is None ==> m.selected_action() is None,
        m.selected_action() is None ==> m.executed() is None,
        m.selected_action() matches Some(a) ==> m.executed() == Some(
            crate::search::ActionSearchEvent::Execute(a),
        ),
{
}

/// An item is visible under a filter exactly when the filter finds it by its
/// label or its path.
pub proof fn lemma_visible_by_label(items: Seq<ItemModel>, filter: Seq<char>, row: usize)
    requires
        items.len() <= usize::MAX,
        row < items.len(),
    ensures
        crate::search::visible_items(items, filter).contains(row) <==> crate::search::survives(
            items[row as int].label,
            items[row as int].path,
            None,
            filter,
        ),
{
    crate::search::lemma_visible_items(items, filter);
}

} // verus!
