//! Comparing and assembling text.

use vstd::prelude::*;

verus! {

/// Whether two texts hold the same characters.
pub fn same_text(a: &str, b: &str) -> (r: bool)
    ensures
        r == (a@ == b@),
{
    a.to_owned() == b.to_owned()
}

/// `a` followed by `b`.
pub fn joined(a: &str, b: &str) -> (r: String)
    ensures
        r@ == a@ + b@,
{
    let mut r: String = a.to_owned();
    r.append(b);
    r
}

/// The character of a decimal digit.
pub open spec fn digit_char(d: int) -> char {
    (48 + d) as char
}

/// A number in decimal.
pub open spec fn decimal_text(n: nat) -> Seq<char>
    decreases n,
{
    if n < 10 {
        seq![digit_char(n as int)]
    } else {
        decimal_text(n / 10).push(digit_char(n as int % 10))
    }
}

/// A number in decimal, with a minus sign below zero.
pub open spec fn signed_text(n: int) -> Seq<char> {
    if n < 0 {
        "-"@ + decimal_text((-n) as nat)
    } else {
        decimal_text(n as nat)
    }
}

fn digit(d: u64) -> (s: &'static str)
    requires
        d < 10,
    ensures
        s@ == seq![digit_char(d as int)],
{
    proof {
        reveal_strlit("0");
        reveal_strlit("1");
        reveal_strlit("2");
        reveal_strlit("3");
        reveal_strlit("4");
        reveal_strlit("5");
        reveal_strlit("6");
        reveal_strlit("7");
        reveal_strlit("8");
        reveal_strlit("9");
    }
    let s: &'static str = match d {
        0 => "0",
        1 => "1",
        2 => "2",
        3 => "3",
        4 => "4",
        5 => "5",
        6 => "6",
        7 => "7",
        8 => "8",
        _ => "9",
    };
    assert(s@ =~= seq![digit_char(d as int)]);
    s
}

/// A number in decimal.
pub fn decimal(n: u64) -> (r: String)
    ensures
        r@ == decimal_text(n as nat),
    decreases n,
{
    if n < 10 {
        digit(n).to_owned()
    } else {
        let mut r: String = decimal(n / 10);
        r.append(digit(n % 10));
        assert(r@ =~= decimal_text(n as nat));
        r
    }
}

/// A number in decimal, with a minus sign below zero.
pub fn signed_decimal(n: i64) -> (r: String)
    ensures
        r@ == signed_text(n as int),
{
    if n < 0 {
        let m: u64 = (-(n as i128)) as u64;
        joined("-", decimal(m).as_str())
    } else {
        decimal(n as u64)
    }
}

/// Whether a character is white space, by Unicode's White_Space property.
pub open spec fn is_white_space(c: char) -> bool {
    let n = c as u32;
    ||| 0x9 <= n <= 0xd
    ||| n == 0x20
    ||| n == 0x85
    ||| n == 0xa0
    ||| n == 0x1680
    ||| 0x2000 <= n <= 0x200a
    ||| 0x2028 <= n <= 0x2029
    ||| n == 0x202f
    ||| n == 0x205f
    ||| n == 0x3000
}

/// The text without the white space at its head.
pub open spec fn head_trimmed(s: Seq<char>) -> Seq<char>
    decreases s.len(),
{
    if s.len() > 0 && is_white_space(s[0]) {
        head_trimmed(s.subrange(1, s.len() as int))
    } else {
        s
    }
}

/// The text without the white space at its tail.
pub open spec fn tail_trimmed(s: Seq<char>) -> Seq<char>
    decreases s.len(),
{
    if s.len() > 0 && is_white_space(s.last()) {
        tail_trimmed(s.drop_last())
    } else {
        s
    }
}

/// The text without the white space around it.
pub open spec fn trimmed(s: Seq<char>) -> Seq<char> {
    tail_trimmed(head_trimmed(s))
}

fn white_space(c: char) -> (b: bool)
    ensures
        b == is_white_space(c),
{
    let n: u32 = c as u32;
    (n >= 0x9 && n <= 0xd) || n == 0x20 || n == 0x85 || n == 0xa0 || n == 0x1680 || (n >= 0x2000
        && n <= 0x200a) || (n >= 0x2028 && n <= 0x2029) || n == 0x202f || n == 0x205f || n
        == 0x3000
}

/// The text without the white space around it.
pub fn trim(s: &str) -> (r: String)
    ensures
        r@ == trimmed(s@),
{
    let n: usize = s.unicode_len();
    let mut from: usize = 0;
    assert(s@.subrange(0, n as int) =~= s@);
    while from < n && white_space(s.get_char(from))
        invariant
            from <= n,
            n == s@.len(),
            head_trimmed(s@) == head_trimmed(s@.subrange(from as int, n as int)),
        decreases n - from,
    {
        let ghost rest = s@.subrange(from as int, n as int);
        assert(rest.subrange(1, rest.len() as int) =~= s@.subrange(from + 1, n as int));
        from = from + 1;
    }
    let ghost head = s@.subrange(from as int, n as int);
    assert(head_trimmed(s@) == head);
    let mut to: usize = n;
    while to > from && white_space(s.get_char(to - 1))
        invariant
            from <= to <= n,
            n == s@.len(),
            tail_trimmed(head) == tail_trimmed(s@.subrange(from as int, to as int)),
        decreases to,
    {
        let ghost rest = s@.subrange(from as int, to as int);
        assert(rest.drop_last() =~= s@.subrange(from as int, to - 1));
        assert(rest.last() == s@[to - 1]);
        to = to - 1;
    }
    s.substring_char(from, to).to_owned()
}

proof fn lemma_head_trimmed(s: Seq<char>)
    ensures
        head_trimmed(s).len() <= s.len(),
        head_trimmed(s).len() > 0 ==> !is_white_space(head_trimmed(s)[0]),
    decreases s.len(),
{
    if s.len() > 0 && is_white_space(s[0]) {
        lemma_head_trimmed(s.subrange(1, s.len() as int));
    }
}

proof fn lemma_tail_trimmed(s: Seq<char>)
    ensures
        tail_trimmed(s).len() <= s.len(),
        tail_trimmed(s).len() > 0 ==> !is_white_space(tail_trimmed(s).last()),
        tail_trimmed(s).len() > 0 ==> tail_trimmed(s)[0] == s[0],
    decreases s.len(),
{
    if s.len() > 0 && is_white_space(s.last()) {
        lemma_tail_trimmed(s.drop_last());
    }
}

/// Trimmed text has no white space at either end, so trimming it again
/// changes nothing.
pub proof fn lemma_trim_is_idempotent(s: Seq<char>)
    ensures
        trimmed(trimmed(s)) == trimmed(s),
        trimmed(s).len() > 0 ==> !is_white_space(trimmed(s)[0]) && !is_white_space(
            trimmed(s).last(),
        ),
{
    lemma_head_trimmed(s);
    lemma_tail_trimmed(head_trimmed(s));
}

/// Whether a text is white space throughout.
pub open spec fn is_blank(s: Seq<char>) -> bool {
    forall|i: int| 0 <= i < s.len() ==> is_white_space(#[trigger] s[i])
}

proof fn lemma_head_blank(blank: Seq<char>, s: Seq<char>)
    requires
        is_blank(blank),
    ensures
        head_trimmed(blank + s) == head_trimmed(s),
    decreases blank.len(),
{
    if blank.len() == 0 {
        assert(blank + s =~= s);
    } else {
        let rest = blank.subrange(1, blank.len() as int);
        assert forall|i: int| 0 <= i < rest.len() implies is_white_space(#[trigger] rest[i]) by {
            assert(rest[i] == blank[i + 1]);
        }
        lemma_head_blank(rest, s);
        assert((blank + s)[0] == blank[0]);
        assert((blank + s).subrange(1, (blank + s).len() as int) =~= rest + s);
    }
}

proof fn lemma_tail_blank(s: Seq<char>, blank: Seq<char>)
    requires
        is_blank(blank),
    ensures
        tail_trimmed(s + blank) == tail_trimmed(s),
    decreases blank.len(),
{
    if blank.len() == 0 {
        assert(s + blank =~= s);
    } else {
        let rest = blank.drop_last();
        assert forall|i: int| 0 <= i < rest.len() implies is_white_space(#[trigger] rest[i]) by {
            assert(rest[i] == blank[i]);
        }
        lemma_tail_blank(s, rest);
        assert((s + blank).last() == blank[blank.len() - 1]);
        assert((s + blank).drop_last() =~= s + rest);
    }
}

proof fn lemma_head_before_blank(s: Seq<char>, blank: Seq<char>)
    requires
        is_blank(blank),
    ensures
        tail_trimmed(head_trimmed(s + blank)) == tail_trimmed(head_trimmed(s)),
    decreases s.len(),
{
    if s.len() == 0 {
        assert(s + blank =~= blank + s);
        lemma_head_blank(blank, s);
    } else if is_white_space(s[0]) {
        let rest = s.subrange(1, s.len() as int);
        lemma_head_before_blank(rest, blank);
        assert((s + blank)[0] == s[0]);
        assert((s + blank).subrange(1, (s + blank).len() as int) =~= rest + blank);
    } else {
        assert((s + blank)[0] == s[0]);
        lemma_tail_blank(s, blank);
    }
}

/// White space around a text does not matter to what is left of it.
pub proof fn lemma_trim_drops_blanks(head: Seq<char>, s: Seq<char>, tail: Seq<char>)
    requires
        is_blank(head),
        is_blank(tail),
    ensures
        trimmed(head + s + tail) == trimmed(s),
{
    assert(head + s + tail =~= head + (s + tail));
    lemma_head_blank(head, s + tail);
    lemma_head_before_blank(s, tail);
}

proof fn lemma_head_trimmed_part(s: Seq<char>) -> (from: int)
    ensures
        0 <= from <= s.len(),
        head_trimmed(s) == s.subrange(from, s.len() as int),
    decreases s.len(),
{
    if s.len() > 0 && is_white_space(s[0]) {
        let rest = s.subrange(1, s.len() as int);
        let from = lemma_head_trimmed_part(rest);
        assert(rest.subrange(from, rest.len() as int) =~= s.subrange(from + 1, s.len() as int));
        from + 1
    } else {
        assert(s.subrange(0, s.len() as int) =~= s);
        0
    }
}

proof fn lemma_tail_trimmed_part(s: Seq<char>) -> (to: int)
    ensures
        0 <= to <= s.len(),
        tail_trimmed(s) == s.subrange(0, to),
    decreases s.len(),
{
    if s.len() > 0 && is_white_space(s.last()) {
        let rest = s.drop_last();
        let to = lemma_tail_trimmed_part(rest);
        assert(rest.subrange(0, to) =~= s.subrange(0, to));
        to
    } else {
        assert(s.subrange(0, s.len() as int) =~= s);
        s.len() as int
    }
}

/// What is left of a text between the white space around it is a part of it.
pub proof fn lemma_trimmed_part(s: Seq<char>) -> (r: (int, int))
    ensures
        0 <= r.0 <= r.1 <= s.len(),
        trimmed(s) == s.subrange(r.0, r.1),
{
    let from = lemma_head_trimmed_part(s);
    let head = head_trimmed(s);
    let to = lemma_tail_trimmed_part(head);
    assert(head.subrange(0, to) =~= s.subrange(from, from + to));
    (from, from + to)
}

/// Whether `part` occurs in `s` at index `at`.
pub open spec fn occurs_at(part: Seq<char>, s: Seq<char>, at: int) -> bool {
    0 <= at && at + part.len() <= s.len() && s.subrange(at, at + part.len()) == part
}

/// Whether `part` occurs in `s`.
pub open spec fn occurs_in(part: Seq<char>, s: Seq<char>) -> bool {
    exists|at: int| occurs_at(part, s, at)
}

fn matches_at(part: &str, s: &str, at: usize) -> (b: bool)
    requires
        at + part@.len() <= s@.len() <= usize::MAX,
    ensures
        b == occurs_at(part@, s@, at as int),
{
    let n: usize = part.unicode_len();
    let window: &str = s.substring_char(at, at + n);
    same_text(window, part)
}

/// Whether `part` occurs in `s`.
pub fn contains_text(s: &str, part: &str) -> (b: bool)
    ensures
        b == occurs_in(part@, s@),
{
    let n: usize = s.unicode_len();
    let k: usize = part.unicode_len();
    if k > n {
        assert forall|at: int| !occurs_at(part@, s@, at) by {}
        return false;
    }
    let mut at: usize = 0;
    while at <= n - k
        invariant
            n == s@.len(),
            k == part@.len(),
            k <= n,
            n <= usize::MAX,
            at <= n - k + 1,
            forall|j: int| 0 <= j < at ==> !occurs_at(part@, s@, j),
        decreases n - k + 1 - at,
    {
        if matches_at(part, s, at) {
            return true;
        }
        if at == n - k {
            assert forall|j: int| !occurs_at(part@, s@, j) by {}
            return false;
        }
        at = at + 1;
    }
    false
}

/// Whether `s` starts with `head`.
pub open spec fn starts_with(s: Seq<char>, head: Seq<char>) -> bool {
    head.len() <= s.len() && s.take(head.len() as int) == head
}

/// `s` without the `head` it starts with.
pub open spec fn without_head(s: Seq<char>, head: Seq<char>) -> Seq<char> {
    if starts_with(s, head) {
        s.skip(head.len() as int)
    } else {
        s
    }
}

/// Whether `s` starts with `head`.
pub fn begins_with(s: &str, head: &str) -> (r: bool)
    ensures
        r == starts_with(s@, head@),
{
    let n: usize = s.unicode_len();
    let k: usize = head.unicode_len();
    if k > n {
        return false;
    }
    assert(s@.subrange(0, k as int) =~= s@.take(k as int));
    matches_at(head, s, 0)
}

/// `s` without the `head` it starts with.
pub fn strip_head(s: &str, head: &str) -> (r: String)
    ensures
        r@ == without_head(s@, head@),
{
    if !begins_with(s, head) {
        return s.to_owned();
    }
    let n: usize = s.unicode_len();
    let k: usize = head.unicode_len();
    assert(s@.subrange(k as int, n as int) =~= s@.skip(k as int));
    s.substring_char(k, n).to_owned()
}

/// `s` with every `part` replaced by `with`, from the left.
pub open spec fn replaced(s: Seq<char>, part: Seq<char>, with: Seq<char>) -> Seq<char>
    decreases s.len(),
{
    if s.len() == 0 || part.len() == 0 {
        s
    } else if starts_with(s, part) {
        with + replaced(s.skip(part.len() as int), part, with)
    } else {
        seq![s[0]] + replaced(s.skip(1), part, with)
    }
}

/// `s` with every `part` replaced by `with`, from the left.
pub fn replace_text(s: &str, part: &str, with: &str) -> (r: String)
    requires
        part@.len() > 0,
    ensures
        r@ == replaced(s@, part@, with@),
{
    let n: usize = s.unicode_len();
    let k: usize = part.unicode_len();
    let mut done: String = String::new();
    let mut at: usize = 0;
    assert(s@.skip(0) =~= s@);
    assert(done@ + replaced(s@, part@, with@) =~= replaced(s@, part@, with@));
    while at < n
        invariant
            n == s@.len(),
            k == part@.len(),
            k > 0,
            at <= n,
            done@ + replaced(s@.skip(at as int), part@, with@) == replaced(s@, part@, with@),
        decreases n - at,
    {
        let ghost rest = s@.skip(at as int);
        let ghost before = done@;
        if k <= n - at && matches_at(part, s, at) {
            proof {
                assert(rest.take(k as int) =~= s@.subrange(at as int, at + k));
                assert(rest.skip(k as int) =~= s@.skip(at + k));
            }
            done.append(with);
            at = at + k;
            proof {
                let tail = replaced(s@.skip(at as int), part@, with@);
                assert(done@ + tail =~= before + (with@ + tail));
            }
        } else {
            proof {
                if k <= n - at {
                    assert(rest.take(k as int) =~= s@.subrange(at as int, at + k));
                }
                assert(!starts_with(rest, part@));
                assert(rest.skip(1) =~= s@.skip(at + 1));
                assert(s@.subrange(at as int, at + 1) =~= seq![rest[0]]);
            }
            done.append(s.substring_char(at, at + 1));
            at = at + 1;
            proof {
                let tail = replaced(s@.skip(at as int), part@, with@);
                assert(done@ + tail =~= before + (seq![rest[0]] + tail));
            }
        }
    }
    assert(s@.skip(n as int) =~= Seq::<char>::empty());
    assert(done@ + Seq::<char>::empty() =~= done@);
    done
}

/// A text in which `part` does not occur stays as it is.
pub proof fn lemma_replaced_absent(s: Seq<char>, part: Seq<char>, with: Seq<char>)
    requires
        !occurs_in(part, s),
    ensures
        replaced(s, part, with) == s,
    decreases s.len(),
{
    if s.len() > 0 && part.len() > 0 {
        if starts_with(s, part) {
            assert(s.subrange(0, part.len() as int) =~= s.take(part.len() as int));
            assert(occurs_at(part, s, 0));
        }
        assert forall|at: int| !occurs_at(part, s.skip(1), at) by {
            if occurs_at(part, s.skip(1), at) {
                assert(s.subrange(at + 1, at + 1 + part.len()) =~= s.skip(1).subrange(
                    at,
                    at + part.len(),
                ));
                assert(occurs_at(part, s, at + 1));
            }
        }
        lemma_replaced_absent(s.skip(1), part, with);
        assert(seq![s[0]] + s.skip(1) =~= s);
    }
}

/// What stands before the first `separator`; the whole text without one.
pub open spec fn head_of(s: Seq<char>, separator: Seq<char>) -> Seq<char>
    decreases s.len(),
{
    if s.len() == 0 || starts_with(s, separator) {
        Seq::empty()
    } else {
        seq![s[0]] + head_of(s.skip(1), separator)
    }
}

proof fn lemma_head_step(s: Seq<char>, separator: Seq<char>, at: int)
    requires
        0 <= at <= s.len(),
        forall|j: int| 0 <= j < at ==> !starts_with(s.skip(j), separator),
    ensures
        head_of(s, separator) == s.take(at) + head_of(s.skip(at), separator),
    decreases at,
{
    if at == 0 {
        assert(s.skip(0) =~= s);
        assert(s.take(0) + head_of(s, separator) =~= head_of(s, separator));
    } else {
        lemma_head_step(s, separator, at - 1);
        let rest = s.skip(at - 1);
        assert(!starts_with(rest, separator));
        assert(rest.skip(1) =~= s.skip(at));
        let tail = head_of(s.skip(at), separator);
        assert(s.take(at - 1) + (seq![rest[0]] + tail) =~= s.take(at) + tail);
    }
}

/// What stands before the first `separator`; the whole text without one.
pub fn head_before(s: &str, separator: &str) -> (r: String)
    ensures
        r@ == head_of(s@, separator@),
{
    let n: usize = s.unicode_len();
    let k: usize = separator.unicode_len();
    let mut at: usize = 0;
    while at < n && !(k <= n - at && matches_at(separator, s, at))
        invariant
            n == s@.len(),
            k == separator@.len(),
            at <= n,
            forall|j: int| 0 <= j < at ==> !starts_with(s@.skip(j), separator@),
        decreases n - at,
    {
        proof {
            let rest = s@.skip(at as int);
            if k <= n - at {
                assert(rest.take(k as int) =~= s@.subrange(at as int, at + k));
            }
            assert(!starts_with(rest, separator@));
        }
        at = at + 1;
    }
    proof {
        lemma_head_step(s@, separator@, at as int);
        let rest = s@.skip(at as int);
        if at < n {
            assert(rest.take(k as int) =~= s@.subrange(at as int, at + k));
        }
        assert(s@.take(at as int) + Seq::<char>::empty() =~= s@.take(at as int));
        assert(s@.subrange(0, at as int) =~= s@.take(at as int));
    }
    s.substring_char(0, at).to_owned()
}

/// The character with the letters A to Z made small.
pub open spec fn ascii_small(c: char) -> char {
    if 'A' <= c <= 'Z' {
        ((c as u32) + 32) as char
    } else {
        c
    }
}

/// Whether two texts are the same but for the case of the letters A to Z.
pub open spec fn same_but_for_case(a: Seq<char>, b: Seq<char>) -> bool {
    &&& a.len() == b.len()
    &&& forall|i: int| 0 <= i < a.len() ==> ascii_small(#[trigger] a[i]) == ascii_small(b[i])
}

fn small_code(c: char) -> (n: u32)
    ensures
        n == ascii_small(c) as u32,
{
    let n: u32 = c as u32;
    if n >= 65 && n <= 90 {
        n + 32
    } else {
        n
    }
}

/// Whether two texts are the same but for the case of the letters A to Z.
pub fn same_ignoring_case(a: &str, b: &str) -> (r: bool)
    ensures
        r == same_but_for_case(a@, b@),
{
    let n: usize = a.unicode_len();
    if b.unicode_len() != n {
        return false;
    }
    let mut i: usize = 0;
    while i < n
        invariant
            i <= n,
            n == a@.len(),
            n == b@.len(),
            forall|j: int| 0 <= j < i ==> ascii_small(#[trigger] a@[j]) == ascii_small(b@[j]),
        decreases n - i,
    {
        let x: u32 = small_code(a.get_char(i));
        let y: u32 = small_code(b.get_char(i));
        if x != y {
            assert(ascii_small(a@[i as int]) != ascii_small(b@[i as int]));
            return false;
        }
        i = i + 1;
    }
    true
}

/// The case of a letter A to Z makes no difference to what is white space, or
/// to what is an ASCII character.
proof fn lemma_small(a: char, b: char)
    requires
        ascii_small(a) == ascii_small(b),
    ensures
        is_white_space(a) == is_white_space(b),
        (a as u32) < 128 <==> (b as u32) < 128,
{
}

proof fn lemma_head_trimmed_case(a: Seq<char>, b: Seq<char>)
    requires
        same_but_for_case(a, b),
    ensures
        same_but_for_case(head_trimmed(a), head_trimmed(b)),
    decreases a.len(),
{
    if a.len() > 0 {
        lemma_small(a[0], b[0]);
        if is_white_space(a[0]) {
            let x = a.subrange(1, a.len() as int);
            let y = b.subrange(1, b.len() as int);
            assert forall|i: int| 0 <= i < x.len() implies ascii_small(#[trigger] x[i])
                == ascii_small(y[i]) by {
                assert(x[i] == a[i + 1] && y[i] == b[i + 1]);
            }
            lemma_head_trimmed_case(x, y);
        }
    }
}

proof fn lemma_tail_trimmed_case(a: Seq<char>, b: Seq<char>)
    requires
        same_but_for_case(a, b),
    ensures
        same_but_for_case(tail_trimmed(a), tail_trimmed(b)),
    decreases a.len(),
{
    if a.len() > 0 {
        assert(a.last() == a[a.len() - 1]);
        lemma_small(a.last(), b.last());
        if is_white_space(a.last()) {
            let x = a.drop_last();
            let y = b.drop_last();
            assert forall|i: int| 0 <= i < x.len() implies ascii_small(#[trigger] x[i])
                == ascii_small(y[i]) by {
                assert(x[i] == a[i] && y[i] == b[i]);
            }
            lemma_tail_trimmed_case(x, y);
        }
    }
}

/// ASCII texts that are the same but for the case of their letters are so
/// without the white space around them, and are the same in lower case.
pub proof fn lemma_trimmed_case(a: Seq<char>, b: Seq<char>)
    requires
        is_ascii_text(a),
        same_but_for_case(a, b),
    ensures
        is_ascii_text(b),
        trimmed(a).len() == trimmed(b).len(),
        lowered(trimmed(a)) == lowered(trimmed(b)),
{
    lemma_head_trimmed_case(a, b);
    lemma_tail_trimmed_case(head_trimmed(a), head_trimmed(b));
    assert forall|i: int| 0 <= i < b.len() implies (#[trigger] b[i] as u32) < 128 by {
        assert((a[i] as u32) < 128);
        lemma_small(a[i], b[i]);
    }
    lemma_ascii_trimmed(a);
    lemma_ascii_trimmed(b);
    assert(ascii_lowered(trimmed(a)) =~= ascii_lowered(trimmed(b))) by {
        assert forall|i: int| 0 <= i < trimmed(a).len() implies ascii_small(
            #[trigger] trimmed(a)[i],
        ) == ascii_small(trimmed(b)[i]) by {}
    }
}

proof fn lemma_ascii_trimmed(s: Seq<char>)
    requires
        is_ascii_text(s),
    ensures
        is_ascii_text(trimmed(s)),
{
    let (from, to) = lemma_trimmed_part(s);
    assert forall|i: int| 0 <= i < trimmed(s).len() implies (#[trigger] trimmed(s)[i] as u32)
        < 128 by {
        assert((s[from + i] as u32) < 128);
    }
}

/// What occurs in an ASCII text occurs in it without the white space around
/// it and in lower case.
pub proof fn lemma_lowered_part(part: Seq<char>, s: Seq<char>)
    requires
        is_ascii_text(s),
        occurs_in(part, s),
    ensures
        occurs_in(lowered(trimmed(part)), lowered(s)),
{
    let at = choose|at: int| occurs_at(part, s, at);
    let (from, to) = lemma_trimmed_part(part);
    let t = trimmed(part);
    assert forall|i: int| 0 <= i < t.len() implies #[trigger] t[i] == s[at + from + i] by {
        assert(part[from + i] == s[at + from + i]);
    }
    assert forall|i: int| 0 <= i < t.len() implies (#[trigger] t[i] as u32) < 128 by {
        assert((s[at + from + i] as u32) < 128);
    }
    assert(lowered(s).subrange(at + from, at + from + t.len()) =~= lowered(t));
    assert(occurs_at(lowered(t), lowered(s), at + from));
}

/// The lower case of a text, as the standard library gives it.
pub uninterp spec fn lower_case(s: Seq<char>) -> Seq<char>;

/// Whether every character of a text is an ASCII one.
pub open spec fn is_ascii_text(s: Seq<char>) -> bool {
    forall|i: int| 0 <= i < s.len() ==> (#[trigger] s[i] as u32) < 128
}

/// The text with the letters A to Z made small.
pub open spec fn ascii_lowered(s: Seq<char>) -> Seq<char> {
    Seq::new(s.len(), |i: int| ascii_small(s[i]))
}

/// The text in lower case.
pub open spec fn lowered(s: Seq<char>) -> Seq<char> {
    if is_ascii_text(s) {
        ascii_lowered(s)
    } else {
        lower_case(s)
    }
}

/// The lower case of a text.
///
/// Calls `str::to_lowercase`, which maps a text by Unicode's lowercase
/// property. Of a text of ASCII characters this says what comes out: the
/// letters A to Z become a to z, and every other character stays. Of other
/// texts the result is named, not described.
#[verifier::external_body]
pub(crate) fn to_lower_case(s: &str) -> (r: String)
    ensures
        r@ == lower_case(s@),
        is_ascii_text(s@) ==> r@ == ascii_lowered(s@),
{
    s.to_lowercase()
}

} // verus!
