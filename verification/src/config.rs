//! The configuration text that may name the keyboard layout.
//!
//! The text is made of lines. A line names the layout where it assigns the
//! key `KEYBOARD-LAYOUT`: blanks, the key, blanks, `=`, and the value with
//! the blanks around it taken off. The first such line counts; the lines
//! before and after it are ignored.
use vstd::prelude::*;

verus! {

/// The configuration key whose assignment names the keyboard layout.
pub const LAYOUT_KEY: [char; 15] = [
    'K', 'E', 'Y', 'B', 'O', 'A', 'R', 'D', '-', 'L', 'A', 'Y', 'O', 'U', 'T',
];

/// The character that separates the key from its value.
pub const ASSIGN: char = '=';

/// The character that ends a line of the configuration text.
pub const LINE_END: char = '\n';

/// White space, as the Unicode standard lists it.
pub open spec fn is_white_space(c: char) -> bool {
    ||| '\u{9}' <= c <= '\u{d}'
    ||| c == ' '
    ||| c == '\u{85}'
    ||| c == '\u{a0}'
    ||| c == '\u{1680}'
    ||| '\u{2000}' <= c <= '\u{200a}'
    ||| c == '\u{2028}'
    ||| c == '\u{2029}'
    ||| c == '\u{202f}'
    ||| c == '\u{205f}'
    ||| c == '\u{3000}'
}

/// The characters tolerated around the key, the `=` and the value: white
/// space other than the line end.
pub open spec fn is_blank(c: char) -> bool {
    is_white_space(c) && c != LINE_END
}

/// Every character of `s` is blank.
pub open spec fn all_blank(s: Seq<char>) -> bool {
    forall|i: int| 0 <= i < s.len() ==> is_blank(#[trigger] s[i])
}

/// `s` neither starts nor ends with a blank.
pub open spec fn is_trimmed(s: Seq<char>) -> bool {
    s.len() > 0 ==> !is_blank(s.first()) && !is_blank(s.last())
}

/// Length of the longest all-blank prefix of `s`.
pub open spec fn leading_blanks(s: Seq<char>) -> nat
    decreases s.len(),
{
    if s.len() > 0 && is_blank(s.first()) {
        1 + leading_blanks(s.drop_first())
    } else {
        0
    }
}

/// Length of the longest all-blank suffix of `s`.
pub open spec fn trailing_blanks(s: Seq<char>) -> nat
    decreases s.len(),
{
    if s.len() > 0 && is_blank(s.last()) {
        1 + trailing_blanks(s.drop_last())
    } else {
        0
    }
}

/// `s` without its leading blanks.
pub open spec fn trim_start(s: Seq<char>) -> Seq<char> {
    s.skip(leading_blanks(s) as int)
}

/// `s` without its leading and trailing blanks.
pub open spec fn trim(s: Seq<char>) -> Seq<char> {
    let t = trim_start(s);
    t.take(t.len() - trailing_blanks(t))
}

/// The value that is assigned by what follows the key on a line, if an
/// assignment follows: blanks, `=`, and the value with the blanks around it
/// taken off.
pub open spec fn assigned_value(rest: Seq<char>) -> Option<Seq<char>> {
    let tail = trim_start(rest);
    if tail.len() > 0 && tail.first() == ASSIGN {
        Some(trim(tail.skip(1)))
    } else {
        None
    }
}

/// The value that one line assigns to the layout key, if the line is such an
/// assignment: blanks, the key, and the assignment of a value.
pub open spec fn line_value(line: Seq<char>) -> Option<Seq<char>> {
    let head = trim_start(line);
    if LAYOUT_KEY@.is_prefix_of(head) {
        assigned_value(head.skip(LAYOUT_KEY@.len() as int))
    } else {
        None
    }
}

/// Number of characters before the first line end of `text`.
pub open spec fn first_line_len(text: Seq<char>) -> nat
    decreases text.len(),
{
    if text.len() > 0 && text.first() != LINE_END {
        1 + first_line_len(text.drop_first())
    } else {
        0
    }
}

/// The layout that a configuration text names: the value of its first line
/// that assigns the layout key.
pub open spec fn config_layout(text: Seq<char>) -> Option<Seq<char>>
    decreases text.len(),
{
    let n = first_line_len(text) as int;
    match line_value(text.take(n)) {
        Some(value) => Some(value),
        None => if n < text.len() {
            config_layout(text.skip(n + 1))
        } else {
            None
        },
    }
}

/// Tests whether `c` is a blank.
pub fn blank(c: char) -> (r: bool)
    ensures
        r == is_blank(c),
{
    if c == LINE_END {
        false
    } else if c <= '\u{ff}' {
        ('\u{9}' <= c && c <= '\u{d}') || c == ' ' || c == '\u{85}' || c == '\u{a0}'
    } else {
        c == '\u{1680}' || ('\u{2000}' <= c && c <= '\u{200a}') || c == '\u{2028}' || c
            == '\u{2029}' || c == '\u{202f}' || c == '\u{205f}' || c == '\u{3000}'
    }
}

/// The characters of `text`, in order.
fn chars_of(text: &str) -> (chars: Vec<char>)
    ensures
        chars@ == text@,
{
    let mut chars: Vec<char> = Vec::new();
    for c in it: text.chars()
        invariant
            it.seq() == text@,
            chars@ == it.seq().take(it.index() as int),
    {
        chars.push(c);
    }
    chars
}

/// First index at or after `from` that holds no blank, or `to`.
fn skip_blanks(chars: &Vec<char>, from: usize, to: usize) -> (r: usize)
    requires
        from <= to <= chars.len(),
    ensures
        from <= r <= to,
        r == from + leading_blanks(chars@.subrange(from as int, to as int)),
{
    let mut i: usize = from;
    while i < to && blank(chars[i])
        invariant
            from <= i <= to <= chars.len(),
            forall|j: int| from <= j < i ==> is_blank(#[trigger] chars@[j]),
        decreases to - i,
    {
        i += 1;
    }
    proof {
        let line = chars@.subrange(from as int, to as int);
        assert forall|j: int| 0 <= j < i - from implies is_blank(
            #[trigger] line.take(i - from)[j],
        ) by {
            assert(line.take(i - from)[j] == chars@[from + j]);
        }
        lemma_leading_blanks(line, i - from);
    }
    i
}

/// End of the part of `from..to` that is left when its trailing blanks are
/// taken off.
fn skip_blanks_back(chars: &Vec<char>, from: usize, to: usize) -> (r: usize)
    requires
        from <= to <= chars.len(),
    ensures
        from <= r <= to,
        r == to - trailing_blanks(chars@.subrange(from as int, to as int)),
{
    let mut i: usize = to;
    while i > from && blank(chars[i - 1])
        invariant
            from <= i <= to <= chars.len(),
            forall|j: int| i <= j < to ==> is_blank(#[trigger] chars@[j]),
        decreases i - from,
    {
        i -= 1;
    }
    proof {
        let line = chars@.subrange(from as int, to as int);
        let n = to - i;
        assert forall|j: int| 0 <= j < n implies is_blank(
            #[trigger] line.skip(line.len() - n)[j],
        ) by {
            assert(line.skip(line.len() - n)[j] == chars@[i + j]);
        }
        lemma_trailing_blanks(line, n);
    }
    i
}

/// Tests whether the layout key stands at the start of `from..to`.
fn key_at(chars: &Vec<char>, from: usize, to: usize) -> (r: bool)
    requires
        from <= to <= chars.len(),
    ensures
        r == LAYOUT_KEY@.is_prefix_of(chars@.subrange(from as int, to as int)),
{
    let ghost line = chars@.subrange(from as int, to as int);
    if to - from < LAYOUT_KEY.len() {
        return false;
    }
    let mut k: usize = 0;
    while k < LAYOUT_KEY.len()
        invariant
            0 <= k <= LAYOUT_KEY@.len() <= to - from,
            to <= chars.len(),
            line == chars@.subrange(from as int, to as int),
            forall|j: int| 0 <= j < k ==> LAYOUT_KEY@[j] == #[trigger] line[j],
        decreases LAYOUT_KEY@.len() - k,
    {
        if chars[from + k] != LAYOUT_KEY[k] {
            assert(line.subrange(0, LAYOUT_KEY@.len() as int)[k as int] == line[k as int]);
            return false;
        }
        k += 1;
    }
    assert(LAYOUT_KEY@ =~= line.subrange(0, LAYOUT_KEY@.len() as int));
    true
}

/// Where the value stands that `from..to` assigns, if `from..to` is what
/// follows the key on a line that assigns it.
fn assigned_span(chars: &Vec<char>, from: usize, to: usize) -> (r: Option<(usize, usize)>)
    requires
        from <= to <= chars.len(),
    ensures
        match r {
            Some((a, b)) => from <= a <= b <= to && assigned_value(
                chars@.subrange(from as int, to as int),
            ) == Some(chars@.subrange(a as int, b as int)),
            None => assigned_value(chars@.subrange(from as int, to as int)) is None,
        },
{
    let ghost rest = chars@.subrange(from as int, to as int);
    let assign: usize = skip_blanks(chars, from, to);
    let ghost tail = chars@.subrange(assign as int, to as int);
    assert(trim_start(rest) =~= tail);
    if assign == to || chars[assign] != ASSIGN {
        return None;
    }
    let ghost padded = chars@.subrange(assign + 1, to as int);
    assert(tail.skip(1) =~= padded);
    let value_start: usize = skip_blanks(chars, assign + 1, to);
    assert(trim_start(padded) =~= chars@.subrange(value_start as int, to as int));
    let value_end: usize = skip_blanks_back(chars, value_start, to);
    assert(trim(padded) =~= chars@.subrange(value_start as int, value_end as int));
    Some((value_start, value_end))
}

/// Where the value of the assignment in `from..to` stands, if that line
/// assigns the layout key.
fn value_span(chars: &Vec<char>, from: usize, to: usize) -> (r: Option<(usize, usize)>)
    requires
        from <= to <= chars.len(),
    ensures
        match r {
            Some((a, b)) => from <= a <= b <= to && line_value(
                chars@.subrange(from as int, to as int),
            ) == Some(chars@.subrange(a as int, b as int)),
            None => line_value(chars@.subrange(from as int, to as int)) is None,
        },
{
    let ghost line = chars@.subrange(from as int, to as int);
    let key_start: usize = skip_blanks(chars, from, to);
    assert(trim_start(line) =~= chars@.subrange(key_start as int, to as int));
    if !key_at(chars, key_start, to) {
        return None;
    }
    let key_end: usize = key_start + LAYOUT_KEY.len();
    assert(trim_start(line).skip(LAYOUT_KEY@.len() as int) =~= chars@.subrange(
        key_end as int,
        to as int,
    ));
    assigned_span(chars, key_end, to)
}

/// The layout that a configuration text names: the value of its first line
/// that assigns the layout key, or `None` where no line does.
pub fn find_layout(config: &str) -> (layout: Option<String>)
    ensures
        layout.deep_view() == config_layout(config@),
{
    let chars = chars_of(config);
    let n: usize = chars.len();
    let mut start: usize = 0;
    assert(config@.skip(0) =~= config@);
    loop
        invariant
            chars@ == config@,
            n == chars.len(),
            start <= n,
            config_layout(config@) == config_layout(config@.skip(start as int)),
        decreases n - start,
    {
        let mut end: usize = start;
        while end < n && chars[end] != LINE_END
            invariant
                start <= end <= n == chars.len(),
                forall|j: int| start <= j < end ==> #[trigger] chars@[j] != LINE_END,
            decreases n - end,
        {
            end += 1;
        }
        proof {
            let rest = config@.skip(start as int);
            lemma_first_line_len(rest, end - start);
            assert(rest.take(end - start) =~= chars@.subrange(start as int, end as int));
        }
        match value_span(&chars, start, end) {
            Some((a, b)) => {
                let value = config.substring_char(a, b);
                return Some(value.to_owned());
            },
            None => {},
        }
        if end == n {
            return None;
        }
        assert(config@.skip(start as int).skip(end - start + 1) =~= config@.skip(end + 1));
        start = end + 1;
    }
}

/// A run of `n` blanks followed by a non-blank or by the end is the whole
/// leading run.
proof fn lemma_leading_blanks(s: Seq<char>, n: int)
    requires
        0 <= n <= s.len(),
        all_blank(s.take(n)),
        n < s.len() ==> !is_blank(s[n]),
    ensures
        leading_blanks(s) == n,
    decreases n,
{
    if n > 0 {
        assert(s.take(n)[0] == s[0]);
        let rest = s.drop_first();
        assert forall|i: int| 0 <= i < n - 1 implies is_blank(#[trigger] rest.take(n - 1)[i]) by {
            assert(rest.take(n - 1)[i] == s.take(n)[i + 1]);
        }
        lemma_leading_blanks(rest, n - 1);
    }
}

/// A run of `n` blanks at the end, preceded by a non-blank or by the start,
/// is the whole trailing run.
proof fn lemma_trailing_blanks(s: Seq<char>, n: int)
    requires
        0 <= n <= s.len(),
        all_blank(s.skip(s.len() - n)),
        n < s.len() ==> !is_blank(s[s.len() - n - 1]),
    ensures
        trailing_blanks(s) == n,
    decreases n,
{
    if n > 0 {
        assert(s.skip(s.len() - n)[n - 1] == s.last());
        let rest = s.drop_last();
        assert forall|i: int| 0 <= i < n - 1 implies is_blank(
            #[trigger] rest.skip(rest.len() - (n - 1))[i],
        ) by {
            assert(rest.skip(rest.len() - (n - 1))[i] == s.skip(s.len() - n)[i]);
        }
        lemma_trailing_blanks(rest, n - 1);
    }
}

/// `n` characters without a line end, followed by a line end or by the end of
/// the text, make up the first line.
proof fn lemma_first_line_len(text: Seq<char>, n: int)
    requires
        0 <= n <= text.len(),
        forall|i: int| 0 <= i < n ==> text[i] != LINE_END,
        n < text.len() ==> text[n] == LINE_END,
    ensures
        first_line_len(text) == n,
    decreases n,
{
    if n > 0 {
        lemma_first_line_len(text.drop_first(), n - 1);
    }
}

/// The leading run of `s` holds blanks only and ends at a non-blank or at
/// the end of `s`.
proof fn lemma_leading_run(s: Seq<char>)
    ensures
        leading_blanks(s) <= s.len(),
        all_blank(s.take(leading_blanks(s) as int)),
        leading_blanks(s) < s.len() ==> !is_blank(s[leading_blanks(s) as int]),
    decreases s.len(),
{
    if s.len() > 0 && is_blank(s.first()) {
        let rest = s.drop_first();
        lemma_leading_run(rest);
        let n = leading_blanks(s) as int;
        assert forall|i: int| 0 <= i < n implies is_blank(#[trigger] s.take(n)[i]) by {
            if i > 0 {
                assert(s.take(n)[i] == rest.take(n - 1)[i - 1]);
            }
        }
    }
}

/// The trailing run of `s` holds blanks only and starts after a non-blank or
/// at the start of `s`.
proof fn lemma_trailing_run(s: Seq<char>)
    ensures
        trailing_blanks(s) <= s.len(),
        all_blank(s.skip(s.len() - trailing_blanks(s))),
        trailing_blanks(s) < s.len() ==> !is_blank(s[s.len() - trailing_blanks(s) - 1]),
    decreases s.len(),
{
    if s.len() > 0 && is_blank(s.last()) {
        let rest = s.drop_last();
        lemma_trailing_run(rest);
        let n = trailing_blanks(s) as int;
        assert forall|i: int| 0 <= i < n implies is_blank(#[trigger] s.skip(s.len() - n)[i]) by {
            if i < n - 1 {
                assert(s.skip(s.len() - n)[i] == rest.skip(rest.len() - (n - 1))[i]);
            }
        }
    }
}

/// The first line of `text` holds no line end, and a line end follows it
/// unless it reaches the end of `text`.
proof fn lemma_first_line(text: Seq<char>)
    ensures
        first_line_len(text) <= text.len(),
        forall|i: int| 0 <= i < first_line_len(text) ==> #[trigger] text[i] != LINE_END,
        first_line_len(text) < text.len() ==> text[first_line_len(text) as int] == LINE_END,
    decreases text.len(),
{
    if text.len() > 0 && text.first() != LINE_END {
        let rest = text.drop_first();
        lemma_first_line(rest);
        assert forall|i: int| 0 <= i < first_line_len(text) implies #[trigger] text[i]
            != LINE_END by {
            if i > 0 {
                assert(text[i] == rest[i - 1]);
            }
        }
    }
}

/// A text is its leading run of blanks followed by a rest that does not
/// start with a blank.
proof fn lemma_split_leading(s: Seq<char>)
    ensures
        leading_blanks(s) <= s.len(),
        all_blank(s.take(leading_blanks(s) as int)),
        s == s.take(leading_blanks(s) as int) + trim_start(s),
        trim_start(s).len() > 0 ==> !is_blank(trim_start(s).first()),
{
    lemma_leading_run(s);
    assert(s =~= s.take(leading_blanks(s) as int) + trim_start(s));
}

/// A text is a rest that does not end with a blank followed by its trailing
/// run of blanks.
proof fn lemma_split_trailing(s: Seq<char>)
    ensures
        trailing_blanks(s) <= s.len(),
        all_blank(s.skip(s.len() - trailing_blanks(s))),
        s == s.take(s.len() - trailing_blanks(s)) + s.skip(s.len() - trailing_blanks(s)),
        trailing_blanks(s) < s.len() ==> !is_blank(s.take(s.len() - trailing_blanks(s)).last()),
{
    lemma_trailing_run(s);
    assert(s =~= s.take(s.len() - trailing_blanks(s)) + s.skip(s.len() - trailing_blanks(s)));
}

/// A text that starts with a prefix is the prefix followed by what is left
/// when the prefix is skipped.
proof fn lemma_split_prefix(prefix: Seq<char>, s: Seq<char>)
    requires
        prefix.is_prefix_of(s),
    ensures
        s == prefix + s.skip(prefix.len() as int),
{
    assert(s =~= prefix + s.skip(prefix.len() as int));
}

/// A trimmed text is left when the trailing blanks are taken off a text that
/// does not start with a blank.
proof fn lemma_trimmed_rest(start: Seq<char>)
    requires
        start.len() > 0 ==> !is_blank(start.first()),
    ensures
        is_trimmed(start.take(start.len() - trailing_blanks(start))),
{
    lemma_split_trailing(start);
    let value = start.take(start.len() - trailing_blanks(start));
    if value.len() > 0 {
        assert(value.first() == start.first());
    }
}

/// A text that is split six times, each time into a part and a rest, is
/// its seven parts in order.
proof fn lemma_join_parts(
    whole: Seq<char>,
    parts: (Seq<char>, Seq<char>, Seq<char>, Seq<char>, Seq<char>, Seq<char>, Seq<char>),
    rests: (Seq<char>, Seq<char>, Seq<char>, Seq<char>, Seq<char>),
)
    requires
        whole == parts.0 + rests.0,
        rests.0 == parts.1 + rests.1,
        rests.1 == parts.2 + rests.2,
        rests.2 == parts.3 + rests.3,
        rests.3 == parts.4 + rests.4,
        rests.4 == parts.5 + parts.6,
    ensures
        whole == parts.0 + parts.1 + parts.2 + parts.3 + parts.4 + parts.5 + parts.6,
{
    let joined = parts.0 + parts.1 + parts.2 + parts.3 + parts.4;
    assert(joined + (parts.5 + parts.6) =~= joined + parts.5 + parts.6);
    assert(parts.0 + parts.1 + parts.2 + parts.3 + (parts.4 + rests.4) =~= joined + rests.4);
    assert(parts.0 + parts.1 + parts.2 + (parts.3 + rests.3) =~= parts.0 + parts.1 + parts.2
        + parts.3 + rests.3);
    assert(parts.0 + parts.1 + (parts.2 + rests.2) =~= parts.0 + parts.1 + parts.2 + rests.2);
    assert(parts.0 + (parts.1 + rests.1) =~= parts.0 + parts.1 + rests.1);
}

/// Blanks in front of a text that starts with a non-blank are its leading
/// run.
proof fn lemma_trim_start_of_padded(blanks: Seq<char>, rest: Seq<char>)
    requires
        all_blank(blanks),
        rest.len() > 0 ==> !is_blank(rest.first()),
    ensures
        trim_start(blanks + rest) == rest,
{
    let s = blanks + rest;
    assert(s.take(blanks.len() as int) =~= blanks);
    lemma_leading_blanks(s, blanks.len() as int);
    assert(s.skip(blanks.len() as int) =~= rest);
}

/// A trimmed value keeps nothing but itself when the blanks around it are
/// taken off.
proof fn lemma_trim_of_padded(before: Seq<char>, value: Seq<char>, after: Seq<char>)
    requires
        all_blank(before),
        all_blank(after),
        is_trimmed(value),
    ensures
        trim(before + value + after) == value,
{
    let s = before + value + after;
    if value.len() == 0 {
        assert(s =~= (before + after) + Seq::<char>::empty());
        lemma_trim_start_of_padded(before + after, Seq::empty());
        assert(trim_start(s).len() == 0);
        assert(trim(s) =~= value);
    } else {
        assert(s =~= before + (value + after));
        lemma_trim_start_of_padded(before, value + after);
        let t = value + after;
        assert(t.skip(t.len() - after.len()) =~= after);
        lemma_trailing_blanks(t, after.len() as int);
        assert(t.take(t.len() - after.len()) =~= value);
    }
}

/// Blanks are tolerated before the key, on both sides of the `=` and after
/// the value: such a line assigns exactly the value.
pub proof fn lemma_assignment_tolerates_blanks(
    indent: Seq<char>,
    before_assign: Seq<char>,
    after_assign: Seq<char>,
    value: Seq<char>,
    trailer: Seq<char>,
)
    requires
        all_blank(indent),
        all_blank(before_assign),
        all_blank(after_assign),
        all_blank(trailer),
        is_trimmed(value),
    ensures
        line_value(
            indent + LAYOUT_KEY@ + before_assign + seq![ASSIGN] + after_assign + value + trailer,
        ) == Some(value),
{
    let key = LAYOUT_KEY@;
    let padded = after_assign + value + trailer;
    let assigned = seq![ASSIGN] + padded;
    let keyed = key + (before_assign + assigned);
    let line = indent + key + before_assign + seq![ASSIGN] + after_assign + value + trailer;
    assert(line =~= indent + keyed);
    assert(!is_blank(keyed.first()));
    lemma_trim_start_of_padded(indent, keyed);
    assert(key.is_prefix_of(keyed));
    assert(keyed.skip(key.len() as int) =~= before_assign + assigned);
    assert(!is_blank(assigned.first()));
    lemma_trim_start_of_padded(before_assign, assigned);
    assert(assigned.skip(1) =~= padded);
    lemma_trim_of_padded(after_assign, value, trailer);
}

/// A line that assigns the layout key is made of blanks, the key, blanks,
/// `=`, blanks, the value and blanks, and the value is trimmed. The four runs
/// of blanks are returned in that order.
pub proof fn lemma_assignment_shape(line: Seq<char>) -> (runs: (
    Seq<char>,
    Seq<char>,
    Seq<char>,
    Seq<char>,
))
    requires
        line_value(line) is Some,
    ensures
        all_blank(runs.0),
        all_blank(runs.1),
        all_blank(runs.2),
        all_blank(runs.3),
        is_trimmed(line_value(line)->0),
        line == runs.0 + LAYOUT_KEY@ + runs.1 + seq![ASSIGN] + runs.2 + line_value(line)->0
            + runs.3,
{
    let key = LAYOUT_KEY@;
    let head = trim_start(line);
    let keyed = head.skip(key.len() as int);
    let tail = trim_start(keyed);
    let padded = tail.skip(1);
    let start = trim_start(padded);
    let value = start.take(start.len() - trailing_blanks(start));
    let indent = line.take(leading_blanks(line) as int);
    let before_assign = keyed.take(leading_blanks(keyed) as int);
    let after_assign = padded.take(leading_blanks(padded) as int);
    let trailer = start.skip(start.len() - trailing_blanks(start));
    let assign = seq![ASSIGN];
    assert(line_value(line) == Some(value));
    assert(line == indent + head) by {
        lemma_split_leading(line);
    }
    assert(head == key + keyed) by {
        lemma_split_prefix(key, head);
    }
    assert(keyed == before_assign + tail) by {
        lemma_split_leading(keyed);
    }
    assert(tail == assign + padded) by {
        lemma_split_prefix(assign, tail);
    }
    assert(padded == after_assign + start) by {
        lemma_split_leading(padded);
    }
    assert(start == value + trailer) by {
        lemma_split_trailing(start);
    }
    assert(is_trimmed(value)) by {
        lemma_split_leading(padded);
        lemma_trimmed_rest(start);
    }
    assert(all_blank(indent) && all_blank(before_assign) && all_blank(after_assign) && all_blank(
        trailer,
    )) by {
        lemma_split_leading(line);
        lemma_split_leading(keyed);
        lemma_split_leading(padded);
        lemma_split_trailing(start);
    }
    lemma_join_parts(
        line,
        (indent, key, before_assign, assign, after_assign, value, trailer),
        (head, keyed, tail, padded, start),
    );
    (indent, before_assign, after_assign, trailer)
}

/// A text of one line names what that line assigns.
pub proof fn lemma_single_line(line: Seq<char>)
    requires
        !line.contains(LINE_END),
    ensures
        config_layout(line) == line_value(line),
{
    assert forall|i: int| 0 <= i < line.len() implies line[i] != LINE_END by {
        if line[i] == LINE_END {
            assert(line.contains(LINE_END));
        }
    }
    lemma_first_line_len(line, line.len() as int);
    assert(line.take(line.len() as int) =~= line);
}

/// Only the first assignment counts: of two texts joined by a line end, the
/// first decides where it names a layout, and the second where it does not.
pub proof fn lemma_first_assignment_wins(first: Seq<char>, second: Seq<char>)
    ensures
        config_layout(first + seq![LINE_END] + second) == match config_layout(first) {
            Some(value) => Some(value),
            None => config_layout(second),
        },
    decreases first.len(),
{
    let text = first + seq![LINE_END] + second;
    let n = first_line_len(first) as int;
    lemma_first_line(first);
    assert forall|i: int| 0 <= i < n implies text[i] != LINE_END by {
        assert(text[i] == first[i]);
    }
    lemma_first_line_len(text, n);
    assert(text.take(n) =~= first.take(n));
    if line_value(first.take(n)) is None {
        if n < first.len() {
            assert(text.skip(n + 1) =~= first.skip(n + 1) + seq![LINE_END] + second);
            lemma_first_assignment_wins(first.skip(n + 1), second);
        } else {
            assert(text.skip(n + 1) =~= second);
        }
    }
}

} // verus!
