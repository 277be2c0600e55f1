//! Character sequences: the text operations that the other modules share.
//!
//! Text is modelled as `Seq<char>`. Executable code works on `Vec<char>`,
//! which `to_chars` and `from_chars` convert from and to strings.

use vstd::prelude::*;

verus! {

/// `String::push` appends one character to the end of the string.
pub assume_specification[ String::push ](s: &mut String, ch: char)
    ensures
        final(s)@ == old(s)@.push(ch),
;

/// `needle` stands in `hay` at position `at`.
pub open spec fn occurs_at(hay: Seq<char>, needle: Seq<char>, at: int) -> bool {
    &&& 0 <= at
    &&& at + needle.len() <= hay.len()
    &&& hay.subrange(at, at + needle.len()) == needle
}

/// `needle` stands somewhere in `hay`.
pub open spec fn contains(hay: Seq<char>, needle: Seq<char>) -> bool {
    exists|at: int| occurs_at(hay, needle, at)
}

/// `prefix` stands at the start of `text`.
pub open spec fn starts_with(text: Seq<char>, prefix: Seq<char>) -> bool {
    occurs_at(text, prefix, 0)
}

/// `text` with every `from` replaced by `to`.
pub open spec fn replace_char(text: Seq<char>, from: char, to: char) -> Seq<char> {
    Seq::new(text.len(), |i: int| if text[i] == from { to } else { text[i] })
}

/// The characters of `s`, in order.
pub fn to_chars(s: &str) -> (out: Vec<char>)
    ensures
        out@ == s@,
{
    let mut out: Vec<char> = Vec::new();
    for c in it: s.chars()
        invariant
            out@ == it.seq().take(it.index() as int),
    {
        out.push(c);
    }
    out
}

/// The string whose characters are `chars`.
pub fn from_chars(chars: &Vec<char>) -> (out: String)
    ensures
        out@ == chars@,
{
    let mut out = String::new();
    let mut i: usize = 0;
    while i < chars.len()
        invariant
            i <= chars.len(),
            out@ == chars@.take(i as int),
        decreases chars.len() - i,
    {
        out.push(chars[i]);
        i += 1;
    }
    out
}

/// Whether `needle` stands in `hay` at position `at`.
pub fn occurs_at_chars(hay: &Vec<char>, needle: &Vec<char>, at: usize) -> (found: bool)
    ensures
        found == occurs_at(hay@, needle@, at as int),
{
    if needle.len() > hay.len() || at > hay.len() - needle.len() {
        return false;
    }
    let mut k: usize = 0;
    while k < needle.len()
        invariant
            k <= needle.len(),
            at + needle.len() <= hay.len(),
            forall|j: int| 0 <= j < k ==> hay@[at + j] == needle@[j],
        decreases needle.len() - k,
    {
        if hay[at + k] != needle[k] {
            proof {
                let sub = hay@.subrange(at as int, at + needle.len());
                assert(sub[k as int] == hay@[at + k]);
            }
            return false;
        }
        k += 1;
    }
    assert(hay@.subrange(at as int, at + needle.len()) =~= needle@);
    true
}

/// Whether `needle` stands somewhere in `hay`.
pub fn contains_chars(hay: &Vec<char>, needle: &Vec<char>) -> (found: bool)
    ensures
        found == contains(hay@, needle@),
{
    if needle.len() > hay.len() {
        return false;
    }
    let last: usize = hay.len() - needle.len();
    let mut at: usize = 0;
    loop
        invariant
            at <= last,
            last == hay.len() - needle.len(),
            needle.len() <= hay.len(),
            forall|j: int| 0 <= j < at ==> !occurs_at(hay@, needle@, j),
        decreases last - at,
    {
        if occurs_at_chars(hay, needle, at) {
            return true;
        }
        if at == last {
            return false;
        }
        at += 1;
    }
}

/// Whether `text` begins with `prefix`.
pub fn starts_with_chars(text: &Vec<char>, prefix: &Vec<char>) -> (found: bool)
    ensures
        found == starts_with(text@, prefix@),
{
    occurs_at_chars(text, prefix, 0)
}

/// A copy of `text` with every `from` replaced by `to`.
pub fn replace_char_chars(text: &Vec<char>, from: char, to: char) -> (out: Vec<char>)
    ensures
        out@ == replace_char(text@, from, to),
{
    let mut out: Vec<char> = Vec::new();
    let mut i: usize = 0;
    while i < text.len()
        invariant
            i <= text.len(),
            out@ == replace_char(text@, from, to).take(i as int),
        decreases text.len() - i,
    {
        let c = text[i];
        if c == from {
            out.push(to);
        } else {
            out.push(c);
        }
        proof {
            assert(out@ =~= replace_char(text@, from, to).take(i + 1));
        }
        i += 1;
    }
    assert(out@ =~= replace_char(text@, from, to));
    out
}

/// The views of a vector of character vectors.
pub open spec fn views(rows: Seq<Vec<char>>) -> Seq<Seq<char>> {
    rows.map_values(|row: Vec<char>| row@)
}

/// The number of characters before the first line feed of `text`, or the
/// length of `text` where it holds none.
pub open spec fn first_line_len(text: Seq<char>) -> nat
    decreases text.len(),
{
    if text.len() == 0 || text[0] == '\n' {
        0
    } else {
        1 + first_line_len(text.skip(1))
    }
}

/// `line` without one carriage return at its end.
pub open spec fn without_cr(line: Seq<char>) -> Seq<char> {
    if line.len() > 0 && line.last() == '\r' {
        line.drop_last()
    } else {
        line
    }
}

/// The lines of `text`, as a buffered reader hands them out: a line ends at a
/// line feed, which is dropped together with one carriage return before it;
/// what follows the last line feed is a line only if it is not empty, and it
/// keeps a carriage return at its end.
pub open spec fn lines_of(text: Seq<char>) -> Seq<Seq<char>>
    decreases text.len(),
{
    if text.len() == 0 {
        Seq::empty()
    } else {
        let n = first_line_len(text) as int;
        if n >= text.len() {
            seq![text]
        } else {
            seq![without_cr(text.take(n))] + lines_of(text.skip(n + 1))
        }
    }
}

/// The text that holds each of `lines` followed by a line feed.
pub open spec fn join_lines(lines: Seq<Seq<char>>) -> Seq<char>
    decreases lines.len(),
{
    if lines.len() == 0 {
        Seq::empty()
    } else {
        join_lines(lines.drop_last()) + lines.last() + seq!['\n']
    }
}

/// `first_line_len` is the one position up to which no line feed stands and
/// at which one does, or the text ends.
pub proof fn lemma_first_line_len(text: Seq<char>, n: int)
    requires
        0 <= n <= text.len(),
        forall|j: int| 0 <= j < n ==> text[j] != '\n',
        n == text.len() || text[n] == '\n',
    ensures
        first_line_len(text) == n,
    decreases text.len(),
{
    if text.len() == 0 || text[0] == '\n' {
    } else {
        lemma_first_line_len(text.skip(1), n - 1);
    }
}

/// What `first_line_len` returns lies within the text, no line feed stands
/// before it, and one stands at it unless the text ends there.
pub proof fn lemma_first_line_len_bounds(text: Seq<char>)
    ensures
        first_line_len(text) <= text.len(),
        forall|j: int| 0 <= j < first_line_len(text) ==> text[j] != '\n',
        first_line_len(text) < text.len() ==> text[first_line_len(text) as int] == '\n',
    decreases text.len(),
{
    if text.len() == 0 || text[0] == '\n' {
    } else {
        let rest = text.skip(1);
        lemma_first_line_len_bounds(rest);
        assert forall|j: int| 0 <= j < first_line_len(text) implies text[j] != '\n' by {
            if j > 0 {
                assert(rest[j - 1] == text[j]);
            }
        }
        if first_line_len(text) < text.len() {
            assert(rest[first_line_len(rest) as int] == text[first_line_len(text) as int]);
        }
    }
}

/// The lines of `text`.
pub fn split_lines(text: &Vec<char>) -> (lines: Vec<Vec<char>>)
    ensures
        views(lines@) == lines_of(text@),
{
    let mut lines: Vec<Vec<char>> = Vec::new();
    let mut line: Vec<char> = Vec::new();
    let mut start: usize = 0;
    let mut i: usize = 0;
    proof {
        assert(text@.skip(0) =~= text@);
        assert(views(lines@) + lines_of(text@) =~= lines_of(text@));
        assert(line@ =~= text@.subrange(0, 0));
    }
    while i < text.len()
        invariant
            start <= i <= text.len(),
            line@ == text@.subrange(start as int, i as int),
            forall|j: int| start <= j < i ==> text@[j] != '\n',
            lines_of(text@) == views(lines@) + lines_of(text@.skip(start as int)),
        decreases text.len() - i,
    {
        let c = text[i];
        if c == '\n' {
            proof {
                let rest = text@.skip(start as int);
                assert forall|j: int| 0 <= j < i - start implies rest[j] != '\n' by {
                    assert(rest[j] == text@[start + j]);
                }
                lemma_first_line_len(rest, i - start);
                assert(rest.take(i - start) =~= line@);
                assert(rest.skip(i - start + 1) =~= text@.skip(i + 1));
            }
            let n = line.len();
            if n > 0 && line[n - 1] == '\r' {
                line.pop();
            }
            proof {
                assert(line@ =~= without_cr(text@.subrange(start as int, i as int)));
            }
            let ghost before = views(lines@);
            let ghost done = line@;
            lines.push(line);
            line = Vec::new();
            start = i + 1;
            proof {
                assert(views(lines@) =~= before + seq![done]);
                assert(text@.subrange(start as int, i + 1) =~= Seq::<char>::empty());
            }
        } else {
            line.push(c);
            proof {
                assert(line@ =~= text@.subrange(start as int, i + 1));
            }
        }
        i += 1;
    }
    if start < text.len() {
        proof {
            let rest = text@.skip(start as int);
            assert forall|j: int| 0 <= j < rest.len() implies rest[j] != '\n' by {
                assert(rest[j] == text@[start + j]);
            }
            lemma_first_line_len(rest, rest.len() as int);
            assert(line@ =~= rest);
        }
        let ghost before = views(lines@);
        let ghost done = line@;
        lines.push(line);
        proof {
            assert(views(lines@) =~= before + seq![done]);
        }
    } else {
        proof {
            assert(text@.skip(start as int) =~= Seq::<char>::empty());
            assert(views(lines@) + Seq::<Seq<char>>::empty() =~= views(lines@));
        }
    }
    lines
}

/// Appends the characters of `tail` to `text`.
pub fn push_all(text: &mut Vec<char>, tail: &Vec<char>)
    ensures
        final(text)@ == old(text)@ + tail@,
{
    let mut i: usize = 0;
    while i < tail.len()
        invariant
            i <= tail.len(),
            text@ == old(text)@ + tail@.take(i as int),
        decreases tail.len() - i,
    {
        text.push(tail[i]);
        proof {
            assert(text@ =~= old(text)@ + tail@.take(i + 1));
        }
        i += 1;
    }
    assert(tail@.take(tail.len() as int) =~= tail@);
}

/// Appends the characters of `tail` to `text`.
pub fn push_str(text: &mut Vec<char>, tail: &str)
    ensures
        final(text)@ == old(text)@ + tail@,
{
    let tail_chars = to_chars(tail);
    push_all(text, &tail_chars);
}

/// Some line of `lines` holds `needle`.
pub open spec fn any_contains(lines: Seq<Seq<char>>, needle: Seq<char>) -> bool {
    exists|i: int| 0 <= i < lines.len() && contains(#[trigger] lines[i], needle)
}

/// The lines of `lines` that do not hold `needle`, in their order.
pub open spec fn lines_without(lines: Seq<Seq<char>>, needle: Seq<char>) -> Seq<Seq<char>>
    decreases lines.len(),
{
    if lines.len() == 0 {
        Seq::empty()
    } else if contains(lines.last(), needle) {
        lines_without(lines.drop_last(), needle)
    } else {
        lines_without(lines.drop_last(), needle).push(lines.last())
    }
}

/// Whether some line of `lines` holds `needle`.
pub fn any_line_contains(lines: &Vec<Vec<char>>, needle: &Vec<char>) -> (found: bool)
    ensures
        found == any_contains(views(lines@), needle@),
{
    let mut i: usize = 0;
    while i < lines.len()
        invariant
            i <= lines.len(),
            forall|j: int| 0 <= j < i ==> !contains(#[trigger] views(lines@)[j], needle@),
        decreases lines.len() - i,
    {
        if contains_chars(&lines[i], needle) {
            proof {
                assert(contains(views(lines@)[i as int], needle@));
            }
            return true;
        }
        i += 1;
    }
    false
}

/// The lines of `lines` that do not hold `needle`, each followed by a line
/// feed, as one text.
pub fn join_lines_without(lines: &Vec<Vec<char>>, needle: &Vec<char>) -> (out: Vec<char>)
    ensures
        out@ == join_lines(lines_without(views(lines@), needle@)),
{
    let mut out: Vec<char> = Vec::new();
    let mut i: usize = 0;
    while i < lines.len()
        invariant
            i <= lines.len(),
            out@ == join_lines(lines_without(views(lines@).take(i as int), needle@)),
        decreases lines.len() - i,
    {
        let ghost before = views(lines@).take(i as int);
        let ghost next = views(lines@).take(i + 1);
        proof {
            assert(next.drop_last() =~= before);
            assert(next.last() == lines@[i as int]@);
        }
        if !contains_chars(&lines[i], needle) {
            push_all(&mut out, &lines[i]);
            out.push('\n');
            proof {
                assert(lines_without(next, needle@).drop_last() =~= lines_without(
                    before,
                    needle@,
                ));
                assert(out@ =~= join_lines(lines_without(next, needle@)));
            }
        }
        i += 1;
    }
    proof {
        assert(views(lines@).take(lines.len() as int) =~= views(lines@));
    }
    out
}

/// No line feed stands in `line`.
pub open spec fn no_line_feed(line: Seq<char>) -> bool {
    forall|j: int| 0 <= j < line.len() ==> line[j] != '\n'
}

/// `text` is empty or ends with a line feed: each of its lines is complete.
pub open spec fn ends_lines(text: Seq<char>) -> bool {
    text.len() == 0 || text.last() == '\n'
}

/// `text` ends its lines with a line feed alone: each line is complete, and
/// no carriage return stands before a line feed.
pub open spec fn is_unix_text(text: Seq<char>) -> bool {
    &&& ends_lines(text)
    &&& forall|j: int| 0 < j < text.len() && #[trigger] text[j] == '\n' ==> text[j - 1] != '\r'
}

/// How many lines of `lines` hold `needle`.
pub open spec fn count_containing(lines: Seq<Seq<char>>, needle: Seq<char>) -> nat
    decreases lines.len(),
{
    if lines.len() == 0 {
        0
    } else if contains(lines.last(), needle) {
        count_containing(lines.drop_last(), needle) + 1
    } else {
        count_containing(lines.drop_last(), needle)
    }
}

/// The middle of three joined texts stands in the whole.
pub proof fn lemma_contains_middle(before: Seq<char>, needle: Seq<char>, after: Seq<char>)
    ensures
        contains(before + needle + after, needle),
{
    let whole = before + needle + after;
    assert(whole.subrange(before.len() as int, (before.len() + needle.len()) as int) =~= needle);
    assert(occurs_at(whole, needle, before.len() as int));
}

/// What stands in a part of a text stands in the text.
pub proof fn lemma_contains_part(whole: Seq<char>, from: int, to: int, needle: Seq<char>)
    requires
        0 <= from <= to <= whole.len(),
        contains(whole.subrange(from, to), needle),
    ensures
        contains(whole, needle),
{
    let part = whole.subrange(from, to);
    let at = choose|at: int| occurs_at(part, needle, at);
    assert(whole.subrange(from + at, from + at + needle.len()) =~= part.subrange(
        at,
        at + needle.len(),
    ));
    assert(occurs_at(whole, needle, from + at));
}

/// No line holds `needle` exactly when none is counted.
pub proof fn lemma_count_zero(lines: Seq<Seq<char>>, needle: Seq<char>)
    ensures
        count_containing(lines, needle) == 0 <==> !any_contains(lines, needle),
    decreases lines.len(),
{
    if lines.len() > 0 {
        let front = lines.drop_last();
        lemma_count_zero(front, needle);
        if any_contains(lines, needle) {
            let k = choose|k: int| 0 <= k < lines.len() && contains(#[trigger] lines[k], needle);
            if k < front.len() {
                assert(front[k] == lines[k]);
            }
        }
        if any_contains(front, needle) {
            let k = choose|k: int| 0 <= k < front.len() && contains(#[trigger] front[k], needle);
            assert(front[k] == lines[k]);
        }
        if contains(lines.last(), needle) {
            assert(contains(lines[lines.len() - 1], needle));
        }
    }
}

/// Where no line holds `needle`, every line is kept.
pub proof fn lemma_lines_without_none(lines: Seq<Seq<char>>, needle: Seq<char>)
    requires
        !any_contains(lines, needle),
    ensures
        lines_without(lines, needle) == lines,
    decreases lines.len(),
{
    if lines.len() > 0 {
        let front = lines.drop_last();
        assert(!contains(lines[lines.len() - 1], needle));
        assert forall|k: int| 0 <= k < front.len() implies !contains(
            #[trigger] front[k],
            needle,
        ) by {
            assert(front[k] == lines[k]);
        }
        lemma_lines_without_none(front, needle);
        assert(front.push(lines.last()) =~= lines);
    } else {
        assert(lines =~= Seq::<Seq<char>>::empty());
    }
}

/// No kept line holds `needle`, and each kept line is one of `lines`.
pub proof fn lemma_lines_without_holds_none(lines: Seq<Seq<char>>, needle: Seq<char>)
    ensures
        !any_contains(lines_without(lines, needle), needle),
        forall|k: int|
            0 <= k < lines_without(lines, needle).len() ==> lines.contains(
                #[trigger] lines_without(lines, needle)[k],
            ),
    decreases lines.len(),
{
    if lines.len() > 0 {
        let front = lines.drop_last();
        lemma_lines_without_holds_none(front, needle);
        let kept = lines_without(lines, needle);
        let kept_front = lines_without(front, needle);
        assert forall|k: int| 0 <= k < kept.len() implies lines.contains(#[trigger] kept[k])
            && !contains(kept[k], needle) by {
            if k < kept_front.len() {
                assert(kept[k] == kept_front[k]);
                let at = choose|at: int| 0 <= at < front.len() && front[at] == kept_front[k];
                assert(lines[at] == kept[k]);
            } else {
                assert(kept[k] == lines[lines.len() - 1]);
            }
        }
    }
}

/// The lines of a text that ends its lines, followed by another text, are
/// the lines of the one and then those of the other.
pub proof fn lemma_lines_of_concat(head: Seq<char>, tail: Seq<char>)
    requires
        ends_lines(head),
    ensures
        lines_of(head + tail) == lines_of(head) + lines_of(tail),
    decreases head.len(),
{
    if head.len() == 0 {
        assert(head + tail =~= tail);
        assert(lines_of(head) + lines_of(tail) =~= lines_of(tail));
    } else {
        lemma_first_line_len_bounds(head);
        let n = first_line_len(head) as int;
        if n >= head.len() {
            assert(head[head.len() - 1] != '\n');
        }
        let whole = head + tail;
        assert forall|j: int| 0 <= j < n implies whole[j] != '\n' by {
            assert(whole[j] == head[j]);
        }
        assert(whole[n] == head[n]);
        lemma_first_line_len(whole, n);
        assert(whole.take(n) =~= head.take(n));
        let rest = head.skip(n + 1);
        assert(whole.skip(n + 1) =~= rest + tail);
        if rest.len() > 0 {
            assert(rest.last() == head.last());
        }
        lemma_lines_of_concat(rest, tail);
        assert(lines_of(whole) =~= lines_of(head) + lines_of(tail));
    }
}

/// A text without a line feed, followed by one, is one line.
pub proof fn lemma_lines_of_one(line: Seq<char>)
    requires
        no_line_feed(line),
    ensures
        lines_of(line + seq!['\n']) == seq![without_cr(line)],
{
    let text = line + seq!['\n'];
    assert forall|j: int| 0 <= j < line.len() implies text[j] != '\n' by {
        assert(text[j] == line[j]);
    }
    assert(text[line.len() as int] == '\n');
    lemma_first_line_len(text, line.len() as int);
    assert(text.take(line.len() as int) =~= line);
    assert(text.skip(line.len() as int + 1) =~= Seq::<char>::empty());
    assert(lines_of(text.skip(line.len() as int + 1)) =~= Seq::<Seq<char>>::empty());
    assert(lines_of(text) =~= seq![without_cr(line)]);
}

/// Joined lines end their lines.
pub proof fn lemma_join_ends_lines(lines: Seq<Seq<char>>)
    ensures
        ends_lines(join_lines(lines)),
{
    if lines.len() > 0 {
        let text = join_lines(lines.drop_last()) + lines.last() + seq!['\n'];
        assert(text.last() == '\n');
    }
}

/// No line feed stands in a line of a text.
pub proof fn lemma_lines_hold_no_line_feed(text: Seq<char>)
    ensures
        forall|k: int| 0 <= k < lines_of(text).len() ==> no_line_feed(#[trigger] lines_of(text)[k]),
    decreases text.len(),
{
    if text.len() > 0 {
        lemma_first_line_len_bounds(text);
        let n = first_line_len(text) as int;
        if n < text.len() {
            let rest = text.skip(n + 1);
            lemma_lines_hold_no_line_feed(rest);
            let first = without_cr(text.take(n));
            assert(no_line_feed(first)) by {
                assert forall|j: int| 0 <= j < first.len() implies first[j] != '\n' by {
                    assert(first[j] == text[j]);
                }
            }
            assert forall|k: int| 0 <= k < lines_of(text).len() implies no_line_feed(
                #[trigger] lines_of(text)[k],
            ) by {
                if k > 0 {
                    assert(lines_of(text)[k] == lines_of(rest)[k - 1]);
                }
            }
        }
    }
}

/// Reading joined lines back gives the lines, each without a carriage
/// return at its end.
pub proof fn lemma_lines_of_join(lines: Seq<Seq<char>>)
    requires
        forall|k: int| 0 <= k < lines.len() ==> no_line_feed(#[trigger] lines[k]),
    ensures
        lines_of(join_lines(lines)) == lines.map_values(|line: Seq<char>| without_cr(line)),
    decreases lines.len(),
{
    let stripped = lines.map_values(|line: Seq<char>| without_cr(line));
    if lines.len() == 0 {
        assert(lines_of(join_lines(lines)) =~= stripped);
    } else {
        let front = lines.drop_last();
        assert forall|k: int| 0 <= k < front.len() implies no_line_feed(#[trigger] front[k]) by {
            assert(front[k] == lines[k]);
        }
        lemma_lines_of_join(front);
        lemma_join_ends_lines(front);
        let last = lines.last();
        assert(no_line_feed(lines[lines.len() - 1]));
        assert(join_lines(lines) =~= join_lines(front) + (last + seq!['\n']));
        lemma_lines_of_concat(join_lines(front), last + seq!['\n']);
        lemma_lines_of_one(last);
        assert(lines_of(join_lines(lines)) =~= stripped);
    }
}

/// Joining distributes over joining the lists of lines.
pub proof fn lemma_join_concat(head: Seq<Seq<char>>, tail: Seq<Seq<char>>)
    ensures
        join_lines(head + tail) == join_lines(head) + join_lines(tail),
    decreases tail.len(),
{
    if tail.len() == 0 {
        assert(head + tail =~= head);
        assert(join_lines(head) + join_lines(tail) =~= join_lines(head));
    } else {
        let whole = head + tail;
        assert(whole.drop_last() =~= head + tail.drop_last());
        assert(whole.last() == tail.last());
        lemma_join_concat(head, tail.drop_last());
        assert(join_lines(whole) =~= join_lines(head) + join_lines(tail));
    }
}

/// Splitting a text that ends its lines with a line feed alone, and joining
/// the lines again, gives the text back.
pub proof fn lemma_join_of_lines(text: Seq<char>)
    requires
        is_unix_text(text),
    ensures
        join_lines(lines_of(text)) == text,
    decreases text.len(),
{
    if text.len() == 0 {
        assert(join_lines(lines_of(text)) =~= text);
    } else {
        lemma_first_line_len_bounds(text);
        let n = first_line_len(text) as int;
        if n >= text.len() {
            assert(text[text.len() - 1] != '\n');
        }
        let first = text.take(n);
        let rest = text.skip(n + 1);
        if n > 0 {
            assert(first.last() == text[n - 1]);
        }
        assert(without_cr(first) == first);
        assert(is_unix_text(rest)) by {
            if rest.len() > 0 {
                assert(rest.last() == text.last());
            }
            assert forall|j: int| 0 < j < rest.len() && #[trigger] rest[j] == '\n' implies rest[j - 1]
                != '\r' by {
                assert(rest[j] == text[n + 1 + j]);
                assert(rest[j - 1] == text[n + j]);
            }
        }
        lemma_join_of_lines(rest);
        lemma_join_concat(seq![first], lines_of(rest));
        assert(seq![first].drop_last() =~= Seq::<Seq<char>>::empty());
        assert(join_lines(seq![first].drop_last()) =~= Seq::<char>::empty());
        assert(join_lines(seq![first]) =~= first + seq!['\n']);
        assert(first + seq!['\n'] + rest =~= text);
    }
}

/// A text that does not end its last line, followed by a text without a
/// line feed and by a line feed: the last line grows, the others stay.
pub proof fn lemma_lines_of_grown(text: Seq<char>, more: Seq<char>)
    requires
        !ends_lines(text),
        no_line_feed(more),
    ensures
        lines_of(text).len() > 0,
        lines_of(text + more + seq!['\n']) == lines_of(text).drop_last().push(
            without_cr(lines_of(text).last() + more),
        ),
    decreases text.len(),
{
    lemma_first_line_len_bounds(text);
    let n = first_line_len(text) as int;
    let whole = text + more + seq!['\n'];
    if n >= text.len() {
        let line = text + more;
        assert(no_line_feed(line)) by {
            assert forall|j: int| 0 <= j < line.len() implies line[j] != '\n' by {
                if j < text.len() {
                    assert(line[j] == text[j]);
                } else {
                    assert(line[j] == more[j - text.len()]);
                }
            }
        }
        lemma_lines_of_one(line);
        assert(lines_of(text) =~= seq![text]);
        assert(seq![text].drop_last().push(without_cr(text + more)) =~= seq![
            without_cr(text + more),
        ]);
    } else {
        let rest = text.skip(n + 1);
        assert(rest.len() > 0) by {
            if rest.len() == 0 {
                assert(text.last() == text[n]);
            }
        }
        assert(rest.last() == text.last());
        assert forall|j: int| 0 <= j < n implies whole[j] != '\n' by {
            assert(whole[j] == text[j]);
        }
        assert(whole[n] == text[n]);
        lemma_first_line_len(whole, n);
        assert(whole.take(n) =~= text.take(n));
        assert(whole.skip(n + 1) =~= rest + more + seq!['\n']);
        lemma_lines_of_grown(rest, more);
        let first = without_cr(text.take(n));
        assert(lines_of(text) =~= seq![first] + lines_of(rest));
        assert(lines_of(text).last() == lines_of(rest).last());
        assert(lines_of(text).drop_last() =~= seq![first] + lines_of(rest).drop_last());
        assert(lines_of(whole) =~= lines_of(text).drop_last().push(
            without_cr(lines_of(text).last() + more),
        ));
    }
}

/// Whether two texts hold the same characters.
pub fn same_chars(left: &Vec<char>, right: &Vec<char>) -> (same: bool)
    ensures
        same == (left@ == right@),
{
    if left.len() != right.len() {
        return false;
    }
    let mut i: usize = 0;
    while i < left.len()
        invariant
            i <= left.len(),
            left.len() == right.len(),
            forall|j: int| 0 <= j < i ==> left@[j] == right@[j],
        decreases left.len() - i,
    {
        if left[i] != right[i] {
            return false;
        }
        i += 1;
    }
    assert(left@ =~= right@);
    true
}

/// Whether two strings hold the same characters.
pub fn same_text(left: &str, right: &str) -> (same: bool)
    ensures
        same == (left@ == right@),
{
    let left_chars = to_chars(left);
    let right_chars = to_chars(right);
    same_chars(&left_chars, &right_chars)
}

/// The views of a vector of strings.
pub open spec fn texts(rows: Seq<String>) -> Seq<Seq<char>> {
    rows.map_values(|row: String| row@)
}

/// A copy of `text`.
pub fn copy_text(text: &str) -> (copy: String)
    ensures
        copy@ == text@,
{
    let chars = to_chars(text);
    from_chars(&chars)
}

/// The position of the first string of `rows` that reads `item`, if one does.
pub fn position_of(rows: &Vec<String>, item: &str) -> (found: Option<usize>)
    ensures
        found is None <==> !texts(rows@).contains(item@),
        found matches Some(at) ==> at < rows.len() && texts(rows@)[at as int] == item@ && forall|
            j: int,
        | 0 <= j < at ==> texts(rows@)[j] != item@,
{
    let item_chars = to_chars(item);
    let mut i: usize = 0;
    while i < rows.len()
        invariant
            i <= rows.len(),
            item_chars@ == item@,
            forall|j: int| 0 <= j < i ==> texts(rows@)[j] != item@,
        decreases rows.len() - i,
    {
        let row_chars = to_chars(rows[i].as_str());
        if same_chars(&row_chars, &item_chars) {
            assert(texts(rows@)[i as int] == item@);
            return Some(i);
        }
        i += 1;
    }
    None
}

/// `c` is white space: it has the Unicode property `White_Space`.
pub open spec fn is_whitespace(c: char) -> bool {
    let code = c as u32;
    ||| 0x09 <= code <= 0x0D
    ||| code == 0x20
    ||| code == 0x85
    ||| code == 0xA0
    ||| code == 0x1680
    ||| 0x2000 <= code <= 0x200A
    ||| code == 0x2028
    ||| code == 0x2029
    ||| code == 0x202F
    ||| code == 0x205F
    ||| code == 0x3000
}

/// `text` without the white space at its start.
pub open spec fn trim_start(text: Seq<char>) -> Seq<char>
    decreases text.len(),
{
    if text.len() > 0 && is_whitespace(text[0]) {
        trim_start(text.skip(1))
    } else {
        text
    }
}

/// `text` without the white space at its end.
pub open spec fn trim_end(text: Seq<char>) -> Seq<char>
    decreases text.len(),
{
    if text.len() > 0 && is_whitespace(text.last()) {
        trim_end(text.drop_last())
    } else {
        text
    }
}

/// `text` without the white space at its start and at its end.
pub open spec fn trim(text: Seq<char>) -> Seq<char> {
    trim_end(trim_start(text))
}

/// `text` with `to` in place of each `from`, where `from` is not empty: the
/// occurrences are taken from the left, and none overlaps the one before it.
/// With an empty `from` the text stays as it is.
pub open spec fn replace_all(text: Seq<char>, from: Seq<char>, to: Seq<char>) -> Seq<char>
    decreases text.len(),
{
    if from.len() == 0 || text.len() < from.len() {
        text
    } else if occurs_at(text, from, 0) {
        to + replace_all(text.skip(from.len() as int), from, to)
    } else {
        seq![text[0]] + replace_all(text.skip(1), from, to)
    }
}

/// Whether `c` is white space.
pub fn is_whitespace_char(c: char) -> (white: bool)
    ensures
        white == is_whitespace(c),
{
    let code: u32 = c as u32;
    (0x09 <= code && code <= 0x0D) || code == 0x20 || code == 0x85 || code == 0xA0 || code
        == 0x1680 || (0x2000 <= code && code <= 0x200A) || code == 0x2028 || code == 0x2029
        || code == 0x202F || code == 0x205F || code == 0x3000
}

/// A copy of `text` from position `from` up to position `to`.
pub(crate) fn slice_chars(text: &Vec<char>, from: usize, to: usize) -> (out: Vec<char>)
    requires
        from <= to <= text.len(),
    ensures
        out@ == text@.subrange(from as int, to as int),
{
    let mut out: Vec<char> = Vec::new();
    let mut i: usize = from;
    while i < to
        invariant
            from <= i <= to,
            to <= text.len(),
            out@ == text@.subrange(from as int, i as int),
        decreases to - i,
    {
        out.push(text[i]);
        proof {
            assert(out@ =~= text@.subrange(from as int, i + 1));
        }
        i += 1;
    }
    out
}

/// `text` without the white space at its start.
pub fn trim_start_chars(text: &Vec<char>) -> (out: Vec<char>)
    ensures
        out@ == trim_start(text@),
{
    let mut i: usize = 0;
    proof {
        assert(text@.skip(0) =~= text@);
    }
    while i < text.len() && is_whitespace_char(text[i])
        invariant
            i <= text.len(),
            trim_start(text@) == trim_start(text@.skip(i as int)),
        decreases text.len() - i,
    {
        proof {
            assert(text@.skip(i as int)[0] == text@[i as int]);
            assert(text@.skip(i as int).skip(1) =~= text@.skip(i + 1));
        }
        i += 1;
    }
    proof {
        if i < text.len() {
            assert(text@.skip(i as int)[0] == text@[i as int]);
        }
        assert(text@.skip(i as int) =~= text@.subrange(i as int, text.len() as int));
    }
    slice_chars(text, i, text.len())
}

/// `text` without the white space at its end.
pub fn trim_end_chars(text: &Vec<char>) -> (out: Vec<char>)
    ensures
        out@ == trim_end(text@),
{
    let mut n: usize = text.len();
    proof {
        assert(text@.take(n as int) =~= text@);
    }
    while n > 0 && is_whitespace_char(text[n - 1])
        invariant
            n <= text.len(),
            trim_end(text@) == trim_end(text@.take(n as int)),
        decreases n,
    {
        proof {
            assert(text@.take(n as int).last() == text@[n - 1]);
            assert(text@.take(n as int).drop_last() =~= text@.take(n - 1));
        }
        n -= 1;
    }
    proof {
        if n > 0 {
            assert(text@.take(n as int).last() == text@[n - 1]);
        }
        assert(text@.take(n as int) =~= text@.subrange(0, n as int));
    }
    slice_chars(text, 0, n)
}

/// `text` without the white space at its start and at its end.
pub fn trim_chars(text: &Vec<char>) -> (out: Vec<char>)
    ensures
        out@ == trim(text@),
{
    let front = trim_start_chars(text);
    trim_end_chars(&front)
}

/// `text` with `to` in place of each `from`.
pub fn replace_all_chars(text: &Vec<char>, from: &Vec<char>, to: &Vec<char>) -> (out: Vec<char>)
    ensures
        out@ == replace_all(text@, from@, to@),
{
    let mut out: Vec<char> = Vec::new();
    let mut i: usize = 0;
    proof {
        assert(text@.skip(0) =~= text@);
        assert(out@ + replace_all(text@, from@, to@) =~= replace_all(text@, from@, to@));
    }
    if from.len() == 0 {
        push_all(&mut out, text);
        assert(out@ =~= text@);
        return out;
    }
    while i < text.len() && text.len() - i >= from.len()
        invariant
            i <= text.len(),
            from.len() > 0,
            replace_all(text@, from@, to@) == out@ + replace_all(text@.skip(i as int), from@, to@),
        decreases text.len() - i,
    {
        let ghost rest = text@.skip(i as int);
        let ghost done = out@;
        if occurs_at_chars(text, from, i) {
            proof {
                assert(rest.subrange(0, from.len() as int) =~= text@.subrange(
                    i as int,
                    i + from.len(),
                ));
                assert(occurs_at(rest, from@, 0));
                assert(rest.skip(from.len() as int) =~= text@.skip(i + from.len()));
            }
            push_all(&mut out, to);
            i += from.len();
            proof {
                assert(done + (to@ + replace_all(text@.skip(i as int), from@, to@)) =~= out@
                    + replace_all(text@.skip(i as int), from@, to@));
            }
        } else {
            proof {
                assert(rest.subrange(0, from.len() as int) =~= text@.subrange(
                    i as int,
                    i + from.len(),
                ));
                assert(!occurs_at(rest, from@, 0));
                assert(rest[0] == text@[i as int]);
                assert(rest.skip(1) =~= text@.skip(i + 1));
            }
            out.push(text[i]);
            i += 1;
            proof {
                assert(done + (seq![text@[i - 1]] + replace_all(
                    text@.skip(i as int),
                    from@,
                    to@,
                )) =~= out@ + replace_all(text@.skip(i as int), from@, to@));
            }
        }
    }
    let tail = slice_chars(text, i, text.len());
    proof {
        assert(tail@ =~= text@.skip(i as int));
        assert(replace_all(text@.skip(i as int), from@, to@) == text@.skip(i as int));
    }
    push_all(&mut out, &tail);
    out
}

/// The text of an optional string.
pub open spec fn text_of(contents: Option<&str>) -> Option<Seq<char>> {
    match contents {
        Some(text) => Some(text@),
        None => None,
    }
}

} // verus!
