//! A model of editor text as a sequence of characters: the line and column of
//! every character offset, the pieces between newlines, and the lines as
//! `str::lines` yields them.

use vstd::prelude::*;

verus! {

/// The number of newline characters among the first `k` characters of `s`:
/// the (zero-based) line on which offset `k` lies.
pub open spec fn line_of(s: Seq<char>, k: int) -> int
    decreases k,
{
    if k <= 0 {
        0
    } else {
        line_of(s, k - 1) + if s[k - 1] == '\n' { 1int } else { 0int }
    }
}

/// The number of characters between the last newline before offset `k` (or
/// the start of `s`) and `k`: the (zero-based) column of offset `k`.
pub open spec fn column_of(s: Seq<char>, k: int) -> int
    decreases k,
{
    if k <= 0 {
        0
    } else if s[k - 1] == '\n' {
        0
    } else {
        column_of(s, k - 1) + 1
    }
}

/// Offset `k` of `s` (the end of `s` included) lies at `line` and `column`.
pub open spec fn at_position(s: Seq<char>, line: int, column: int, k: int) -> bool {
    &&& 0 <= k <= s.len()
    &&& line_of(s, k) == line
    &&& column_of(s, k) == column
}

/// Some offset of `s` lies at `line` and `column`.
pub open spec fn has_position(s: Seq<char>, line: int, column: int) -> bool {
    exists|k: int| #[trigger] at_position(s, line, column, k)
}

/// The offset of `s` that lies at `line` and `column` (meaningful where
/// `has_position` holds; it is then unique, see `lemma_position_unique`).
pub open spec fn position_index(s: Seq<char>, line: int, column: int) -> int {
    choose|k: int| #[trigger] at_position(s, line, column, k)
}

/// The pieces of `s` between newline characters, newlines left out: one more
/// than the number of newlines.
pub open spec fn segments(s: Seq<char>) -> Seq<Seq<char>>
    decreases s.len(),
{
    if s.len() == 0 {
        seq![Seq::<char>::empty()]
    } else {
        let prev = segments(s.drop_last());
        if s.last() == '\n' {
            prev.push(Seq::<char>::empty())
        } else {
            prev.update(prev.len() - 1, prev.last().push(s.last()))
        }
    }
}

/// A line without the carriage return that ended it, if any.
pub open spec fn strip_carriage_return(l: Seq<char>) -> Seq<char> {
    if l.len() > 0 && l.last() == '\r' {
        l.drop_last()
    } else {
        l
    }
}

/// The lines of `s` as `str::lines` yields them: every piece that a newline
/// ends, without a carriage return just before that newline, then the last
/// piece if it is not empty.
pub open spec fn lines(s: Seq<char>) -> Seq<Seq<char>> {
    let segs = segments(s);
    let ended = segs.take(segs.len() - 1).map_values(|l: Seq<char>| strip_carriage_return(l));
    if segs.last().len() == 0 {
        ended
    } else {
        ended.push(segs.last())
    }
}

/// The number of characters of line `n` of `s`, and 0 where `s` has no such
/// line.
pub open spec fn line_length(s: Seq<char>, n: int) -> int {
    if 0 <= n < lines(s).len() {
        lines(s)[n].len() as int
    } else {
        0
    }
}

/// Line and column grow together with the offset: no two offsets share a
/// position.
pub proof fn lemma_position_strictly_increases(s: Seq<char>, k1: int, k2: int)
    requires
        0 <= k1 < k2 <= s.len(),
    ensures
        line_of(s, k1) < line_of(s, k2) || (line_of(s, k1) == line_of(s, k2) && column_of(s, k1)
            < column_of(s, k2)),
    decreases k2 - k1,
{
    if k2 > k1 + 1 {
        lemma_position_strictly_increases(s, k1, k2 - 1);
    }
}

/// At most one offset lies at a given position.
pub proof fn lemma_position_unique(s: Seq<char>, line: int, column: int, k1: int, k2: int)
    requires
        at_position(s, line, column, k1),
        at_position(s, line, column, k2),
    ensures
        k1 == k2,
{
    if k1 < k2 {
        lemma_position_strictly_increases(s, k1, k2);
    } else if k2 < k1 {
        lemma_position_strictly_increases(s, k2, k1);
    }
}

/// Where a position exists, `position_index` is the offset at it.
pub proof fn lemma_position_index(s: Seq<char>, line: int, column: int, k: int)
    requires
        at_position(s, line, column, k),
    ensures
        position_index(s, line, column) == k,
{
    assert(has_position(s, line, column));
    lemma_position_unique(s, line, column, k, position_index(s, line, column));
}

/// Line and column never exceed the offset.
pub proof fn lemma_line_column_bounded(s: Seq<char>, k: int)
    requires
        0 <= k,
    ensures
        0 <= line_of(s, k) <= k,
        0 <= column_of(s, k) <= k,
        line_of(s, k) + column_of(s, k) <= k,
    decreases k,
{
    if k > 0 {
        lemma_line_column_bounded(s, k - 1);
    }
}

/// Line and column of offset `k` depend only on the first `k` characters.
pub proof fn lemma_position_prefix(s1: Seq<char>, s2: Seq<char>, k: int)
    requires
        0 <= k <= s1.len(),
        k <= s2.len(),
        forall|i: int| 0 <= i < k ==> s1[i] == s2[i],
    ensures
        line_of(s1, k) == line_of(s2, k),
        column_of(s1, k) == column_of(s2, k),
    decreases k,
{
    if k > 0 {
        lemma_position_prefix(s1, s2, k - 1);
    }
}

/// `segments` never yields an empty sequence, and its last piece and its
/// length follow the column and line of the end of the text.
pub proof fn lemma_segments_shape(s: Seq<char>)
    ensures
        segments(s).len() == line_of(s, s.len() as int) + 1,
        segments(s).last().len() == column_of(s, s.len() as int),
        segments(s).last() == s.subrange(s.len() - column_of(s, s.len() as int), s.len() as int),
    decreases s.len(),
{
    if s.len() > 0 {
        let p = s.drop_last();
        lemma_segments_shape(p);
        lemma_position_prefix(s, p, p.len() as int);
        lemma_line_column_bounded(s, p.len() as int);
        if s.last() != '\n' {
            assert(segments(s).last() =~= s.subrange(
                s.len() - column_of(s, s.len() as int),
                s.len() as int,
            ));
        } else {
            assert(segments(s).last() =~= s.subrange(s.len() as int, s.len() as int));
        }
    }
}

/// The pieces of a prefix that a newline already ended are pieces of the
/// whole text.
pub proof fn lemma_segments_prefix(s: Seq<char>, i: int, j: int)
    requires
        0 <= i <= s.len(),
        0 <= j < segments(s.take(i)).len() - 1,
    ensures
        j < segments(s).len(),
        segments(s)[j] == segments(s.take(i))[j],
    decreases s.len() - i,
{
    if i < s.len() {
        let t = s.take(i + 1);
        lemma_segments_shape(s.take(i));
        lemma_segments_shape(t);
        assert(t.drop_last() =~= s.take(i));
        lemma_segments_prefix(s, i + 1, j);
    } else {
        assert(s.take(i) =~= s);
    }
}

/// The characters of `s`, in order.
pub fn chars_of(s: &str) -> (r: Vec<char>)
    ensures
        r@ == s@,
{
    let mut r: Vec<char> = Vec::new();
    for c in it: s.chars()
        invariant
            r@ == it.seq().take(it.index() as int),
    {
        r.push(c);
    }
    r
}

/// Appends `c` to `s`.
#[verifier::external_body]
fn push_char(s: &mut String, c: char)
    ensures
        final(s)@ == old(s)@.push(c),
{
    s.push(c);
}

/// The string made of the characters of `text`, in order.
pub fn string_of(text: &Vec<char>) -> (r: String)
    ensures
        r@ == text@,
{
    let mut r = String::new();
    let mut i: usize = 0;
    while i < text.len()
        invariant
            i <= text.len(),
            r@ == text@.take(i as int),
        decreases text.len() - i,
    {
        push_char(&mut r, text[i]);
        i += 1;
        assert(r@ =~= text@.take(i as int));
    }
    assert(text@.take(i as int) =~= text@);
    r
}

/// Whether `a` and `b` hold the same characters.
pub fn same_chars(a: &Vec<char>, b: &Vec<char>) -> (r: bool)
    ensures
        r == (a@ == b@),
{
    if a.len() != b.len() {
        return false;
    }
    let mut i: usize = 0;
    while i < a.len()
        invariant
            i <= a.len(),
            a.len() == b.len(),
            forall|j: int| 0 <= j < i ==> a@[j] == b@[j],
        decreases a.len() - i,
    {
        if a[i] != b[i] {
            return false;
        }
        i += 1;
    }
    assert(a@ =~= b@);
    true
}

/// The offset of `text` at `line` and `column`, if any offset lies there.
pub fn index_of_position(text: &Vec<char>, line: usize, column: usize) -> (r: Option<usize>)
    ensures
        match r {
            Some(k) => at_position(text@, line as int, column as int, k as int),
            None => !has_position(text@, line as int, column as int),
        },
{
    let mut current_line: usize = 0;
    let mut current_column: usize = 0;
    let mut i: usize = 0;
    while i < text.len()
        invariant
            i <= text.len(),
            current_line == line_of(text@, i as int),
            current_column == column_of(text@, i as int),
            current_line <= i,
            current_column <= i,
            forall|k: int|
                0 <= k < i ==> !(line_of(text@, k) == line && column_of(text@, k) == column),
        decreases text.len() - i,
    {
        if current_line == line && current_column == column {
            return Some(i);
        }
        if text[i] == '\n' {
            current_line += 1;
            current_column = 0;
        } else {
            current_column += 1;
        }
        i += 1;
    }
    if current_line == line && current_column == column {
        Some(i)
    } else {
        assert forall|k: int| !#[trigger] at_position(text@, line as int, column as int, k) by {
            if 0 <= k <= text@.len() && k != i {
                assert(!(line_of(text@, k) == line && column_of(text@, k) == column));
            }
        }
        None
    }
}

/// The number of characters of line `n` of `text` as `str::lines` yields
/// it, and 0 where `text` has no such line.
pub fn length_of_line(text: &Vec<char>, n: usize) -> (r: usize)
    ensures
        r == line_length(text@, n as int),
{
    let ghost s = text@;
    let mut line: usize = 0;
    let mut start: usize = 0;
    let mut i: usize = 0;
    while i < text.len()
        invariant
            s == text@,
            i <= text.len(),
            start <= i,
            line <= n,
            line == line_of(s, i as int),
            start + column_of(s, i as int) == i,
        decreases text.len() - i,
    {
        proof {
            lemma_line_column_bounded(s, i as int);
        }
        if text[i] == '\n' {
            if line == n {
                proof {
                    let t = s.take(i as int);
                    lemma_position_prefix(s, t, i as int);
                    lemma_segments_shape(t);
                    lemma_segments_shape(s.take(i + 1));
                    assert(s.take(i + 1).drop_last() =~= t);
                    lemma_segments_prefix(s, i + 1, n as int);
                    lemma_segments_shape(s);
                    lemma_position_prefix(s, s.take(i + 1), i + 1);
                    assert(s =~= s.take(s.len() as int));
                    assert(line_of(s, i + 1) <= line_of(s, s.len() as int)) by {
                        if i + 1 < s.len() {
                            lemma_line_monotone(s, i + 1, s.len() as int);
                        }
                    }
                }
                if i > start && text[i - 1] == '\r' {
                    return i - start - 1;
                } else {
                    return i - start;
                }
            }
            line += 1;
            start = i + 1;
        }
        i += 1;
    }
    proof {
        lemma_segments_shape(s);
        lemma_line_column_bounded(s, i as int);
    }
    if line == n {
        i - start
    } else {
        0
    }
}

/// The number of lines of `text` as `str::lines` yields them.
pub fn count_lines(text: &Vec<char>) -> (r: usize)
    ensures
        r == lines(text@).len(),
{
    let mut line: usize = 0;
    let mut column: usize = 0;
    let mut i: usize = 0;
    while i < text.len()
        invariant
            i <= text.len(),
            line == line_of(text@, i as int),
            column == column_of(text@, i as int),
            line + column <= i,
        decreases text.len() - i,
    {
        if text[i] == '\n' {
            line += 1;
            column = 0;
        } else {
            column += 1;
        }
        i += 1;
    }
    proof {
        lemma_segments_shape(text@);
    }
    if column > 0 {
        line + 1
    } else {
        line
    }
}

/// The line of an offset never decreases as the offset grows.
pub proof fn lemma_line_monotone(s: Seq<char>, k1: int, k2: int)
    requires
        0 <= k1 <= k2,
    ensures
        line_of(s, k1) <= line_of(s, k2),
    decreases k2 - k1,
{
    if k1 < k2 {
        lemma_line_monotone(s, k1, k2 - 1);
    }
}

/// Inserting a character at a position and then deleting backwards from
/// just after it gives the text back: for a character other than a newline
/// the position just after it is one column further on the same line, for a
/// newline it is the start of the next line.
pub proof fn lemma_delete_before_undoes_insert(s: Seq<char>, line: int, column: int, c: char)
    requires
        has_position(s, line, column),
    ensures
        ({
            let k = position_index(s, line, column);
            let t = s.insert(k, c);
            let (next_line, next_column) = if c == '\n' {
                (line + 1, 0int)
            } else {
                (line, column + 1)
            };
            &&& has_position(t, next_line, next_column)
            &&& position_index(t, next_line, next_column) == k + 1
            &&& t.remove(k) == s
        }),
{
    let k = position_index(s, line, column);
    assert(at_position(s, line, column, k));
    let t = s.insert(k, c);
    lemma_position_prefix(s, t, k);
    let (next_line, next_column) = if c == '\n' {
        (line + 1, 0int)
    } else {
        (line, column + 1)
    };
    assert(at_position(t, next_line, next_column, k + 1));
    lemma_position_index(t, next_line, next_column, k + 1);
    assert(t.remove(k) =~= s);
}

/// The number of lines of `content` as `str::lines` yields them.
pub fn line_count(content: &str) -> (r: usize)
    ensures
        r == lines(content@).len(),
{
    count_lines(&chars_of(content))
}

/// The number of characters of line `n` of `content` as `str::lines` yields
/// it, and 0 where `content` has no such line.
pub fn line_length_at(content: &str, n: usize) -> (r: usize)
    ensures
        r == line_length(content@, n as int),
{
    length_of_line(&chars_of(content), n)
}

/// The characters of `l` from offset `from` on, at most `count` of them.
pub open spec fn clip(l: Seq<char>, from: int, count: int) -> Seq<char> {
    if from >= l.len() {
        Seq::empty()
    } else if from + count >= l.len() {
        l.subrange(from, l.len() as int)
    } else {
        l.subrange(from, from + count)
    }
}

/// The part of `s` that a window scrolled by `scroll_y` lines and
/// `scroll_x` columns, `height` lines high and `width` columns wide, shows:
/// its lines, each clipped to the window's columns.
pub open spec fn visible_lines(
    s: Seq<char>,
    scroll_x: int,
    scroll_y: int,
    width: int,
    height: int,
) -> Seq<Seq<char>> {
    let ls = lines(s);
    let first = if scroll_y < ls.len() { scroll_y } else { ls.len() as int };
    let last = if scroll_y + height < ls.len() { scroll_y + height } else { ls.len() as int };
    ls.subrange(first, if last < first { first } else { last }).map_values(
        |l: Seq<char>| clip(l, scroll_x, width),
    )
}

/// A window shows one row for each line of the text in its range, in
/// order: as many rows as the window is high, or as there are lines from the
/// first one it shows, if fewer; and row `i` is line `scroll_y + i` (as
/// `str::lines` gives it) with its first `scroll_x` characters skipped and at
/// most `width` of the rest kept. A line too short to reach the window still
/// has its row, an empty one.
pub proof fn lemma_visible_rows(s: Seq<char>, scroll_x: int, scroll_y: int, width: int, height: int)
    requires
        scroll_x >= 0,
        scroll_y >= 0,
        width >= 0,
        height >= 0,
    ensures
        ({
            let ls = lines(s);
            let rows = visible_lines(s, scroll_x, scroll_y, width, height);
            &&& rows.len() == if scroll_y >= ls.len() {
                0
            } else if ls.len() - scroll_y < height {
                ls.len() - scroll_y
            } else {
                height
            }
            &&& forall|i: int|
                #![trigger rows[i]]
                0 <= i < rows.len() ==> {
                    let l = ls[scroll_y + i];
                    let from = if scroll_x < l.len() { scroll_x } else { l.len() as int };
                    let to = if scroll_x + width < l.len() { scroll_x + width } else { l.len() as int };
                    rows[i] == l.subrange(from, to)
                }
        }),
{
    let ls = lines(s);
    let rows = visible_lines(s, scroll_x, scroll_y, width, height);
    assert forall|i: int| 0 <= i < rows.len() implies {
        let l = ls[scroll_y + i];
        let from = if scroll_x < l.len() { scroll_x } else { l.len() as int };
        let to = if scroll_x + width < l.len() { scroll_x + width } else { l.len() as int };
        #[trigger] rows[i] == l.subrange(from, to)
    } by {
        let l = ls[scroll_y + i];
        if scroll_x >= l.len() {
            assert(l.subrange(l.len() as int, l.len() as int) =~= Seq::<char>::empty());
        }
    }
}

/// The lines `ls` joined by newlines.
pub open spec fn join_lines(ls: Seq<Seq<char>>) -> Seq<char>
    decreases ls.len(),
{
    if ls.len() == 0 {
        Seq::empty()
    } else if ls.len() == 1 {
        ls[0]
    } else {
        join_lines(ls.drop_last()) + seq!['\n'] + ls.last()
    }
}

/// The lines of `text` as `str::lines` yields them.
pub fn lines_of(text: &Vec<char>) -> (r: Vec<Vec<char>>)
    ensures
        r@.map_values(|l: Vec<char>| l@) == lines(text@),
{
    let ghost s = text@;
    let mut ended: Vec<Vec<char>> = Vec::new();
    let mut current: Vec<char> = Vec::new();
    let mut i: usize = 0;
    assert(s.take(0) =~= Seq::<char>::empty());
    while i < text.len()
        invariant
            s == text@,
            i <= text.len(),
            ended@.map_values(|l: Vec<char>| l@).push(current@) == segments(s.take(i as int)),
        decreases text.len() - i,
    {
        let ghost before = ended@.map_values(|l: Vec<char>| l@).push(current@);
        assert(s.take(i + 1).drop_last() =~= s.take(i as int));
        if text[i] == '\n' {
            ended.push(current);
            current = Vec::new();
            assert(ended@.map_values(|l: Vec<char>| l@).push(current@) =~= before.push(
                Seq::<char>::empty(),
            ));
        } else {
            current.push(text[i]);
            assert(ended@.map_values(|l: Vec<char>| l@).push(current@) =~= before.update(
                before.len() - 1,
                before.last().push(text@[i as int]),
            ));
        }
        i += 1;
    }
    assert(s.take(i as int) =~= s);
    let ghost segs = segments(s);
    assert(segs.take(segs.len() - 1) =~= ended@.map_values(|l: Vec<char>| l@));
    let mut r: Vec<Vec<char>> = Vec::new();
    let mut j: usize = 0;
    while j < ended.len()
        invariant
            j <= ended@.len(),
            segs.take(segs.len() - 1) == ended@.map_values(|l: Vec<char>| l@),
            r@.map_values(|l: Vec<char>| l@) =~= ended@.map_values(|l: Vec<char>| l@).take(
                j as int,
            ).map_values(|l: Seq<char>| strip_carriage_return(l)),
        decreases ended@.len() - j,
    {
        let mut line = ended[j].clone();
        if line.len() > 0 && line[line.len() - 1] == '\r' {
            line.pop();
        }
        assert(line@ == strip_carriage_return(ended@[j as int]@));
        let ghost before_r = r@.map_values(|l: Vec<char>| l@);
        r.push(line);
        proof {
            let ev = ended@.map_values(|l: Vec<char>| l@);
            assert(r@.map_values(|l: Vec<char>| l@) =~= before_r.push(line@));
            assert(ev.take(j + 1).map_values(|l: Seq<char>| strip_carriage_return(l)) =~= ev.take(
                j as int,
            ).map_values(|l: Seq<char>| strip_carriage_return(l)).push(
                strip_carriage_return(ev[j as int]),
            ));
        }
        j += 1;
    }
    assert(ended@.map_values(|l: Vec<char>| l@).take(j as int) =~= ended@.map_values(
        |l: Vec<char>| l@,
    ));
    if current.len() > 0 {
        r.push(current);
    }
    r
}

/// The characters of `l` from offset `from` on, at most `count` of them.
fn clip_line(l: &Vec<char>, from: usize, count: usize) -> (r: Vec<char>)
    ensures
        r@ == clip(l@, from as int, count as int),
{
    let mut r: Vec<char> = Vec::new();
    if from >= l.len() {
        assert(r@ =~= clip(l@, from as int, count as int));
        return r;
    }
    let mut j: usize = from;
    while j < l.len() && j - from < count
        invariant
            from <= j <= l.len(),
            j - from <= count,
            r@ =~= l@.subrange(from as int, j as int),
        decreases l.len() - j,
    {
        r.push(l[j]);
        j += 1;
    }
    assert(r@ =~= clip(l@, from as int, count as int));
    r
}

/// What a window scrolled by `scroll_y` lines and `scroll_x` columns,
/// `height` lines high and `width` columns wide, shows of `content`: its
/// visible lines joined by newlines.
pub fn visible_text(content: &str, scroll_x: usize, scroll_y: usize, width: usize, height: usize) -> (r:
    String)
    ensures
        r@ == join_lines(
            visible_lines(content@, scroll_x as int, scroll_y as int, width as int, height as int),
        ),
{
    let all = lines_of(&chars_of(content));
    let ghost ls = lines(content@);
    let ghost shown = visible_lines(
        content@,
        scroll_x as int,
        scroll_y as int,
        width as int,
        height as int,
    );
    let mut r: Vec<char> = Vec::new();
    assert(all@.len() == ls.len());
    if scroll_y >= all.len() {
        assert(shown =~= Seq::<Seq<char>>::empty());
        assert(r@ =~= join_lines(shown));
        return string_of(&r);
    }
    let mut k: usize = scroll_y;
    let mut taken: usize = 0;
    assert(ls.subrange(scroll_y as int, k as int) =~= Seq::<Seq<char>>::empty());
    while k < all.len() && taken < height
        invariant
            all@.map_values(|l: Vec<char>| l@) == ls,
            scroll_y <= k <= all@.len(),
            taken == k - scroll_y,
            taken <= height,
            r@ == join_lines(
                ls.subrange(scroll_y as int, k as int).map_values(
                    |l: Seq<char>| clip(l, scroll_x as int, width as int),
                ),
            ),
        decreases all@.len() - k,
    {
        let piece = clip_line(&all[k], scroll_x, width);
        let ghost prev = ls.subrange(scroll_y as int, k as int).map_values(
            |l: Seq<char>| clip(l, scroll_x as int, width as int),
        );
        let ghost next = ls.subrange(scroll_y as int, k + 1).map_values(
            |l: Seq<char>| clip(l, scroll_x as int, width as int),
        );
        assert(next.drop_last() =~= prev);
        assert(next.last() == piece@);
        if taken > 0 {
            r.push('\n');
        }
        let mut c: usize = 0;
        let ghost base = r@;
        while c < piece.len()
            invariant
                c <= piece@.len(),
                r@ =~= base + piece@.take(c as int),
            decreases piece@.len() - c,
        {
            r.push(piece[c]);
            c += 1;
        }
        assert(piece@.take(c as int) =~= piece@);
        if taken == 0 {
            assert(prev =~= Seq::<Seq<char>>::empty());
            assert(r@ =~= join_lines(next));
        } else {
            assert(r@ =~= join_lines(next));
        }
        k += 1;
        taken += 1;
    }
    assert(shown =~= ls.subrange(scroll_y as int, k as int).map_values(
        |l: Seq<char>| clip(l, scroll_x as int, width as int),
    ));
    string_of(&r)
}

} // verus!
