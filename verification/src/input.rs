use vstd::prelude::*;
use vstd::string::StrSliceExecFns;

use crate::config::Config;
use crate::strutil::chars_of;
use crate::types::{DataSet, Point, empty_point, stored_pair, EMPTY_VALUE};

verus! {

/// Why the ingestion loop stopped filling the current dataset.
#[derive(Debug, Clone, Copy, PartialEq, Eq, Structural)]
pub enum ReadInputStatus {
    /// The input is exhausted; no further frame follows.
    EndOfStream,
    /// A blank line closed the current frame; more input may follow.
    DatasetComplete,
}

/// What one input line contributed.
#[derive(Debug, Clone, Copy, PartialEq, Eq, Structural)]
pub enum ProcessLineResult {
    /// The line held data and a row was stored.
    Data,
    /// The line was blank (after trailing-whitespace removal).
    Empty,
    /// The line held nothing before its comment marker.
    Comment,
}

/// What splitting one line yields: nothing, only a comment, or the raw
/// tokens between number-shaped characters.
#[derive(Debug)]
pub enum LineContent {
    Empty,
    Comment,
    Tokens(Vec<String>),
}

/// The character can open a comment marker: a hash starts a comment by
/// itself, a slash only as the first of two consecutive slashes.
pub open spec fn is_comment_char(c: char) -> bool {
    c == '#' || c == '/'
}

/// A comment marker stands at position `i` of `s`: a hash, or a slash
/// followed immediately by a second slash.  Everything from the marker on
/// is ignored.
pub open spec fn marker_at(s: Seq<char>, i: int) -> bool {
    s[i] == '#' || (s[i] == '/' && i + 1 < s.len() && s[i + 1] == '/')
}

/// The character can appear in a decimal or scientific number literal.
pub open spec fn is_number_head_char(c: char) -> bool {
    (48 <= c as u32 <= 57) || c == '-' || c == '+' || c == '.' || c == 'e' || c == 'E'
}

/// The character carries the Unicode white-space property, the set the
/// standard library's trailing trim removes.
pub open spec fn is_space_char(c: char) -> bool {
    let u = c as u32;
    (9 <= u <= 13) || u == 32 || u == 0x85 || u == 0xa0 || u == 0x1680 || (0x2000 <= u <= 0x200a)
        || u == 0x2028 || u == 0x2029 || u == 0x202f || u == 0x205f || u == 0x3000
}

/// The character can open a comment marker; a slash opens one only when a
/// second slash follows it.
pub fn is_comment_marker(c: char) -> (r: bool)
    ensures
        r == is_comment_char(c),
{
    c == '#' || c == '/'
}

/// The character can appear in a number literal.
pub fn number_head(c: char) -> (r: bool)
    ensures
        r == is_number_head_char(c),
{
    let u = c as u32;
    (48 <= u && u <= 57) || c == '-' || c == '+' || c == '.' || c == 'e' || c == 'E'
}

fn is_space(c: char) -> (r: bool)
    ensures
        r == is_space_char(c),
{
    let u = c as u32;
    (9 <= u && u <= 13) || u == 32 || u == 0x85 || u == 0xa0 || u == 0x1680 || (0x2000 <= u && u
        <= 0x200a) || u == 0x2028 || u == 0x2029 || u == 0x202f || u == 0x205f || u == 0x3000
}

/// The length of `s` once trailing white space is removed.
pub open spec fn trimmed_len(s: Seq<char>) -> int
    decreases s.len(),
{
    if s.len() > 0 && is_space_char(s.last()) {
        trimmed_len(s.drop_last())
    } else {
        s.len() as int
    }
}

/// `s` without its trailing white space.
pub open spec fn trimmed(s: Seq<char>) -> Seq<char> {
    s.take(trimmed_len(s))
}

/// The least index where a comment marker starts in `s`, or -1 when none
/// does.
pub open spec fn first_comment_index(s: Seq<char>) -> int
    decreases s.len(),
{
    if s.len() == 0 {
        -1
    } else if s[0] == '#' || (s[0] == '/' && s.len() >= 2 && s[1] == '/') {
        0
    } else {
        let r = first_comment_index(s.skip(1));
        if r == -1 {
            -1
        } else {
            r + 1
        }
    }
}

/// A position where a marker starts, with none starting earlier, is the
/// first one.
proof fn lemma_first_comment_at(s: Seq<char>, i: int)
    requires
        0 <= i < s.len(),
        marker_at(s, i),
        forall|j: int| 0 <= j < i ==> !#[trigger] marker_at(s, j),
    ensures
        first_comment_index(s) == i,
    decreases i,
{
    if i == 0 {
        assert(s[0] == '#' || (s[0] == '/' && s.len() >= 2 && s[1] == '/'));
    } else {
        assert(!marker_at(s, 0));
        assert(forall|j: int| 0 <= j < s.len() - 1 ==> s.skip(1)[j] == s[j + 1]);
        assert(marker_at(s.skip(1), i - 1)) by {
            assert(s.skip(1)[i - 1] == s[i]);
            if i + 1 < s.len() {
                assert(s.skip(1)[i] == s[i + 1]);
            }
        }
        assert forall|j: int| 0 <= j < i - 1 implies !marker_at(s.skip(1), j) by {
            assert(!marker_at(s, j + 1));
            assert(s.skip(1)[j] == s[j + 1]);
            if j + 2 < s.len() {
                assert(s.skip(1)[j + 1] == s[j + 2]);
            }
        }
        lemma_first_comment_at(s.skip(1), i - 1);
    }
}

/// A line where no marker starts has no first one.
proof fn lemma_first_comment_absent(s: Seq<char>)
    requires
        forall|j: int| 0 <= j < s.len() ==> !#[trigger] marker_at(s, j),
    ensures
        first_comment_index(s) == -1,
    decreases s.len(),
{
    if s.len() > 0 {
        assert(!marker_at(s, 0));
        assert(forall|j: int| 0 <= j < s.len() - 1 ==> s.skip(1)[j] == s[j + 1]);
        assert forall|j: int| 0 <= j < s.len() - 1 implies !marker_at(s.skip(1), j) by {
            assert(!marker_at(s, j + 1));
            assert(s.skip(1)[j] == s[j + 1]);
            if j + 2 < s.len() {
                assert(s.skip(1)[j + 1] == s[j + 2]);
            }
        }
        lemma_first_comment_absent(s.skip(1));
    }
}

/// The data part of a trimmed line: everything before the first comment
/// marker, or the whole line when no marker occurs.
pub open spec fn content_of(t: Seq<char>) -> Seq<char> {
    let m = first_comment_index(t);
    if m == -1 {
        t
    } else {
        t.take(m)
    }
}

/// The pieces of `s` between separator characters (a separator is anything
/// that cannot appear in a number literal).  Every piece is kept, including
/// empty ones between adjacent separators and at both ends, exactly as the
/// standard splitting does.
pub open spec fn split_at_seps(s: Seq<char>) -> Seq<Seq<char>>
    decreases s.len(),
{
    if s.len() == 0 {
        seq![Seq::<char>::empty()]
    } else if !is_number_head_char(s[0]) {
        seq![Seq::<char>::empty()] + split_at_seps(s.skip(1))
    } else {
        let r = split_at_seps(s.skip(1));
        r.update(0, seq![s[0]] + r[0])
    }
}

/// Splitting yields at least one piece.
pub proof fn lemma_split_len(s: Seq<char>)
    ensures
        split_at_seps(s).len() >= 1,
    decreases s.len(),
{
    if s.len() > 0 {
        lemma_split_len(s.skip(1));
    }
}

/// A piece without separators splits into itself alone.
proof fn lemma_split_nosep(a: Seq<char>)
    requires
        forall|j: int| 0 <= j < a.len() ==> is_number_head_char(#[trigger] a[j]),
    ensures
        split_at_seps(a) == seq![a],
    decreases a.len(),
{
    if a.len() == 0 {
        assert(split_at_seps(a) =~~= seq![a]);
    } else {
        assert(forall|j: int| 0 <= j < a.len() - 1 ==> a.skip(1)[j] == a[j + 1]);
        lemma_split_nosep(a.skip(1));
        lemma_split_len(a.skip(1));
        assert(seq![a[0]] + a.skip(1) =~= a);
        assert(split_at_seps(a) =~~= seq![a]);
    }
}

/// Splitting after a separator-free prefix: the prefix becomes the first
/// piece and the rest splits on its own.
proof fn lemma_split_step(a: Seq<char>, c: char, b: Seq<char>)
    requires
        forall|j: int| 0 <= j < a.len() ==> is_number_head_char(#[trigger] a[j]),
        !is_number_head_char(c),
    ensures
        split_at_seps(a + seq![c] + b) == seq![a] + split_at_seps(b),
    decreases a.len(),
{
    let s = a + seq![c] + b;
    if a.len() == 0 {
        assert(s[0] == c);
        assert(s.skip(1) =~= b);
        assert(split_at_seps(s) =~~= seq![a] + split_at_seps(b));
    } else {
        assert(s[0] == a[0]);
        assert(s.skip(1) =~= a.skip(1) + seq![c] + b);
        assert(forall|j: int| 0 <= j < a.len() - 1 ==> a.skip(1)[j] == a[j + 1]);
        lemma_split_step(a.skip(1), c, b);
        lemma_split_len(b);
        let r = split_at_seps(s.skip(1));
        assert(r == seq![a.skip(1)] + split_at_seps(b));
        assert(r[0] == a.skip(1));
        assert(seq![a[0]] + a.skip(1) =~= a);
        assert(split_at_seps(s) =~~= seq![a] + split_at_seps(b));
    }
}

/// Splits one raw input line: removes trailing white space, recognises
/// blank lines and comment-only lines, cuts the line at the first comment
/// marker (a hash, or two consecutive slashes), and splits the remaining
/// data into tokens at every character that cannot belong to a number
/// literal.
pub fn split_line(line: &str) -> (r: LineContent)
    ensures
        match r {
            LineContent::Empty => trimmed(line@).len() == 0,
            LineContent::Comment => trimmed(line@).len() > 0 && content_of(trimmed(line@)).len()
                == 0,
            LineContent::Tokens(toks) => trimmed(line@).len() > 0 && content_of(
                trimmed(line@),
            ).len() > 0 && toks@.map_values(|t: String| t@) == split_at_seps(
                content_of(trimmed(line@)),
            ),
        },
{
    let chars = chars_of(line);
    let n = chars.len();

    let mut end = n;
    proof {
        assert(line@.take(n as int) =~= line@);
    }
    while end > 0 && is_space(chars[end - 1])
        invariant
            n == line@.len(),
            chars@ == line@,
            end <= n,
            trimmed_len(line@) == trimmed_len(line@.take(end as int)),
        decreases end,
    {
        proof {
            assert(line@.take(end as int).drop_last() =~= line@.take(end - 1));
            assert(line@.take(end as int).last() == line@[end - 1]);
        }
        end = end - 1;
    }
    proof {
        if end > 0 {
            assert(line@.take(end as int).last() == line@[end - 1]);
        }
        assert(trimmed_len(line@.take(end as int)) == end);
        assert(trimmed(line@) =~= line@.take(end as int));
    }

    if end == 0 {
        return LineContent::Empty;
    }
    let ghost t = trimmed(line@);

    let mut content_end = end;
    let mut m: usize = 0;
    while m < end && content_end == end
        invariant
            n == line@.len(),
            chars@ == line@,
            0 < end <= n,
            t == line@.take(end as int),
            m <= end,
            content_end <= end,
            content_end == end ==> forall|j: int| 0 <= j < m ==> !#[trigger] marker_at(t, j),
            content_end < end ==> content_end == m && m < end && marker_at(t, m as int) && (forall|
            j: int|
                0 <= j < m ==> !#[trigger] marker_at(t, j)),
        decreases end - m + (if content_end == end {
            1int
        } else {
            0int
        }),
    {
        let c = chars[m];
        let starts = if c == '#' {
            true
        } else if c == '/' {
            m + 1 < end && chars[m + 1] == '/'
        } else {
            false
        };
        proof {
            assert(t[m as int] == line@[m as int]);
            if m + 1 < end {
                assert(t[m + 1] == line@[m + 1]);
            }
            assert(starts == marker_at(t, m as int));
        }
        if starts {
            content_end = m;
        } else {
            m += 1;
        }
    }
    proof {
        if content_end < end {
            lemma_first_comment_at(t, content_end as int);
            assert(content_of(t) =~= t.take(content_end as int));
        } else {
            assert(m == end);
            assert(t.len() == end);
            assert(forall|j: int| 0 <= j < t.len() ==> !#[trigger] marker_at(t, j));
            lemma_first_comment_absent(t);
            assert(content_of(t) =~= t);
        }
        assert(content_of(t) =~= line@.take(content_end as int));
    }

    if content_end == 0 {
        return LineContent::Comment;
    }

    let ghost content = content_of(t);
    let mut tokens: Vec<String> = Vec::new();
    let mut start: usize = 0;
    let mut i: usize = 0;
    proof {
        assert(content.subrange(0, content_end as int) =~= content);
        assert(tokens@.map_values(|tk: String| tk@) =~= Seq::<Seq<char>>::empty());
        assert(Seq::<Seq<char>>::empty() + split_at_seps(content) =~= split_at_seps(content));
    }
    while i < content_end
        invariant
            n == line@.len(),
            chars@ == line@,
            0 < content_end <= n,
            content == line@.take(content_end as int),
            start <= i <= content_end,
            forall|j: int| start <= j < i ==> is_number_head_char(#[trigger] content[j]),
            split_at_seps(content) == tokens@.map_values(|tk: String| tk@) + split_at_seps(
                content.subrange(start as int, content_end as int),
            ),
        decreases content_end - i,
    {
        if !number_head(chars[i]) {
            let tok = line.substring_char(start, i).to_owned();
            proof {
                assert(tok@ =~= content.subrange(start as int, i as int));
                let a = content.subrange(start as int, i as int);
                let b = content.subrange(i + 1, content_end as int);
                assert(forall|j: int| 0 <= j < a.len() ==> a[j] == content[start + j]);
                lemma_split_step(a, content[i as int], b);
                assert(content.subrange(start as int, content_end as int) =~= a + seq![
                    content[i as int],
                ] + b);
            }
            let ghost before = tokens@;
            tokens.push(tok);
            proof {
                assert(tokens@.map_values(|tk: String| tk@) =~= before.map_values(
                    |tk: String| tk@,
                ).push(tok@));
            }
            start = i + 1;
        }
        i += 1;
    }
    let tok = line.substring_char(start, content_end).to_owned();
    proof {
        let a = content.subrange(start as int, content_end as int);
        assert(tok@ =~= a);
        assert(forall|j: int| 0 <= j < a.len() ==> a[j] == content[start + j]);
        lemma_split_nosep(a);
    }
    let ghost before = tokens@;
    tokens.push(tok);
    proof {
        assert(tokens@.map_values(|tk: String| tk@) =~= before.map_values(|tk: String| tk@).push(
            tok@,
        ));
        assert(split_at_seps(content) =~= tokens@.map_values(|tk: String| tk@));
    }
    LineContent::Tokens(tokens)
}

/// The larger of two integers.
pub open spec fn int_max(a: int, b: int) -> int {
    if a >= b {
        a
    } else {
        b
    }
}

/// The split of the line was two empty tokens: the line held one lone
/// character that cannot appear in a number.  Such a line stands for a
/// single missing sample, not for two.
pub open spec fn lone_invalid(tokens: Seq<Seq<char>>) -> bool {
    tokens.len() == 2 && tokens[0].len() == 0 && tokens[1].len() == 0
}

/// The x coordinate the row's samples share: the first parsed value when an
/// explicit x column is configured, else the row index handed in.
pub open spec fn row_x_of(cfg: Config, row_x: u64, tokens: Seq<Seq<char>>, values: Seq<u64>) -> u64 {
    if !lone_invalid(tokens) && cfg.x_column && values.len() >= 1 {
        values[0]
    } else {
        row_x
    }
}

/// The samples one data line stores, before any axis flip: one missing
/// sample for a lone invalid character; otherwise one sample per parsed
/// value, paired with the shared x coordinate (the first value itself is
/// consumed as that coordinate when an explicit x column is configured).
pub open spec fn row_pairs(cfg: Config, row_x: u64, tokens: Seq<Seq<char>>, values: Seq<u64>) -> Seq<
    Point,
> {
    if lone_invalid(tokens) {
        seq![Point(row_x, EMPTY_VALUE)]
    } else if cfg.x_column && values.len() >= 1 {
        values.skip(1).map_values(|v: u64| Point(values[0], v))
    } else {
        values.map_values(|v: u64| Point(row_x, v))
    }
}

/// Stores one data line's samples in row `row_count` of the dataset: the
/// samples of `row_pairs`, then the shared x coordinate with a missing y
/// for every column of the table the line did not reach.  `values` holds
/// the parsed value of each token of `tokens` (the missing-sample sentinel
/// where a token is no number); parsing them is the caller's business.
/// Rows the line does not touch keep their samples; cells created by
/// growth hold the missing-sample sentinel.
pub fn store_row(
    config: &Config,
    dataset: &mut DataSet,
    row_count: usize,
    row_x: u64,
    tokens: &Vec<String>,
    values: &Vec<u64>,
)
    requires
        old(dataset).wf(),
        values@.len() == tokens@.len(),
        row_count < usize::MAX,
    ensures
        final(dataset).wf(),
        final(dataset).columns == int_max(
            old(dataset).columns as int,
            row_pairs(*config, row_x, tokens@.map_values(|t: String| t@), values@).len() as int,
        ),
        final(dataset).rows == if final(dataset).columns > 0 {
            int_max(old(dataset).rows as int, row_count + 1)
        } else {
            old(dataset).rows as int
        },
        forall|c: int|
            0 <= c < row_pairs(*config, row_x, tokens@.map_values(|t: String| t@), values@).len()
                ==> final(dataset).cell(c, row_count as int) == stored_pair(
                config.flip_xy,
                row_pairs(*config, row_x, tokens@.map_values(|t: String| t@), values@)[c],
            ),
        forall|c: int|
            row_pairs(*config, row_x, tokens@.map_values(|t: String| t@), values@).len() <= c
                < final(dataset).columns ==> final(dataset).cell(c, row_count as int)
                == stored_pair(
                config.flip_xy,
                Point(
                    row_x_of(*config, row_x, tokens@.map_values(|t: String| t@), values@),
                    EMPTY_VALUE,
                ),
            ),
        forall|c: int, r: int|
            0 <= c < final(dataset).columns && 0 <= r < final(dataset).rows && r != row_count
                ==> final(dataset).cell(c, r) == (if c < old(dataset).columns && r < old(
                dataset,
            ).rows {
                old(dataset).cell(c, r)
            } else {
                empty_point()
            }),
{
    let ghost toks = tokens@.map_values(|t: String| t@);
    let ghost pairs = row_pairs(*config, row_x, toks, values@);
    let ghost cx = row_x_of(*config, row_x, toks, values@);

    let special = tokens.len() == 2 && tokens[0].as_str().unicode_len() == 0 && tokens[1].as_str().unicode_len()
        == 0;
    proof {
        assert(special == lone_invalid(toks));
    }

    let mut col: usize = 0;
    let mut cur_x = row_x;

    if special {
        dataset.add_pair(config, row_count, 0, Point(row_x, EMPTY_VALUE));
        col = 1;
    } else {
        let mut has_x = false;
        let mut idx: usize = 0;
        let ghost x_mode = config.x_column && values@.len() >= 1;
        while idx < values.len()
            invariant
                dataset.wf(),
                row_count < usize::MAX,
                values@.len() == toks.len(),
                !lone_invalid(toks),
                pairs == row_pairs(*config, row_x, toks, values@),
                cx == row_x_of(*config, row_x, toks, values@),
                x_mode == (config.x_column && values@.len() >= 1),
                idx <= values@.len(),
                x_mode ==> has_x == (idx >= 1),
                x_mode ==> col == (if idx >= 1 {
                    idx - 1
                } else {
                    0int
                }),
                !x_mode ==> col == idx && !has_x,
                cur_x == (if x_mode && idx >= 1 {
                    values@[0]
                } else {
                    row_x
                }),
                col <= pairs.len(),
                dataset.columns == (if col > 0 {
                    int_max(old(dataset).columns as int, col as int)
                } else {
                    old(dataset).columns as int
                }),
                dataset.rows == (if col > 0 {
                    int_max(old(dataset).rows as int, row_count + 1)
                } else {
                    old(dataset).rows as int
                }),
                forall|c: int|
                    0 <= c < col ==> dataset.cell(c, row_count as int) == stored_pair(
                        config.flip_xy,
                        pairs[c],
                    ),
                forall|c: int|
                    col <= c < dataset.columns && row_count < dataset.rows ==> dataset.cell(
                        c,
                        row_count as int,
                    ) == (if c < old(dataset).columns && row_count < old(dataset).rows {
                        old(dataset).cell(c, row_count as int)
                    } else {
                        empty_point()
                    }),
                forall|c: int, r: int|
                    0 <= c < dataset.columns && 0 <= r < dataset.rows && r != row_count
                        ==> dataset.cell(c, r) == (if c < old(dataset).columns && r < old(
                        dataset,
                    ).rows {
                        old(dataset).cell(c, r)
                    } else {
                        empty_point()
                    }),
            decreases values@.len() - idx,
        {
            let v = values[idx];
            if config.x_column && !has_x {
                cur_x = v;
                has_x = true;
            } else {
                proof {
                    if x_mode {
                        assert(pairs[col as int] == Point(values@[0], values@[idx as int]));
                    } else {
                        assert(pairs[col as int] == Point(row_x, values@[idx as int]));
                    }
                }
                dataset.add_pair(config, row_count, col, Point(cur_x, v));
                col += 1;
            }
            idx += 1;
        }
        proof {
            assert(col == pairs.len());
        }
    }

    while col < dataset.columns
        invariant
            dataset.wf(),
            row_count < usize::MAX,
            pairs.len() <= col,
            cur_x == cx,
            dataset.columns == (if col > 0 {
                int_max(old(dataset).columns as int, pairs.len() as int)
            } else {
                old(dataset).columns as int
            }),
            dataset.rows == (if col > 0 {
                int_max(old(dataset).rows as int, row_count + 1)
            } else {
                old(dataset).rows as int
            }),
            col > 0 || col == pairs.len(),
            col <= dataset.columns || col == pairs.len(),
            forall|c: int|
                0 <= c < pairs.len() ==> dataset.cell(c, row_count as int) == stored_pair(
                    config.flip_xy,
                    pairs[c],
                ),
            forall|c: int|
                pairs.len() <= c < col && c < dataset.columns ==> dataset.cell(c, row_count as int)
                    == stored_pair(config.flip_xy, Point(cx, EMPTY_VALUE)),
            forall|c: int|
                col <= c < dataset.columns && row_count < dataset.rows ==> dataset.cell(
                    c,
                    row_count as int,
                ) == (if c < old(dataset).columns && row_count < old(dataset).rows {
                    old(dataset).cell(c, row_count as int)
                } else {
                    empty_point()
                }),
            forall|c: int, r: int|
                0 <= c < dataset.columns && 0 <= r < dataset.rows && r != row_count
                    ==> dataset.cell(c, r) == (if c < old(dataset).columns && r < old(
                    dataset,
                ).rows {
                    old(dataset).cell(c, r)
                } else {
                    empty_point()
                }),
        decreases dataset.columns - col,
    {
        dataset.add_pair(config, row_count, col, Point(cur_x, EMPTY_VALUE));
        col += 1;
    }
}

} // verus!
