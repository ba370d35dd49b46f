//! The copy history: which entries are kept, their newest-first listing, and
//! the line framing of the history file.

use vstd::prelude::*;

verus! {

/// One copied timestamp — the "History" tab.
#[derive(Debug, Clone, PartialEq, Eq)]
pub struct Entry {
    /// Epoch seconds when the copy happened.
    pub at: i64,
    /// Format key that was copied.
    pub format: String,
    /// The copied value.
    pub value: String,
}

impl View for Entry {
    type V = (int, Seq<char>, Seq<char>);

    open spec fn view(&self) -> (int, Seq<char>, Seq<char>) {
        (self.at as int, self.format@, self.value@)
    }
}

/// The views of a sequence of entries.
pub open spec fn entries_view(entries: Seq<Entry>) -> Seq<(int, Seq<char>, Seq<char>)> {
    entries.map_values(|e: Entry| e@)
}

/// The history after recording `entry`: the `cap` newest of the old entries
/// followed by it; `None` when a cap of 0 disables history.
pub open spec fn record_spec(
    history: Seq<(int, Seq<char>, Seq<char>)>,
    entry: (int, Seq<char>, Seq<char>),
    cap: nat,
) -> Option<Seq<(int, Seq<char>, Seq<char>)>> {
    if cap == 0 {
        None
    } else {
        let all = history.push(entry);
        let skip = if all.len() > cap {
            (all.len() - cap) as int
        } else {
            0
        };
        Some(all.skip(skip))
    }
}

/// Append an entry, keeping the `cap` newest entries.
/// A cap of 0 disables history entirely (`None`: nothing to write).
pub fn record(history: Vec<Entry>, entry: Entry, cap: usize) -> (r: Option<Vec<Entry>>)
    ensures
        r is None <==> record_spec(entries_view(history@), entry@, cap as nat) is None,
        r matches Some(v) ==> record_spec(entries_view(history@), entry@, cap as nat) == Some(
            entries_view(v@),
        ),
{
    if cap == 0 {
        return None;
    }
    let mut all = history;
    all.push(entry);
    assert(entries_view(all@) =~= entries_view(history@).push(entry@));
    let skip = if all.len() > cap {
        all.len() - cap
    } else {
        0
    };
    let kept = all.split_off(skip);
    assert(entries_view(kept@) =~= entries_view(history@).push(entry@).skip(skip as int));
    Some(kept)
}

/// The first `limit` entries of `entries` reversed: the newest first.
pub open spec fn list_spec(entries: Seq<(int, Seq<char>, Seq<char>)>, limit: nat) -> Seq<
    (int, Seq<char>, Seq<char>),
> {
    let n = if entries.len() < limit {
        entries.len()
    } else {
        limit
    };
    Seq::new(n, |i: int| entries[entries.len() - 1 - i])
}

/// Newest-first list of recorded entries, at most `limit` of them.
pub fn list(entries: Vec<Entry>, limit: usize) -> (r: Vec<Entry>)
    ensures
        entries_view(r@) == list_spec(entries_view(entries@), limit as nat),
{
    let ghost orig = entries_view(entries@);
    let mut rest = entries;
    let mut out: Vec<Entry> = Vec::new();
    while out.len() < limit && rest.len() > 0
        invariant
            orig.len() == out@.len() + rest@.len(),
            entries_view(rest@) == orig.subrange(0, rest@.len() as int),
            forall|i: int| 0 <= i < out@.len() ==> #[trigger] out@[i]@ == orig[orig.len() - 1 - i],
            out@.len() <= limit,
        decreases rest@.len(),
    {
        let ghost before = rest@;
        let e = rest.pop().unwrap();
        assert(e@ == entries_view(before)[before.len() - 1]);
        out.push(e);
        assert(entries_view(rest@) =~= orig.subrange(0, rest@.len() as int)) by {
            assert(rest@ =~= before.drop_last());
        }
    }
    assert(entries_view(out@) =~= list_spec(orig, limit as nat));
    out
}

/// After recording `entry` with a positive cap, the history holds the newest
/// `cap` entries, and listing it gives, newest first, the most recent entries
/// with `entry` at the top.
pub proof fn lemma_record_then_list(
    history: Seq<(int, Seq<char>, Seq<char>)>,
    entry: (int, Seq<char>, Seq<char>),
    cap: nat,
    limit: nat,
)
    requires
        cap > 0,
    ensures
        record_spec(history, entry, cap) is Some,
        ({
            let kept = record_spec(history, entry, cap).unwrap();
            let all = history.push(entry);
            let listed = list_spec(kept, limit);
            &&& kept.len() == (if all.len() < cap {
                all.len()
            } else {
                cap
            })
            &&& listed.len() == (if kept.len() < limit {
                kept.len()
            } else {
                limit
            })
            &&& forall|i: int| 0 <= i < listed.len() ==> #[trigger] listed[i] == all[all.len() - 1 - i]
            &&& limit > 0 ==> listed[0] == entry
        }),
{
}

/// `text` split into lines as `str::lines` does: at each `\n`, dropping a `\r`
/// just before it, with no empty line after a final `\n`.
pub open spec fn lines_spec(text: Seq<char>) -> Seq<Seq<char>>
    decreases text.len(),
{
    if text.len() == 0 {
        Seq::empty()
    } else {
        proof {
            lemma_first_newline_bounds(text, 0);
        }
        let end = first_newline(text, 0);
        if end < text.len() {
            let raw = text.subrange(0, end);
            let line = if raw.len() > 0 && raw.last() == '\r' {
                raw.drop_last()
            } else {
                raw
            };
            seq![line] + lines_spec(text.subrange(end + 1, text.len() as int))
        } else {
            seq![text]
        }
    }
}

/// The index of the first `\n` at or after `from`, or the length.
pub open spec fn first_newline(text: Seq<char>, from: int) -> int
    decreases text.len() - from,
{
    if from >= text.len() {
        text.len() as int
    } else if text[from] == '\n' {
        from
    } else {
        first_newline(text, from + 1)
    }
}

/// `first_newline` stays between its start and the length.
pub proof fn lemma_first_newline_bounds(text: Seq<char>, from: int)
    requires
        0 <= from <= text.len(),
    ensures
        from <= first_newline(text, from) <= text.len(),
    decreases text.len() - from,
{
    if from < text.len() && text[from] != '\n' {
        lemma_first_newline_bounds(text, from + 1);
    }
}

/// The lines of the history file, one serialized entry each.
pub fn lines(text: &str) -> (r: Vec<String>)
    ensures
        r@.map_values(|s: String| s@) == lines_spec(text@),
{
    let n = text.unicode_len();
    let mut out: Vec<String> = Vec::new();
    let mut start: usize = 0;
    assert(text@.subrange(0, n as int) =~= text@);
    assert(out@.map_values(|s: String| s@) =~= Seq::<Seq<char>>::empty());
    while start < n
        invariant
            n == text@.len(),
            start <= n,
            lines_spec(text@) == out@.map_values(|s: String| s@) + lines_spec(
                text@.subrange(start as int, n as int),
            ),
        decreases n - start,
    {
        let ghost rest = text@.subrange(start as int, n as int);
        let mut end: usize = start;
        while end < n && text.get_char(end) != '\n'
            invariant
                n == text@.len(),
                start <= end <= n,
                rest == text@.subrange(start as int, n as int),
                first_newline(rest, 0) == first_newline(rest, end - start),
            decreases n - end,
        {
            end = end + 1;
        }
        proof {
            lemma_first_newline_bounds(rest, 0);
        }
        assert(first_newline(rest, 0) == end - start);
        let mut stop = end;
        if end < n && end > start && text.get_char(end - 1) == '\r' {
            stop = end - 1;
        }
        let line = String::from_str(text.substring_char(start, stop));
        let ghost before = out@;
        let ghost line_view = line@;
        proof {
            let raw = rest.subrange(0, end - start);
            assert(raw =~= text@.subrange(start as int, end as int));
            if end < n {
                if raw.len() > 0 && raw.last() == '\r' {
                    assert(line_view =~= raw.drop_last());
                } else {
                    assert(line_view =~= raw);
                }
                assert(lines_spec(rest) == seq![line_view] + lines_spec(
                    rest.subrange(end - start + 1, rest.len() as int),
                ));
            } else {
                assert(line_view =~= rest);
                assert(lines_spec(rest) == seq![line_view]);
            }
        }
        out.push(line);
        if end < n {
            assert(rest.subrange(0, end - start) =~= text@.subrange(start as int, end as int));
            assert(rest.subrange(end - start + 1, rest.len() as int) =~= text@.subrange(
                end + 1,
                n as int,
            ));
            assert(out@.map_values(|s: String| s@) =~= before.map_values(|s: String| s@).push(
                line@,
            ));
            start = end + 1;
        } else {
            assert(rest =~= text@.subrange(start as int, end as int));
            assert(out@.map_values(|s: String| s@) =~= before.map_values(|s: String| s@).push(
                line@,
            ));
            assert(text@.subrange(n as int, n as int) =~= Seq::<char>::empty());
            start = n;
        }
    }
    assert(text@.subrange(n as int, n as int) =~= Seq::<char>::empty());
    assert(out@.map_values(|s: String| s@) =~= lines_spec(text@));
    out
}

/// The body of the history file: each serialized entry followed by `\n`.
pub open spec fn frame_spec(lines: Seq<Seq<char>>) -> Seq<char>
    decreases lines.len(),
{
    if lines.len() == 0 {
        Seq::empty()
    } else {
        frame_spec(lines.drop_last()) + lines.last() + "\n"@
    }
}

/// Whether `line` can stand as one line of the history file and be read back
/// as it is: it holds no `\n` and does not end in `\r`.
pub open spec fn frameable(line: Seq<char>) -> bool {
    &&& forall|i: int| 0 <= i < line.len() ==> line[i] != '\n'
    &&& !(line.len() > 0 && line.last() == '\r')
}

/// `frame_spec` read from the front: the first line, its `\n`, then the rest.
proof fn lemma_frame_front(lines: Seq<Seq<char>>)
    requires
        lines.len() > 0,
    ensures
        frame_spec(lines) == lines[0] + "\n"@ + frame_spec(lines.drop_first()),
    decreases lines.len(),
{
    if lines.len() == 1 {
        assert(lines.drop_last() =~= Seq::<Seq<char>>::empty());
        assert(lines.drop_first() =~= Seq::<Seq<char>>::empty());
        assert(frame_spec(lines.drop_last()) == Seq::<char>::empty());
        assert(frame_spec(lines.drop_first()) == Seq::<char>::empty());
        assert(lines.last() == lines[0]);
        assert(frame_spec(lines) =~= lines[0] + "\n"@);
    } else {
        let init = lines.drop_last();
        lemma_frame_front(init);
        assert(init.drop_first() =~= lines.drop_first().drop_last());
        assert(lines.drop_first().last() == lines.last());
        assert(frame_spec(lines.drop_first()) == frame_spec(lines.drop_first().drop_last())
            + lines.drop_first().last() + "\n"@);
        assert(frame_spec(lines) =~= lines[0] + "\n"@ + frame_spec(lines.drop_first()));
    }
}

/// The first `\n` of `line + "\n" + rest` at or after `from` ends `line`.
proof fn lemma_first_newline_after_line(line: Seq<char>, rest: Seq<char>, from: int)
    requires
        frameable(line),
        0 <= from <= line.len(),
    ensures
        first_newline(line + seq!['\n'] + rest, from) == line.len(),
    decreases line.len() - from,
{
    let text = line + seq!['\n'] + rest;
    if from < line.len() {
        assert(text[from] == line[from]);
        lemma_first_newline_after_line(line, rest, from + 1);
    } else {
        assert(text[from] == '\n');
    }
}

/// Reading lines from `line + "\n" + rest` gives `line`, then the lines of `rest`.
proof fn lemma_lines_front(line: Seq<char>, rest: Seq<char>)
    requires
        frameable(line),
    ensures
        lines_spec(line + "\n"@ + rest) == seq![line] + lines_spec(rest),
{
    reveal_strlit("\n");
    let text = line + seq!['\n'] + rest;
    assert("\n"@ =~= seq!['\n']);
    lemma_first_newline_after_line(line, rest, 0);
    assert(text.subrange(0, line.len() as int) =~= line);
    assert(text.subrange(line.len() + 1int, text.len() as int) =~= rest);
}

/// Framing lines that hold no `\n` and do not end in `\r`, then reading the
/// lines back, gives the same lines: what the history file stores is what is
/// read from it.
pub proof fn lemma_lines_of_frame(lines: Seq<Seq<char>>)
    requires
        forall|i: int| 0 <= i < lines.len() ==> #[trigger] frameable(lines[i]),
    ensures
        lines_spec(frame_spec(lines)) == lines,
    decreases lines.len(),
{
    if lines.len() == 0 {
        assert(lines_spec(frame_spec(lines)) =~= lines);
    } else {
        lemma_frame_front(lines);
        assert(frameable(lines[0]));
        lemma_lines_front(lines[0], frame_spec(lines.drop_first()));
        assert forall|i: int| 0 <= i < lines.drop_first().len() implies #[trigger] frameable(
            lines.drop_first()[i],
        ) by {
            assert(frameable(lines[i + 1]));
        }
        lemma_lines_of_frame(lines.drop_first());
        assert(seq![lines[0]] + lines.drop_first() =~= lines);
    }
}

/// Joins serialized entries into the history file's text.
pub fn frame(lines: &Vec<String>) -> (r: String)
    ensures
        r@ == frame_spec(lines@.map_values(|s: String| s@)),
{
    let mut out = String::new();
    let mut i: usize = 0;
    while i < lines.len()
        invariant
            i <= lines@.len(),
            out@ == frame_spec(lines@.map_values(|s: String| s@).take(i as int)),
        decreases lines@.len() - i,
    {
        let ghost v = lines@.map_values(|s: String| s@);
        assert(v.take(i + 1).drop_last() =~= v.take(i as int));
        out.append(lines[i].as_str());
        out.append("\n");
        i = i + 1;
    }
    assert(lines@.map_values(|s: String| s@).take(lines@.len() as int) =~= lines@.map_values(
        |s: String| s@,
    ));
    out
}

} // verus!
