use vstd::prelude::*;

use crate::text::{chars_of, substring};

verus! {

/// The file text for `tasks`: each task followed by a newline.
pub open spec fn render(tasks: Seq<Seq<char>>) -> Seq<char>
    decreases tasks.len(),
{
    if tasks.len() == 0 {
        seq![]
    } else {
        tasks[0] + seq!['\n'] + render(tasks.drop_first())
    }
}

/// A line as it was terminated by `\r\n` or `\n`: without its carriage return.
pub open spec fn strip_cr(line: Seq<char>) -> Seq<char> {
    if line.len() > 0 && line.last() == '\r' {
        line.drop_last()
    } else {
        line
    }
}

/// The lines of `s`, given that `cur` has been read since the last line break.
/// A final line without a line break counts when it is not empty.
pub open spec fn lines_after(s: Seq<char>, cur: Seq<char>) -> Seq<Seq<char>>
    decreases s.len(),
{
    if s.len() == 0 {
        if cur.len() == 0 {
            seq![]
        } else {
            seq![cur]
        }
    } else if s[0] == '\n' {
        seq![strip_cr(cur)] + lines_after(s.drop_first(), seq![])
    } else {
        lines_after(s.drop_first(), cur.push(s[0]))
    }
}

/// The lines of the file text `s`, as `str::lines` reads them.
pub open spec fn file_lines(s: Seq<char>) -> Seq<Seq<char>> {
    lines_after(s, seq![])
}

/// A task that one line of the file holds: no line break in it, and no
/// carriage return at its end.
pub open spec fn single_line(t: Seq<char>) -> bool {
    &&& forall|i: int| 0 <= i < t.len() ==> t[i] != '\n'
    &&& !(t.len() > 0 && t.last() == '\r')
}

pub open spec fn views(v: Seq<String>) -> Seq<Seq<char>> {
    v.map_values(|t: String| t@)
}

proof fn lemma_render_push(tasks: Seq<Seq<char>>, t: Seq<char>)
    ensures
        render(tasks.push(t)) == render(tasks) + t + seq!['\n'],
    decreases tasks.len(),
{
    if tasks.len() == 0 {
        assert(tasks.push(t).drop_first() =~= tasks);
        assert(render(tasks.push(t)) =~= render(tasks) + t + seq!['\n']);
    } else {
        assert(tasks.push(t).drop_first() =~= tasks.drop_first().push(t));
        lemma_render_push(tasks.drop_first(), t);
        assert(render(tasks.push(t)) =~= render(tasks) + t + seq!['\n']);
    }
}

proof fn lemma_lines_plain(t: Seq<char>, r: Seq<char>, cur: Seq<char>)
    requires
        forall|i: int| 0 <= i < t.len() ==> t[i] != '\n',
    ensures
        lines_after(t + r, cur) == lines_after(r, cur + t),
    decreases t.len(),
{
    if t.len() == 0 {
        assert(t + r =~= r);
        assert(cur + t =~= cur);
    } else {
        assert((t + r)[0] == t[0]);
        assert((t + r).drop_first() =~= t.drop_first() + r);
        assert(cur.push(t[0]) + t.drop_first() =~= cur + t);
        lemma_lines_plain(t.drop_first(), r, cur.push(t[0]));
    }
}

/// Reading back the text written for single-line tasks gives the same tasks,
/// in the same order.
pub proof fn lemma_render_round_trip(tasks: Seq<Seq<char>>)
    requires
        forall|i: int| 0 <= i < tasks.len() ==> single_line(#[trigger] tasks[i]),
    ensures
        file_lines(render(tasks)) == tasks,
    decreases tasks.len(),
{
    if tasks.len() == 0 {
        assert(file_lines(render(tasks)) =~= tasks);
    } else {
        let t = tasks[0];
        let rest = render(tasks.drop_first());
        assert(single_line(t));
        assert(render(tasks) =~= t + (seq!['\n'] + rest));
        lemma_lines_plain(t, seq!['\n'] + rest, seq![]);
        assert(seq![] + t =~= t);
        assert((seq!['\n'] + rest).drop_first() =~= rest);
        assert(forall|i: int|
            0 <= i < tasks.drop_first().len() ==> single_line(#[trigger] tasks.drop_first()[i])
                == single_line(tasks[i + 1]));
        lemma_render_round_trip(tasks.drop_first());
        assert(file_lines(render(tasks)) =~= tasks);
    }
}

/// The file text for `tasks`: each task followed by a newline.
pub fn render_tasks(tasks: &Vec<String>) -> (r: String)
    ensures
        r@ == render(views(tasks@)),
{
    let mut out = String::new();
    let mut i: usize = 0;
    proof {
        reveal_strlit("\n");
        assert(views(tasks@).take(0) =~= seq![]);
    }
    while i < tasks.len()
        invariant
            i <= tasks@.len(),
            out@ == render(views(tasks@).take(i as int)),
        decreases tasks@.len() - i,
    {
        out.append(tasks[i].as_str());
        out.append("\n");
        proof {
            reveal_strlit("\n");
            assert(views(tasks@).take(i + 1) =~= views(tasks@).take(i as int).push(tasks@[i as int]@));
            lemma_render_push(views(tasks@).take(i as int), tasks@[i as int]@);
        }
        i = i + 1;
    }
    assert(views(tasks@).take(i as int) =~= views(tasks@));
    out
}

/// Splits the file text `s` into its lines, as `str::lines` does: at each `\n`,
/// with a `\r` before it dropped, and with a final line only when it is not empty.
pub fn parse_lines(s: &str) -> (r: Vec<String>)
    ensures
        views(r@) == file_lines(s@),
{
    let v = chars_of(s);
    let n = v.len();
    let mut out: Vec<String> = Vec::new();
    let mut start: usize = 0;
    let mut i: usize = 0;
    assert(s@.skip(0) =~= s@);
    assert(s@.subrange(0, 0) =~= seq![]);
    assert(views(out@) =~= seq![]);
    while i < n
        invariant
            start <= i <= n == s@.len(),
            v@ == s@,
            file_lines(s@) == views(out@) + lines_after(s@.skip(i as int), s@.subrange(
                start as int,
                i as int,
            )),
        decreases n - i,
    {
        let ghost cur = s@.subrange(start as int, i as int);
        let ghost old_out = views(out@);
        assert(s@.skip(i as int).drop_first() =~= s@.skip(i + 1));
        if v[i] == '\n' {
            let end: usize = if i > start && v[i - 1] == '\r' {
                i - 1
            } else {
                i
            };
            assert(s@.subrange(start as int, end as int) =~= strip_cr(cur));
            let line = substring(s, start, end);
            out.push(line);
            assert(views(out@) =~= old_out.push(strip_cr(cur)));
            assert(s@.subrange(i + 1, i + 1) =~= seq![]);
            assert(views(out@) + lines_after(s@.skip(i + 1), seq![]) =~= old_out + (seq![
                strip_cr(cur),
            ] + lines_after(s@.skip(i + 1), seq![])));
            start = i + 1;
        } else {
            assert(cur.push(v[i as int]) =~= s@.subrange(start as int, i + 1));
        }
        i = i + 1;
    }
    assert(s@.skip(n as int) =~= seq![]);
    if start < n {
        let ghost old_out = views(out@);
        let line = substring(s, start, n);
        out.push(line);
        assert(views(out@) =~= old_out + seq![s@.subrange(start as int, n as int)]);
    } else {
        assert(views(out@) + seq![] =~= views(out@));
    }
    out
}

} // verus!
