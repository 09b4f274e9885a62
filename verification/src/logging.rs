//! What goes into the update log, and the tail of it that `cliup log` shows.
use vstd::prelude::*;

use std::collections::VecDeque;

use crate::text::{decimal_i32, decode_lossy, lines_spec, owned, push_str, signed_decimal, split_lines, utf8_lossy, views};

verus! {

/// `chrono::Local::now`, formatted `%Y-%m-%d %H:%M:%S`: the local time of
/// the call. It depends on the clock and the time zone, so nothing is
/// promised of it.
#[verifier::external_body]
pub fn timestamp() -> String {
    chrono::Local::now().format("%Y-%m-%d %H:%M:%S").to_string()
}

/// How an exit status is logged: its code, or `terminated by signal` when
/// the process had none.
pub open spec fn exit_code_spec(code: Option<i32>) -> Seq<char> {
    match code {
        Some(c) => signed_decimal(c as int),
        None => "terminated by signal"@,
    }
}

/// The logged text of an exit status.
pub fn format_exit_code(code: Option<i32>) -> (r: String)
    ensures
        r@ == exit_code_spec(code),
{
    match code {
        Some(c) => decimal_i32(c),
        None => owned("terminated by signal"),
    }
}

/// The logged lines of one output stream: `(empty)` when it is empty, else
/// its lines.
pub open spec fn block_spec(bytes: Seq<u8>) -> Seq<Seq<char>> {
    if bytes.len() == 0 {
        seq!["(empty)"@]
    } else {
        lines_spec(utf8_lossy(bytes))
    }
}

/// The logged lines of a finished command: the command line, the exit
/// code, then stdout and stderr, each under its heading.
pub open spec fn command_result_spec(
    command: Seq<char>,
    stdout: Seq<u8>,
    stderr: Seq<u8>,
    code: Option<i32>,
) -> Seq<Seq<char>> {
    seq!["$ "@ + command, "exit code: "@ + exit_code_spec(code), "stdout:"@] + block_spec(stdout)
        + seq!["stderr:"@] + block_spec(stderr)
}

fn push_block(out: &mut Vec<String>, bytes: &[u8])
    ensures
        views(final(out)@) == views(old(out)@) + block_spec(bytes@),
{
    let ghost before = views(out@);
    if bytes.len() == 0 {
        out.push(owned("(empty)"));
        assert(views(out@) =~= before + seq!["(empty)"@]);
        return;
    }
    let text = decode_lossy(bytes);
    let lines = split_lines(text.as_str());
    let ghost ls = views(lines@);
    let n = lines.len();
    for line in it: lines
        invariant
            ls == views(it.seq()),
            n == ls.len(),
            views(out@) == before + ls.take(it.index() as int),
    {
        let ghost k = it.index() as int;
        assert(line == it.seq()[k]);
        let ghost mid = views(out@);
        out.push(line);
        assert(views(out@) =~= mid.push(ls[k]));
        assert(ls.take(k + 1) =~= ls.take(k).push(ls[k]));
        assert(views(out@) =~= before + ls.take(k + 1));
    }
    assert(ls.take(n as int) =~= ls);
}

/// The lines that record a finished command in the log.
pub fn command_result_lines(command: &str, stdout: &[u8], stderr: &[u8], code: Option<i32>) -> (r:
    Vec<String>)
    ensures
        views(r@) == command_result_spec(command@, stdout@, stderr@, code),
{
    let mut out: Vec<String> = Vec::new();
    let mut first = owned("$ ");
    push_str(&mut first, command);
    out.push(first);
    let mut second = owned("exit code: ");
    let code_text = format_exit_code(code);
    push_str(&mut second, code_text.as_str());
    out.push(second);
    out.push(owned("stdout:"));
    let ghost head = views(out@);
    assert(head =~= seq!["$ "@ + command@, "exit code: "@ + exit_code_spec(code), "stdout:"@]);
    push_block(&mut out, stdout);
    let ghost mid = views(out@);
    out.push(owned("stderr:"));
    assert(views(out@) =~= mid + seq!["stderr:"@]);
    push_block(&mut out, stderr);
    assert(views(out@) =~= command_result_spec(command@, stdout@, stderr@, code));
    out
}

/// The rule that frames the header of a run in the log.
pub open spec fn rule() -> Seq<char> {
    "============================================================"@
}

/// The lines that open a run in the log: a blank line, then the start time
/// between two rules.
pub open spec fn run_header_spec(ts: Seq<char>) -> Seq<Seq<char>> {
    seq![""@, rule(), "run started at "@ + ts, rule()]
}

/// The lines that open a run started at `ts`.
pub fn run_header_lines(ts: &str) -> (r: Vec<String>)
    ensures
        views(r@) == run_header_spec(ts@),
{
    let mut out: Vec<String> = Vec::new();
    out.push(owned(""));
    out.push(owned("============================================================"));
    let mut started = owned("run started at ");
    push_str(&mut started, ts);
    out.push(started);
    out.push(owned("============================================================"));
    assert(views(out@) =~= run_header_spec(ts@));
    out
}

/// A log line stamped with the time `ts`.
pub open spec fn info_spec(ts: Seq<char>, message: Seq<char>) -> Seq<char> {
    "["@ + ts + "] "@ + message
}

/// `message` stamped with the time `ts`.
pub fn info_line(ts: &str, message: &str) -> (r: String)
    ensures
        r@ == info_spec(ts@, message@),
{
    let mut r = owned("[");
    push_str(&mut r, ts);
    push_str(&mut r, "] ");
    push_str(&mut r, message);
    r
}

// ---------------------------------------------------------------------------
// The tail of the log
// ---------------------------------------------------------------------------

/// The last `n` lines of `lines` (all of them when there are fewer).
pub open spec fn tail_spec(lines: Seq<Seq<char>>, n: nat) -> Seq<Seq<char>> {
    if lines.len() <= n {
        lines
    } else {
        lines.skip(lines.len() - n)
    }
}

/// The last lines read so far, at most `limit` of them, oldest first.
pub struct LineTail {
    limit: usize,
    lines: VecDeque<String>,
}

impl LineTail {
    /// The lines kept, oldest first.
    pub closed spec fn kept(&self) -> Seq<Seq<char>> {
        views(self.lines@)
    }

    /// How many lines are kept at most.
    pub closed spec fn limit(&self) -> nat {
        self.limit as nat
    }

    /// No more lines are kept than the limit.
    pub closed spec fn wf(&self) -> bool {
        self.lines@.len() <= self.limit
    }

    /// An empty tail that keeps the last `limit` lines.
    pub fn new(limit: usize) -> (r: LineTail)
        ensures
            r.wf(),
            r.kept() == Seq::<Seq<char>>::empty(),
            r.limit() == limit,
    {
        let r = LineTail { limit, lines: VecDeque::new() };
        assert(r.kept() =~= Seq::<Seq<char>>::empty());
        r
    }

    /// Reads one more line, dropping the oldest when the tail is full.
    pub fn push(&mut self, line: String)
        requires
            old(self).wf(),
        ensures
            final(self).wf(),
            final(self).limit() == old(self).limit(),
            final(self).kept() == tail_spec(old(self).kept().push(line@), old(self).limit()),
            final(self).limit() > 0 ==> final(self).kept().len() > 0 && final(self).kept().last()
                == line@,
            final(self).kept().len() == if old(self).kept().len() < old(self).limit() {
                old(self).kept().len() + 1
            } else {
                old(self).limit()
            },
    {
        let ghost before = self.kept();
        let ghost lv = line@;
        if self.limit == 0 {
            assert(tail_spec(before.push(lv), 0) =~= Seq::<Seq<char>>::empty());
            assert(before.len() == 0);
            assert(self.kept() =~= Seq::<Seq<char>>::empty());
            return;
        }
        if self.lines.len() == self.limit {
            self.lines.pop_front();
        }
        let ghost mid = self.kept();
        self.lines.push_back(line);
        assert(self.kept() =~= mid.push(lv));
        assert(self.kept() =~= tail_spec(before.push(lv), self.limit as nat));
    }

    /// The lines kept, oldest first.
    pub fn into_lines(self) -> (r: Vec<String>)
        ensures
            views(r@) == self.kept(),
    {
        let mut lines = self.lines;
        let ghost all = views(lines@);
        let mut out: Vec<String> = Vec::new();
        while lines.len() > 0
            invariant
                all == views(out@) + views(lines@),
            decreases lines.len(),
        {
            let ghost rest = views(lines@);
            let line = lines.pop_front().unwrap();
            let ghost o = views(out@);
            out.push(line);
            assert(views(out@) =~= o.push(rest[0]));
            assert(views(lines@) =~= rest.drop_first());
            assert(all =~= views(out@) + views(lines@));
        }
        assert(all =~= views(out@));
        out
    }
}

/// The tail of `n` lines is the last lines read: it holds the smaller of
/// `n` and the number of lines, and they are the lines at the end, in
/// order; so the most recent line is last whenever `n > 0`.
pub proof fn lemma_tail_is_last_lines(lines: Seq<Seq<char>>, n: nat)
    ensures
        tail_spec(lines, n).len() == if lines.len() <= n {
            lines.len()
        } else {
            n
        },
        forall|i: int|
            0 <= i < tail_spec(lines, n).len() ==> #[trigger] tail_spec(lines, n)[i]
                == lines[lines.len() - tail_spec(lines, n).len() + i],
        n > 0 && lines.len() > 0 ==> tail_spec(lines, n).last() == lines.last(),
{
}

/// Keeping the tail line by line keeps the last lines of all that was read:
/// pushing one more line onto the tail of `lines` gives the tail of
/// `lines` with that line.
pub proof fn lemma_tail_push(lines: Seq<Seq<char>>, line: Seq<char>, n: nat)
    ensures
        tail_spec(tail_spec(lines, n).push(line), n) == tail_spec(lines.push(line), n),
{
    let t = tail_spec(lines, n);
    if lines.len() <= n {
        assert(t == lines);
    } else {
        assert(t.push(line) =~= lines.push(line).skip(lines.len() - n));
        assert(t.push(line).len() == n + 1);
        assert(t.push(line).skip(1) =~= lines.push(line).skip(lines.push(line).len() - n));
    }
}

/// After reading all of `lines` into an empty tail, it holds the last `n`
/// of them.
pub proof fn lemma_tail_of_all(lines: Seq<Seq<char>>, n: nat)
    ensures
        tail_after(lines, n) == tail_spec(lines, n),
    decreases lines.len(),
{
    if lines.len() > 0 {
        lemma_tail_of_all(lines.drop_last(), n);
        lemma_tail_push(lines.drop_last(), lines.last(), n);
        assert(lines.drop_last().push(lines.last()) =~= lines);
    }
}

/// What a tail of `n` lines holds after `lines` were read into it one by one.
pub open spec fn tail_after(lines: Seq<Seq<char>>, n: nat) -> Seq<Seq<char>>
    decreases lines.len(),
{
    if lines.len() == 0 {
        seq![]
    } else {
        tail_spec(tail_after(lines.drop_last(), n).push(lines.last()), n)
    }
}

} // verus!
