//! The table of results for a terminal, as lines of text, and the summary
//! counts of a cycle.

use crate::probe_result::{ProbeResult, ResultModel};
use crate::ranking::results_model;
use crate::text::{chars_of, decimal_digits, push_decimal, push_text, text_of};
use vstd::prelude::*;

verus! {

/// `s` where it has at most `max_len` characters; else its first
/// `max_len - 3` characters (none where `max_len` is below 3) and three dots.
pub open spec fn truncated(s: Seq<char>, max_len: nat) -> Seq<char> {
    if s.len() <= max_len {
        s
    } else {
        s.take(
            if max_len >= 3 {
                max_len - 3
            } else {
                0
            },
        ) + seq!['.', '.', '.']
    }
}

/// `s` followed by as many spaces as it lacks to `width` characters.
pub open spec fn padded(s: Seq<char>, width: nat) -> Seq<char> {
    if s.len() >= width {
        s
    } else {
        s + Seq::new((width - s.len()) as nat, |i: int| ' ')
    }
}

fn push_truncated(out: &mut Vec<char>, chars: &Vec<char>, max_len: usize)
    ensures
        final(out)@ == old(out)@ + truncated(chars@, max_len as nat),
{
    let ghost before = out@;
    let n: usize = chars.len();
    let keep: usize = if n <= max_len {
        n
    } else if max_len >= 3 {
        max_len - 3
    } else {
        0
    };
    let mut i: usize = 0;
    while i < keep
        invariant
            i <= keep <= n,
            n == chars@.len(),
            out@ == before + chars@.take(i as int),
        decreases keep - i,
    {
        out.push(chars[i]);
        i = i + 1;
        assert(out@ =~= before + chars@.take(i as int));
    }
    if n > max_len {
        out.push('.');
        out.push('.');
        out.push('.');
        assert(out@ =~= before + (chars@.take(keep as int) + seq!['.', '.', '.']));
    } else {
        assert(chars@.take(n as int) =~= chars@);
    }
}

/// Shortens a text to at most `max_len` characters for a table cell (to three
/// dots where `max_len` is below 3).
pub fn truncate(s: &str, max_len: usize) -> (r: String)
    ensures
        r@ == truncated(s@, max_len as nat),
{
    let chars = chars_of(s);
    let mut out: Vec<char> = Vec::new();
    push_truncated(&mut out, &chars, max_len);
    assert(out@ =~= truncated(s@, max_len as nat));
    text_of(&out)
}

fn push_padded(out: &mut Vec<char>, cell: &Vec<char>, width: usize)
    ensures
        final(out)@ == old(out)@ + padded(cell@, width as nat),
{
    let ghost before = out@;
    let n: usize = cell.len();
    let mut i: usize = 0;
    while i < n
        invariant
            i <= n,
            n == cell@.len(),
            out@ == before + cell@.take(i as int),
        decreases n - i,
    {
        out.push(cell[i]);
        i = i + 1;
        assert(out@ =~= before + cell@.take(i as int));
    }
    assert(cell@.take(n as int) =~= cell@);
    let mut k: usize = n;
    while k < width
        invariant
            n <= k,
            k == n || k <= width,
            out@ == before + cell@ + Seq::new((k - n) as nat, |i: int| ' '),
        decreases width - k,
    {
        out.push(' ');
        k = k + 1;
        assert(out@ =~= before + cell@ + Seq::new((k - n) as nat, |i: int| ' '));
    }
    if n >= width {
        assert(k == n);
        assert(padded(cell@, width as nat) == cell@);
        assert(out@ =~= before + cell@);
    } else {
        assert(k == width);
        assert(padded(cell@, width as nat) =~= cell@ + Seq::new((k - n) as nat, |i: int| ' '));
        assert(out@ =~= before + (cell@ + Seq::new((k - n) as nat, |i: int| ' ')));
    }
}

/// The status cell of a row.
pub open spec fn status_text(alive: bool) -> Seq<char> {
    if alive {
        "✓ ALIVE"@
    } else {
        "✗ DEAD"@
    }
}

/// The delay cell of a row: the delay in milliseconds, or a dash.
pub open spec fn delay_text(delay_ms: Option<u64>) -> Seq<char> {
    match delay_ms {
        Some(d) => decimal_digits(d as nat) + "ms"@,
        None => "-"@,
    }
}

/// One row of the table: name, server, port, protocol and status in columns
/// of 25, 20, 8, 12 and 8 characters, each followed by a space, then the
/// delay.
pub open spec fn row_text(r: ResultModel) -> Seq<char> {
    padded(truncated(r.name, 24), 25).push(' ') + padded(truncated(r.server, 19), 20).push(' ')
        + padded(decimal_digits(r.port as nat), 8).push(' ') + padded(
        truncated(r.protocol, 11),
        12,
    ).push(' ') + padded(status_text(r.alive), 8).push(' ') + delay_text(r.delay_ms)
}

/// The header row: the column titles, laid out as the rows are.
pub open spec fn header_text() -> Seq<char> {
    padded("Name"@, 25).push(' ') + padded("Server"@, 20).push(' ') + padded("Port"@, 8).push(' ')
        + padded("Protocol"@, 12).push(' ') + padded("Status"@, 8).push(' ') + "Delay"@
}

fn push_cell(out: &mut Vec<char>, cell: &Vec<char>, width: usize)
    ensures
        final(out)@ == old(out)@ + padded(cell@, width as nat).push(' '),
{
    push_padded(out, cell, width);
    out.push(' ');
    assert(out@ =~= old(out)@ + padded(cell@, width as nat).push(' '));
}

fn truncated_cell(s: &str, max_len: usize) -> (r: Vec<char>)
    ensures
        r@ == truncated(s@, max_len as nat),
{
    let chars = chars_of(s);
    let mut out: Vec<char> = Vec::new();
    push_truncated(&mut out, &chars, max_len);
    assert(out@ =~= truncated(s@, max_len as nat));
    out
}

/// The row of one result.
pub fn result_row(result: &ProbeResult) -> (r: String)
    ensures
        r@ == row_text(result@),
{
    let mut out: Vec<char> = Vec::new();
    push_cell(&mut out, &truncated_cell(result.name.as_str(), 24), 25);
    push_cell(&mut out, &truncated_cell(result.server.as_str(), 19), 20);
    let mut port: Vec<char> = Vec::new();
    push_decimal(&mut port, result.port as u64);
    assert(port@ =~= decimal_digits(result.port as nat));
    push_cell(&mut out, &port, 8);
    push_cell(&mut out, &truncated_cell(result.protocol.as_str(), 11), 12);
    let status = if result.alive {
        chars_of("✓ ALIVE")
    } else {
        chars_of("✗ DEAD")
    };
    push_cell(&mut out, &status, 8);
    match result.delay_ms {
        Some(d) => {
            push_decimal(&mut out, d);
            push_text(&mut out, "ms");
        },
        None => {
            push_text(&mut out, "-");
        },
    }
    assert(out@ =~= row_text(result@));
    text_of(&out)
}

/// The header row.
pub fn header_row() -> (r: String)
    ensures
        r@ == header_text(),
{
    let mut out: Vec<char> = Vec::new();
    push_cell(&mut out, &chars_of("Name"), 25);
    push_cell(&mut out, &chars_of("Server"), 20);
    push_cell(&mut out, &chars_of("Port"), 8);
    push_cell(&mut out, &chars_of("Protocol"), 12);
    push_cell(&mut out, &chars_of("Status"), 8);
    push_text(&mut out, "Delay");
    assert(out@ =~= header_text());
    text_of(&out)
}

/// How many of the results are live.
pub open spec fn alive_count(s: Seq<ResultModel>) -> nat
    decreases s.len(),
{
    if s.len() == 0 {
        0
    } else {
        alive_count(s.drop_last()) + if s.last().alive {
            1nat
        } else {
            0nat
        }
    }
}

/// The summary counts of a cycle.
#[derive(Debug, Clone, Copy, PartialEq, Eq, Structural)]
pub struct Summary {
    pub total: usize,
    pub alive: usize,
    pub dead: usize,
}

/// Counts the live and the dead results.
pub fn summarize(results: &Vec<ProbeResult>) -> (r: Summary)
    ensures
        r.total == results@.len(),
        r.alive == alive_count(results_model(results@)),
        r.dead == r.total - r.alive,
{
    let ghost all = results_model(results@);
    let mut alive: usize = 0;
    let mut i: usize = 0;
    while i < results.len()
        invariant
            i <= results@.len(),
            all == results_model(results@),
            alive == alive_count(all.take(i as int)),
            alive <= i,
        decreases results@.len() - i,
    {
        assert(all.take(i + 1).drop_last() =~= all.take(i as int));
        assert(all.take(i + 1).last() == results@[i as int]@);
        if results[i].alive {
            alive = alive + 1;
        }
        i = i + 1;
    }
    assert(all.take(i as int) =~= all);
    Summary { total: results.len(), alive, dead: results.len() - alive }
}

/// The lines that one result gives: its row, and its error where the table
/// is verbose and the result has one.
pub open spec fn result_lines(r: ResultModel, verbose: bool) -> Seq<Seq<char>> {
    match r.error {
        Some(e) => if verbose {
            seq![row_text(r), "    Error: "@ + e]
        } else {
            seq![row_text(r)]
        },
        None => seq![row_text(r)],
    }
}

/// The lines of all results, in their order.
pub open spec fn rows(s: Seq<ResultModel>, verbose: bool) -> Seq<Seq<char>>
    decreases s.len(),
{
    if s.len() == 0 {
        Seq::empty()
    } else {
        rows(s.drop_last(), verbose) + result_lines(s.last(), verbose)
    }
}

/// The head of the table: an empty line, the title, the header row and a
/// rule of 90 equals signs.
pub open spec fn heading() -> Seq<Seq<char>> {
    seq![
        Seq::empty(),
        "=== ClashProbe Results ==="@,
        header_text(),
        Seq::new(90, |i: int| '='),
    ]
}

/// The summary: an empty line, the title and the three counts.
pub open spec fn summary_lines(s: Seq<ResultModel>) -> Seq<Seq<char>> {
    seq![
        Seq::empty(),
        "=== Summary ==="@,
        "Total servers: "@ + decimal_digits(s.len()),
        "Alive servers: "@ + decimal_digits(alive_count(s)),
        "Dead servers: "@ + decimal_digits((s.len() - alive_count(s)) as nat),
    ]
}

/// The whole table.
pub open spec fn table(s: Seq<ResultModel>, verbose: bool) -> Seq<Seq<char>> {
    heading() + rows(s, verbose) + summary_lines(s)
}

/// The characters of each line.
pub open spec fn lines_model(lines: Seq<String>) -> Seq<Seq<char>> {
    Seq::new(lines.len(), |i: int| lines[i]@)
}

fn push_line(lines: &mut Vec<String>, chars: &Vec<char>)
    ensures
        lines_model(final(lines)@) == lines_model(old(lines)@).push(chars@),
{
    lines.push(text_of(chars));
    assert(lines_model(lines@) =~= lines_model(old(lines)@).push(chars@));
}

fn labelled(label: &str, n: usize) -> (r: Vec<char>)
    ensures
        r@ == label@ + decimal_digits(n as nat),
{
    let mut out = chars_of(label);
    push_decimal(&mut out, n as u64);
    out
}

/// The table of results, line by line: head, one row for each result (with
/// its error below it where `verbose` is set), and the summary counts.
pub fn display_lines(results: &Vec<ProbeResult>, verbose: bool) -> (r: Vec<String>)
    ensures
        lines_model(r@) == table(results_model(results@), verbose),
{
    let ghost all = results_model(results@);
    let mut lines: Vec<String> = Vec::new();
    assert(lines_model(lines@) =~= Seq::empty());
    push_line(&mut lines, &Vec::new());
    push_line(&mut lines, &chars_of("=== ClashProbe Results ==="));
    push_line(&mut lines, &chars_of(header_row().as_str()));
    let mut rule: Vec<char> = Vec::new();
    let mut k: usize = 0;
    while k < 90
        invariant
            k <= 90,
            rule@ == Seq::new(k as nat, |i: int| '='),
        decreases 90 - k,
    {
        rule.push('=');
        k = k + 1;
        assert(rule@ =~= Seq::new(k as nat, |i: int| '='));
    }
    push_line(&mut lines, &rule);
    assert(lines_model(lines@) =~= heading() + rows(all.take(0), verbose));
    let mut i: usize = 0;
    while i < results.len()
        invariant
            i <= results@.len(),
            all == results_model(results@),
            lines_model(lines@) == heading() + rows(all.take(i as int), verbose),
        decreases results@.len() - i,
    {
        assert(all.take(i + 1).drop_last() =~= all.take(i as int));
        assert(all.take(i + 1).last() == results@[i as int]@);
        let ghost before = lines_model(lines@);
        push_line(&mut lines, &chars_of(result_row(&results[i]).as_str()));
        if verbose {
            if let Some(e) = &results[i].error {
                let mut line = chars_of("    Error: ");
                push_text(&mut line, e.as_str());
                push_line(&mut lines, &line);
            }
        }
        assert(lines_model(lines@) =~= before + result_lines(results@[i as int]@, verbose));
        assert(before + result_lines(results@[i as int]@, verbose) =~= heading() + (rows(
            all.take(i as int),
            verbose,
        ) + result_lines(results@[i as int]@, verbose)));
        i = i + 1;
    }
    assert(all.take(i as int) =~= all);
    let counts = summarize(results);
    let ghost body = lines_model(lines@);
    push_line(&mut lines, &Vec::new());
    push_line(&mut lines, &chars_of("=== Summary ==="));
    push_line(&mut lines, &labelled("Total servers: ", counts.total));
    push_line(&mut lines, &labelled("Alive servers: ", counts.alive));
    push_line(&mut lines, &labelled("Dead servers: ", counts.dead));
    assert(lines_model(lines@) =~= body + summary_lines(all));
    lines
}

} // verus!
