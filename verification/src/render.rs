//! The diagnostic renderer: turns an ordered list of diagnostics plus
//! the original source text into a line-numbered report.
//!
//! For each diagnostic, every source line the span touches is printed
//! behind a ` {n}| ` gutter (line numbers are one-based for display).
//! A single-line span gets an underline row — a caret at the start
//! column, dashes to just before the stop column; a multi-line span
//! prints only the gutter rows. The report opens with a banner naming
//! the source path and closes each diagnostic with a dash rule of the
//! banner's printable width. The rendering is a pure function of its
//! inputs; color is a presentation concern that belongs to whatever
//! sink prints these strings.

use vstd::prelude::*;
use vstd::string::StrSliceExecFns;
use vstd::string::StringExecFns;
use crate::error::{CompileError, error_message};
use crate::span::{Span, span_wf};
use crate::text::{dec_str, dec_string, push_repeat, repeat_char, split_lines, split_lines_spec};

verus! {

/// The gutter printed before source line `line_ix` (zero-based):
/// a space, the one-based line number, `"| "`.
pub open spec fn gutter_seq(line_ix: nat) -> Seq<char> {
    " "@ + dec_str(line_ix + 1) + "| "@
}

/// The gutter rows for source lines `from..=to`, each followed by the
/// raw line text and a newline.
pub open spec fn source_rows(lines: Seq<Seq<char>>, from: int, to: int) -> Seq<char>
    decreases to - from + 1,
{
    if from < 0 || from > to {
        Seq::empty()
    } else {
        gutter_seq(from as nat) + lines[from] + "\n"@ + source_rows(lines, from + 1, to)
    }
}

/// The blank run that aligns the underline's caret under the span's
/// start column: one space fewer than the gutter is wide, then
/// `start.column + 1` more.
pub open spec fn underline_padding_seq(span: Span) -> Seq<char> {
    repeat_char(' ', (gutter_seq(span.stop.line as nat).len() - 1) as nat) + repeat_char(
        ' ',
        span.start.column as nat + 1,
    )
}

/// The caret and its trailing dashes: one `^` at the start column,
/// then `stop.column - start.column - 1` dashes, ending just before
/// the stop column.
pub open spec fn underline_marker_seq(span: Span) -> Seq<char> {
    "^"@ + repeat_char('-', (span.stop.column - span.start.column - 1) as nat)
}

/// The whole underline row beneath a single-line span.
pub open spec fn underline_seq(span: Span) -> Seq<char> {
    underline_padding_seq(span) + underline_marker_seq(span) + "\n"@
}

/// The source excerpt for one span: its gutter rows, and beneath them
/// the underline row exactly when the span is single-line.
pub open spec fn excerpt_seq(span: Span, lines: Seq<Seq<char>>) -> Seq<char> {
    source_rows(lines, span.start.line as int, span.stop.line as int) + (
    if span.start.line == span.stop.line {
        underline_seq(span)
    } else {
        Seq::<char>::empty()
    })
}

/// The opening banner: a newline, the dash rule, a space, the source
/// path, a newline.
pub open spec fn open_seq(path: Seq<char>) -> Seq<char> {
    "\n"@ + "-----------------------------------------"@ + " "@ + path + "\n"@
}

/// The closing rule: dashes matching the opening banner's printable
/// length.
pub open spec fn close_seq(path: Seq<char>) -> Seq<char> {
    repeat_char('-', (open_seq(path).len() - 2) as nat)
}

/// One rendered diagnostic: the source excerpt, a blank line, the
/// message (indented one space), a blank line, the closing rule, and a
/// blank line before the next diagnostic.
pub open spec fn error_block_seq(e: CompileError, lines: Seq<Seq<char>>, path: Seq<char>) -> Seq<
    char,
> {
    excerpt_seq(e.span, lines) + "\n"@ + " "@ + error_message(e.error) + "\n"@ + "\n"@ + close_seq(
        path,
    ) + "\n"@ + "\n"@
}

/// The rendered diagnostics, in input order.
pub open spec fn error_blocks_seq(es: Seq<CompileError>, lines: Seq<Seq<char>>, path: Seq<char>)
    -> Seq<char>
    decreases es.len(),
{
    if es.len() == 0 {
        Seq::empty()
    } else {
        error_block_seq(es[0], lines, path) + error_blocks_seq(es.drop_first(), lines, path)
    }
}

/// The whole report: the opening banner on its own line, then each
/// diagnostic in input order.
pub open spec fn render_spec(es: Seq<CompileError>, path: Seq<char>, source: Seq<char>) -> Seq<
    char,
> {
    open_seq(path) + "\n"@ + error_blocks_seq(es, split_lines_spec(source), path)
}

/// Every span points into the source's lines: well formed, ending on
/// an existing line, and never empty on a single line (rendering an
/// empty range would have no column to underline).
pub open spec fn renderable(es: Seq<CompileError>, source: Seq<char>) -> bool {
    forall|i: int| #![trigger es[i]] 0 <= i < es.len() ==> {
        &&& span_wf(es[i].span)
        &&& (es[i].span.stop.line as int) < split_lines_spec(source).len()
        &&& (es[i].span.start.line == es[i].span.stop.line ==> es[i].span.start.column
            < es[i].span.stop.column)
    }
}

proof fn lemma_rows_snoc(lines: Seq<Seq<char>>, from: int, to: int)
    requires
        0 <= from <= to,
    ensures
        source_rows(lines, from, to) == source_rows(lines, from, to - 1) + (gutter_seq(to as nat)
            + lines[to] + "\n"@),
    decreases to - from + 1,
{
    if from == to {
        assert(source_rows(lines, from, to - 1) == Seq::<char>::empty());
        assert(source_rows(lines, from + 1, to) == Seq::<char>::empty());
        assert(source_rows(lines, from, to) =~= source_rows(lines, from, to - 1) + (gutter_seq(
            to as nat,
        ) + lines[to] + "\n"@));
    } else {
        lemma_rows_snoc(lines, from + 1, to);
        assert(source_rows(lines, from, to) =~= source_rows(lines, from, to - 1) + (gutter_seq(
            to as nat,
        ) + lines[to] + "\n"@));
    }
}

proof fn lemma_blocks_push(es: Seq<CompileError>, e: CompileError, lines: Seq<Seq<char>>, path: Seq<
    char,
>)
    ensures
        error_blocks_seq(es.push(e), lines, path) == error_blocks_seq(es, lines, path)
            + error_block_seq(e, lines, path),
    decreases es.len(),
{
    if es.len() == 0 {
        let single = es.push(e);
        assert(single.drop_first() =~= Seq::<CompileError>::empty());
        assert(single[0] == e);
        assert(error_blocks_seq(single.drop_first(), lines, path) == Seq::<char>::empty());
        assert(es =~= Seq::<CompileError>::empty());
        assert(error_blocks_seq(single, lines, path) =~= error_blocks_seq(es, lines, path)
            + error_block_seq(e, lines, path));
    } else {
        lemma_blocks_push(es.drop_first(), e, lines, path);
        assert(es.push(e).drop_first() =~= es.drop_first().push(e));
        assert(es.push(e)[0] == es[0]);
        assert(error_block_seq(es[0], lines, path) + (error_blocks_seq(
            es.drop_first(),
            lines,
            path,
        ) + error_block_seq(e, lines, path)) =~= (error_block_seq(es[0], lines, path)
            + error_blocks_seq(es.drop_first(), lines, path)) + error_block_seq(e, lines, path));
        assert(error_blocks_seq(es.push(e), lines, path) =~= error_blocks_seq(es, lines, path)
            + error_block_seq(e, lines, path));
    }
}

/// The gutter for source line `line_ix`.
pub fn gutter_string(line_ix: u32) -> (r: String)
    ensures
        r@ == gutter_seq(line_ix as nat),
{
    let mut r = String::from_str(" ");
    let d = dec_string(line_ix as u64 + 1);
    r.append(d.as_str());
    r.append("| ");
    proof {
        assert(r@ =~= gutter_seq(line_ix as nat));
    }
    r
}

/// The spaces that precede a single-line span's underline marker.
pub fn underline_padding(span: &Span) -> (r: String)
    ensures
        r@ == underline_padding_seq(*span),
{
    let g = gutter_string(span.stop.line);
    let glen = g.as_str().unicode_len();
    proof {
        reveal_strlit(" ");
        assert(gutter_seq(span.stop.line as nat).len() >= 1);
    }
    let mut r = String::new();
    push_repeat(&mut r, ' ', glen as u64 - 1);
    push_repeat(&mut r, ' ', span.start.column as u64 + 1);
    proof {
        assert(r@ =~= underline_padding_seq(*span));
    }
    r
}

/// The caret and dashes of a single-line span's underline row.
pub fn underline_marker(span: &Span) -> (r: String)
    requires
        span.start.column < span.stop.column,
    ensures
        r@ == underline_marker_seq(*span),
{
    let mut r = String::from_str("^");
    push_repeat(&mut r, '-', (span.stop.column - span.start.column - 1) as u64);
    proof {
        assert(r@ =~= underline_marker_seq(*span));
    }
    r
}

/// The opening banner for a source path.
pub fn open_banner(path: &str) -> (r: String)
    ensures
        r@ == open_seq(path@),
{
    let mut r = String::from_str("\n");
    r.append("-----------------------------------------");
    r.append(" ");
    r.append(path);
    r.append("\n");
    proof {
        assert(r@ =~= open_seq(path@));
    }
    r
}

/// The closing rule for a source path.
pub fn close_banner(path: &str) -> (r: String)
    ensures
        r@ == close_seq(path@),
{
    let mut r = String::new();
    push_repeat(&mut r, '-', 42);
    let n = path.unicode_len();
    let mut k: usize = 0;
    while k < n
        invariant
            0 <= k <= n,
            r@ == repeat_char('-', (42 + k) as nat),
        decreases n - k,
    {
        r.push('-');
        proof {
            assert(repeat_char('-', (42 + k + 1) as nat) =~= repeat_char(
                '-',
                (42 + k) as nat,
            ).push('-'));
        }
        k = k + 1;
    }
    proof {
        reveal_strlit("\n");
        reveal_strlit(" ");
        reveal_strlit("-----------------------------------------");
        assert(open_seq(path@).len() == 44 + path@.len());
        assert(r@ =~= close_seq(path@));
    }
    r
}

/// Appends the rendered block for one diagnostic: the gutter rows of
/// every line its span touches, the underline row when the span is
/// single-line, the message, and the closing rule.
#[verifier::loop_isolation(false)]
fn append_error_block(
    out: &mut String,
    e: &CompileError,
    lines: &Vec<String>,
    close: &String,
    Ghost(path): Ghost<Seq<char>>,
)
    requires
        span_wf(e.span),
        (e.span.stop.line as int) < lines@.len(),
        e.span.start.line == e.span.stop.line ==> e.span.start.column < e.span.stop.column,
        close@ == close_seq(path),
    ensures
        final(out)@ == old(out)@ + error_block_seq(
            *e,
            lines@.map_values(|l: String| l@),
            path,
        ),
{
    let ghost linesv = lines@.map_values(|l: String| l@);
    let ghost block_base = out@;
    let sp = e.span;
    proof {
        assert(source_rows(linesv, sp.start.line as int, sp.start.line as int - 1)
            == Seq::<char>::empty());
        assert(block_base + Seq::<char>::empty() =~= block_base);
    }
    let mut li: u64 = sp.start.line as u64;
    while li <= sp.stop.line as u64
        invariant
            sp.start.line as u64 <= li <= sp.stop.line as u64 + 1,
            out@ == block_base + source_rows(linesv, sp.start.line as int, li as int - 1),
        decreases sp.stop.line as u64 + 1 - li,
    {
        let g = gutter_string(li as u32);
        out.append(g.as_str());
        out.append(lines[li as usize].as_str());
        out.append("\n");
        proof {
            lemma_rows_snoc(linesv, sp.start.line as int, li as int);
            assert(linesv[li as int] == lines@[li as int]@);
            assert(out@ =~= block_base + source_rows(linesv, sp.start.line as int, li as int));
        }
        li = li + 1;
    }
    if sp.start.line == sp.stop.line {
        let pad = underline_padding(&sp);
        let marker = underline_marker(&sp);
        out.append(pad.as_str());
        out.append(marker.as_str());
        out.append("\n");
    }
    proof {
        assert(out@ =~= block_base + excerpt_seq(sp, linesv));
    }
    let msg = e.error.message();
    out.append("\n");
    out.append(" ");
    out.append(msg.as_str());
    out.append("\n");
    out.append("\n");
    out.append(close.as_str());
    out.append("\n");
    out.append("\n");
    proof {
        assert(out@ =~= block_base + error_block_seq(*e, linesv, path));
    }
}

/// Renders an ordered list of diagnostics against the source text
/// they point into, as one report string. Pure: the same diagnostics,
/// path and source always render to the same bytes.
#[verifier::loop_isolation(false)]
pub fn render_report(errors: &Vec<CompileError>, path: &str, source: &str) -> (r: String)
    requires
        renderable(errors@, source@),
    ensures
        r@ == render_spec(errors@, path@, source@),
{
    let lines = split_lines(source);
    let ghost linesv = lines@.map_values(|l: String| l@);
    let close = close_banner(path);
    let mut out = open_banner(path);
    out.append("\n");
    proof {
        assert(out@ + Seq::<char>::empty() =~= out@);
    }
    let ghost header = out@;
    let mut ei: usize = 0;
    while ei < errors.len()
        invariant
            0 <= ei <= errors@.len(),
            out@ == header + error_blocks_seq(errors@.take(ei as int), linesv, path@),
        decreases errors@.len() - ei,
    {
        append_error_block(&mut out, &errors[ei], &lines, &close, Ghost(path@));
        proof {
            lemma_blocks_push(errors@.take(ei as int), errors@[ei as int], linesv, path@);
            assert(errors@.take(ei + 1) =~= errors@.take(ei as int).push(errors@[ei as int]));
            assert(out@ =~= header + error_blocks_seq(errors@.take(ei + 1), linesv, path@));
        }
        ei = ei + 1;
    }
    proof {
        assert(errors@.take(errors@.len() as int) =~= errors@);
        assert(out@ =~= render_spec(errors@, path@, source@));
    }
    out
}

/// Render idempotence: the report is a pure function of the ordered
/// diagnostic list, the path and the source text, so rendering the
/// same inputs twice yields byte-identical output.
pub proof fn lemma_render_deterministic(
    es: Seq<CompileError>,
    path: Seq<char>,
    source: Seq<char>,
    r1: Seq<char>,
    r2: Seq<char>,
)
    requires
        r1 == render_spec(es, path, source),
        r2 == render_spec(es, path, source),
    ensures
        r1 == r2,
{
}

/// Single-line underline correctness: beneath a single-line span the
/// underline row carries its caret exactly `gutter width + start
/// column` characters in — aligned under the span's start column —
/// followed by `stop.column - start.column - 1` dashes, ending just
/// before the stop column, then the row's newline; everything before
/// the caret is blank.
pub proof fn lemma_underline_shape(span: Span)
    requires
        span.start.line == span.stop.line,
        span.start.column < span.stop.column,
    ensures
        ({
            let u = underline_seq(span);
            let g = gutter_seq(span.stop.line as nat).len() as int;
            let caret_at = g + span.start.column;
            &&& u.len() == g + span.stop.column + 1
            &&& (forall|k: int| 0 <= k < caret_at ==> u[k] == ' ')
            &&& u[caret_at] == '^'
            &&& (forall|k: int| caret_at < k < g + span.stop.column ==> u[k] == '-')
            &&& u[u.len() - 1] == '\n'
        }),
{
    reveal_strlit(" ");
    reveal_strlit("^");
    reveal_strlit("\n");
    let u = underline_seq(span);
    let g = gutter_seq(span.stop.line as nat).len() as int;
    assert(g >= 1);
    assert(u.len() == g + span.stop.column + 1);
    assert(u[g + span.start.column] == '^');
    assert(u[u.len() - 1] == '\n');
    assert forall|k: int| 0 <= k < g + span.start.column implies u[k] == ' ' by {
        if k < g - 1 {
            assert(u[k] == ' ');
        } else {
            assert(u[k] == ' ');
        }
    }
    assert forall|k: int| g + span.start.column < k < g + span.stop.column implies u[k]
        == '-' by {
        assert(u[k] == '-');
    }
}

/// Multi-line span rendering: a span that crosses lines renders as
/// its gutter-prefixed source rows alone — no underline row.
pub proof fn lemma_multiline_no_underline(span: Span, lines: Seq<Seq<char>>)
    requires
        span.start.line != span.stop.line,
    ensures
        excerpt_seq(span, lines) == source_rows(
            lines,
            span.start.line as int,
            span.stop.line as int,
        ),
{
    assert(excerpt_seq(span, lines) =~= source_rows(
        lines,
        span.start.line as int,
        span.stop.line as int,
    ));
}

} // verus!
