//! Plain-text tables and reports for the command line: column-aligned
//! rows under a header and a dashed rule, and the listings of categories,
//! sources and extraction results.

use vstd::prelude::*;

use crate::config::CategoryDef;
use crate::extract::ExtractionResult;
use crate::store::{kind_text, InteractionRow, SeriesRow};
use crate::text::{
    append, decimal, i64_to_string, is_ws, join_with, joined, owned, signed_decimal, trim_end, trim_end_str,
    usize_to_string,
};

verus! {

/// `n` spaces.
pub open spec fn spaces(n: nat) -> Seq<char> {
    Seq::new(n, |_i: int| ' ')
}

/// `n` dashes.
pub open spec fn dashes(n: nat) -> Seq<char> {
    Seq::new(n, |_i: int| '-')
}

/// `s` left-aligned in a field `w` characters wide.
pub open spec fn padded(s: Seq<char>, w: nat) -> Seq<char> {
    if s.len() < w {
        s + spaces((w - s.len()) as nat)
    } else {
        s
    }
}

/// The widest of `init` and column `col` of each row.
pub open spec fn column_width(rows: Seq<Seq<Seq<char>>>, col: int, init: nat) -> nat
    decreases rows.len(),
{
    if rows.len() == 0 {
        init
    } else {
        let w = column_width(rows.drop_last(), col, init);
        let r = rows.last();
        if 0 <= col < r.len() && r[col].len() > w {
            r[col].len()
        } else {
            w
        }
    }
}

/// Each column's width: its header's, or its widest cell's.
pub open spec fn column_widths(headers: Seq<Seq<char>>, rows: Seq<Seq<Seq<char>>>) -> Seq<nat> {
    Seq::new(headers.len(), |i: int| column_width(rows, i, headers[i].len()))
}

/// One line of a table: each cell padded to its column, two spaces
/// between columns, trailing white space trimmed.
pub open spec fn table_line(cells: Seq<Seq<char>>, widths: Seq<nat>) -> Seq<char> {
    trim_end(joined(Seq::new(cells.len(), |j: int| padded(cells[j], widths[j])), "  "@))
}

/// The dashed rule under the header.
pub open spec fn rule_line(widths: Seq<nat>) -> Seq<char> {
    joined(Seq::new(widths.len(), |j: int| dashes(widths[j])), "  "@)
}

/// The body lines of a table, each ending in a newline.
pub open spec fn body_lines(rows: Seq<Seq<Seq<char>>>, widths: Seq<nat>) -> Seq<char>
    decreases rows.len(),
{
    if rows.len() == 0 {
        Seq::empty()
    } else {
        body_lines(rows.drop_last(), widths) + table_line(rows.last(), widths) + "\n"@
    }
}

/// A rendered table: header, rule, then one line per row.
pub open spec fn rendered(headers: Seq<Seq<char>>, rows: Seq<Seq<Seq<char>>>) -> Seq<char> {
    let w = column_widths(headers, rows);
    table_line(headers, w) + "\n"@ + rule_line(w) + "\n"@ + body_lines(rows, w)
}

/// The cells of rows, as plain values.
pub open spec fn rows_view(rows: Seq<Vec<String>>) -> Seq<Seq<Seq<char>>> {
    rows.map_values(|r: Vec<String>| r@.map_values(|c: String| c@))
}

/// The texts of a list of strings.
pub open spec fn cells_view(cells: Seq<String>) -> Seq<Seq<char>> {
    cells.map_values(|c: String| c@)
}

/// `s` padded to width `w`.
fn pad(s: &str, w: usize) -> (r: String)
    ensures
        r@ == padded(s@, w as nat),
{
    let mut out = owned(s);
    let mut n = s.unicode_len();
    while n < w
        invariant
            n <= w || n == s@.len(),
            n >= s@.len(),
            out@ == s@ + spaces((n - s@.len()) as nat),
        decreases w - n,
    {
        out.push(' ');
        proof {
            assert(out@ =~= s@ + spaces((n + 1 - s@.len()) as nat));
        }
        n = n + 1;
    }
    proof {
        if s@.len() >= w {
            assert(out@ =~= s@);
        }
    }
    out
}

/// `n` dashes.
fn dash_run(n: usize) -> (r: String)
    ensures
        r@ == dashes(n as nat),
{
    let mut out = String::new();
    let mut i: usize = 0;
    while i < n
        invariant
            i <= n,
            out@ == dashes(i as nat),
        decreases n - i,
    {
        out.push('-');
        proof {
            assert(out@ =~= dashes((i + 1) as nat));
        }
        i = i + 1;
    }
    out
}

/// One line of a table.
fn line_of(cells: &Vec<String>, widths: &Vec<usize>) -> (r: String)
    requires
        cells@.len() <= widths@.len(),
    ensures
        r@ == table_line(cells_view(cells@), widths@.map_values(|w: usize| w as nat)),
{
    let ghost ws = widths@.map_values(|w: usize| w as nat);
    let mut padded_cells: Vec<String> = Vec::new();
    let mut j: usize = 0;
    while j < cells.len()
        invariant
            j <= cells@.len() <= widths@.len(),
            ws == widths@.map_values(|w: usize| w as nat),
            padded_cells@.len() == j,
            forall|k: int| 0 <= k < j ==> (#[trigger] padded_cells@[k])@ == padded(cells@[k]@, ws[k]),
        decreases cells@.len() - j,
    {
        padded_cells.push(pad(cells[j].as_str(), widths[j]));
        j = j + 1;
    }
    let joined_line = join_with(&padded_cells, "  ");
    proof {
        assert(padded_cells@.map_values(|p: String| p@) =~= Seq::new(
            cells_view(cells@).len(),
            |k: int| padded(cells_view(cells@)[k], ws[k]),
        ));
    }
    trim_end_str(joined_line.as_str())
}

/// Renders rows of cells under `headers`: each column as wide as its
/// header or widest cell, cells left-aligned, two spaces between columns,
/// trailing white space trimmed, and a dashed rule under the header.
/// (Widths count characters; the headers used here are ASCII.)
pub fn render(headers: &Vec<String>, rows: &Vec<Vec<String>>) -> (r: String)
    requires
        forall|i: int| 0 <= i < rows@.len() ==> (#[trigger] rows@[i])@.len() <= headers@.len(),
    ensures
        r@ == rendered(cells_view(headers@), rows_view(rows@)),
{
    let ghost hv = cells_view(headers@);
    let ghost rv = rows_view(rows@);
    let mut widths: Vec<usize> = Vec::new();
    let mut c: usize = 0;
    while c < headers.len()
        invariant
            c <= headers@.len(),
            hv == cells_view(headers@),
            rv == rows_view(rows@),
            widths@.len() == c,
            forall|k: int| 0 <= k < c ==> (#[trigger] widths@[k]) as nat == column_width(rv, k, hv[k].len()),
            forall|i: int| 0 <= i < rows@.len() ==> (#[trigger] rows@[i])@.len() <= headers@.len(),
        decreases headers@.len() - c,
    {
        let mut w = headers[c].as_str().unicode_len();
        let mut i: usize = 0;
        proof {
            assert(rv.take(0) =~= Seq::<Seq<Seq<char>>>::empty());
        }
        while i < rows.len()
            invariant
                i <= rows@.len(),
                c < headers@.len(),
                hv == cells_view(headers@),
                rv == rows_view(rows@),
                w as nat == column_width(rv.take(i as int), c as int, hv[c as int].len()),
            decreases rows@.len() - i,
        {
            let row = &rows[i];
            proof {
                assert(rv.take(i + 1).drop_last() =~= rv.take(i as int));
                assert(rv.take(i + 1).last() == rv[i as int]);
                assert(rv[i as int] == row@.map_values(|x: String| x@));
            }
            if c < row.len() {
                let n = row[c].as_str().unicode_len();
                if n > w {
                    w = n;
                }
            }
            i = i + 1;
        }
        proof {
            assert(rv.take(i as int) =~= rv);
        }
        widths.push(w);
        c = c + 1;
    }
    let ghost ws = widths@.map_values(|w: usize| w as nat);
    proof {
        assert(ws =~= column_widths(hv, rv));
    }
    let mut out = line_of(headers, &widths);
    out.push('\n');
    let mut rule_parts: Vec<String> = Vec::new();
    let mut k: usize = 0;
    while k < widths.len()
        invariant
            k <= widths@.len(),
            rule_parts@.len() == k,
            forall|m: int| 0 <= m < k ==> (#[trigger] rule_parts@[m])@ == dashes(widths@[m] as nat),
        decreases widths@.len() - k,
    {
        rule_parts.push(dash_run(widths[k]));
        k = k + 1;
    }
    let rule = join_with(&rule_parts, "  ");
    proof {
        assert(rule_parts@.map_values(|p: String| p@) =~= Seq::new(ws.len(), |j: int| dashes(ws[j])));
    }
    append(&mut out, rule.as_str());
    out.push('\n');
    let ghost head = out@;
    let mut i: usize = 0;
    proof {
        assert(rv.take(0) =~= Seq::<Seq<Seq<char>>>::empty());
        assert(out@ =~= head + body_lines(rv.take(0), ws));
    }
    while i < rows.len()
        invariant
            i <= rows@.len(),
            rv == rows_view(rows@),
            ws == widths@.map_values(|w: usize| w as nat),
            widths@.len() == headers@.len(),
            forall|m: int| 0 <= m < rows@.len() ==> (#[trigger] rows@[m])@.len() <= headers@.len(),
            out@ == head + body_lines(rv.take(i as int), ws),
        decreases rows@.len() - i,
    {
        let line = line_of(&rows[i], &widths);
        proof {
            assert(rv.take(i + 1).drop_last() =~= rv.take(i as int));
            assert(rv.take(i + 1).last() == rv[i as int]);
            assert(rv[i as int] == cells_view(rows@[i as int]@));
        }
        append(&mut out, line.as_str());
        out.push('\n');
        proof {
            reveal_strlit("\n");
            let prev = body_lines(rv.take(i as int), ws);
            assert(body_lines(rv.take(i + 1), ws) == prev + table_line(rv[i as int], ws) + "\n"@);
            assert(out@ =~= head + body_lines(rv.take(i + 1), ws));
        }
        i = i + 1;
    }
    proof {
        assert(rv.take(i as int) =~= rv);
        reveal_strlit("\n");
        assert(out@ =~= rendered(hv, rv));
    }
    out
}

/// An optional value, or `-` when missing.
pub open spec fn or_dash(o: Option<String>) -> Seq<char> {
    match o {
        Some(v) => v@,
        None => "-"@,
    }
}

/// The headers of the show table.
pub open spec fn series_headers() -> Seq<Seq<char>> {
    seq!["ID"@, "Name"@, "Category"@, "Last Episode"@, "Alias"@, "Last Interaction"@]
}

/// The cells of a show's row.
pub open spec fn series_cells(r: SeriesRow) -> Seq<Seq<char>> {
    seq![
        signed_decimal(r.id as int),
        r.title@,
        r.category@,
        or_dash(r.last_episode),
        or_dash(r.alias),
        or_dash(r.last_interaction_at),
    ]
}

/// The `list` table text.
pub open spec fn series_table(rows: Seq<SeriesRow>) -> Seq<char> {
    if rows.len() == 0 {
        "(no shows tracked yet)\n"@
    } else {
        rendered(series_headers(), rows.map_values(|r: SeriesRow| series_cells(r)))
    }
}

/// A list of literal strings.
fn strings(parts: Vec<&str>) -> (r: Vec<String>)
    ensures
        cells_view(r@) == parts@.map_values(|p: &str| p@),
{
    let mut out: Vec<String> = Vec::new();
    let mut i: usize = 0;
    while i < parts.len()
        invariant
            i <= parts@.len(),
            cells_view(out@) == parts@.map_values(|p: &str| p@).take(i as int),
        decreases parts@.len() - i,
    {
        let ghost before = out@;
        let w = owned(parts[i]);
        out.push(w);
        proof {
            assert(cells_view(out@) =~= cells_view(before).push(w@));
            assert(parts@.map_values(|p: &str| p@).take(i + 1) =~= parts@.map_values(|p: &str| p@).take(
                i as int,
            ).push(parts@[i as int]@));
        }
        i = i + 1;
    }
    proof {
        assert(parts@.map_values(|p: &str| p@).take(i as int) =~= parts@.map_values(|p: &str| p@));
    }
    out
}

/// An optional value, or `-`.
fn dash_or(o: &Option<String>) -> (r: String)
    ensures
        r@ == or_dash(*o),
{
    match o {
        Some(v) => v.clone(),
        None => owned("-"),
    }
}

/// The cells of a show's row.
fn series_row_cells(r: &SeriesRow) -> (c: Vec<String>)
    ensures
        cells_view(c@) == series_cells(*r),
        c@.len() == 6,
{
    let mut c: Vec<String> = Vec::new();
    c.push(i64_to_string(r.id));
    c.push(r.title.clone());
    c.push(r.category.clone());
    c.push(dash_or(&r.last_episode));
    c.push(dash_or(&r.alias));
    c.push(dash_or(&r.last_interaction_at));
    proof {
        assert(cells_view(c@) =~= series_cells(*r));
    }
    c
}

/// The show table's headers.
fn series_header_cells() -> (h: Vec<String>)
    ensures
        cells_view(h@) == series_headers(),
        h@.len() == 6,
{
    let mut v: Vec<&str> = Vec::new();
    v.push("ID");
    v.push("Name");
    v.push("Category");
    v.push("Last Episode");
    v.push("Alias");
    v.push("Last Interaction");
    let h = strings(v);
    proof {
        assert(cells_view(h@) =~= series_headers());
    }
    h
}

/// Renders the `list` table: ID, Name, Category, Last Episode, Alias,
/// Last Interaction.
pub fn format_series_table(rows: &Vec<SeriesRow>) -> (r: String)
    ensures
        r@ == series_table(rows@),
{
    if rows.len() == 0 {
        return owned("(no shows tracked yet)\n");
    }
    let headers = series_header_cells();
    let mut cells: Vec<Vec<String>> = Vec::new();
    let mut i: usize = 0;
    while i < rows.len()
        invariant
            i <= rows@.len(),
            cells@.len() == i,
            forall|k: int| 0 <= k < i ==> cells_view((#[trigger] cells@[k])@) == series_cells(rows@[k]),
            forall|k: int| 0 <= k < i ==> (#[trigger] cells@[k])@.len() == 6,
        decreases rows@.len() - i,
    {
        cells.push(series_row_cells(&rows[i]));
        i = i + 1;
    }
    proof {
        assert(rows_view(cells@) =~= rows@.map_values(|r: SeriesRow| series_cells(r)));
    }
    render(&headers, &cells)
}

/// A history entry's line: `  <at>  <kind>[ -> <detail>]`.
pub open spec fn history_line(h: InteractionRow) -> Seq<char> {
    "  "@ + h.at@ + "  "@ + kind_text(h.kind) + match h.detail {
        Some(d) => " -> "@ + d@,
        None => Seq::empty(),
    } + "\n"@
}

/// The history lines, in order.
pub open spec fn history_lines(hs: Seq<InteractionRow>) -> Seq<char>
    decreases hs.len(),
{
    if hs.len() == 0 {
        Seq::empty()
    } else {
        history_lines(hs.drop_last()) + history_line(hs.last())
    }
}

/// The `<selector> show` text.
pub open spec fn series_detail(row: SeriesRow, history: Seq<InteractionRow>) -> Seq<char> {
    series_table(seq![row]) + "\nHistory:\n"@ + if history.len() == 0 {
        "  (no recorded interactions)\n"@
    } else {
        Seq::empty()
    } + history_lines(history)
}

/// Renders a single show's row plus its interaction history.
pub fn format_series_detail(row: &SeriesRow, history: &Vec<InteractionRow>) -> (r: String)
    ensures
        r@ == series_detail(*row, history@),
{
    let mut one: Vec<SeriesRow> = Vec::new();
    one.push(row.clone_row());
    let mut out = format_series_table(&one);
    proof {
        assert(one@ =~= seq![*row]);
    }
    append(&mut out, "\nHistory:\n");
    if history.len() == 0 {
        append(&mut out, "  (no recorded interactions)\n");
    }
    let ghost head = out@;
    let mut i: usize = 0;
    proof {
        assert(history@.take(0) =~= Seq::<InteractionRow>::empty());
        assert(out@ =~= head + history_lines(history@.take(0)));
    }
    while i < history.len()
        invariant
            i <= history@.len(),
            out@ == head + history_lines(history@.take(i as int)),
        decreases history@.len() - i,
    {
        let h = &history[i];
        append(&mut out, "  ");
        append(&mut out, h.at.as_str());
        append(&mut out, "  ");
        append(&mut out, h.kind.as_str());
        if let Some(d) = &h.detail {
            append(&mut out, " -> ");
            append(&mut out, d.as_str());
        }
        append(&mut out, "\n");
        proof {
            assert(history@.take(i + 1).drop_last() =~= history@.take(i as int));
            assert(history@.take(i + 1).last() == *h);
            assert(out@ =~= head + history_lines(history@.take(i + 1)));
        }
        i = i + 1;
    }
    proof {
        assert(history@.take(i as int) =~= history@);
    }
    out
}

impl SeriesRow {
    /// A copy of this row.
    pub fn clone_row(&self) -> (r: SeriesRow)
        ensures
            r == *self,
    {
        SeriesRow {
            id: self.id,
            source_id: self.source_id.clone(),
            title: self.title.clone(),
            alias: crate::model::clone_opt(&self.alias),
            category: self.category.clone(),
            last_episode: crate::model::clone_opt(&self.last_episode),
            last_interaction_at: crate::model::clone_opt(&self.last_interaction_at),
            cover_url: crate::model::clone_opt(&self.cover_url),
        }
    }
}

/// `true` / `false`.
pub open spec fn bool_text(b: bool) -> Seq<char> {
    if b {
        "true"@
    } else {
        "false"@
    }
}

/// The cells of a category's row.
pub open spec fn category_cells(c: CategoryDef) -> Seq<Seq<char>> {
    seq![c.name@, bool_text(c.notify), bool_text(c.auto_download)]
}

/// The text of a boolean.
fn bool_string(b: bool) -> (r: String)
    ensures
        r@ == bool_text(b),
{
    if b {
        owned("true")
    } else {
        owned("false")
    }
}

/// Renders `categories list`: Name, Notify, Auto-download.
pub fn format_categories(categories: &Vec<CategoryDef>) -> (r: String)
    ensures
        r@ == rendered(
            seq!["Name"@, "Notify"@, "Auto-download"@],
            categories@.map_values(|c: CategoryDef| category_cells(c)),
        ),
{
    let mut v: Vec<&str> = Vec::new();
    v.push("Name");
    v.push("Notify");
    v.push("Auto-download");
    let headers = strings(v);
    proof {
        assert(cells_view(headers@) =~= seq!["Name"@, "Notify"@, "Auto-download"@]);
    }
    let mut cells: Vec<Vec<String>> = Vec::new();
    let mut i: usize = 0;
    while i < categories.len()
        invariant
            i <= categories@.len(),
            cells@.len() == i,
            headers@.len() == 3,
            forall|k: int| 0 <= k < i ==> cells_view((#[trigger] cells@[k])@) == category_cells(categories@[k]),
            forall|k: int| 0 <= k < i ==> (#[trigger] cells@[k])@.len() == 3,
        decreases categories@.len() - i,
    {
        let c = &categories[i];
        let mut row: Vec<String> = Vec::new();
        row.push(c.name.clone());
        row.push(bool_string(c.notify));
        row.push(bool_string(c.auto_download));
        proof {
            assert(cells_view(row@) =~= category_cells(*c));
        }
        cells.push(row);
        i = i + 1;
    }
    proof {
        assert(rows_view(cells@) =~= categories@.map_values(|c: CategoryDef| category_cells(c)));
    }
    render(&headers, &cells)
}

/// The `source list` lines, in order.
pub open spec fn source_lines(sources: Seq<String>) -> Seq<char>
    decreases sources.len(),
{
    if sources.len() == 0 {
        Seq::empty()
    } else {
        source_lines(sources.drop_last()) + "- "@ + sources.last()@ + "\n"@
    }
}

/// Renders `source list`: one `- <location>` line each.
pub fn format_sources(sources: &Vec<String>) -> (r: String)
    ensures
        sources@.len() == 0 ==> r@ == "(no sources configured)\n"@,
        sources@.len() > 0 ==> r@ == source_lines(sources@),
{
    if sources.len() == 0 {
        return owned("(no sources configured)\n");
    }
    let mut out = String::new();
    let mut i: usize = 0;
    while i < sources.len()
        invariant
            i <= sources@.len(),
            out@ == source_lines(sources@.take(i as int)),
        decreases sources@.len() - i,
    {
        append(&mut out, "- ");
        append(&mut out, sources[i].as_str());
        append(&mut out, "\n");
        proof {
            assert(sources@.take(i + 1).drop_last() =~= sources@.take(i as int));
            assert(sources@.take(i + 1).last() == sources@[i as int]);
            assert(out@ =~= source_lines(sources@.take(i + 1)));
        }
        i = i + 1;
    }
    proof {
        assert(sources@.take(i as int) =~= sources@);
    }
    out
}

/// A release's report line.
pub open spec fn release_line(r: crate::model::Release) -> Seq<char> {
    "- "@ + r.series_title@ + " ep "@ + r.episode@ + " ["@ + r.resolution@ + "] "@ + r.method.name() + " -> "@
        + r.link@ + "\n"@
}

/// The report lines of releases, in order.
pub open spec fn release_lines(rs: Seq<crate::model::Release>) -> Seq<char>
    decreases rs.len(),
{
    if rs.len() == 0 {
        Seq::empty()
    } else {
        release_lines(rs.drop_last()) + release_line(rs.last())
    }
}

/// The warning lines, in order.
pub open spec fn warning_lines(ws: Seq<String>) -> Seq<char>
    decreases ws.len(),
{
    if ws.len() == 0 {
        Seq::empty()
    } else {
        warning_lines(ws.drop_last()) + "- "@ + ws.last()@ + "\n"@
    }
}

/// The `source test` report.
pub open spec fn extraction_report(releases: Seq<crate::model::Release>, warnings: Seq<String>) -> Seq<char> {
    decimal(releases.len()) + " release(s) extracted\n"@ + release_lines(releases) + if warnings.len() > 0 {
        "\n"@ + decimal(warnings.len()) + " warning(s):\n"@ + warning_lines(warnings)
    } else {
        Seq::empty()
    }
}

/// Renders the output of `source test`: how many releases were
/// extracted and each of them, then the warnings, if any.
#[verifier::rlimit(40)]
pub fn format_extraction_result(result: &ExtractionResult) -> (r: String)
    ensures
        r@ == extraction_report(result.releases@, result.warnings@),
{
    let mut out = usize_to_string(result.releases.len());
    append(&mut out, " release(s) extracted\n");
    let ghost head = out@;
    let mut i: usize = 0;
    proof {
        assert(result.releases@.take(0) =~= Seq::<crate::model::Release>::empty());
        assert(out@ =~= head + release_lines(result.releases@.take(0)));
    }
    while i < result.releases.len()
        invariant
            i <= result.releases@.len(),
            out@ == head + release_lines(result.releases@.take(i as int)),
        decreases result.releases@.len() - i,
    {
        let r = &result.releases[i];
        append(&mut out, "- ");
        append(&mut out, r.series_title.as_str());
        append(&mut out, " ep ");
        append(&mut out, r.episode.as_str());
        append(&mut out, " [");
        append(&mut out, r.resolution.as_str());
        append(&mut out, "] ");
        append(&mut out, r.method.as_str());
        append(&mut out, " -> ");
        append(&mut out, r.link.as_str());
        append(&mut out, "\n");
        proof {
            assert(result.releases@.take(i + 1).drop_last() =~= result.releases@.take(i as int));
            assert(result.releases@.take(i + 1).last() == *r);
            assert(out@ =~= head + release_lines(result.releases@.take(i + 1)));
        }
        i = i + 1;
    }
    proof {
        assert(result.releases@.take(i as int) =~= result.releases@);
    }
    if result.warnings.len() > 0 {
        append(&mut out, "\n");
        let n = usize_to_string(result.warnings.len());
        append(&mut out, n.as_str());
        append(&mut out, " warning(s):\n");
        let ghost mid = out@;
        let mut k: usize = 0;
        proof {
            assert(result.warnings@.take(0) =~= Seq::<String>::empty());
            assert(out@ =~= mid + warning_lines(result.warnings@.take(0)));
        }
        while k < result.warnings.len()
            invariant
                k <= result.warnings@.len(),
                out@ == mid + warning_lines(result.warnings@.take(k as int)),
            decreases result.warnings@.len() - k,
        {
            append(&mut out, "- ");
            append(&mut out, result.warnings[k].as_str());
            append(&mut out, "\n");
            proof {
                assert(result.warnings@.take(k + 1).drop_last() =~= result.warnings@.take(k as int));
                assert(result.warnings@.take(k + 1).last() == result.warnings@[k as int]);
                assert(out@ =~= mid + warning_lines(result.warnings@.take(k + 1)));
            }
            k = k + 1;
        }
        proof {
            assert(result.warnings@.take(k as int) =~= result.warnings@);
        }
    }
    proof {
        assert(out@ =~= extraction_report(result.releases@, result.warnings@));
    }
    out
}


/// Lines, each followed by a newline.
pub open spec fn newline_terminated_lines(lines: Seq<Seq<char>>) -> Seq<char>
    decreases lines.len(),
{
    if lines.len() == 0 {
        Seq::empty()
    } else {
        newline_terminated_lines(lines.drop_last()) + lines.last() + "\n"@
    }
}

/// Whether a line ends in no white space.
pub open spec fn no_trailing_ws(line: Seq<char>) -> bool {
    line.len() == 0 || !is_ws(line.last())
}

/// `trim_end` keeps a prefix and leaves no trailing white space.
proof fn lemma_trim_end(s: Seq<char>)
    ensures
        trim_end(s).len() <= s.len(),
        trim_end(s) == s.subrange(0, trim_end(s).len() as int),
        no_trailing_ws(trim_end(s)),
    decreases s.len(),
{
    if s.len() > 0 && is_ws(s.last()) {
        lemma_trim_end(s.drop_last());
        assert(s.drop_last().subrange(0, trim_end(s).len() as int) == s.subrange(0, trim_end(s).len() as int));
    } else {
        assert(s.subrange(0, s.len() as int) == s);
    }
}

/// Joining newline-free parts with a newline-free separator gives a
/// newline-free text.
proof fn lemma_joined_no_newline(parts: Seq<Seq<char>>, sep: Seq<char>)
    requires
        !sep.contains('\n'),
        forall|i: int| 0 <= i < parts.len() ==> !(#[trigger] parts[i]).contains('\n'),
    ensures
        !joined(parts, sep).contains('\n'),
    decreases parts.len(),
{
    if parts.len() > 1 {
        assert forall|i: int| 0 <= i < parts.drop_last().len() implies !(#[trigger] parts.drop_last()[i]).contains('\n') by {
            assert(parts.drop_last()[i] == parts[i]);
        }
        lemma_joined_no_newline(parts.drop_last(), sep);
        let a = joined(parts.drop_last(), sep);
        let t = a + sep + parts.last();
        if t.contains('\n') {
            let k = choose|k: int| 0 <= k < t.len() && t[k] == '\n';
            if k < a.len() {
                assert(a[k] == '\n');
            } else if k < a.len() + sep.len() {
                assert(sep[k - a.len()] == '\n');
            } else {
                assert(parts.last()[k - a.len() - sep.len()] == '\n');
            }
        }
    } else if parts.len() == 1 {
        assert(!parts[0].contains('\n'));
    }
}

/// The last character of a join is that of its last part, when that part
/// is not empty.
proof fn lemma_joined_last(parts: Seq<Seq<char>>, sep: Seq<char>)
    requires
        parts.len() > 0,
        parts.last().len() > 0,
    ensures
        joined(parts, sep).len() > 0,
        joined(parts, sep).last() == parts.last().last(),
{
    if parts.len() == 1 {
        assert(parts.last() == parts[0]);
    }
}

/// A column is at least as wide as its starting width.
proof fn lemma_column_width(rows: Seq<Seq<Seq<char>>>, col: int, init: nat)
    ensures
        column_width(rows, col, init) >= init,
    decreases rows.len(),
{
    if rows.len() > 0 {
        lemma_column_width(rows.drop_last(), col, init);
    }
}

/// A table line of newline-free cells holds no newline and ends in no
/// white space.
proof fn lemma_table_line(cells: Seq<Seq<char>>, widths: Seq<nat>)
    requires
        cells.len() <= widths.len(),
        forall|j: int| 0 <= j < cells.len() ==> !(#[trigger] cells[j]).contains('\n'),
    ensures
        !table_line(cells, widths).contains('\n'),
        no_trailing_ws(table_line(cells, widths)),
{
    let parts = Seq::new(cells.len(), |j: int| padded(cells[j], widths[j]));
    assert forall|j: int| 0 <= j < parts.len() implies !(#[trigger] parts[j]).contains('\n') by {
        let p = parts[j];
        if p.contains('\n') {
            let k = choose|k: int| 0 <= k < p.len() && p[k] == '\n';
            if k < cells[j].len() {
                assert(cells[j][k] == '\n');
            } else {
                assert(p[k] == ' ');
            }
        }
    }
    assert(!"  "@.contains('\n')) by {
        reveal_strlit("  ");
    }
    lemma_joined_no_newline(parts, "  "@);
    let full = joined(parts, "  "@);
    lemma_trim_end(full);
    let t = trim_end(full);
    if t.contains('\n') {
        let k = choose|k: int| 0 <= k < t.len() && t[k] == '\n';
        assert(full[k] == '\n');
    }
}

/// The body of a table is its row lines, each followed by a newline.
proof fn lemma_body_lines(rows: Seq<Seq<Seq<char>>>, widths: Seq<nat>)
    ensures
        body_lines(rows, widths) == newline_terminated_lines(
            Seq::new(rows.len(), |r: int| table_line(rows[r], widths)),
        ),
    decreases rows.len(),
{
    let ls = Seq::new(rows.len(), |r: int| table_line(rows[r], widths));
    if rows.len() > 0 {
        lemma_body_lines(rows.drop_last(), widths);
        assert(ls.drop_last() =~= Seq::new(rows.drop_last().len(), |r: int| table_line(rows.drop_last()[r], widths)));
    }
}

/// Two lines, then more lines, all newline-terminated.
proof fn lemma_lines_prepend(a: Seq<char>, b: Seq<char>, rest: Seq<Seq<char>>)
    ensures
        newline_terminated_lines(seq![a, b] + rest) == a + "\n"@ + b + "\n"@ + newline_terminated_lines(rest),
    decreases rest.len(),
{
    let l = seq![a, b] + rest;
    let nl = "\n"@;
    if rest.len() == 0 {
        assert(l =~= seq![a, b]);
        assert(l.drop_last() =~= seq![a]);
        assert(seq![a].drop_last() =~= Seq::<Seq<char>>::empty());
        assert(seq![a].last() == a);
        assert(newline_terminated_lines(Seq::<Seq<char>>::empty()) == Seq::<char>::empty());
        assert(newline_terminated_lines(seq![a]) == newline_terminated_lines(seq![a].drop_last()) + seq![a].last() + nl);
        assert(newline_terminated_lines(seq![a]) =~= Seq::<char>::empty() + a + nl);
        assert(newline_terminated_lines(l) =~= newline_terminated_lines(seq![a]) + b + nl);
        assert(newline_terminated_lines(l) =~= a + nl + b + nl + newline_terminated_lines(rest));
    } else {
        lemma_lines_prepend(a, b, rest.drop_last());
        assert(l.drop_last() =~= seq![a, b] + rest.drop_last());
        assert(l.last() == rest.last());
        assert(newline_terminated_lines(l) == newline_terminated_lines(l.drop_last()) + l.last() + nl);
        assert(newline_terminated_lines(rest) == newline_terminated_lines(rest.drop_last()) + rest.last() + nl);
        assert(newline_terminated_lines(l) =~= a + nl + b + nl + newline_terminated_lines(rest));
    }
}

/// The layout of a rendered table whose cells hold no newline: the header
/// line, the dashed rule and one line per row, each ending in a newline
/// and none ending in white space (which needs the last column to be at
/// least one character wide, else the rule ends in the column gap).
pub proof fn law_render_layout(headers: Seq<Seq<char>>, rows: Seq<Seq<Seq<char>>>)
    requires
        forall|r: int| 0 <= r < rows.len() ==> (#[trigger] rows[r]).len() <= headers.len(),
        headers.len() == 0 || column_widths(headers, rows).last() > 0,
        forall|i: int| 0 <= i < headers.len() ==> !(#[trigger] headers[i]).contains('\n'),
        forall|r: int, j: int| 0 <= r < rows.len() && 0 <= j < rows[r].len() ==> !(#[trigger] rows[r][j]).contains('\n'),
    ensures
        ({
            let w = column_widths(headers, rows);
            let lines = seq![table_line(headers, w), rule_line(w)] + Seq::new(
                rows.len(),
                |r: int| table_line(rows[r], w),
            );
            &&& lines.len() == rows.len() + 2
            &&& rendered(headers, rows) == newline_terminated_lines(lines)
            &&& forall|i: int| 0 <= i < lines.len() ==> !(#[trigger] lines[i]).contains('\n') && no_trailing_ws(lines[i])
        }),
{
    let w = column_widths(headers, rows);
    let body = Seq::new(rows.len(), |r: int| table_line(rows[r], w));
    let lines = seq![table_line(headers, w), rule_line(w)] + body;
    lemma_body_lines(rows, w);
    lemma_lines_prepend(table_line(headers, w), rule_line(w), body);
    lemma_table_line(headers, w);
    assert forall|r: int| 0 <= r < rows.len() implies !(#[trigger] body[r]).contains('\n') && no_trailing_ws(body[r]) by {
        assert forall|j: int| 0 <= j < rows[r].len() implies !(#[trigger] rows[r][j]).contains('\n') by {}
        lemma_table_line(rows[r], w);
    }
    let dash_parts = Seq::new(w.len(), |j: int| dashes(w[j]));
    assert forall|j: int| 0 <= j < dash_parts.len() implies !(#[trigger] dash_parts[j]).contains('\n') by {
        if dash_parts[j].contains('\n') {
            let k = choose|k: int| 0 <= k < dash_parts[j].len() && dash_parts[j][k] == '\n';
            assert(dash_parts[j][k] == '-');
        }
    }
    assert(!"  "@.contains('\n')) by {
        reveal_strlit("  ");
    }
    lemma_joined_no_newline(dash_parts, "  "@);
    if headers.len() > 0 {
        assert(dash_parts.last() == dashes(w.last()));
        assert(dash_parts.last().last() == '-');
        lemma_joined_last(dash_parts, "  "@);
    } else {
        assert(dash_parts.len() == 0);
    }
    assert forall|i: int| 0 <= i < lines.len() implies !(#[trigger] lines[i]).contains('\n') && no_trailing_ws(lines[i]) by {
        if i >= 2 {
            assert(lines[i] == body[i - 2]);
        }
    }
}

/// In the show table, the cell under each header is the row's field of
/// that name: the id under `ID`, the title under `Name`, the category
/// under `Category`, the last episode (or `-`) under `Last Episode`, the
/// alias (or `-`) under `Alias`, and the last interaction time (or `-`)
/// under `Last Interaction`; every row has a cell for every header.
pub proof fn law_series_cells_under_their_headers(r: SeriesRow)
    ensures
        series_cells(r).len() == series_headers().len(),
        forall|c: int|
            0 <= c < series_headers().len() ==> {
                let h = #[trigger] series_headers()[c];
                let cell = series_cells(r)[c];
                &&& h == "ID"@ ==> cell == signed_decimal(r.id as int)
                &&& h == "Name"@ ==> cell == r.title@
                &&& h == "Category"@ ==> cell == r.category@
                &&& h == "Last Episode"@ ==> cell == (match r.last_episode {
                    Some(e) => e@,
                    None => "-"@,
                })
                &&& h == "Alias"@ ==> cell == (match r.alias {
                    Some(a) => a@,
                    None => "-"@,
                })
                &&& h == "Last Interaction"@ ==> cell == (match r.last_interaction_at {
                    Some(t) => t@,
                    None => "-"@,
                })
            },
{
    reveal_strlit("ID");
    reveal_strlit("Name");
    reveal_strlit("Category");
    reveal_strlit("Last Episode");
    reveal_strlit("Alias");
    reveal_strlit("Last Interaction");
    let hs = series_headers();
    assert(hs[0] == "ID"@ && hs[1] == "Name"@ && hs[2] == "Category"@ && hs[3] == "Last Episode"@ && hs[4]
        == "Alias"@ && hs[5] == "Last Interaction"@);
    let cs = series_cells(r);
    assert(cs[0] == signed_decimal(r.id as int) && cs[1] == r.title@ && cs[2] == r.category@);
    assert(cs[3] == or_dash(r.last_episode) && cs[4] == or_dash(r.alias) && cs[5] == or_dash(r.last_interaction_at));
    assert(hs[0].len() == 2 && hs[1].len() == 4 && hs[2].len() == 8 && hs[3].len() == 12 && hs[4].len() == 5
        && hs[5].len() == 16);
}

} // verus!
