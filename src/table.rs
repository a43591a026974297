//! The output table every listing goes through: a kind, a header and rows, rendered as an
//! aligned text table, CSV, JSON or YAML.
use crate::messages::join_with;
use crate::order::text_views;
use crate::text::{push_char, repeat_exec, repeat_text, text_eq, to_chars};
use vstd::prelude::*;

verus! {

/// The hexadecimal digit for `d`.
pub open spec fn hex_char(d: nat) -> char {
    if d < 10 {
        crate::text::digit_char(d)
    } else if d == 10 {
        'a'
    } else if d == 11 {
        'b'
    } else if d == 12 {
        'c'
    } else if d == 13 {
        'd'
    } else if d == 14 {
        'e'
    } else {
        'f'
    }
}

fn hex_digit(d: u32) -> (c: char)
    requires
        d < 16,
    ensures
        c == hex_char(d as nat),
{
    if d == 0 {
        '0'
    } else if d == 1 {
        '1'
    } else if d == 2 {
        '2'
    } else if d == 3 {
        '3'
    } else if d == 4 {
        '4'
    } else if d == 5 {
        '5'
    } else if d == 6 {
        '6'
    } else if d == 7 {
        '7'
    } else if d == 8 {
        '8'
    } else if d == 9 {
        '9'
    } else if d == 10 {
        'a'
    } else if d == 11 {
        'b'
    } else if d == 12 {
        'c'
    } else if d == 13 {
        'd'
    } else if d == 14 {
        'e'
    } else {
        'f'
    }
}

/// One character inside a JSON string.
pub open spec fn json_char(c: char) -> Seq<char> {
    if c == '"' {
        seq!['\\', '"']
    } else if c == '\\' {
        seq!['\\', '\\']
    } else if c == '\n' {
        seq!['\\', 'n']
    } else if c == '\r' {
        seq!['\\', 'r']
    } else if c == '\t' {
        seq!['\\', 't']
    } else if (c as u32) < 32 {
        seq!['\\', 'u', '0', '0', hex_char((c as u32 / 16) as nat), hex_char((c as u32 % 16) as nat)]
    } else {
        seq![c]
    }
}

/// The characters of `s`, each escaped for a JSON string.
pub open spec fn json_escaped(s: Seq<char>) -> Seq<char>
    decreases s.len(),
{
    if s.len() == 0 {
        Seq::empty()
    } else {
        json_escaped(s.drop_last()) + json_char(s.last())
    }
}

/// `s` as a JSON string literal.
pub open spec fn json_str(s: Seq<char>) -> Seq<char> {
    seq!['"'] + json_escaped(s) + seq!['"']
}

fn push_json_char(out: &mut String, c: char)
    ensures
        final(out)@ == old(out)@ + json_char(c),
{
    if c == '"' {
        push_char(out, '\\');
        push_char(out, '"');
    } else if c == '\\' {
        push_char(out, '\\');
        push_char(out, '\\');
    } else if c == '\n' {
        push_char(out, '\\');
        push_char(out, 'n');
    } else if c == '\r' {
        push_char(out, '\\');
        push_char(out, 'r');
    } else if c == '\t' {
        push_char(out, '\\');
        push_char(out, 't');
    } else if (c as u32) < 32 {
        push_char(out, '\\');
        push_char(out, 'u');
        push_char(out, '0');
        push_char(out, '0');
        push_char(out, hex_digit(c as u32 / 16));
        push_char(out, hex_digit(c as u32 % 16));
    } else {
        push_char(out, c);
    }
    assert(final(out)@ =~= old(out)@ + json_char(c));
}

/// Appends `s` as a JSON string literal.
pub fn push_json_str(out: &mut String, s: &str)
    ensures
        final(out)@ == old(out)@ + json_str(s@),
{
    let v = to_chars(s);
    let ghost start = out@;
    push_char(out, '"');
    let mut i: usize = 0;
    while i < v.len()
        invariant
            i <= v@.len(),
            v@ == s@,
            out@ == start + seq!['"'] + json_escaped(v@.take(i as int)),
        decreases v@.len() - i,
    {
        push_json_char(out, v[i]);
        assert(v@.take(i + 1).drop_last() =~= v@.take(i as int));
        i = i + 1;
        assert(out@ =~= start + seq!['"'] + json_escaped(v@.take(i as int)));
    }
    push_char(out, '"');
    assert(v@.take(i as int) =~= v@);
    assert(out@ =~= start + json_str(s@));
}

/// Whether a CSV cell must be quoted: it holds a comma, a quote or a line break.
pub open spec fn csv_needs_quotes(s: Seq<char>) -> bool {
    exists|i: int| 0 <= i < s.len() && (s[i] == ',' || s[i] == '"' || s[i] == '\n' || s[i] == '\r')
}

/// The characters of `s` with each quote doubled.
pub open spec fn csv_doubled(s: Seq<char>) -> Seq<char>
    decreases s.len(),
{
    if s.len() == 0 {
        Seq::empty()
    } else {
        csv_doubled(s.drop_last()) + if s.last() == '"' {
            seq!['"', '"']
        } else {
            seq![s.last()]
        }
    }
}

/// One CSV cell: quoted, with quotes doubled, where it must be.
pub open spec fn csv_cell(s: Seq<char>) -> Seq<char> {
    if csv_needs_quotes(s) {
        seq!['"'] + csv_doubled(s) + seq!['"']
    } else {
        s
    }
}

fn push_csv_cell(out: &mut String, s: &str)
    ensures
        final(out)@ == old(out)@ + csv_cell(s@),
{
    let v = to_chars(s);
    let mut quote = false;
    let mut i: usize = 0;
    while i < v.len()
        invariant
            i <= v@.len(),
            v@ == s@,
            quote == exists|j: int|
                0 <= j < i && (v@[j] == ',' || v@[j] == '"' || v@[j] == '\n' || v@[j] == '\r'),
        decreases v@.len() - i,
    {
        if v[i] == ',' || v[i] == '"' || v[i] == '\n' || v[i] == '\r' {
            quote = true;
        }
        i = i + 1;
    }
    if !quote {
        out.append(s);
        return;
    }
    let ghost start = out@;
    push_char(out, '"');
    let mut k: usize = 0;
    while k < v.len()
        invariant
            k <= v@.len(),
            v@ == s@,
            out@ == start + seq!['"'] + csv_doubled(v@.take(k as int)),
        decreases v@.len() - k,
    {
        if v[k] == '"' {
            push_char(out, '"');
            push_char(out, '"');
        } else {
            push_char(out, v[k]);
        }
        assert(v@.take(k + 1).drop_last() =~= v@.take(k as int));
        k = k + 1;
        assert(out@ =~= start + seq!['"'] + csv_doubled(v@.take(k as int)));
    }
    push_char(out, '"');
    assert(v@.take(k as int) =~= v@);
    assert(out@ =~= start + csv_cell(s@));
}

} // verus!

verus! {

/// One line of CSV.
pub open spec fn csv_line(cells: Seq<Seq<char>>) -> Seq<char> {
    join_with(cells.map_values(|c: Seq<char>| csv_cell(c)), ","@)
}

/// The cell in column `i`, empty where the row is shorter.
pub open spec fn cell_at(row: Seq<Seq<char>>, i: int) -> Seq<char> {
    if 0 <= i < row.len() {
        row[i]
    } else {
        Seq::empty()
    }
}

/// One header and cell pair of a JSON object.
pub open spec fn json_pair(h: Seq<char>, c: Seq<char>) -> Seq<char> {
    "      "@ + json_str(h) + ": "@ + json_str(c)
}

/// A row as a JSON object keyed by the header.
pub open spec fn json_object(header: Seq<Seq<char>>, row: Seq<Seq<char>>) -> Seq<char> {
    "    {\n"@ + join_with(
        Seq::new(header.len(), |i: int| json_pair(header[i], cell_at(row, i))),
        ",\n"@,
    ) + "\n    }"@
}

/// One header and cell pair of a YAML mapping: the first opens the list item.
pub open spec fn yaml_pair(h: Seq<char>, c: Seq<char>, first: bool) -> Seq<char> {
    (if first {
        "  - "@
    } else {
        "    "@
    }) + json_str(h) + ": "@ + json_str(c) + "\n"@
}

/// A row as a YAML list item keyed by the header.
pub open spec fn yaml_item(header: Seq<Seq<char>>, row: Seq<Seq<char>>) -> Seq<char> {
    if header.len() == 0 {
        "  - {}\n"@
    } else {
        join_with(
            Seq::new(header.len(), |i: int| yaml_pair(header[i], cell_at(row, i), i == 0)),
            ""@,
        )
    }
}

/// The texts of the rows.
pub open spec fn rows_view(rows: Seq<Vec<String>>) -> Seq<Seq<Seq<char>>> {
    rows.map_values(|r: Vec<String>| text_views(r@))
}

fn csv_line_exec(cells: &Vec<String>) -> (r: String)
    ensures
        r@ == csv_line(text_views(cells@)),
{
    let mut parts: Vec<String> = Vec::new();
    let mut k: usize = 0;
    while k < cells.len()
        invariant
            k <= cells@.len(),
            text_views(parts@) == text_views(cells@).take(k as int).map_values(
                |c: Seq<char>| csv_cell(c),
            ),
        decreases cells@.len() - k,
    {
        let mut s = String::new();
        push_csv_cell(&mut s, cells[k].as_str());
        let ghost prev = parts@;
        parts.push(s);
        assert(text_views(parts@) =~= text_views(prev).push(csv_cell(cells@[k as int]@)));
        k = k + 1;
        assert(text_views(cells@).take(k as int).map_values(|c: Seq<char>| csv_cell(c))
            =~= text_views(cells@).take(k - 1).map_values(|c: Seq<char>| csv_cell(c)).push(
            csv_cell(cells@[k - 1]@),
        ));
    }
    assert(text_views(cells@).take(k as int) =~= text_views(cells@));
    crate::messages::join_lines(&parts, ",")
}

fn cell_text(row: &Vec<String>, i: usize) -> (r: &str)
    ensures
        r@ == cell_at(text_views(row@), i as int),
{
    if i < row.len() {
        row[i].as_str()
    } else {
        proof {
            reveal_strlit("");
        }
        ""
    }
}

fn json_object_exec(header: &Vec<String>, row: &Vec<String>) -> (r: String)
    ensures
        r@ == json_object(text_views(header@), text_views(row@)),
{
    let ghost h = text_views(header@);
    let ghost rv = text_views(row@);
    let ghost pairs = Seq::new(h.len(), |i: int| json_pair(h[i], cell_at(rv, i)));
    let mut parts: Vec<String> = Vec::new();
    let mut k: usize = 0;
    while k < header.len()
        invariant
            k <= header@.len(),
            h == text_views(header@),
            rv == text_views(row@),
            pairs == Seq::new(h.len(), |i: int| json_pair(h[i], cell_at(rv, i))),
            text_views(parts@) == pairs.take(k as int),
        decreases header@.len() - k,
    {
        let mut s = String::from_str("      ");
        push_json_str(&mut s, header[k].as_str());
        s.append(": ");
        push_json_str(&mut s, cell_text(row, k));
        let ghost prev = parts@;
        assert(s@ =~= pairs[k as int]);
        parts.push(s);
        assert(text_views(parts@) =~= text_views(prev).push(pairs[k as int]));
        k = k + 1;
        assert(pairs.take(k as int) =~= pairs.take(k - 1).push(pairs[k - 1]));
    }
    assert(pairs.take(k as int) =~= pairs);
    let mut r = String::from_str("    {\n");
    let body = crate::messages::join_lines(&parts, ",\n");
    r.append(body.as_str());
    r.append("\n    }");
    r
}

fn yaml_item_exec(header: &Vec<String>, row: &Vec<String>) -> (r: String)
    ensures
        r@ == yaml_item(text_views(header@), text_views(row@)),
{
    if header.len() == 0 {
        return String::from_str("  - {}\n");
    }
    let ghost h = text_views(header@);
    let ghost rv = text_views(row@);
    let ghost pairs = Seq::new(h.len(), |i: int| yaml_pair(h[i], cell_at(rv, i), i == 0));
    let mut parts: Vec<String> = Vec::new();
    let mut k: usize = 0;
    while k < header.len()
        invariant
            k <= header@.len(),
            h == text_views(header@),
            rv == text_views(row@),
            pairs == Seq::new(h.len(), |i: int| yaml_pair(h[i], cell_at(rv, i), i == 0)),
            text_views(parts@) == pairs.take(k as int),
        decreases header@.len() - k,
    {
        let mut s = if k == 0 {
            String::from_str("  - ")
        } else {
            String::from_str("    ")
        };
        push_json_str(&mut s, header[k].as_str());
        s.append(": ");
        push_json_str(&mut s, cell_text(row, k));
        s.append("\n");
        let ghost prev = parts@;
        assert(s@ =~= pairs[k as int]);
        parts.push(s);
        assert(text_views(parts@) =~= text_views(prev).push(pairs[k as int]));
        k = k + 1;
        assert(pairs.take(k as int) =~= pairs.take(k - 1).push(pairs[k - 1]));
    }
    assert(pairs.take(k as int) =~= pairs);
    crate::messages::join_lines(&parts, "")
}

} // verus!

verus! {

/// The width of column `i` over the header and the first `n` rows.
pub open spec fn width_upto(header: Seq<Seq<char>>, rows: Seq<Seq<Seq<char>>>, i: int, n: nat) -> nat
    decreases n,
{
    if n == 0 {
        cell_at(header, i).len()
    } else {
        let w = width_upto(header, rows, i, (n - 1) as nat);
        let c = cell_at(rows[n - 1], i).len();
        if c > w {
            c
        } else {
            w
        }
    }
}

/// The widths of the columns: the longest text in each.
pub open spec fn widths(header: Seq<Seq<char>>, rows: Seq<Seq<Seq<char>>>) -> Seq<nat> {
    Seq::new(header.len(), |i: int| width_upto(header, rows, i, rows.len()))
}

/// A border line of the aligned table.
pub open spec fn border(ws: Seq<nat>) -> Seq<char> {
    "+"@ + join_with(Seq::new(ws.len(), |j: int| "-"@ + repeat_text("-"@, ws[j]) + "-+"@), ""@)
}

/// One line of the aligned table: each cell padded to its column's width.
pub open spec fn table_line(ws: Seq<nat>, row: Seq<Seq<char>>) -> Seq<char> {
    "|"@ + join_with(
        Seq::new(
            ws.len(),
            |j: int|
                " "@ + cell_at(row, j) + repeat_text(" "@, (ws[j] - cell_at(row, j).len()) as nat)
                    + " |"@,
        ),
        ""@,
    )
}

fn width_exec(header: &Vec<String>, rows: &Vec<Vec<String>>, i: usize) -> (r: usize)
    ensures
        r == width_upto(text_views(header@), rows_view(rows@), i as int, rows@.len()),
{
    let mut w = cell_text(header, i).unicode_len();
    let mut n: usize = 0;
    while n < rows.len()
        invariant
            n <= rows@.len(),
            w == width_upto(text_views(header@), rows_view(rows@), i as int, n as nat),
        decreases rows@.len() - n,
    {
        let c = cell_text(&rows[n], i).unicode_len();
        assert(rows_view(rows@)[n as int] == text_views(rows@[n as int]@));
        if c > w {
            w = c;
        }
        n = n + 1;
    }
    w
}

fn widths_exec(header: &Vec<String>, rows: &Vec<Vec<String>>) -> (r: Vec<usize>)
    ensures
        r@.map_values(|w: usize| w as nat) == widths(text_views(header@), rows_view(rows@)),
{
    let mut ws: Vec<usize> = Vec::new();
    let mut i: usize = 0;
    while i < header.len()
        invariant
            i <= header@.len(),
            ws@.len() == i,
            forall|j: int|
                0 <= j < i ==> ws@[j] as nat == width_upto(
                    text_views(header@),
                    rows_view(rows@),
                    j,
                    rows@.len(),
                ),
        decreases header@.len() - i,
    {
        ws.push(width_exec(header, rows, i));
        i = i + 1;
    }
    assert(ws@.map_values(|w: usize| w as nat) =~= widths(text_views(header@), rows_view(rows@)));
    ws
}

fn border_exec(ws: &Vec<usize>) -> (r: String)
    ensures
        r@ == border(ws@.map_values(|w: usize| w as nat)),
{
    let ghost wn = ws@.map_values(|w: usize| w as nat);
    let ghost parts = Seq::new(wn.len(), |j: int| "-"@ + repeat_text("-"@, wn[j]) + "-+"@);
    let mut pieces: Vec<String> = Vec::new();
    let mut k: usize = 0;
    while k < ws.len()
        invariant
            k <= ws@.len(),
            wn == ws@.map_values(|w: usize| w as nat),
            parts == Seq::new(wn.len(), |j: int| "-"@ + repeat_text("-"@, wn[j]) + "-+"@),
            text_views(pieces@) == parts.take(k as int),
        decreases ws@.len() - k,
    {
        let mut s = String::from_str("-");
        let dashes = repeat_exec("-", ws[k]);
        s.append(dashes.as_str());
        s.append("-+");
        let ghost prev = pieces@;
        assert(s@ =~= parts[k as int]);
        pieces.push(s);
        assert(text_views(pieces@) =~= text_views(prev).push(parts[k as int]));
        k = k + 1;
        assert(parts.take(k as int) =~= parts.take(k - 1).push(parts[k - 1]));
    }
    assert(parts.take(k as int) =~= parts);
    let mut r = String::from_str("+");
    let body = crate::messages::join_lines(&pieces, "");
    r.append(body.as_str());
    r
}

} // verus!

verus! {

fn table_line_exec(ws: &Vec<usize>, row: &Vec<String>) -> (r: String)
    requires
        forall|j: int|
            0 <= j < ws@.len() ==> cell_at(text_views(row@), j).len() <= ws@[j] as nat,
    ensures
        r@ == table_line(ws@.map_values(|w: usize| w as nat), text_views(row@)),
{
    let ghost wn = ws@.map_values(|w: usize| w as nat);
    let ghost rv = text_views(row@);
    let ghost parts = Seq::new(
        wn.len(),
        |j: int|
            " "@ + cell_at(rv, j) + repeat_text(" "@, (wn[j] - cell_at(rv, j).len()) as nat)
                + " |"@,
    );
    let mut pieces: Vec<String> = Vec::new();
    let mut k: usize = 0;
    while k < ws.len()
        invariant
            k <= ws@.len(),
            wn == ws@.map_values(|w: usize| w as nat),
            rv == text_views(row@),
            forall|j: int| 0 <= j < ws@.len() ==> cell_at(rv, j).len() <= ws@[j] as nat,
            parts == Seq::new(
                wn.len(),
                |j: int|
                    " "@ + cell_at(rv, j) + repeat_text(
                        " "@,
                        (wn[j] - cell_at(rv, j).len()) as nat,
                    ) + " |"@,
            ),
            text_views(pieces@) == parts.take(k as int),
        decreases ws@.len() - k,
    {
        let cell = cell_text(row, k);
        let len = cell.unicode_len();
        let mut s = String::from_str(" ");
        s.append(cell);
        let pad = repeat_exec(" ", ws[k] - len);
        s.append(pad.as_str());
        s.append(" |");
        let ghost prev = pieces@;
        assert(s@ =~= parts[k as int]);
        pieces.push(s);
        assert(text_views(pieces@) =~= text_views(prev).push(parts[k as int]));
        k = k + 1;
        assert(parts.take(k as int) =~= parts.take(k - 1).push(parts[k - 1]));
    }
    assert(parts.take(k as int) =~= parts);
    let mut r = String::from_str("|");
    let body = crate::messages::join_lines(&pieces, "");
    r.append(body.as_str());
    r
}

proof fn lemma_width_bounds(header: Seq<Seq<char>>, rows: Seq<Seq<Seq<char>>>, i: int, n: nat)
    requires
        n <= rows.len(),
    ensures
        cell_at(header, i).len() <= width_upto(header, rows, i, n),
        forall|m: int| 0 <= m < n ==> cell_at(rows[m], i).len() <= width_upto(header, rows, i, n),
    decreases n,
{
    if n > 0 {
        lemma_width_bounds(header, rows, i, (n - 1) as nat);
    }
}

/// Why a table cannot be rendered.
#[derive(Clone, Debug, PartialEq)]
pub enum TableError {
    /// The output format is none of `table`, `csv`, `json` and `yaml`.
    UnknownFormat(String),
}

/// A table of rows under a header; `kind` names the records for structured output.
#[derive(Clone, Debug, PartialEq)]
pub struct Table {
    pub kind: String,
    pub header: Vec<String>,
    pub rows: Vec<Vec<String>>,
}

/// The table as aligned text: a border, the header, a border, the rows and a border.
pub open spec fn plain_text(header: Seq<Seq<char>>, rows: Seq<Seq<Seq<char>>>) -> Seq<char> {
    let ws = widths(header, rows);
    border(ws) + "\n"@ + table_line(ws, header) + "\n"@ + border(ws) + "\n"@ + join_with(
        rows.map_values(|r: Seq<Seq<char>>| table_line(ws, r) + "\n"@),
        ""@,
    ) + border(ws) + "\n"@
}

/// The table as CSV: the header line, then one line per row.
pub open spec fn csv_text(header: Seq<Seq<char>>, rows: Seq<Seq<Seq<char>>>) -> Seq<char> {
    join_with(
        seq![csv_line(header)] + rows.map_values(|r: Seq<Seq<char>>| csv_line(r)),
        "\n"@,
    ) + "\n"@
}

/// The table as JSON: an object whose `kind` member lists one object per row.
pub open spec fn json_text(kind: Seq<char>, header: Seq<Seq<char>>, rows: Seq<Seq<Seq<char>>>) -> Seq<
    char,
> {
    "{\n  "@ + json_str(kind) + ": ["@ + (if rows.len() == 0 {
        "]"@
    } else {
        "\n"@ + join_with(
            rows.map_values(|r: Seq<Seq<char>>| json_object(header, r)),
            ",\n"@,
        ) + "\n  ]"@
    }) + "\n}\n"@
}

/// The table as YAML: a document whose `kind` key lists one mapping per row.
pub open spec fn yaml_text(kind: Seq<char>, header: Seq<Seq<char>>, rows: Seq<Seq<Seq<char>>>) -> Seq<
    char,
> {
    "---\n"@ + json_str(kind) + ":"@ + if rows.len() == 0 {
        " []\n"@
    } else {
        "\n"@ + join_with(rows.map_values(|r: Seq<Seq<char>>| yaml_item(header, r)), ""@)
    }
}

impl Table {
    pub fn new(kind: &str) -> (r: Table)
        ensures
            r.kind@ == kind@,
            r.header@.len() == 0,
            r.rows@.len() == 0,
    {
        Table { kind: String::from_str(kind), header: Vec::new(), rows: Vec::new() }
    }

    pub fn set_header(&mut self, header: Vec<String>)
        ensures
            final(self).kind == old(self).kind,
            final(self).header == header,
            final(self).rows == old(self).rows,
    {
        self.header = header;
    }

    pub fn add_row(&mut self, row: Vec<String>)
        ensures
            final(self).kind == old(self).kind,
            final(self).header == old(self).header,
            final(self).rows@ == old(self).rows@.push(row),
    {
        self.rows.push(row);
    }

    /// Renders the table in `format`: `table`, `csv`, `json` or `yaml`.
    pub fn render(&self, format: &str) -> (r: Result<String, TableError>)
        ensures
            ({
                let h = text_views(self.header@);
                let rs = rows_view(self.rows@);
                if format@ == "table"@ {
                    r is Ok && r->Ok_0@ == plain_text(h, rs)
                } else if format@ == "csv"@ {
                    r is Ok && r->Ok_0@ == csv_text(h, rs)
                } else if format@ == "json"@ {
                    r is Ok && r->Ok_0@ == json_text(self.kind@, h, rs)
                } else if format@ == "yaml"@ {
                    r is Ok && r->Ok_0@ == yaml_text(self.kind@, h, rs)
                } else {
                    r is Err && match r->Err_0 {
                        TableError::UnknownFormat(f) => f@ == format@,
                    }
                }
            }),
    {
        if text_eq(format, "table") {
            Ok(self.render_plain())
        } else if text_eq(format, "csv") {
            Ok(self.render_csv())
        } else if text_eq(format, "json") {
            Ok(self.render_json())
        } else if text_eq(format, "yaml") {
            Ok(self.render_yaml())
        } else {
            Err(TableError::UnknownFormat(String::from_str(format)))
        }
    }

    fn render_plain(&self) -> (r: String)
        ensures
            r@ == plain_text(text_views(self.header@), rows_view(self.rows@)),
    {
        let ghost h = text_views(self.header@);
        let ghost rs = rows_view(self.rows@);
        let ws = widths_exec(&self.header, &self.rows);
        let ghost wn = ws@.map_values(|w: usize| w as nat);
        proof {
            assert forall|j: int| 0 <= j < ws@.len() implies cell_at(h, j).len() <= ws@[j] as nat by {
                lemma_width_bounds(h, rs, j, rs.len());
                assert(wn[j] == ws@[j] as nat);
                assert(wn == widths(h, rs));
                assert(wn.len() == ws@.len());
                assert(widths(h, rs).len() == h.len());
                assert(widths(h, rs)[j] == width_upto(h, rs, j, rs.len()));
            }
        }
        let b = border_exec(&ws);
        let mut out = b.clone();
        out.append("\n");
        let hl = table_line_exec(&ws, &self.header);
        out.append(hl.as_str());
        out.append("\n");
        out.append(b.as_str());
        out.append("\n");
        let ghost lines = rs.map_values(|r: Seq<Seq<char>>| table_line(wn, r) + "\n"@);
        let mut pieces: Vec<String> = Vec::new();
        let mut k: usize = 0;
        while k < self.rows.len()
            invariant
                k <= self.rows@.len(),
                h == text_views(self.header@),
                rs == rows_view(self.rows@),
                wn == ws@.map_values(|w: usize| w as nat),
                wn == widths(h, rs),
                lines == rs.map_values(|r: Seq<Seq<char>>| table_line(wn, r) + "\n"@),
                text_views(pieces@) == lines.take(k as int),
            decreases self.rows@.len() - k,
        {
            proof {
                assert(rs[k as int] == text_views(self.rows@[k as int]@));
                assert forall|j: int|
                    0 <= j < ws@.len() implies cell_at(text_views(self.rows@[k as int]@), j).len()
                    <= ws@[j] as nat by {
                    lemma_width_bounds(h, rs, j, rs.len());
                    assert(wn[j] == ws@[j] as nat);
                    assert(wn.len() == h.len());
                    assert(widths(h, rs)[j] == width_upto(h, rs, j, rs.len()));
                    assert(cell_at(rs[k as int], j).len() <= width_upto(h, rs, j, rs.len()));
                }
            }
            let mut line = table_line_exec(&ws, &self.rows[k]);
            line.append("\n");
            let ghost prev = pieces@;
            assert(line@ == lines[k as int]);
            pieces.push(line);
            assert(text_views(pieces@) =~= text_views(prev).push(lines[k as int]));
            k = k + 1;
            assert(lines.take(k as int) =~= lines.take(k - 1).push(lines[k - 1]));
        }
        assert(lines.take(k as int) =~= lines);
        let body = crate::messages::join_lines(&pieces, "");
        out.append(body.as_str());
        out.append(b.as_str());
        out.append("\n");
        out
    }

    fn render_csv(&self) -> (r: String)
        ensures
            r@ == csv_text(text_views(self.header@), rows_view(self.rows@)),
    {
        let ghost rs = rows_view(self.rows@);
        let ghost lines = seq![csv_line(text_views(self.header@))] + rs.map_values(
            |r: Seq<Seq<char>>| csv_line(r),
        );
        let mut pieces: Vec<String> = Vec::new();
        pieces.push(csv_line_exec(&self.header));
        let mut k: usize = 0;
        while k < self.rows.len()
            invariant
                k <= self.rows@.len(),
                rs == rows_view(self.rows@),
                lines == seq![csv_line(text_views(self.header@))] + rs.map_values(
                    |r: Seq<Seq<char>>| csv_line(r),
                ),
                text_views(pieces@) == lines.take(k + 1),
            decreases self.rows@.len() - k,
        {
            let line = csv_line_exec(&self.rows[k]);
            let ghost prev = pieces@;
            assert(rs[k as int] == text_views(self.rows@[k as int]@));
            assert(line@ == lines[k + 1]);
            pieces.push(line);
            assert(text_views(pieces@) =~= text_views(prev).push(lines[k + 1]));
            k = k + 1;
            assert(lines.take(k + 1) =~= lines.take(k as int).push(lines[k as int]));
        }
        assert(lines.take(k + 1) =~= lines);
        let mut out = crate::messages::join_lines(&pieces, "\n");
        out.append("\n");
        out
    }

    fn render_json(&self) -> (r: String)
        ensures
            r@ == json_text(self.kind@, text_views(self.header@), rows_view(self.rows@)),
    {
        let ghost h = text_views(self.header@);
        let ghost rs = rows_view(self.rows@);
        let mut out = String::from_str("{\n  ");
        push_json_str(&mut out, self.kind.as_str());
        out.append(": [");
        if self.rows.len() == 0 {
            out.append("]");
        } else {
            let ghost objs = rs.map_values(|r: Seq<Seq<char>>| json_object(h, r));
            let mut pieces: Vec<String> = Vec::new();
            let mut k: usize = 0;
            while k < self.rows.len()
                invariant
                    k <= self.rows@.len(),
                    h == text_views(self.header@),
                    rs == rows_view(self.rows@),
                    objs == rs.map_values(|r: Seq<Seq<char>>| json_object(h, r)),
                    text_views(pieces@) == objs.take(k as int),
                decreases self.rows@.len() - k,
            {
                let o = json_object_exec(&self.header, &self.rows[k]);
                let ghost prev = pieces@;
                assert(rs[k as int] == text_views(self.rows@[k as int]@));
                assert(o@ == objs[k as int]);
                pieces.push(o);
                assert(text_views(pieces@) =~= text_views(prev).push(objs[k as int]));
                k = k + 1;
                assert(objs.take(k as int) =~= objs.take(k - 1).push(objs[k - 1]));
            }
            assert(objs.take(k as int) =~= objs);
            out.append("\n");
            let body = crate::messages::join_lines(&pieces, ",\n");
            out.append(body.as_str());
            out.append("\n  ]");
        }
        out.append("\n}\n");
        out
    }

    fn render_yaml(&self) -> (r: String)
        ensures
            r@ == yaml_text(self.kind@, text_views(self.header@), rows_view(self.rows@)),
    {
        let ghost h = text_views(self.header@);
        let ghost rs = rows_view(self.rows@);
        let mut out = String::from_str("---\n");
        push_json_str(&mut out, self.kind.as_str());
        out.append(":");
        if self.rows.len() == 0 {
            out.append(" []\n");
        } else {
            let ghost items = rs.map_values(|r: Seq<Seq<char>>| yaml_item(h, r));
            let mut pieces: Vec<String> = Vec::new();
            let mut k: usize = 0;
            while k < self.rows.len()
                invariant
                    k <= self.rows@.len(),
                    h == text_views(self.header@),
                    rs == rows_view(self.rows@),
                    items == rs.map_values(|r: Seq<Seq<char>>| yaml_item(h, r)),
                    text_views(pieces@) == items.take(k as int),
                decreases self.rows@.len() - k,
            {
                let o = yaml_item_exec(&self.header, &self.rows[k]);
                let ghost prev = pieces@;
                assert(rs[k as int] == text_views(self.rows@[k as int]@));
                assert(o@ == items[k as int]);
                pieces.push(o);
                assert(text_views(pieces@) =~= text_views(prev).push(items[k as int]));
                k = k + 1;
                assert(items.take(k as int) =~= items.take(k - 1).push(items[k - 1]));
            }
            assert(items.take(k as int) =~= items);
            out.append("\n");
            let body = crate::messages::join_lines(&pieces, "");
            out.append(body.as_str());
        }
        out
    }
}

} // verus!
