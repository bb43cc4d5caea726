//! The fixed-width tables that `winget search`, `winget list` and
//! `winget upgrade` print.
//!
//! Column positions are taken from the header line as byte offsets (what
//! `str::find` returns) and then applied to the data lines as character
//! positions; the two agree as long as the header is ASCII.
use vstd::prelude::*;
use crate::text::{
    after_last, after_last_start, byte_len, chars_of, contains, contains_in, find_byte, find_byte_in,
    index_of_from, lemma_byte_len_subrange, lemma_index_of_from, lemma_lines_single,
    lemma_lines_split, lines, next_line, string_of_range, strip_cr, strip_leading,
    strip_leading_start, trim, trim_bounds,
};

verus! {

/// One data row of a table.
#[derive(Clone, Debug, PartialEq, Eq)]
pub struct TableRow {
    pub name: String,
    pub id: String,
    pub version: String,
    pub available: String,
    pub source: String,
}

/// The cells of a row as character sequences.
pub struct RowView {
    pub name: Seq<char>,
    pub id: Seq<char>,
    pub version: Seq<char>,
    pub available: Seq<char>,
    pub source: Seq<char>,
}

impl View for TableRow {
    type V = RowView;

    open spec fn view(&self) -> RowView {
        RowView {
            name: self.name@,
            id: self.id@,
            version: self.version@,
            available: self.available@,
            source: self.source@,
        }
    }
}

pub open spec fn rows_view(v: Seq<TableRow>) -> Seq<RowView> {
    v.map_values(|r: TableRow| r@)
}

/// Where the columns start (byte offsets found in the header line), and
/// whether the dashed separator line has been seen.
#[derive(Clone, Copy)]
pub struct TableColumns {
    pub name: Option<usize>,
    pub id: Option<usize>,
    pub version: Option<usize>,
    pub available: Option<usize>,
    pub source: Option<usize>,
    pub past_separator: bool,
}

pub open spec fn initial_columns() -> TableColumns {
    TableColumns {
        name: None,
        id: None,
        version: None,
        available: None,
        source: None,
        past_separator: false,
    }
}

pub open spec fn or_default(o: Option<usize>, d: usize) -> usize {
    match o {
        Some(v) => v,
        None => d,
    }
}

pub open spec fn either(a: Option<usize>, b: Option<usize>) -> Option<usize> {
    if a is Some {
        a
    } else {
        b
    }
}

pub open spec fn min_usize(a: usize, b: usize) -> usize {
    if a < b {
        a
    } else {
        b
    }
}

/// The trimmed cell `chars[start..min(end, total)]`, empty when `start` is
/// at or past `total`.
pub open spec fn spec_col_str(chars: Seq<char>, total: usize, start: usize, end: usize) -> Seq<
    char,
> {
    if start >= total {
        Seq::empty()
    } else {
        trim(chars.subrange(start as int, min_usize(end, total) as int))
    }
}

/// The slice `chars[start..min(end, total)]` would be out of order or out of bounds.
pub open spec fn col_str_panics(len: int, total: usize, start: usize, end: usize) -> bool {
    start < total && (min_usize(end, total) < start || min_usize(end, total) > len)
}

/// Cut one cell out of a data line.
pub fn col_str(chars: &[char], total: usize, start: usize, end: usize) -> (r: String)
    requires
        !col_str_panics(chars@.len() as int, total, start, end),
    ensures
        r@ == spec_col_str(chars@, total, start, end),
{
    if start >= total {
        return String::new();
    }
    let e = if end < total {
        end
    } else {
        total
    };
    let (a, b) = trim_bounds(chars, start, e);
    string_of_range(chars, a, b)
}

/// A raw line as the table sees it: leading byte-order marks dropped, then
/// only what follows the last `'\r'` (the final frame of a spinner).
pub open spec fn frame(raw: Seq<char>) -> Seq<char> {
    after_last(strip_leading(raw, '\u{feff}'), '\r')
}

pub open spec fn is_header(t: Seq<char>) -> bool {
    contains(t, "Id"@) && (contains(t, "Name"@) || contains(t, "Version"@))
}

pub open spec fn all_dashes(t: Seq<char>) -> bool {
    forall|i: int| 0 <= i < t.len() ==> t[i] == '-'
}

pub open spec fn is_separator(t: Seq<char>) -> bool {
    byte_len(t) > 5 && all_dashes(t)
}

pub open spec fn find_col(line: Seq<char>, pat: Seq<char>) -> Option<usize> {
    match find_byte(line, pat) {
        Some(k) => Some(k as usize),
        None => None,
    }
}

/// The columns after reading one more line.
pub open spec fn next_columns(st: TableColumns, raw: Seq<char>) -> TableColumns {
    let line = frame(raw);
    let t = trim(line);
    if t.len() == 0 || st.past_separator {
        st
    } else if is_header(t) {
        TableColumns {
            name: find_col(line, "Name"@),
            id: find_col(line, "Id"@),
            version: find_col(line, "Version"@),
            available: find_col(line, "Available"@),
            source: find_col(line, "Source"@),
            past_separator: false,
        }
    } else if is_separator(t) {
        TableColumns { past_separator: true, ..st }
    } else {
        st
    }
}

/// What one line contributes: `None` where cutting a cell would fail,
/// `Some(None)` for no row, `Some(Some(row))` for a row.
pub open spec fn line_row(st: TableColumns, raw: Seq<char>) -> Option<Option<RowView>> {
    let line = frame(raw);
    let t = trim(line);
    if t.len() == 0 || !st.past_separator {
        Some(None)
    } else {
        match st.id {
            None => Some(None),
            Some(id_start) => {
                let len = line.len() as usize;
                if id_start >= len {
                    Some(None)
                } else {
                    let n0 = or_default(st.name, 0);
                    let v0 = or_default(st.version, 0);
                    let v1 = or_default(st.version, len);
                    let a0 = or_default(st.available, 0);
                    let a1 = or_default(either(st.available, st.source), len);
                    let s0 = or_default(st.source, 0);
                    let s1 = or_default(st.source, len);
                    if col_str_panics(len as int, len, n0, id_start) || col_str_panics(
                        len as int,
                        len,
                        id_start,
                        v1,
                    ) || col_str_panics(len as int, len, v0, a1) || col_str_panics(
                        len as int,
                        len,
                        a0,
                        s1,
                    ) || col_str_panics(len as int, len, s0, len) {
                        None
                    } else {
                        let id = spec_col_str(line, len, id_start, v1);
                        if id.len() == 0 {
                            Some(None)
                        } else {
                            Some(
                                Some(
                                    RowView {
                                        name: spec_col_str(line, len, n0, id_start),
                                        id: id,
                                        version: spec_col_str(line, len, v0, a1),
                                        available: spec_col_str(line, len, a0, s1),
                                        source: spec_col_str(line, len, s0, len),
                                    },
                                ),
                            )
                        }
                    }
                }
            },
        }
    }
}

/// The rows of a sequence of lines read from column state `st`.
pub open spec fn parse_rows(st: TableColumns, ls: Seq<Seq<char>>) -> Option<Seq<RowView>>
    decreases ls.len(),
{
    if ls.len() == 0 {
        Some(Seq::empty())
    } else {
        match line_row(st, ls[0]) {
            None => None,
            Some(row) => match parse_rows(next_columns(st, ls[0]), ls.drop_first()) {
                None => None,
                Some(rest) => Some(
                    match row {
                        Some(x) => seq![x] + rest,
                        None => rest,
                    },
                ),
            },
        }
    }
}

/// The rows of a whole table output; `None` where the tool would fail on it.
pub open spec fn spec_parse_table(output: Seq<char>) -> Option<Seq<RowView>> {
    parse_rows(initial_columns(), lines(output))
}

pub open spec fn prepend(p: Seq<RowView>, o: Option<Seq<RowView>>) -> Option<Seq<RowView>> {
    match o {
        Some(r) => Some(p + r),
        None => None,
    }
}

proof fn lemma_dashes_byte_len(t: Seq<char>)
    requires
        all_dashes(t),
    ensures
        byte_len(t) == t.len(),
    decreases t.len(),
{
    if t.len() > 0 {
        assert(t.last() == '-');
        lemma_dashes_byte_len(t.drop_last());
    }
}

fn dashes_only(s: &[char], lo: usize, hi: usize) -> (b: bool)
    requires
        lo <= hi <= s@.len(),
    ensures
        b == all_dashes(s@.subrange(lo as int, hi as int)),
{
    let mut i = lo;
    while i < hi
        invariant
            lo <= i <= hi <= s@.len(),
            forall|k: int| lo <= k < i ==> s@[k] == '-',
        decreases hi - i,
    {
        if s[i] != '-' {
            assert(s@.subrange(lo as int, hi as int)[i - lo] != '-');
            return false;
        }
        i = i + 1;
    }
    assert forall|k: int| 0 <= k < hi - lo implies s@.subrange(lo as int, hi as int)[k] == '-' by {
        assert(s@[lo + k] == '-');
    }
    true
}

fn panics_exec(len: usize, total: usize, start: usize, end: usize) -> (b: bool)
    ensures
        b == col_str_panics(len as int, total, start, end),
{
    let m = if end < total {
        end
    } else {
        total
    };
    start < total && (m < start || m > len)
}

/// Reads one line `s[lo..hi]`: the next column state, and what the line
/// contributes (see `line_row`).
fn scan_line(s: &[char], lo: usize, hi: usize, st: TableColumns) -> (r: (
    TableColumns,
    Option<Option<TableRow>>,
))
    requires
        lo <= hi <= s@.len(),
        byte_len(s@) <= usize::MAX,
    ensures
        r.0 == next_columns(st, s@.subrange(lo as int, hi as int)),
        r.1 is None <==> line_row(st, s@.subrange(lo as int, hi as int)) is None,
        r.1 matches Some(Some(row)) ==> line_row(st, s@.subrange(lo as int, hi as int)) == Some(
            Some(row@),
        ),
        r.1 matches Some(None) ==> line_row(st, s@.subrange(lo as int, hi as int)) == Some(
            None::<RowView>,
        ),
{
    let ghost raw = s@.subrange(lo as int, hi as int);
    let k0 = strip_leading_start(s, lo, hi, '\u{feff}');
    assert(s@.subrange(k0 as int, hi as int) =~= s@.subrange(lo as int, hi as int).subrange(
        k0 - lo,
        hi - lo,
    ));
    let k1 = after_last_start(s, k0, hi, '\r');
    let ghost line = s@.subrange(k1 as int, hi as int);
    assert(frame(raw) == line);
    let (a, b) = trim_bounds(s, k1, hi);
    if a == b {
        assert(trim(line).len() == 0);
        return (st, Some(None));
    }
    if !st.past_separator {
        let id_pat = chars_of("Id");
        let name_pat = chars_of("Name");
        let version_pat = chars_of("Version");
        if contains_in(s, a, b, id_pat.as_slice()) && (contains_in(s, a, b, name_pat.as_slice())
            || contains_in(s, a, b, version_pat.as_slice())) {
            let available_pat = chars_of("Available");
            let source_pat = chars_of("Source");
            proof {
                lemma_byte_len_subrange(s@, k1 as int, hi as int);
            }
            let cols = TableColumns {
                name: find_byte_in(s, k1, hi, name_pat.as_slice()),
                id: find_byte_in(s, k1, hi, id_pat.as_slice()),
                version: find_byte_in(s, k1, hi, version_pat.as_slice()),
                available: find_byte_in(s, k1, hi, available_pat.as_slice()),
                source: find_byte_in(s, k1, hi, source_pat.as_slice()),
                past_separator: false,
            };
            return (cols, Some(None));
        }
        if dashes_only(s, a, b) {
            proof {
                lemma_dashes_byte_len(s@.subrange(a as int, b as int));
            }
            if b - a > 5 {
                return (TableColumns { past_separator: true, ..st }, Some(None));
            }
        }
        return (st, Some(None));
    }
    match st.id {
        None => (st, Some(None)),
        Some(id_start) => {
            let len = hi - k1;
            if id_start >= len {
                return (st, Some(None));
            }
            let mut chars: Vec<char> = Vec::new();
            let mut i = k1;
            while i < hi
                invariant
                    k1 <= i <= hi <= s@.len(),
                    chars@ == s@.subrange(k1 as int, i as int),
                decreases hi - i,
            {
                chars.push(s[i]);
                i = i + 1;
                assert(chars@ =~= s@.subrange(k1 as int, i as int));
            }
            assert(chars@ == line);
            let n0 = match st.name {
                Some(v) => v,
                None => 0,
            };
            let v0 = match st.version {
                Some(v) => v,
                None => 0,
            };
            let v1 = match st.version {
                Some(v) => v,
                None => len,
            };
            let a0 = match st.available {
                Some(v) => v,
                None => 0,
            };
            let a1 = match st.available {
                Some(v) => v,
                None => match st.source {
                    Some(v) => v,
                    None => len,
                },
            };
            let s0 = match st.source {
                Some(v) => v,
                None => 0,
            };
            let s1 = match st.source {
                Some(v) => v,
                None => len,
            };
            if panics_exec(len, len, n0, id_start) || panics_exec(len, len, id_start, v1)
                || panics_exec(len, len, v0, a1) || panics_exec(len, len, a0, s1) || panics_exec(
                len,
                len,
                s0,
                len,
            ) {
                return (st, None);
            }
            let name = col_str(chars.as_slice(), len, n0, id_start);
            let id = col_str(chars.as_slice(), len, id_start, v1);
            let version = col_str(chars.as_slice(), len, v0, a1);
            let available = col_str(chars.as_slice(), len, a0, s1);
            let source = col_str(chars.as_slice(), len, s0, len);
            if id.as_str().is_empty() {
                (st, Some(None))
            } else {
                (st, Some(Some(TableRow { name, id, version, available, source })))
            }
        },
    }
}

/// The rows of a table held as characters; `None` where the tool would fail.
fn parse_table_chars(s: &[char]) -> (r: Option<Vec<TableRow>>)
    requires
        byte_len(s@) <= usize::MAX,
    ensures
        r is None <==> spec_parse_table(s@) is None,
        r matches Some(v) ==> spec_parse_table(s@) == Some(rows_view(v@)),
{
    let n = s.len();
    let mut rows: Vec<TableRow> = Vec::new();
    let mut st = TableColumns {
        name: None,
        id: None,
        version: None,
        available: None,
        source: None,
        past_separator: false,
    };
    let mut pos: usize = 0;
    assert(s@.subrange(0, n as int) =~= s@);
    assert(rows_view(rows@) =~= Seq::<RowView>::empty());
    proof {
        match parse_rows(st, lines(s@)) {
            Some(r) => {
                assert(Seq::<RowView>::empty() + r =~= r);
            },
            None => {},
        }
    }
    while pos < n
        invariant
            n == s@.len(),
            pos <= n,
            byte_len(s@) <= usize::MAX,
            spec_parse_table(s@) == prepend(
                rows_view(rows@),
                parse_rows(st, lines(s@.subrange(pos as int, n as int))),
            ),
        decreases n - pos,
    {
        let (end, next) = next_line(s, pos);
        let ghost ls = lines(s@.subrange(pos as int, n as int));
        let ghost raw = s@.subrange(pos as int, end as int);
        let ghost rest = lines(s@.subrange(next as int, n as int));
        assert(ls[0] == raw);
        assert(ls.drop_first() =~= rest);
        let (st2, out) = scan_line(s, pos, end, st);
        match out {
            None => {
                return None;
            },
            Some(row) => {
                let ghost old_rows = rows@;
                match row {
                    Some(x) => {
                        rows.push(x);
                        proof {
                            assert(rows_view(rows@) =~= rows_view(old_rows).push(x@));
                            match parse_rows(st2, rest) {
                                Some(r) => {
                                    assert(rows_view(old_rows).push(x@) + r =~= rows_view(
                                        old_rows,
                                    ) + (seq![x@] + r));
                                },
                                None => {},
                            }
                        }
                    },
                    None => {},
                }
                st = st2;
                pos = next;
            },
        }
    }
    proof {
        assert(s@.subrange(n as int, n as int) =~= Seq::<char>::empty());
        assert(rows_view(rows@) + Seq::<RowView>::empty() =~= rows_view(rows@));
    }
    Some(rows)
}

/// Whether the table parser accepts `output` (it fails only on a header
/// whose columns come out of order).
pub fn table_is_parsable(output: &str) -> (b: bool)
    ensures
        b == (spec_parse_table(output@) is Some),
{
    let s = chars_of(output);
    parse_table_chars(s.as_slice()).is_some()
}

/// Parses any `winget` fixed-width table (search / list / upgrade) into its
/// data rows; rows without an id are left out.
pub fn parse_table(output: &str) -> (rows: Vec<TableRow>)
    requires
        spec_parse_table(output@) is Some,
    ensures
        spec_parse_table(output@) == Some(rows_view(rows@)),
{
    let s = chars_of(output);
    match parse_table_chars(s.as_slice()) {
        Some(v) => v,
        None => Vec::new(),
    }
}

/// Every row the parser returns has an id.
pub proof fn law_rows_have_ids(output: Seq<char>)
    ensures
        spec_parse_table(output) matches Some(rows) ==> forall|i: int|
            0 <= i < rows.len() ==> (#[trigger] rows[i]).id.len() > 0,
{
    lemma_rows_have_ids(initial_columns(), lines(output));
}

proof fn lemma_rows_have_ids(st: TableColumns, ls: Seq<Seq<char>>)
    ensures
        parse_rows(st, ls) matches Some(rows) ==> forall|i: int|
            0 <= i < rows.len() ==> (#[trigger] rows[i]).id.len() > 0,
    decreases ls.len(),
{
    if ls.len() > 0 {
        lemma_rows_have_ids(next_columns(st, ls[0]), ls.drop_first());
        match line_row(st, ls[0]) {
            Some(Some(x)) => {
                match parse_rows(next_columns(st, ls[0]), ls.drop_first()) {
                    Some(rest) => {
                        assert forall|i: int| 0 <= i < (seq![x] + rest).len() implies (#[trigger] (
                        seq![x] + rest)[i]).id.len() > 0 by {
                            if i > 0 {
                                assert((seq![x] + rest)[i] == rest[i - 1]);
                            }
                        }
                    },
                    None => {},
                }
            },
            _ => {},
        }
    }
}

// ───────────────────────── byte-order marks and line endings ─────────────────────────

/// The text with every `'\n'` written as `"\r\n"`.
pub open spec fn crlf(s: Seq<char>) -> Seq<char>
    decreases s.len(),
{
    if s.len() == 0 {
        Seq::empty()
    } else {
        (if s[0] == '\n' {
            seq!['\r', '\n']
        } else {
            seq![s[0]]
        }) + crlf(s.drop_first())
    }
}

proof fn lemma_crlf_concat(a: Seq<char>, b: Seq<char>)
    ensures
        crlf(a + b) == crlf(a) + crlf(b),
    decreases a.len(),
{
    if a.len() == 0 {
        assert(a + b =~= b);
        assert(crlf(a) + crlf(b) =~= crlf(b));
    } else {
        assert((a + b).drop_first() =~= a.drop_first() + b);
        assert((a + b)[0] == a[0]);
        lemma_crlf_concat(a.drop_first(), b);
        let h = if a[0] == '\n' {
            seq!['\r', '\n']
        } else {
            seq![a[0]]
        };
        assert(h + (crlf(a.drop_first()) + crlf(b)) =~= (h + crlf(a.drop_first())) + crlf(b));
    }
}

proof fn lemma_crlf_plain(x: Seq<char>)
    requires
        forall|i: int| 0 <= i < x.len() ==> x[i] != '\n',
    ensures
        crlf(x) == x,
    decreases x.len(),
{
    if x.len() > 0 {
        lemma_crlf_plain(x.drop_first());
        assert(seq![x[0]] + x.drop_first() =~= x);
    }
}

/// Without carriage returns of its own, a text has the same lines with
/// `"\r\n"` endings as with `"\n"` endings.
proof fn lemma_lines_crlf(s: Seq<char>)
    requires
        forall|i: int| 0 <= i < s.len() ==> s[i] != '\r',
    ensures
        lines(crlf(s)) == lines(s),
    decreases s.len(),
{
    if s.len() > 0 {
        lemma_index_of_from(s, '\n', 0);
        let k = index_of_from(s, '\n', 0);
        if k == s.len() {
            lemma_crlf_plain(s);
        } else {
            let x = s.subrange(0, k);
            let r = s.subrange(k + 1, s.len() as int);
            assert(s =~= x + seq!['\n'] + r);
            lemma_crlf_concat(x + seq!['\n'], r);
            lemma_crlf_concat(x, seq!['\n']);
            lemma_crlf_plain(x);
            assert(crlf(seq!['\n']) =~= seq!['\r', '\n']) by {
                let n = seq!['\n'];
                assert(n[0] == '\n');
                assert(n.drop_first() =~= Seq::<char>::empty());
                assert(crlf(n.drop_first()) =~= Seq::<char>::empty());
                assert(seq!['\r', '\n'] + Seq::<char>::empty() =~= seq!['\r', '\n']);
            }
            let xr = x + seq!['\r'];
            assert(crlf(s) =~= xr + seq!['\n'] + crlf(r));
            assert forall|i: int| 0 <= i < xr.len() implies xr[i] != '\n' by {
                if i < x.len() {
                    assert(xr[i] == s[i]);
                }
            }
            lemma_lines_split(xr, crlf(r));
            lemma_lines_split(x, r);
            lemma_lines_crlf(r);
            assert(strip_cr(xr) =~= x);
            if x.len() > 0 {
                assert(x.last() == s[k - 1]);
            }
            assert(strip_cr(x) == x);
        }
    }
}

proof fn lemma_frame_bom(x: Seq<char>)
    ensures
        frame(seq!['\u{feff}'] + x) == frame(x),
{
    assert((seq!['\u{feff}'] + x).drop_first() =~= x);
}

proof fn lemma_parse_rows_first(st: TableColumns, a: Seq<char>, b: Seq<char>, t: Seq<Seq<char>>)
    requires
        frame(a) == frame(b),
    ensures
        parse_rows(st, seq![a] + t) == parse_rows(st, seq![b] + t),
{
    assert((seq![a] + t).drop_first() =~= t);
    assert((seq![b] + t).drop_first() =~= t);
}

/// A byte-order mark at the start of the output changes no row.
pub proof fn law_parse_ignores_bom(s: Seq<char>)
    ensures
        spec_parse_table(seq!['\u{feff}'] + s) == spec_parse_table(s),
{
    let c = '\u{feff}';
    let s2 = seq![c] + s;
    let none = Seq::<Seq<char>>::empty();
    if s.len() == 0 {
        assert(s2 =~= seq![c]);
        lemma_lines_single(s2);
        lemma_frame_bom(Seq::empty());
        assert(seq![c] + Seq::<char>::empty() =~= seq![c]);
        lemma_parse_rows_first(initial_columns(), seq![c], Seq::empty(), none);
        assert(seq![seq![c]] + none =~= seq![seq![c]]);
        assert(seq![Seq::<char>::empty()] + none =~= seq![Seq::<char>::empty()]);
        assert(seq![Seq::<char>::empty()].drop_first() =~= none);
        assert(frame(Seq::<char>::empty()) =~= Seq::<char>::empty());
        assert(trim(Seq::<char>::empty()) =~= Seq::<char>::empty());
    } else {
        lemma_index_of_from(s, '\n', 0);
        let k = index_of_from(s, '\n', 0);
        if k == s.len() {
            lemma_lines_single(s);
            assert forall|i: int| 0 <= i < s2.len() implies s2[i] != '\n' by {
                if i > 0 {
                    assert(s2[i] == s[i - 1]);
                }
            }
            lemma_lines_single(s2);
            lemma_frame_bom(s);
            lemma_parse_rows_first(initial_columns(), s2, s, none);
            assert(seq![s2] + none =~= seq![s2]);
            assert(seq![s] + none =~= seq![s]);
        } else {
            let x = s.subrange(0, k);
            let r = s.subrange(k + 1, s.len() as int);
            let cx = seq![c] + x;
            assert(s =~= x + seq!['\n'] + r);
            assert(s2 =~= cx + seq!['\n'] + r);
            assert forall|i: int| 0 <= i < cx.len() implies cx[i] != '\n' by {
                if i > 0 {
                    assert(cx[i] == s[i - 1]);
                }
            }
            lemma_lines_split(x, r);
            lemma_lines_split(cx, r);
            if x.len() > 0 && x.last() == '\r' {
                assert(strip_cr(cx) =~= seq![c] + strip_cr(x));
            } else {
                assert(strip_cr(cx) =~= seq![c] + strip_cr(x));
            }
            lemma_frame_bom(strip_cr(x));
            lemma_parse_rows_first(initial_columns(), strip_cr(cx), strip_cr(x), lines(r));
        }
    }
}

/// With no carriage returns of its own, output with `"\r\n"` line endings
/// gives the same rows as with `"\n"` endings.
pub proof fn law_parse_crlf(s: Seq<char>)
    requires
        forall|i: int| 0 <= i < s.len() ==> s[i] != '\r',
    ensures
        spec_parse_table(crlf(s)) == spec_parse_table(s),
{
    lemma_lines_crlf(s);
}

/// Past the separator line, every line whose id cell is not empty gives one
/// row, whatever its other cells hold (an empty source included), cut at the
/// header's columns; any other line gives none. So the rows are exactly the
/// lines with a non-empty id cell, in order. (`line_row(st, raw) is Some`:
/// cutting the line's cells does not fail.)
pub proof fn law_row_per_data_line(st: TableColumns, raw: Seq<char>, rest: Seq<Seq<char>>)
    requires
        line_row(st, raw) is Some,
    ensures
        ({
            let line = frame(raw);
            let len = line.len() as usize;
            let k = st.id->0;
            let id_cell = spec_col_str(line, len, k, or_default(st.version, len));
            let after = parse_rows(next_columns(st, raw), rest);
            if st.past_separator && st.id is Some && trim(line).len() > 0 && k < len
                && id_cell.len() > 0 {
                parse_rows(st, seq![raw] + rest) == prepend(
                    seq![
                        RowView {
                            name: spec_col_str(line, len, or_default(st.name, 0), k),
                            id: id_cell,
                            version: spec_col_str(
                                line,
                                len,
                                or_default(st.version, 0),
                                or_default(either(st.available, st.source), len),
                            ),
                            available: spec_col_str(
                                line,
                                len,
                                or_default(st.available, 0),
                                or_default(st.source, len),
                            ),
                            source: spec_col_str(line, len, or_default(st.source, 0), len),
                        },
                    ],
                    after,
                )
            } else {
                parse_rows(st, seq![raw] + rest) == after
            }
        }),
{
    assert((seq![raw] + rest)[0] == raw);
    assert((seq![raw] + rest).drop_first() =~= rest);
    match parse_rows(next_columns(st, raw), rest) {
        Some(r) => {
            match line_row(st, raw) {
                Some(Some(x)) => {
                    assert(seq![x] + r =~= seq![x] + r);
                },
                _ => {},
            }
        },
        None => {},
    }
}

} // verus!
