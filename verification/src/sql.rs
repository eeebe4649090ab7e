//! Formatting of query results as a table: column widths from the widest
//! value of each column, a centered header, a divider, and one line per
//! row with each value centered in its column.  Connecting to the server
//! and running the query are the caller's affair; rows arrive here as
//! plain values, a missing value showing as `None`.

use vstd::prelude::*;
use vstd::pervasive::VecAdditionalExecFns;
use vstd::string::StrSliceExecFns;
use crate::chars::to_char_vec;

verus! {

/// Spaces added to each column beyond its widest value.
pub const ADDITIONAL_SPACES: usize = 2;

/// The catalog overview (tables, sequences and views outside the system
/// schemas) that a query starting with a backslash stands for.
pub const BUILTIN_DESCRIBE_ALL: &'static str = "
  SELECT schemaname as schema, tablename as name, 'table' as type, tableowner as owner
    FROM pg_tables
   WHERE schemaname NOT IN ('pg_catalog', 'information_schema')
   UNION
  SELECT schemaname as schema, sequencename as name, 'sequence' as type, sequenceowner as owner
    FROM pg_sequences
   WHERE schemaname NOT IN ('pg_catalog', 'information_schema')
   UNION
  SELECT schemaname as schema, viewname as name, 'view' as type, viewowner as owner
    FROM pg_views
   WHERE schemaname NOT IN('pg_catalog', 'information_schema')
ORDER BY name
;
";

/// The query that is actually run: one starting with a backslash is the
/// shorthand for the catalog overview, anything else runs as written.
pub fn effective_query<'a>(query: &'a str) -> (r: &'a str)
    ensures
        query@.len() > 0 && query@[0] == '\\' ==> r@ == BUILTIN_DESCRIBE_ALL@,
        !(query@.len() > 0 && query@[0] == '\\') ==> r@ == query@,
{
    let n = query.unicode_len();
    if n > 0 && query.get_char(0) == '\\' {
        BUILTIN_DESCRIBE_ALL
    } else {
        query
    }
}

/// A display column: its header and the width of its widest value.
pub struct ResultColumn {
    pub name: Vec<char>,
    pub max_size: usize,
}

impl ResultColumn {
    /// An unnamed column of width zero.
    pub fn new() -> (r: ResultColumn)
        ensures
            r.name@ == Seq::<char>::empty(),
            r.max_size == 0,
    {
        ResultColumn { name: Vec::new(), max_size: 0 }
    }
}

/// The text a cell shows: its value, or `None` for a missing value (a null,
/// or a row shorter than the header).
pub open spec fn cell_text(row: Seq<Option<Vec<char>>>, i: int) -> Seq<char> {
    if 0 <= i < row.len() {
        match row[i] {
            Option::Some(v) => v@,
            Option::None => "None"@,
        }
    } else {
        "None"@
    }
}

/// The widest cell of column `i` over the first `upto` rows, starting from
/// `base` (the header's width).
pub open spec fn width_rows(
    rs: Seq<Seq<Option<Vec<char>>>>,
    i: int,
    upto: int,
    base: int,
) -> int
    decreases upto,
{
    if upto <= 0 {
        base
    } else {
        let m = width_rows(rs, i, upto - 1, base);
        let c = cell_text(rs[upto - 1], i).len() as int;
        if c > m {
            c
        } else {
            m
        }
    }
}

/// The width of column `i`: its header or its widest cell.
pub open spec fn width_of(
    names: Seq<Seq<char>>,
    rs: Seq<Seq<Option<Vec<char>>>>,
    i: int,
) -> int {
    width_rows(rs, i, rs.len() as int, names[i].len() as int)
}

/// `n` spaces.
pub open spec fn spaces(n: int) -> Seq<char> {
    Seq::new(if n >= 0 {
        n as nat
    } else {
        0
    }, |i: int| ' ')
}

/// `s` centered in a field of `w` characters, the spare space split with
/// the extra column on the right; a value at least as wide as the field is
/// kept whole.
pub open spec fn center(s: Seq<char>, w: int) -> Seq<char> {
    if s.len() >= w {
        s
    } else {
        let pad = w - s.len();
        spaces(pad / 2) + s + spaces(pad - pad / 2)
    }
}

/// The header line over the first `upto` columns: each name centered in
/// its column, a bar after each.
pub open spec fn table_header(
    names: Seq<Seq<char>>,
    rs: Seq<Seq<Option<Vec<char>>>>,
    upto: int,
) -> Seq<char>
    decreases upto,
{
    if upto <= 0 {
        Seq::empty()
    } else {
        table_header(names, rs, upto - 1) + center(
            names[upto - 1],
            width_of(names, rs, upto - 1) + 2,
        ) + seq!['|']
    }
}

/// The divider line over the first `upto` columns: dashes across each
/// column, a cross after each.
pub open spec fn table_divider(
    names: Seq<Seq<char>>,
    rs: Seq<Seq<Option<Vec<char>>>>,
    upto: int,
) -> Seq<char>
    decreases upto,
{
    if upto <= 0 {
        Seq::empty()
    } else {
        table_divider(names, rs, upto - 1) + Seq::new(
            (width_of(names, rs, upto - 1) + 2) as nat,
            |i: int| '-',
        ) + seq!['+']
    }
}

/// One data line over the first `upto` columns: each cell centered in its
/// column, a bar after each.
pub open spec fn table_row(
    names: Seq<Seq<char>>,
    rs: Seq<Seq<Option<Vec<char>>>>,
    row: Seq<Option<Vec<char>>>,
    upto: int,
) -> Seq<char>
    decreases upto,
{
    if upto <= 0 {
        Seq::empty()
    } else {
        table_row(names, rs, row, upto - 1) + center(
            cell_text(row, upto - 1),
            width_of(names, rs, upto - 1) + 2,
        ) + seq!['|']
    }
}

/// The rows as sequences.
pub open spec fn rows_view(rows: Vec<Vec<Option<Vec<char>>>>) -> Seq<Seq<Option<Vec<char>>>> {
    Seq::new(rows@.len(), |r: int| rows@[r]@)
}

/// The header names as sequences.
pub open spec fn names_view(names: Vec<Vec<char>>) -> Seq<Seq<char>> {
    Seq::new(names@.len(), |j: int| names@[j]@)
}

/// Appends `text` centered in a field of `width` characters.
fn push_centered(out: &mut Vec<char>, text: &Vec<char>, width: usize)
    ensures
        final(out)@ == old(out)@ + center(text@, width as int),
{
    let ghost base = old(out)@;
    if text.len() >= width {
        let mut k: usize = 0;
        while k < text.len()
            invariant
                k <= text@.len(),
                out@ == base + text@.subrange(0, k as int),
            decreases text@.len() - k,
        {
            out.push(text[k]);
            proof {
                assert(base + text@.subrange(0, k as int + 1) =~= (base + text@.subrange(
                    0,
                    k as int,
                )).push(text@[k as int]));
            }
            k = k + 1;
        }
        proof {
            assert(text@.subrange(0, text@.len() as int) =~= text@);
        }
    } else {
        let pad = width - text.len();
        let l = pad / 2;
        let mut k: usize = 0;
        while k < l
            invariant
                k <= l,
                out@ == base + spaces(k as int),
            decreases l - k,
        {
            out.push(' ');
            proof {
                assert(base + spaces(k as int + 1) =~= (base + spaces(k as int)).push(' '));
            }
            k = k + 1;
        }
        let ghost base2 = out@;
        k = 0;
        while k < text.len()
            invariant
                k <= text@.len(),
                out@ == base2 + text@.subrange(0, k as int),
            decreases text@.len() - k,
        {
            out.push(text[k]);
            proof {
                assert(base2 + text@.subrange(0, k as int + 1) =~= (base2 + text@.subrange(
                    0,
                    k as int,
                )).push(text@[k as int]));
            }
            k = k + 1;
        }
        proof {
            assert(text@.subrange(0, text@.len() as int) =~= text@);
        }
        let ghost base3 = out@;
        let rpad = pad - l;
        k = 0;
        while k < rpad
            invariant
                k <= rpad,
                out@ == base3 + spaces(k as int),
            decreases rpad - k,
        {
            out.push(' ');
            proof {
                assert(base3 + spaces(k as int + 1) =~= (base3 + spaces(k as int)).push(' '));
            }
            k = k + 1;
        }
        proof {
            assert(out@ =~= base + center(text@, width as int));
        }
    }
}

/// The display columns for the given header names and rows: each named
/// after its header, as wide as its widest cell.
pub fn _get_columns_from_result(
    names: &Vec<Vec<char>>,
    rows: &Vec<Vec<Option<Vec<char>>>>,
) -> (cols: Vec<ResultColumn>)
    ensures
        cols@.len() == names@.len(),
        forall|i: int|
            #![trigger cols@[i]]
            0 <= i < cols@.len() ==> cols@[i].name@ == names@[i]@ && cols@[i].max_size as int
                == width_of(
                names_view(*names),
                rows_view(*rows),
                i,
            ),
{
    let ghost nv = names_view(*names);
    let ghost rs = rows_view(*rows);
    let mut cols: Vec<ResultColumn> = Vec::new();
    let mut i: usize = 0;
    while i < names.len()
        invariant
            i <= names@.len(),
            cols@.len() == i,
            nv == names_view(*names),
            forall|j: int|
                #![trigger cols@[j]]
                0 <= j < i ==> cols@[j].name@ == names@[j]@ && cols@[j].max_size as int
                    == nv[j].len(),
        decreases names@.len() - i,
    {
        let mut c = ResultColumn::new();
        c.name = crate::chars::clone_chars(&names[i]);
        c.max_size = names[i].len();
        let ghost prior = cols@;
        cols.push(c);
        proof {
            assert forall|j: int| 0 <= j < i as int implies cols@[j] == prior[j] by {}
            assert(cols@[i as int].name@ == names@[i as int]@);
            assert(cols@[i as int].max_size as int == nv[i as int].len());
        }
        i = i + 1;
    }
    proof {
        assert forall|j: int| 0 <= j < cols@.len() implies width_rows(
            rs,
            j,
            0,
            nv[j].len() as int,
        ) == nv[j].len() by {}
    }
    let mut r: usize = 0;
    while r < rows.len()
        invariant
            r <= rows@.len(),
            cols@.len() == names@.len(),
            nv == names_view(*names),
            rs == rows_view(*rows),
            forall|j: int|
                #![trigger cols@[j]]
                0 <= j < cols@.len() ==> cols@[j].name@ == names@[j]@ && cols@[j].max_size as int
                    == width_rows(rs, j, r as int, nv[j].len() as int),
        decreases rows@.len() - r,
    {
        let row = &rows[r];
        let mut j: usize = 0;
        while j < cols.len()
            invariant
                j <= cols@.len(),
                cols@.len() == names@.len(),
                r < rows@.len(),
                nv == names_view(*names),
                rs == rows_view(*rows),
                row@ == rs[r as int],
                forall|jj: int|
                    #![trigger cols@[jj]]
                    j <= jj < cols@.len() ==> cols@[jj].name@ == names@[jj]@ && cols@[
                        jj
                    ].max_size as int == width_rows(rs, jj, r as int, nv[jj].len() as int),
                forall|jj: int|
                    #![trigger cols@[jj]]
                    0 <= jj < j ==> cols@[jj].name@ == names@[jj]@ && cols@[jj].max_size as int
                        == width_rows(rs, jj, r as int + 1, nv[jj].len() as int),
            decreases cols@.len() - j,
        {
            let clen: usize = if j < row.len() {
                match &row[j] {
                    Some(v) => v.len(),
                    None => 4,
                }
            } else {
                4
            };
            proof {
                reveal_strlit("None");
                assert(cell_text(rs[r as int], j as int).len() == clen);
            }
            if clen > cols[j].max_size {
                let name = crate::chars::clone_chars(&cols[j].name);
                cols.set(j, ResultColumn { name, max_size: clen });
            }
            j = j + 1;
        }
        r = r + 1;
    }
    cols
}

/// Appends the header line and the divider line for `cols` to `buffer`.
/// `cols` must be the display columns of `names` and `rows`.
pub fn _display_header(
    names: &Vec<Vec<char>>,
    rows: &Vec<Vec<Option<Vec<char>>>>,
    cols: &Vec<ResultColumn>,
    buffer: &mut Vec<Vec<char>>,
)
    requires
        cols@.len() == names@.len(),
        forall|i: int|
            #![trigger cols@[i]]
            0 <= i < cols@.len() ==> cols@[i].name@ == names@[i]@ && cols@[i].max_size as int
                == width_of(
                names_view(*names),
                rows_view(*rows),
                i,
            ),
        forall|i: int| 0 <= i < cols@.len() ==> cols@[i].max_size <= usize::MAX - 2,
    ensures
        final(buffer)@.len() == old(buffer)@.len() + 2,
        final(buffer)@[old(buffer)@.len() as int]@ == table_header(
            names_view(*names),
            rows_view(*rows),
            names@.len() as int,
        ),
        final(buffer)@[old(buffer)@.len() as int + 1]@ == table_divider(
            names_view(*names),
            rows_view(*rows),
            names@.len() as int,
        ),
        forall|i: int| 0 <= i < old(buffer)@.len() ==> final(buffer)@[i] == old(buffer)@[i],
{
    let ghost nv = names_view(*names);
    let ghost rs = rows_view(*rows);
    let mut line: Vec<char> = Vec::new();
    let mut i: usize = 0;
    while i < cols.len()
        invariant
            i <= cols@.len(),
            cols@.len() == names@.len(),
            nv == names_view(*names),
            rs == rows_view(*rows),
            forall|j: int|
                #![trigger cols@[j]]
                0 <= j < cols@.len() ==> cols@[j].name@ == names@[j]@ && cols@[j].max_size as int
                    == width_of(nv, rs, j),
            forall|j: int| #![trigger cols@[j]] 0 <= j < cols@.len() ==> cols@[j].max_size <= usize::MAX - 2,
            line@ == table_header(nv, rs, i as int),
        decreases cols@.len() - i,
    {
        push_centered(&mut line, &cols[i].name, cols[i].max_size + ADDITIONAL_SPACES);
        line.push('|');
        proof {
            assert(line@ =~= table_header(nv, rs, i as int + 1));
        }
        i = i + 1;
    }
    buffer.push(line);
    let mut div: Vec<char> = Vec::new();
    i = 0;
    while i < cols.len()
        invariant
            i <= cols@.len(),
            cols@.len() == names@.len(),
            nv == names_view(*names),
            rs == rows_view(*rows),
            forall|j: int|
                #![trigger cols@[j]]
                0 <= j < cols@.len() ==> cols@[j].name@ == names@[j]@ && cols@[j].max_size as int
                    == width_of(nv, rs, j),
            forall|j: int| #![trigger cols@[j]] 0 <= j < cols@.len() ==> cols@[j].max_size <= usize::MAX - 2,
            div@ == table_divider(nv, rs, i as int),
        decreases cols@.len() - i,
    {
        let w = cols[i].max_size + ADDITIONAL_SPACES;
        let ghost base = div@;
        let mut k: usize = 0;
        while k < w
            invariant
                k <= w,
                div@ == base + Seq::new(k as nat, |j: int| '-'),
            decreases w - k,
        {
            div.push('-');
            proof {
                assert(base + Seq::new(k as nat + 1, |j: int| '-') =~= (base + Seq::new(
                    k as nat,
                    |j: int| '-',
                )).push('-'));
            }
            k = k + 1;
        }
        div.push('+');
        proof {
            assert(div@ =~= table_divider(nv, rs, i as int + 1));
        }
        i = i + 1;
    }
    buffer.push(div);
}

/// The whole table for the given header names and rows: header, divider,
/// then one line per row, every value centered in its column.
pub fn format_table(names: &Vec<Vec<char>>, rows: &Vec<Vec<Option<Vec<char>>>>) -> (out: Vec<
    Vec<char>,
>)
    requires
        forall|i: int| 0 <= i < names@.len() ==> names@[i]@.len() <= 0x1000_0000,
        forall|r: int, i: int|
            0 <= r < rows@.len() && 0 <= i < rows@[r]@.len() ==> cell_text(
                rows_view(*rows)[r],
                i,
            ).len() <= 0x1000_0000,
    ensures
        out@.len() == rows@.len() + 2,
        out@[0]@ == table_header(names_view(*names), rows_view(*rows), names@.len() as int),
        out@[1]@ == table_divider(names_view(*names), rows_view(*rows), names@.len() as int),
        forall|r: int|
            0 <= r < rows@.len() ==> out@[r + 2]@ == table_row(
                names_view(*names),
                rows_view(*rows),
                rows_view(*rows)[r],
                names@.len() as int,
            ),
{
    let ghost nv = names_view(*names);
    let ghost rs = rows_view(*rows);
    let cols = _get_columns_from_result(names, rows);
    proof {
        lemma_width_bound(nv, rs, 0x1000_0000);
        assert forall|r0: int, i0: int|
            0 <= r0 < rs.len() && 0 <= i0 < rs[r0].len() implies cell_text(rs[r0], i0).len()
            <= 0x1000_0000 by {
            assert(rs[r0] == rows@[r0]@);
        }
    }
    let mut out: Vec<Vec<char>> = Vec::new();
    _display_header(names, rows, &cols, &mut out);
    let mut r: usize = 0;
    while r < rows.len()
        invariant
            r <= rows@.len(),
            cols@.len() == names@.len(),
            nv == names_view(*names),
            rs == rows_view(*rows),
            forall|j: int|
                #![trigger cols@[j]]
                0 <= j < cols@.len() ==> cols@[j].name@ == names@[j]@ && cols@[j].max_size as int
                    == width_of(nv, rs, j),
            forall|j: int| #![trigger cols@[j]] 0 <= j < cols@.len() ==> cols@[j].max_size <= usize::MAX - 2,
            out@.len() == r + 2,
            out@[0]@ == table_header(nv, rs, names@.len() as int),
            out@[1]@ == table_divider(nv, rs, names@.len() as int),
            forall|q: int|
                0 <= q < r ==> out@[q + 2]@ == table_row(nv, rs, rs[q], names@.len() as int),
        decreases rows@.len() - r,
    {
        let row = &rows[r];
        let mut line: Vec<char> = Vec::new();
        let none_text = to_char_vec("None");
        proof {
            reveal_strlit("None");
        }
        let mut i: usize = 0;
        while i < cols.len()
            invariant
                i <= cols@.len(),
                cols@.len() == names@.len(),
                r < rows@.len(),
                nv == names_view(*names),
                rs == rows_view(*rows),
                row@ == rs[r as int],
                none_text@ == "None"@,
                forall|j: int|
                    #![trigger cols@[j]]
                    0 <= j < cols@.len() ==> cols@[j].name@ == names@[j]@ && cols@[
                        j
                    ].max_size as int == width_of(nv, rs, j),
                forall|j: int| #![trigger cols@[j]] 0 <= j < cols@.len() ==> cols@[j].max_size <= usize::MAX - 2,
                line@ == table_row(nv, rs, rs[r as int], i as int),
            decreases cols@.len() - i,
        {
            if i < row.len() {
                match &row[i] {
                    Some(v) => push_centered(&mut line, v, cols[i].max_size + ADDITIONAL_SPACES),
                    None => push_centered(&mut line, &none_text, cols[i].max_size + ADDITIONAL_SPACES),
                }
            } else {
                push_centered(&mut line, &none_text, cols[i].max_size + ADDITIONAL_SPACES);
            }
            line.push('|');
            proof {
                assert(line@ =~= table_row(nv, rs, rs[r as int], i as int + 1));
            }
            i = i + 1;
        }
        out.push(line);
        r = r + 1;
    }
    out
}

/// Every column's width is bounded by the widest header or cell.
proof fn lemma_width_bound(names: Seq<Seq<char>>, rs: Seq<Seq<Option<Vec<char>>>>, cap: int)
    requires
        forall|i: int| 0 <= i < names.len() ==> names[i].len() <= cap,
        forall|r: int, i: int|
            0 <= r < rs.len() && 0 <= i < rs[r].len() ==> cell_text(rs[r], i).len() <= cap,
        cap >= 4,
    ensures
        forall|i: int| 0 <= i < names.len() ==> width_of(names, rs, i) <= cap,
{
    assert forall|i: int| 0 <= i < names.len() implies width_of(names, rs, i) <= cap by {
        lemma_width_rows_bound(names, rs, i, rs.len() as int, cap);
    }
}

proof fn lemma_width_rows_bound(
    names: Seq<Seq<char>>,
    rs: Seq<Seq<Option<Vec<char>>>>,
    i: int,
    upto: int,
    cap: int,
)
    requires
        0 <= i < names.len(),
        names[i].len() <= cap,
        upto <= rs.len(),
        forall|r: int, ii: int|
            0 <= r < rs.len() && 0 <= ii < rs[r].len() ==> cell_text(rs[r], ii).len() <= cap,
        cap >= 4,
    ensures
        width_rows(rs, i, upto, names[i].len() as int) <= cap,
    decreases upto,
{
    if upto <= 0 {
    } else {
        lemma_width_rows_bound(names, rs, i, upto - 1, cap);
        if 0 <= i < rs[upto - 1].len() {
        } else {
            reveal_strlit("None");
        }
    }
}

} // verus!
