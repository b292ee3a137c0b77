//! SQL statements that the backend sends: the row insert and the upsert.
use vstd::prelude::*;
use crate::decimal::{dec_int, dec_nat};
use crate::form::{hex_char, utf8_bytes};
use crate::text::{join, joined, views};
use mysql::Value;

verus! {

/// A value of a table cell, as the MySQL driver carries it.
///
/// The driver's two floating-point kinds have no counterpart here.
pub enum SqlValue {
    Null,
    Int(i64),
    UInt(u64),
    /// Text, which the driver sends as its UTF-8 bytes.
    Text(String),
    /// Raw bytes.
    Bytes(Vec<u8>),
    /// Year, month, day, hour, minutes, seconds, microseconds.
    Date(u16, u8, u8, u8, u8, u8, u32),
    /// Is negative, days, hours, minutes, seconds, microseconds.
    Time(bool, u32, u8, u8, u8, u32),
}

/// The mathematical content of a [`SqlValue`].
pub enum SqlValueView {
    Null,
    Int(int),
    UInt(nat),
    Text(Seq<char>),
    Bytes(Seq<u8>),
    Date(u16, u8, u8, u8, u8, u8, u32),
    Time(bool, u32, u8, u8, u8, u32),
}

impl View for SqlValue {
    type V = SqlValueView;

    open spec fn view(&self) -> SqlValueView {
        match self {
            SqlValue::Null => SqlValueView::Null,
            SqlValue::Int(x) => SqlValueView::Int(*x as int),
            SqlValue::UInt(x) => SqlValueView::UInt(*x as nat),
            SqlValue::Text(t) => SqlValueView::Text(t@),
            SqlValue::Bytes(b) => SqlValueView::Bytes(b@),
            SqlValue::Date(y, mo, d, h, mi, s, us) => SqlValueView::Date(*y, *mo, *d, *h, *mi, *s, *us),
            SqlValue::Time(n, d, h, mi, s, us) => SqlValueView::Time(*n, *d, *h, *mi, *s, *us),
        }
    }
}

/// The driver can render the value: the hour count of a time interval
/// (days times 24 plus hours) fits in a `u32`.
pub open spec fn renderable(v: SqlValueView) -> bool {
    match v {
        SqlValueView::Time(_, d, h, _, _, _) => d * 24 + h <= u32::MAX,
        _ => true,
    }
}

/// The UTF-8 encoding of a text.
pub open spec fn utf8_of(s: Seq<char>) -> Seq<nat>
    decreases s.len(),
{
    if s.len() == 0 {
        Seq::empty()
    } else {
        utf8_of(s.drop_last()) + utf8_bytes(s.last())
    }
}

/// `b` is the UTF-8 encoding of the text `s`.
pub open spec fn encodes(s: Seq<char>, b: Seq<u8>) -> bool {
    utf8_of(s) == b.map_values(|x: u8| x as nat)
}

/// Each byte as two upper-case hexadecimal digits.
pub open spec fn hex_bytes(b: Seq<u8>) -> Seq<char>
    decreases b.len(),
{
    if b.len() == 0 {
        Seq::empty()
    } else {
        hex_bytes(b.drop_last()) + seq![
            hex_char((b.last() / 16) as nat),
            hex_char((b.last() % 16) as nat),
        ]
    }
}

/// `s` padded on the left with zeros to at least `w` characters, as the
/// format `{:0w}` pads a number.
pub open spec fn zero_pad(s: Seq<char>, w: nat) -> Seq<char> {
    if s.len() >= w {
        s
    } else {
        Seq::new((w - s.len()) as nat, |i: int| '0') + s
    }
}

/// The text with each single quote written twice.
pub open spec fn doubled_quotes(t: Seq<char>) -> Seq<char>
    decreases t.len(),
{
    if t.len() == 0 {
        Seq::empty()
    } else {
        doubled_quotes(t.drop_last()) + if t.last() == '\'' {
            seq!['\'', '\'']
        } else {
            seq![t.last()]
        }
    }
}

/// The text between single quotes, with its own quotes doubled.
pub open spec fn quoted(t: Seq<char>) -> Seq<char> {
    seq!['\''] + doubled_quotes(t) + seq!['\'']
}

/// `n` in decimal, padded with zeros to `w` digits.
pub open spec fn padded(n: nat, w: nat) -> Seq<char> {
    zero_pad(dec_nat(n), w)
}

/// The SQL literal that the MySQL driver writes for a value, with quotes in
/// text doubled rather than backslash-escaped: `NULL`, decimal numbers,
/// quoted text, raw bytes quoted as the text they encode in UTF-8 (and
/// written as `0x` and upper-case hexadecimal when they encode none),
/// quoted dates and times.
pub open spec fn literal_of(v: SqlValueView) -> Seq<char> {
    match v {
        SqlValueView::Null => seq!['N', 'U', 'L', 'L'],
        SqlValueView::Int(x) => dec_int(x),
        SqlValueView::UInt(x) => dec_nat(x),
        SqlValueView::Text(t) => quoted(t),
        SqlValueView::Bytes(b) => if exists|s: Seq<char>| #[trigger] encodes(s, b) {
            quoted(choose|s: Seq<char>| #[trigger] encodes(s, b))
        } else {
            seq!['0', 'x'] + hex_bytes(b)
        },
        SqlValueView::Date(y, mo, d, h, mi, s, us) => {
            let day = padded(y as nat, 4) + seq!['-'] + padded(mo as nat, 2) + seq!['-']
                + padded(d as nat, 2);
            let clock = padded(h as nat, 2) + seq![':'] + padded(mi as nat, 2) + seq![':']
                + padded(s as nat, 2);
            if h == 0 && mi == 0 && s == 0 && us == 0 {
                seq!['\''] + day + seq!['\'']
            } else if us == 0 {
                seq!['\''] + day + seq![' '] + clock + seq!['\'']
            } else {
                seq!['\''] + day + seq![' '] + clock + seq!['.'] + padded(us as nat, 6)
                    + seq!['\'']
            }
        },
        SqlValueView::Time(neg, d, h, mi, s, us) => {
            let sign = if neg { seq!['-'] } else { Seq::empty() };
            let clock = padded((d * 24 + h) as nat, 3) + seq![':'] + padded(mi as nat, 2)
                + seq![':'] + padded(s as nat, 2);
            if us == 0 {
                seq!['\''] + sign + clock + seq!['\'']
            } else {
                seq!['\''] + sign + clock + seq!['.'] + padded(us as nat, 6) + seq!['\'']
            }
        },
    }
}

/// Renders a value as an SQL literal.
///
/// Trusted: wraps `mysql::Value::as_sql(true)` of the `mysql` crate (from
/// `mysql_common`), after converting the value variant by variant (text
/// becomes its UTF-8 bytes). The result is the literal that the driver's
/// source writes out, `literal_of`. For raw bytes the driver reads them as
/// UTF-8 text (`str::from_utf8`) and quotes that text; where they are not
/// valid UTF-8 it writes `0x` and each byte as `{:02X}`. A UTF-8 byte string
/// encodes at most one text (`lemma_utf8_unique`), the one that `choose`
/// picks there.
/// A time interval whose hour count overflows a `u32` is left out: the driver
/// computes it with `u32` arithmetic.
#[verifier::external_body]
fn render_literal(v: &SqlValue) -> (s: String)
    requires
        renderable(v@),
    ensures
        s@ == literal_of(v@),
{
    let value = match v {
        SqlValue::Null => Value::NULL,
        SqlValue::Int(x) => Value::Int(*x),
        SqlValue::UInt(x) => Value::UInt(*x),
        SqlValue::Text(t) => Value::Bytes(t.as_bytes().to_vec()),
        SqlValue::Bytes(b) => Value::Bytes(b.clone()),
        SqlValue::Date(y, mo, d, h, mi, s, us) => Value::Date(*y, *mo, *d, *h, *mi, *s, *us),
        SqlValue::Time(n, d, h, mi, s, us) => Value::Time(*n, *d, *h, *mi, *s, *us),
    };
    value.as_sql(true)
}

/// The SQL literal of a value.
pub fn literal(v: &SqlValue) -> (s: String)
    requires
        renderable(v@),
    ensures
        s@ == literal_of(v@),
{
    render_literal(v)
}

/// A cell of a row to insert: a value that the driver renders here, or a
/// literal that the driver rendered already (as it does floating-point
/// values, which this library does not hold).
pub enum Cell {
    Value(SqlValue),
    Rendered(String),
}

/// The mathematical content of a [`Cell`].
pub enum CellView {
    Value(SqlValueView),
    Rendered(Seq<char>),
}

impl View for Cell {
    type V = CellView;

    open spec fn view(&self) -> CellView {
        match self {
            Cell::Value(v) => CellView::Value(v@),
            Cell::Rendered(s) => CellView::Rendered(s@),
        }
    }
}

/// The cell can be rendered: see [`renderable`].
pub open spec fn cell_renderable(c: CellView) -> bool {
    match c {
        CellView::Value(v) => renderable(v),
        CellView::Rendered(_) => true,
    }
}

/// The SQL literal of a cell.
pub open spec fn cell_literal(c: CellView) -> Seq<char> {
    match c {
        CellView::Value(v) => literal_of(v),
        CellView::Rendered(s) => s,
    }
}

/// The views of a sequence of cells.
pub open spec fn cell_views(cells: Seq<Cell>) -> Seq<CellView> {
    cells.map_values(|c: Cell| c@)
}

/// The SQL literals of a sequence of cells.
pub open spec fn literals(cells: Seq<CellView>) -> Seq<Seq<char>> {
    cells.map_values(|c: CellView| cell_literal(c))
}

/// `INSERT INTO <table> VALUES (<literal>,<literal>,...)`.
pub open spec fn insert_sql(table: Seq<char>, cells: Seq<CellView>) -> Seq<char> {
    "INSERT INTO "@ + table + " VALUES ("@ + joined(literals(cells), ","@) + ")"@
}

/// The SQL literal of a cell.
pub fn cell_literal_text(c: &Cell) -> (s: String)
    requires
        cell_renderable(c@),
    ensures
        s@ == cell_literal(c@),
{
    match c {
        Cell::Value(v) => render_literal(v),
        Cell::Rendered(t) => t.clone(),
    }
}

/// The statement that inserts one row into `table`. The `replace` flag does
/// not change it: the statement is always an `INSERT`.
pub fn do_insert_query(table: &str, vals: &Vec<Cell>, replace: bool) -> (q: String)
    requires
        forall|i: int| 0 <= i < vals.len() ==> cell_renderable(#[trigger] vals@[i]@),
    ensures
        q@ == insert_sql(table@, cell_views(vals@)),
{
    let ghost want = literals(cell_views(vals@));
    let mut lits: Vec<String> = Vec::new();
    let mut i: usize = 0;
    while i < vals.len()
        invariant
            i <= vals.len(),
            forall|j: int| 0 <= j < vals.len() ==> cell_renderable(#[trigger] vals@[j]@),
            want == literals(cell_views(vals@)),
            lits@.len() == i,
            views(lits@) =~= want.take(i as int),
        decreases vals.len() - i,
    {
        let s = cell_literal_text(&vals[i]);
        lits.push(s);
        proof {
            assert(views(lits@)[i as int] == want[i as int]);
            assert(views(lits@) =~= want.take(i + 1));
        }
        i = i + 1;
    }
    assert(want.take(vals.len() as int) =~= want);
    let body = join(&lits, ",");
    let mut q = String::new();
    q.append("INSERT INTO ");
    q.append(table);
    q.append(" VALUES (");
    q.append(body.as_str());
    q.append(")");
    assert(q@ =~= insert_sql(table@, cell_views(vals@)));
    q
}

/// The statement that inserts one row into `table`.
pub fn insert_query(table: &str, vals: &Vec<Cell>) -> (q: String)
    requires
        forall|i: int| 0 <= i < vals.len() ==> cell_renderable(#[trigger] vals@[i]@),
    ensures
        q@ == insert_sql(table@, cell_views(vals@)),
{
    do_insert_query(table, vals, false)
}

/// The column names of (column, value) pairs.
pub open spec fn pair_columns(pairs: Seq<(Seq<char>, Seq<char>)>) -> Seq<Seq<char>> {
    pairs.map_values(|p: (Seq<char>, Seq<char>)| p.0)
}

/// The values of (column, value) pairs.
pub open spec fn pair_values(pairs: Seq<(Seq<char>, Seq<char>)>) -> Seq<Seq<char>> {
    pairs.map_values(|p: (Seq<char>, Seq<char>)| p.1)
}

/// `<column> = <value>` for each pair.
pub open spec fn pair_assignments(pairs: Seq<(Seq<char>, Seq<char>)>) -> Seq<Seq<char>> {
    pairs.map_values(|p: (Seq<char>, Seq<char>)| p.0 + " = "@ + p.1)
}

/// The characters of each string of a sequence of pairs.
pub open spec fn pair_views(pairs: Seq<(String, String)>) -> Seq<(Seq<char>, Seq<char>)> {
    pairs.map_values(|p: (String, String)| (p.0@, p.1@))
}

/// `INSERT INTO <table> (<columns>) VALUES (<values>) ON DUPLICATE KEY UPDATE
/// <column> = <value>,...`: the values are written as given.
pub open spec fn update_sql(table: Seq<char>, pairs: Seq<(Seq<char>, Seq<char>)>) -> Seq<char> {
    "INSERT INTO "@ + table + " ("@ + joined(pair_columns(pairs), ","@) + ") VALUES ("@
        + joined(pair_values(pairs), ","@) + ") ON DUPLICATE KEY UPDATE "@
        + joined(pair_assignments(pairs), ","@)
}

/// The upsert names as many columns as values, and its update part sets
/// each column to the value given with it.
pub proof fn lemma_update_pairs_columns_with_values(pairs: Seq<(Seq<char>, Seq<char>)>)
    ensures
        pair_columns(pairs).len() == pair_values(pairs).len(),
        pair_assignments(pairs).len() == pairs.len(),
        forall|i: int|
            0 <= i < pairs.len() ==> #[trigger] pair_assignments(pairs)[i] == pair_columns(pairs)[i]
                + " = "@ + pair_values(pairs)[i],
{
}

/// The statement that inserts a row into `table`, or updates the row with
/// the same key, setting each column to its value.
pub fn update_query(table: &str, pairs: &Vec<(String, String)>) -> (q: String)
    ensures
        q@ == update_sql(table@, pair_views(pairs@)),
{
    let ghost ps = pair_views(pairs@);
    let mut cols: Vec<String> = Vec::new();
    let mut vals: Vec<String> = Vec::new();
    let mut sets: Vec<String> = Vec::new();
    let mut i: usize = 0;
    while i < pairs.len()
        invariant
            i <= pairs.len(),
            ps == pair_views(pairs@),
            cols@.len() == i,
            vals@.len() == i,
            sets@.len() == i,
            views(cols@) =~= pair_columns(ps).take(i as int),
            views(vals@) =~= pair_values(ps).take(i as int),
            views(sets@) =~= pair_assignments(ps).take(i as int),
        decreases pairs.len() - i,
    {
        let c = pairs[i].0.clone();
        let v = pairs[i].1.clone();
        let mut a = pairs[i].0.clone();
        a.append(" = ");
        a.append(pairs[i].1.as_str());
        cols.push(c);
        vals.push(v);
        sets.push(a);
        proof {
            assert(views(cols@)[i as int] == pair_columns(ps)[i as int]);
            assert(views(vals@)[i as int] == pair_values(ps)[i as int]);
            assert(views(sets@)[i as int] == pair_assignments(ps)[i as int]);
            assert(views(cols@) =~= pair_columns(ps).take(i + 1));
            assert(views(vals@) =~= pair_values(ps).take(i + 1));
            assert(views(sets@) =~= pair_assignments(ps).take(i + 1));
        }
        i = i + 1;
    }
    assert(pair_columns(ps).take(pairs.len() as int) =~= pair_columns(ps));
    assert(pair_values(ps).take(pairs.len() as int) =~= pair_values(ps));
    assert(pair_assignments(ps).take(pairs.len() as int) =~= pair_assignments(ps));
    let cj = join(&cols, ",");
    let vj = join(&vals, ",");
    let sj = join(&sets, ",");
    let mut q = String::new();
    q.append("INSERT INTO ");
    q.append(table);
    q.append(" (");
    q.append(cj.as_str());
    q.append(") VALUES (");
    q.append(vj.as_str());
    q.append(") ON DUPLICATE KEY UPDATE ");
    q.append(sj.as_str());
    assert(q@ =~= update_sql(table@, ps));
    q
}

} // verus!

verus! {

/// A UTF-8 continuation byte.
pub open spec fn continuation(b: nat) -> bool {
    0x80 <= b < 0xC0
}

proof fn lemma_utf8_char_shape(c: char)
    ensures
        1 <= utf8_bytes(c).len() <= 4,
        !continuation(utf8_bytes(c)[0]),
        forall|i: int| 1 <= i < utf8_bytes(c).len() ==> continuation(#[trigger] utf8_bytes(c)[i]),
{
    let n = c as int;
    assert(0 <= n <= 0x10FFFF);
    if n < 0x80 {
    } else if n < 0x800 {
        assert(2 <= n / 64 < 32) by (nonlinear_arith)
            requires
                0x80 <= n < 0x800,
        ;
    } else if n < 0x10000 {
        assert(0 <= n / 4096 < 16) by (nonlinear_arith)
            requires
                0x800 <= n < 0x10000,
        ;
    } else {
        assert(0 <= n / 262144 < 16) by (nonlinear_arith)
            requires
                0x10000 <= n <= 0x10FFFF,
        ;
    }
}

proof fn lemma_utf8_char_injective(c1: char, c2: char)
    requires
        utf8_bytes(c1) == utf8_bytes(c2),
    ensures
        c1 == c2,
{
    let n1 = c1 as int;
    let n2 = c2 as int;
    lemma_utf8_char_shape(c1);
    assert(n1 == 64 * (n1 / 64) + n1 % 64) by (nonlinear_arith);
    assert(n2 == 64 * (n2 / 64) + n2 % 64) by (nonlinear_arith);
    assert(n1 / 64 == 64 * (n1 / 4096) + (n1 / 64) % 64) by (nonlinear_arith);
    assert(n2 / 64 == 64 * (n2 / 4096) + (n2 / 64) % 64) by (nonlinear_arith);
    assert(n1 / 4096 == 64 * (n1 / 262144) + (n1 / 4096) % 64) by (nonlinear_arith);
    assert(n2 / 4096 == 64 * (n2 / 262144) + (n2 / 4096) % 64) by (nonlinear_arith);
    assert(n1 == n2);
}

proof fn lemma_utf8_of_len(s: Seq<char>)
    ensures
        utf8_of(s).len() >= s.len(),
    decreases s.len(),
{
    if s.len() > 0 {
        lemma_utf8_of_len(s.drop_last());
        lemma_utf8_char_shape(s.last());
    }
}

/// A byte string is the UTF-8 encoding of at most one text.
pub proof fn lemma_utf8_unique(s1: Seq<char>, s2: Seq<char>)
    requires
        utf8_of(s1) == utf8_of(s2),
    ensures
        s1 == s2,
    decreases s1.len(),
{
    let b = utf8_of(s1);
    lemma_utf8_of_len(s1);
    lemma_utf8_of_len(s2);
    if s1.len() == 0 {
        assert(s2.len() == 0) by {
            if s2.len() > 0 {
                lemma_utf8_char_shape(s2.last());
            }
        }
        assert(s1 =~= s2);
    } else {
        assert(s2.len() > 0) by {
            lemma_utf8_char_shape(s1.last());
        }
        let e1 = utf8_bytes(s1.last());
        let e2 = utf8_bytes(s2.last());
        let p1 = utf8_of(s1.drop_last());
        let p2 = utf8_of(s2.drop_last());
        lemma_utf8_char_shape(s1.last());
        lemma_utf8_char_shape(s2.last());
        let n = b.len();
        assert(b == p1 + e1);
        assert(b == p2 + e2);
        if e1.len() < e2.len() {
            let i = n - e1.len();
            assert(b[i] == e1[0]);
            assert(b[i] == e2[i - (n - e2.len())]);
            assert(false);
        } else if e2.len() < e1.len() {
            let i = n - e2.len();
            assert(b[i] == e2[0]);
            assert(b[i] == e1[i - (n - e1.len())]);
            assert(false);
        }
        assert(e1 =~= b.subrange(n - e1.len(), n as int));
        assert(e2 =~= b.subrange(n - e2.len(), n as int));
        lemma_utf8_char_injective(s1.last(), s2.last());
        assert(p1 =~= b.subrange(0, n - e1.len()));
        assert(p2 =~= b.subrange(0, n - e2.len()));
        lemma_utf8_unique(s1.drop_last(), s2.drop_last());
        assert(s1 =~= s2.drop_last().push(s2.last()));
    }
}

} // verus!
