//! pg2sqlite: the table read from PostgreSQL is turned into columns, and
//! each table becomes one `CREATE TABLE` statement and one `INSERT`
//! statement per row for SQLite.
use vstd::prelude::*;
use crate::decimal::{signed_decimal, i64_text, all_digits, digits_value, lemma_decimal_digits_read_back};
use crate::text::{chars_of, join_text, texts, join_strings, push_text};

verus! {

/// The type of a column.
#[derive(Debug, Clone, Copy, PartialEq, Eq, Structural)]
pub enum ColumnType {
    Int64,
    Int32,
    Float64,
    Float32,
    Text,
    Boolean,
    /// Any other type.
    Other,
}

/// One value of a table.
#[derive(Debug)]
pub enum Cell {
    Int64(i64),
    /// A 64-bit float, carried as the text that its `Display` gives.
    Float64(String),
    Text(String),
    Boolean(bool),
    /// Any other value: a null, or a value of another type.
    Other,
}

/// The SQLite type that a column is created with.
pub open spec fn sql_type_text(t: ColumnType) -> Seq<char> {
    match t {
        ColumnType::Int64 | ColumnType::Int32 => "INTEGER"@,
        ColumnType::Float64 | ColumnType::Float32 => "REAL"@,
        ColumnType::Text => "TEXT"@,
        ColumnType::Boolean => "BOOLEAN"@,
        ColumnType::Other => "BLOB"@,
    }
}

/// `INTEGER`, `REAL`, `TEXT`, `BOOLEAN` or, for any other type, `BLOB`.
pub fn sql_type_name(t: ColumnType) -> (r: &'static str)
    ensures
        r@ == sql_type_text(t),
{
    match t {
        ColumnType::Int64 | ColumnType::Int32 => "INTEGER",
        ColumnType::Float64 | ColumnType::Float32 => "REAL",
        ColumnType::Text => "TEXT",
        ColumnType::Boolean => "BOOLEAN",
        ColumnType::Other => "BLOB",
    }
}

/// One character of a text inside an SQL string literal: a quote doubled.
pub open spec fn escape_char(c: char) -> Seq<char> {
    if c == '\'' {
        seq!['\'', '\'']
    } else {
        seq![c]
    }
}

/// The text with every single quote doubled.
pub open spec fn escaped(s: Seq<char>) -> Seq<char>
    decreases s.len(),
{
    if s.len() == 0 {
        Seq::empty()
    } else {
        escaped(s.drop_last()) + escape_char(s.last())
    }
}

/// The SQL string literal for a text.
pub open spec fn quoted(s: Seq<char>) -> Seq<char> {
    seq!['\''] + escaped(s) + seq!['\'']
}

/// What the body of an SQL string literal stands for, if it is well formed:
/// a quote must come doubled.
pub open spec fn unescaped(e: Seq<char>) -> Option<Seq<char>>
    decreases e.len(),
{
    if e.len() == 0 {
        Some(Seq::empty())
    } else if e[0] == '\'' {
        if e.len() >= 2 && e[1] == '\'' {
            match unescaped(e.skip(2)) {
                Some(rest) => Some(seq!['\''] + rest),
                None => None,
            }
        } else {
            None
        }
    } else {
        match unescaped(e.drop_first()) {
            Some(rest) => Some(seq![e[0]] + rest),
            None => None,
        }
    }
}

/// The SQL text for a value.
pub open spec fn sql_literal(c: Cell) -> Seq<char> {
    match c {
        Cell::Int64(v) => signed_decimal(v as int),
        Cell::Float64(t) => t@,
        Cell::Text(s) => quoted(s@),
        Cell::Boolean(b) => if b {
            "1"@
        } else {
            "0"@
        },
        Cell::Other => "NULL"@,
    }
}

/// Law: escaping a text escapes each of its parts in turn.
pub proof fn lemma_escaped_concat(a: Seq<char>, b: Seq<char>)
    ensures
        escaped(a + b) == escaped(a) + escaped(b),
    decreases b.len(),
{
    if b.len() == 0 {
        assert(a + b =~= a);
        assert(escaped(a) + escaped(b) =~= escaped(a));
    } else {
        lemma_escaped_concat(a, b.drop_last());
        assert((a + b).drop_last() =~= a + b.drop_last());
        assert(escaped(a) + escaped(b) =~= escaped(a) + escaped(b.drop_last()) + escape_char(
            b.last(),
        ));
    }
}

proof fn lemma_unescaped_escaped(s: Seq<char>)
    ensures
        unescaped(escaped(s)) == Some(s),
    decreases s.len(),
{
    if s.len() == 0 {
    } else {
        let c = s[0];
        let rest = s.drop_first();
        assert(s =~= seq![c] + rest);
        lemma_escaped_concat(seq![c], rest);
        assert(seq![c].drop_last() =~= Seq::<char>::empty());
        assert(escaped(Seq::<char>::empty()) == Seq::<char>::empty());
        assert(seq![c].last() == c);
        assert(escaped(seq![c]) =~= escaped(seq![c].drop_last()) + escape_char(c));
        assert(escaped(seq![c]) =~= escape_char(c));
        lemma_unescaped_escaped(rest);
        let e = escaped(s);
        if c == '\'' {
            assert(e.skip(2) =~= escaped(rest));
        } else {
            assert(e.drop_first() =~= escaped(rest));
        }
        assert(seq![c] + rest =~= s);
    }
}

/// Law: the literal written for a text is a quote, a body and a quote, and
/// the body reads back as the same text, so every text survives the trip
/// into SQL, whatever quotes it holds.
pub proof fn lemma_text_literal_reads_back(s: String)
    ensures
        ({
            let lit = sql_literal(Cell::Text(s));
            &&& lit.len() >= 2
            &&& lit[0] == '\''
            &&& lit.last() == '\''
            &&& unescaped(lit.subrange(1, lit.len() - 1)) == Some(s@)
        }),
{
    let lit = sql_literal(Cell::Text(s));
    assert(lit.subrange(1, lit.len() - 1) =~= escaped(s@));
    lemma_unescaped_escaped(s@);
}

/// The SQL string literal for `s`: in quotes, each quote inside doubled.
pub fn quote_text(s: &str) -> (r: String)
    ensures
        r@ == quoted(s@),
{
    let cs = chars_of(s);
    let mut out = String::new();
    out.push('\'');
    let mut i: usize = 0;
    while i < cs.len()
        invariant
            i <= cs.len(),
            cs@ == s@,
            out@ == seq!['\''] + escaped(cs@.take(i as int)),
        decreases cs.len() - i,
    {
        let c = cs[i];
        if c == '\'' {
            out.push('\'');
            out.push('\'');
        } else {
            out.push(c);
        }
        proof {
            assert(cs@.take(i as int + 1).drop_last() =~= cs@.take(i as int));
            assert(cs@.take(i as int + 1).last() == c);
        }
        assert(out@ =~= seq!['\''] + escaped(cs@.take(i as int + 1)));
        i += 1;
    }
    out.push('\'');
    assert(cs@.take(cs.len() as int) =~= cs@);
    assert(out@ =~= quoted(s@));
    out
}

/// The SQL text for a value: integers in decimal, floats as their text,
/// texts quoted, booleans as `1` or `0`, anything else `NULL`.
pub fn literal_text(c: &Cell) -> (r: String)
    ensures
        r@ == sql_literal(*c),
{
    match c {
        Cell::Int64(v) => i64_text(*v),
        Cell::Float64(t) => t.clone(),
        Cell::Text(s) => quote_text(s.as_str()),
        Cell::Boolean(b) => {
            let mut out = String::new();
            if *b {
                push_text(&mut out, "1");
            } else {
                push_text(&mut out, "0");
            }
            assert(out@ =~= sql_literal(*c));
            out
        },
        Cell::Other => {
            let mut out = String::new();
            push_text(&mut out, "NULL");
            assert(out@ =~= sql_literal(*c));
            out
        },
    }
}

/// A table: named, typed columns of equal height.
pub struct Table {
    names: Vec<String>,
    types: Vec<ColumnType>,
    columns: Vec<Vec<Cell>>,
    height: usize,
}

impl Table {
    pub closed spec fn names(self) -> Seq<Seq<char>> {
        texts(self.names@)
    }

    pub closed spec fn types(self) -> Seq<ColumnType> {
        self.types@
    }

    /// The value in column `i` at row `k`.
    pub closed spec fn cell(self, i: int, k: int) -> Cell {
        self.columns@[i]@[k]
    }

    pub closed spec fn width(self) -> nat {
        self.names@.len()
    }

    pub closed spec fn spec_height(self) -> nat {
        self.height as nat
    }

    #[verifier::type_invariant]
    spec fn wf(self) -> bool {
        &&& self.types@.len() == self.names@.len()
        &&& self.columns@.len() == self.names@.len()
        &&& forall|i: int| 0 <= i < self.columns@.len() ==> #[trigger] self.columns@[i]@.len() == self.height
        &&& self.names@.len() == 0 ==> self.height == 0
    }

    /// A table of these columns; `None` when the numbers of names, types and
    /// columns differ or the columns differ in height.
    pub fn new(names: Vec<String>, types: Vec<ColumnType>, columns: Vec<Vec<Cell>>) -> (r: Option<Table>)
        ensures
            r is Some <==> (names@.len() == types@.len() && names@.len() == columns@.len() && forall|i: int, j: int|
                0 <= i < columns@.len() && 0 <= j < columns@.len() ==> #[trigger] columns@[i]@.len() == #[trigger] columns@[j]@.len()),
            r matches Some(t) ==> {
                &&& t.names() == texts(names@)
                &&& t.types() == types@
                &&& t.width() == names@.len()
                &&& t.spec_height() == (if columns@.len() == 0 { 0 } else { columns@[0]@.len() })
                &&& forall|i: int, k: int| 0 <= i < columns@.len() && 0 <= k < t.spec_height() ==> #[trigger] t.cell(i, k) == columns@[i]@[k]
            },
    {
        if names.len() != types.len() || names.len() != columns.len() {
            return None;
        }
        let height: usize = if columns.len() == 0 { 0 } else { columns[0].len() };
        let mut i: usize = 0;
        while i < columns.len()
            invariant
                i <= columns.len(),
                height == (if columns@.len() == 0 { 0 } else { columns@[0]@.len() }),
                forall|k: int| 0 <= k < i ==> #[trigger] columns@[k]@.len() == height,
            decreases columns.len() - i,
        {
            if columns[i].len() != height {
                assert(columns@[i as int]@.len() != columns@[0]@.len());
                return None;
            }
            i += 1;
        }
        Some(Table { names, types, columns, height })
    }

    /// The number of rows.
    pub fn height(&self) -> (r: usize)
        ensures
            r == self.spec_height(),
    {
        self.height
    }
}

/// `name type`, as the column is declared.
pub open spec fn column_definition(name: Seq<char>, t: ColumnType) -> Seq<char> {
    name + seq![' '] + sql_type_text(t)
}

/// The statement that creates the table with its columns, if it is not there.
pub open spec fn create_table_text(table: Seq<char>, names: Seq<Seq<char>>, types: Seq<ColumnType>) -> Seq<char> {
    let defs = Seq::new(names.len(), |i: int| column_definition(names[i], types[i]));
    "CREATE TABLE IF NOT EXISTS "@ + table + " ("@ + join_text(defs, ", "@) + ")"@
}

/// The statement that inserts one row, values in the order of the columns.
pub open spec fn insert_text(table: Seq<char>, names: Seq<Seq<char>>, row: Seq<Cell>) -> Seq<char> {
    let values = Seq::new(row.len(), |i: int| sql_literal(row[i]));
    "INSERT INTO "@ + table + " ("@ + join_text(names, ", "@) + ") VALUES ("@ + join_text(values, ", "@) + ")"@
}

/// Row `k` of a table.
pub open spec fn table_row(t: Table, k: int) -> Seq<Cell> {
    Seq::new(t.width(), |i: int| t.cell(i, k))
}

/// `CREATE TABLE IF NOT EXISTS {table_name} ({name type, ...})`.
pub fn create_table_statement(table_name: &str, t: &Table) -> (r: String)
    ensures
        r@ == create_table_text(table_name@, t.names(), t.types()),
{
    proof {
        use_type_invariant(t);
    }
    let mut defs: Vec<String> = Vec::new();
    let mut i: usize = 0;
    while i < t.names.len()
        invariant
            t.wf(),
            i <= t.names@.len(),
            defs@.len() == i,
            forall|k: int| 0 <= k < i ==> #[trigger] defs@[k]@ == column_definition(t.names()[k], t.types()[k]),
        decreases t.names@.len() - i,
    {
        let mut d = t.names[i].clone();
        d.push(' ');
        push_text(&mut d, sql_type_name(t.types[i]));
        assert(d@ =~= column_definition(t.names()[i as int], t.types()[i as int]));
        defs.push(d);
        i += 1;
    }
    let ghost want = Seq::new(t.names().len(), |k: int| column_definition(t.names()[k], t.types()[k]));
    assert(texts(defs@) =~= want);
    let mut out = String::new();
    push_text(&mut out, "CREATE TABLE IF NOT EXISTS ");
    push_text(&mut out, table_name);
    push_text(&mut out, " (");
    let joined = join_strings(&defs, ", ");
    push_text(&mut out, joined.as_str());
    push_text(&mut out, ")");
    assert(out@ =~= create_table_text(table_name@, t.names(), t.types()));
    out
}

/// `INSERT INTO {table_name} ({names}) VALUES ({values})` for row `k`.
pub fn insert_statement(table_name: &str, t: &Table, k: usize) -> (r: String)
    requires
        k < t.spec_height(),
    ensures
        r@ == insert_text(table_name@, t.names(), table_row(*t, k as int)),
{
    proof {
        use_type_invariant(t);
    }
    let mut values: Vec<String> = Vec::new();
    let mut i: usize = 0;
    while i < t.columns.len()
        invariant
            t.wf(),
            k < t.spec_height(),
            i <= t.columns@.len(),
            values@.len() == i,
            forall|j: int| 0 <= j < i ==> #[trigger] values@[j]@ == sql_literal(t.cell(j, k as int)),
        decreases t.columns@.len() - i,
    {
        assert(t.columns@[i as int]@.len() == t.height);
        values.push(literal_text(&t.columns[i][k]));
        i += 1;
    }
    let ghost row = table_row(*t, k as int);
    assert(texts(values@) =~= Seq::new(row.len(), |j: int| sql_literal(row[j])));
    let mut out = String::new();
    push_text(&mut out, "INSERT INTO ");
    push_text(&mut out, table_name);
    push_text(&mut out, " (");
    let names = join_strings(&t.names, ", ");
    push_text(&mut out, names.as_str());
    push_text(&mut out, ") VALUES (");
    let vals = join_strings(&values, ", ");
    push_text(&mut out, vals.as_str());
    push_text(&mut out, ")");
    assert(out@ =~= insert_text(table_name@, t.names(), row));
    out
}

/// The statements that copy a table into SQLite: the `CREATE TABLE`, then
/// one `INSERT` per row, in row order.
pub fn export_statements(table_name: &str, t: &Table) -> (r: Vec<String>)
    ensures
        r@.len() == t.spec_height() + 1,
        r@[0]@ == create_table_text(table_name@, t.names(), t.types()),
        forall|k: int| 0 <= k < t.spec_height() ==> #[trigger] r@[k + 1]@ == insert_text(table_name@, t.names(), table_row(*t, k)),
{
    proof {
        use_type_invariant(t);
    }
    let mut out: Vec<String> = Vec::new();
    out.push(create_table_statement(table_name, t));
    let mut k: usize = 0;
    while k < t.height()
        invariant
            t.wf(),
            k <= t.spec_height(),
            out@.len() == k + 1,
            out@[0]@ == create_table_text(table_name@, t.names(), t.types()),
            forall|j: int| 0 <= j < k ==> #[trigger] out@[j + 1]@ == insert_text(table_name@, t.names(), table_row(*t, j)),
        decreases t.spec_height() - k,
    {
        out.push(insert_statement(table_name, t, k));
        k += 1;
    }
    out
}

/// `SELECT * FROM {table_name}`.
pub fn select_all_query(table_name: &str) -> (r: String)
    ensures
        r@ == "SELECT * FROM "@ + table_name@,
{
    let mut out = String::new();
    push_text(&mut out, "SELECT * FROM ");
    push_text(&mut out, table_name);
    out
}

/// The columns of a query result: the names of the statement's columns and,
/// for each, its values from row to row. A result without rows keeps its
/// columns, each of them empty, so that an empty table is still exported.
pub fn collect_columns(column_names: &Vec<String>, rows: &Vec<Vec<String>>) -> (r: (Vec<String>, Vec<Vec<String>>))
    requires
        forall|k: int| 0 <= k < rows@.len() ==> #[trigger] rows@[k]@.len() == column_names@.len(),
    ensures
        texts(r.0@) == texts(column_names@),
        r.1@.len() == column_names@.len(),
        forall|i: int| 0 <= i < r.1@.len() ==> (#[trigger] r.1@[i])@.len() == rows@.len(),
        forall|i: int, k: int| 0 <= i < r.1@.len() && 0 <= k < rows@.len() ==> (#[trigger] r.1@[i]@[k])@ == rows@[k]@[i]@,
{
    let mut names: Vec<String> = Vec::new();
    let mut columns: Vec<Vec<String>> = Vec::new();
    let mut i: usize = 0;
    while i < column_names.len()
        invariant
            forall|k: int| 0 <= k < rows@.len() ==> #[trigger] rows@[k]@.len() == column_names@.len(),
            i <= column_names@.len(),
            names@.len() == i,
            columns@.len() == i,
            forall|j: int| 0 <= j < i ==> (#[trigger] names@[j])@ == column_names@[j]@,
            forall|j: int| 0 <= j < i ==> (#[trigger] columns@[j])@.len() == rows@.len(),
            forall|j: int, k: int| 0 <= j < i && 0 <= k < rows@.len() ==> (#[trigger] columns@[j]@[k])@ == rows@[k]@[j]@,
        decreases column_names@.len() - i,
    {
        let mut column: Vec<String> = Vec::new();
        let mut k: usize = 0;
        while k < rows.len()
            invariant
                forall|k2: int| 0 <= k2 < rows@.len() ==> #[trigger] rows@[k2]@.len() == column_names@.len(),
                i < column_names@.len(),
                k <= rows@.len(),
                column@.len() == k,
                forall|k2: int| 0 <= k2 < k ==> (#[trigger] column@[k2])@ == rows@[k2]@[i as int]@,
            decreases rows@.len() - k,
        {
            column.push(rows[k][i].clone());
            k += 1;
        }
        names.push(column_names[i].clone());
        columns.push(column);
        i += 1;
    }
    assert(texts(names@) =~= texts(column_names@));
    (names, columns)
}

/// Law: the SQLite type a column is created with: `INTEGER` for integer
/// columns, `REAL` for floating-point ones, `TEXT` for text, `BOOLEAN` for
/// booleans and `BLOB` for anything else.
pub proof fn lemma_column_types()
    ensures
        sql_type_text(ColumnType::Int64) == "INTEGER"@,
        sql_type_text(ColumnType::Int32) == "INTEGER"@,
        sql_type_text(ColumnType::Float64) == "REAL"@,
        sql_type_text(ColumnType::Float32) == "REAL"@,
        sql_type_text(ColumnType::Text) == "TEXT"@,
        sql_type_text(ColumnType::Boolean) == "BOOLEAN"@,
        sql_type_text(ColumnType::Other) == "BLOB"@,
{
}

/// Law: the literal of an integer is its decimal number, read back as that
/// integer (a `-` before the digits when it is negative); a boolean is `1`
/// or `0`; a float is its text as given; anything else is `NULL`.
pub proof fn lemma_literals_read_back(v: i64, b: bool, f: String)
    ensures
        v >= 0 ==> ({
            let l = sql_literal(Cell::Int64(v));
            l.len() > 0 && all_digits(l) && digits_value(l) == v
        }),
        v < 0 ==> ({
            let l = sql_literal(Cell::Int64(v));
            l.len() > 1 && l[0] == '-' && all_digits(l.drop_first()) && digits_value(l.drop_first()) == -v
        }),
        sql_literal(Cell::Boolean(b)) == (if b { "1"@ } else { "0"@ }),
        sql_literal(Cell::Float64(f)) == f@,
        sql_literal(Cell::Other) == "NULL"@,
{
    if v >= 0 {
        lemma_decimal_digits_read_back(v as nat);
    } else {
        lemma_decimal_digits_read_back((-v) as nat);
        assert((seq!['-'] + crate::decimal::decimal_digits((-v) as nat)).drop_first()
            =~= crate::decimal::decimal_digits((-v) as nat));
    }
}

/// Law: escaping leaves a text without quotes as it is, and doubles a quote.
pub proof fn lemma_escape_pieces(s: Seq<char>)
    ensures
        (forall|i: int| 0 <= i < s.len() ==> s[i] != '\'') ==> escaped(s) == s,
        escaped(seq!['\'']) == seq!['\'', '\''],
    decreases s.len(),
{
    if s.len() > 0 {
        lemma_escape_pieces(s.drop_last());
        if forall|i: int| 0 <= i < s.len() ==> s[i] != '\'' {
            assert(forall|i: int| 0 <= i < s.drop_last().len() ==> s.drop_last()[i] == s[i]);
            assert(s.drop_last().push(s.last()) =~= s);
        }
    }
    assert(seq!['\''].drop_last() =~= Seq::<char>::empty());
    assert(escaped(seq!['\'']) =~= escaped(Seq::<char>::empty()) + seq!['\'', '\'']);
}

/// Law: the statement for a table of one column names it and its type.
pub proof fn lemma_one_column_statements(t: Seq<char>, n: Seq<char>, ty: ColumnType, c: Cell)
    ensures
        create_table_text(t, seq![n], seq![ty]) == "CREATE TABLE IF NOT EXISTS "@ + t + " ("@ + n + " "@
            + sql_type_text(ty) + ")"@,
        insert_text(t, seq![n], seq![c]) == "INSERT INTO "@ + t + " ("@ + n + ") VALUES ("@ + sql_literal(c)
            + ")"@,
{
    reveal_strlit(" ");
    let defs = Seq::new(1, |i: int| column_definition(seq![n][i], seq![ty][i]));
    assert(join_text(defs, ", "@) == defs[0]);
    let vals = Seq::new(1, |i: int| sql_literal(seq![c][i]));
    assert(join_text(vals, ", "@) == vals[0]);
    assert(join_text(seq![n], ", "@) == n);
    assert(create_table_text(t, seq![n], seq![ty]) =~= "CREATE TABLE IF NOT EXISTS "@ + t + " ("@ + n + " "@
        + sql_type_text(ty) + ")"@);
    assert(insert_text(t, seq![n], seq![c]) =~= "INSERT INTO "@ + t + " ("@ + n + ") VALUES ("@ + sql_literal(c)
        + ")"@);
}

/// Law: one more column adds `, name type` before the closing bracket of
/// the `CREATE TABLE`, and one more value adds `, name` to the names and
/// `, literal` to the values of the `INSERT`.
pub proof fn lemma_statements_grow(
    t: Seq<char>,
    names: Seq<Seq<char>>,
    types: Seq<ColumnType>,
    row: Seq<Cell>,
    n: Seq<char>,
    ty: ColumnType,
    c: Cell,
)
    requires
        names.len() > 0,
        names.len() == types.len(),
        names.len() == row.len(),
    ensures
        create_table_text(t, names.push(n), types.push(ty)) == create_table_text(t, names, types).drop_last() + ", "@
            + n + " "@ + sql_type_text(ty) + ")"@,
        insert_text(t, names.push(n), row.push(c)) == "INSERT INTO "@ + t + " ("@ + join_text(names, ", "@) + ", "@
            + n + ") VALUES ("@ + join_text(Seq::new(row.len(), |i: int| sql_literal(row[i])), ", "@) + ", "@
            + sql_literal(c) + ")"@,
{
    reveal_strlit(" ");
    reveal_strlit(")");
    let defs = Seq::new(names.len(), |i: int| column_definition(names[i], types[i]));
    let defs2 = Seq::new(names.push(n).len(), |i: int| column_definition(names.push(n)[i], types.push(ty)[i]));
    assert(defs2 =~= defs.push(column_definition(n, ty)));
    assert(defs2.drop_last() =~= defs);
    assert(join_text(defs2, ", "@) == join_text(defs, ", "@) + ", "@ + column_definition(n, ty));
    let p = "CREATE TABLE IF NOT EXISTS "@ + t + " ("@ + join_text(defs, ", "@);
    assert(create_table_text(t, names, types) =~= p + ")"@);
    assert((p + ")"@).drop_last() =~= p);
    assert(create_table_text(t, names.push(n), types.push(ty)) =~= p + ", "@ + n + " "@ + sql_type_text(ty)
        + ")"@);
    let vals = Seq::new(row.len(), |i: int| sql_literal(row[i]));
    let vals2 = Seq::new(row.push(c).len(), |i: int| sql_literal(row.push(c)[i]));
    assert(vals2 =~= vals.push(sql_literal(c)));
    assert(vals2.drop_last() =~= vals);
    assert(names.push(n).drop_last() =~= names);
    assert(join_text(names.push(n), ", "@) == join_text(names, ", "@) + ", "@ + n);
    assert(join_text(vals2, ", "@) == join_text(vals, ", "@) + ", "@ + sql_literal(c));
    assert(insert_text(t, names.push(n), row.push(c)) =~= "INSERT INTO "@ + t + " ("@ + join_text(names, ", "@)
        + ", "@ + n + ") VALUES ("@ + join_text(vals, ", "@) + ", "@ + sql_literal(c) + ")"@);
}

} // verus!
