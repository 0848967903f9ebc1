use vstd::prelude::*;
use vstd::string::*;

use crate::error::IoError;
use crate::ids::VarId;
use crate::linear::{
    coef_of, find_coef, first_index_from, lemma_first_index_bounds, Column, LinearModel,
    ObjectiveTerms, Row,
};
use crate::model::{ObjectiveSense, Sense};
use crate::number::{spec_is_zero, spec_neg, Number};

verus! {

// ---------------------------------------------------------------------------
// The text of a fixed-format MPS file, stated piece by piece.
// ---------------------------------------------------------------------------

pub open spec fn spaces(n: nat) -> Seq<char> {
    Seq::new(n, |_i: int| ' ')
}

/// `format!("{:<10}", s)`: `s`, padded with spaces on the right to ten
/// characters (a longer `s` is kept whole).
pub open spec fn pad10(s: Seq<char>) -> Seq<char> {
    if s.len() >= 10 {
        s
    } else {
        s + spaces((10 - s.len()) as nat)
    }
}

/// A line of the COLUMNS section: column, row, coefficient.
pub open spec fn entry_line(col: Seq<char>, row: Seq<char>, coef: Seq<char>) -> Seq<char> {
    "    "@ + pad10(col) + pad10(row) + coef + "\n"@
}

pub open spec fn intorg_line() -> Seq<char> {
    "    MARKER                 'MARKER'                 'INTORG'\n"@
}

pub open spec fn intend_line() -> Seq<char> {
    "    MARKER                 'MARKER'                 'INTEND'\n"@
}

pub open spec fn is_max(m: LinearModel) -> bool {
    m.objective.unwrap().sense is Maximize
}

/// The objective's terms (meaningful when the objective is set and linear).
pub open spec fn obj_terms(m: LinearModel) -> ObjectiveTerms {
    m.objective.unwrap().terms.unwrap()
}

/// A number of the objective as it is written: maximization objectives are
/// negated, so that every model is written as a minimization.
pub open spec fn obj_value(m: LinearModel, t: Seq<char>) -> Seq<char> {
    if is_max(m) {
        spec_neg(t)
    } else {
        t
    }
}

pub open spec fn sense_word(m: LinearModel) -> Seq<char> {
    if is_max(m) {
        "maximize"@
    } else {
        "minimize"@
    }
}

pub open spec fn header_text(m: LinearModel) -> Seq<char> {
    "* OXIMO MPS export\n"@ + "* sense: "@ + sense_word(m) + "\n"@ + "NAME          "@ + m.name@
        + "\n"@ + "ROWS\n"@ + " N  OBJ\n"@
}

pub open spec fn sense_tag(s: Sense) -> Seq<char> {
    match s {
        Sense::Le => "L"@,
        Sense::Ge => "G"@,
        Sense::Eq => "E"@,
    }
}

pub open spec fn row_line(r: Row) -> Seq<char> {
    " "@ + sense_tag(r.sense) + "  "@ + r.name@ + "\n"@
}

/// ROWS lines of the first `j` constraints.
pub open spec fn rows_upto(rows: Seq<Row>, j: int) -> Seq<char>
    decreases j,
{
    if j <= 0 {
        Seq::empty()
    } else {
        rows_upto(rows, j - 1) + row_line(rows[j - 1])
    }
}

/// Everything up to and including the `COLUMNS` header line.
pub open spec fn preamble(m: LinearModel) -> Seq<char> {
    header_text(m) + rows_upto(m.rows@, m.rows@.len() as int) + "COLUMNS\n"@
}

pub open spec fn col_is_int(cols: Seq<Column>, i: int) -> bool {
    cols[i].domain.spec_is_integer()
}

/// A marker line of the COLUMNS section.
pub enum Marker {
    NoMarker,
    IntOrg,
    IntEnd,
}

/// The marker written before column `i`: integer columns are grouped between
/// an `INTORG` and an `INTEND` marker.
pub open spec fn marker_kind(cols: Seq<Column>, i: int) -> Marker {
    let prev = i > 0 && col_is_int(cols, i - 1);
    if col_is_int(cols, i) && !prev {
        Marker::IntOrg
    } else if !col_is_int(cols, i) && prev {
        Marker::IntEnd
    } else {
        Marker::NoMarker
    }
}

pub open spec fn marker_text(k: Marker) -> Seq<char> {
    match k {
        Marker::IntOrg => intorg_line(),
        Marker::IntEnd => intend_line(),
        Marker::NoMarker => Seq::empty(),
    }
}

pub open spec fn marker_before(cols: Seq<Column>, i: int) -> Seq<char> {
    marker_text(marker_kind(cols, i))
}

pub open spec fn obj_entry(m: LinearModel, c: Column) -> Seq<char> {
    match coef_of(obj_terms(m).coeffs@, c.id) {
        Some(t) => entry_line(c.name@, "OBJ"@, obj_value(m, t)),
        None => Seq::empty(),
    }
}

pub open spec fn row_entry(r: Row, c: Column) -> Seq<char> {
    match r.terms {
        Some(t) => match coef_of(t.coeffs@, c.id) {
            Some(x) => entry_line(c.name@, r.name@, x),
            None => Seq::empty(),
        },
        None => Seq::empty(),
    }
}

/// Entries of column `c` in the first `k` constraints.
pub open spec fn row_entries(rows: Seq<Row>, c: Column, k: int) -> Seq<char>
    decreases k,
{
    if k <= 0 {
        Seq::empty()
    } else {
        row_entries(rows, c, k - 1) + row_entry(rows[k - 1], c)
    }
}

pub open spec fn column_block(m: LinearModel, i: int) -> Seq<char> {
    marker_before(m.columns@, i) + obj_entry(m, m.columns@[i]) + row_entries(
        m.rows@,
        m.columns@[i],
        m.rows@.len() as int,
    )
}

/// COLUMNS lines of the first `i` columns.
pub open spec fn columns_upto(m: LinearModel, i: int) -> Seq<char>
    decreases i,
{
    if i <= 0 {
        Seq::empty()
    } else {
        columns_upto(m, i - 1) + column_block(m, i - 1)
    }
}

/// The marker that closes a group of integer columns at the end.
pub open spec fn columns_close(m: LinearModel) -> Seq<char> {
    let n = m.columns@.len() as int;
    if n > 0 && col_is_int(m.columns@, n - 1) {
        intend_line()
    } else {
        Seq::empty()
    }
}

/// The objective's constant, written with its sign flipped on the `OBJ` row
/// of the RHS section when it is not zero.
pub open spec fn obj_rhs(m: LinearModel) -> Seq<char> {
    let c = obj_value(m, obj_terms(m).constant.text@);
    if spec_is_zero(c) {
        Seq::empty()
    } else {
        "    RHS       OBJ       "@ + spec_neg(c) + "\n"@
    }
}

pub open spec fn rhs_line(r: Row) -> Seq<char> {
    match r.terms {
        Some(t) => if spec_is_zero(t.rhs.text@) {
            Seq::empty()
        } else {
            "    RHS       "@ + pad10(r.name@) + t.rhs.text@ + "\n"@
        },
        None => Seq::empty(),
    }
}

/// RHS lines of the first `j` constraints.
pub open spec fn rhs_upto(rows: Seq<Row>, j: int) -> Seq<char>
    decreases j,
{
    if j <= 0 {
        Seq::empty()
    } else {
        rhs_upto(rows, j - 1) + rhs_line(rows[j - 1])
    }
}

pub open spec fn lo_line(c: Column) -> Seq<char> {
    if spec_is_zero(c.lb.text@) {
        Seq::empty()
    } else {
        " LO BND       "@ + pad10(c.name@) + c.lb.text@ + "\n"@
    }
}

pub open spec fn up_line(c: Column) -> Seq<char> {
    " UP BND       "@ + pad10(c.name@) + c.ub.text@ + "\n"@
}

/// BOUNDS lines of one column: `FR` for a free column, `MI` and `UP` when it
/// is unbounded below only, and otherwise `LO` (omitted for the default lower
/// bound zero) and `UP` (omitted for an infinite upper bound).
pub open spec fn bound_lines(c: Column) -> Seq<char> {
    let lo_inf = c.lb.text@ == "-inf"@;
    let hi_inf = c.ub.text@ == "inf"@;
    if lo_inf && hi_inf {
        " FR BND       "@ + c.name@ + "\n"@
    } else if lo_inf {
        " MI BND       "@ + c.name@ + "\n"@ + up_line(c)
    } else if hi_inf {
        lo_line(c)
    } else {
        lo_line(c) + up_line(c)
    }
}

/// BOUNDS lines of the first `i` columns.
pub open spec fn bounds_upto(cols: Seq<Column>, i: int) -> Seq<char>
    decreases i,
{
    if i <= 0 {
        Seq::empty()
    } else {
        bounds_upto(cols, i - 1) + bound_lines(cols[i - 1])
    }
}

/// The RHS section.
pub open spec fn rhs_section(m: LinearModel) -> Seq<char> {
    "RHS\n"@ + obj_rhs(m) + rhs_upto(m.rows@, m.rows@.len() as int)
}

/// Every constraint of the model is linear.
pub open spec fn rows_linear(m: LinearModel) -> bool {
    forall|j: int| 0 <= j < m.rows@.len() ==> (#[trigger] m.rows@[j]).terms is Some
}

/// The model can be written: it has an objective, and the objective and every
/// constraint are linear.
pub open spec fn mps_ok(m: LinearModel) -> bool {
    &&& m.objective is Some
    &&& m.objective.unwrap().terms is Some
    &&& rows_linear(m)
}

/// The COLUMNS, RHS and BOUNDS sections and the end line.
pub open spec fn mps_body(m: LinearModel) -> Seq<char> {
    columns_upto(m, m.columns@.len() as int) + columns_close(m) + rhs_section(m) + "BOUNDS\n"@
        + bounds_upto(m.columns@, m.columns@.len() as int) + "ENDATA\n"@
}

/// The whole MPS text of a model that can be written.
pub open spec fn mps_text(m: LinearModel) -> Seq<char> {
    preamble(m) + mps_body(m)
}

/// Position of the first nonlinear constraint at or after `j`.
pub open spec fn first_nonlinear_from(m: LinearModel, j: int) -> int
    decreases m.rows@.len() - j,
{
    if 0 <= j < m.rows@.len() {
        if m.rows@[j].terms is None {
            j
        } else {
            first_nonlinear_from(m, j + 1)
        }
    } else {
        m.rows@.len() as int
    }
}

/// What is written before the writer stops at a nonlinear constraint: when
/// the model has columns, the text up to the first column's marker (the
/// constraints are all checked before that column's entries); with no
/// columns, the RHS lines up to the first nonlinear constraint.
pub open spec fn mps_partial(m: LinearModel) -> Seq<char> {
    if m.objective is None || m.objective.unwrap().terms is None {
        Seq::empty()
    } else {
        preamble(m) + partial_body(m)
    }
}

/// The part of [`mps_partial`] after the preamble.
pub open spec fn partial_body(m: LinearModel) -> Seq<char> {
    if m.columns@.len() > 0 {
        marker_before(m.columns@, 0)
    } else {
        "RHS\n"@ + obj_rhs(m) + rhs_upto(m.rows@, first_nonlinear_from(m, 0))
    }
}

// ---------------------------------------------------------------------------
// Properties of the format.
// ---------------------------------------------------------------------------

/// Whether an `INTORG` block is open once the markers of the first `k`
/// columns are written.
pub open spec fn block_open_after(cols: Seq<Column>, k: int) -> bool
    decreases k,
{
    if k <= 0 {
        false
    } else {
        match marker_kind(cols, k - 1) {
            Marker::IntOrg => true,
            Marker::IntEnd => false,
            Marker::NoMarker => block_open_after(cols, k - 1),
        }
    }
}

/// Integer variables are wrapped in `INTORG`/`INTEND` markers: the entries of
/// column `i` are written inside an open `INTORG` block exactly when the
/// column is integer-valued, and the closing `INTEND` after the last column
/// is written exactly when a block is still open, so none is left open.
pub proof fn lemma_integer_columns_are_marked(cols: Seq<Column>)
    ensures
        forall|i: int|
            0 <= i < cols.len() ==> #[trigger] block_open_after(cols, i + 1) == col_is_int(
                cols,
                i,
            ),
        block_open_after(cols, cols.len() as int) == (cols.len() > 0 && col_is_int(
            cols,
            cols.len() - 1,
        )),
{
    assert forall|k: int| 0 <= k <= cols.len() implies #[trigger] block_open_after(cols, k) == (k
        > 0 && col_is_int(cols, k - 1)) by {
        lemma_block_open_after(cols, k);
    }
    assert forall|i: int| 0 <= i < cols.len() implies #[trigger] block_open_after(cols, i + 1)
        == col_is_int(cols, i) by {
        lemma_block_open_after(cols, i + 1);
    }
}

proof fn lemma_block_open_after(cols: Seq<Column>, k: int)
    requires
        0 <= k <= cols.len(),
    ensures
        block_open_after(cols, k) == (k > 0 && col_is_int(cols, k - 1)),
    decreases k,
{
    if k > 0 {
        lemma_block_open_after(cols, k - 1);
    }
}

/// The objective of `b` is the objective of `a` with every coefficient and
/// the constant negated, term by term.
pub open spec fn negated_objective(a: ObjectiveTerms, b: ObjectiveTerms) -> bool {
    &&& b.coeffs@.len() == a.coeffs@.len()
    &&& forall|i: int|
        0 <= i < a.coeffs@.len() ==> (#[trigger] b.coeffs@[i]).0 == a.coeffs@[i].0
            && b.coeffs@[i].1.text@ == spec_neg(a.coeffs@[i].1.text@)
    &&& b.constant.text@ == spec_neg(a.constant.text@)
}

proof fn lemma_first_index_same_ids(a: Seq<(VarId, Number)>, b: Seq<(VarId, Number)>, v: VarId, i: int)
    requires
        a.len() == b.len(),
        forall|j: int| 0 <= j < a.len() ==> (#[trigger] a[j]).0 == b[j].0,
    ensures
        first_index_from(a, v, i) == first_index_from(b, v, i),
    decreases a.len() - i,
{
    if 0 <= i < a.len() {
        lemma_first_index_same_ids(a, b, v, i + 1);
    }
}

proof fn lemma_columns_same(m1: LinearModel, m2: LinearModel, k: int)
    requires
        m1.columns@ == m2.columns@,
        m1.rows@ == m2.rows@,
        forall|i: int| 0 <= i < k ==> #[trigger] column_block(m1, i) == column_block(m2, i),
    ensures
        columns_upto(m1, k) == columns_upto(m2, k),
    decreases k,
{
    if k > 0 {
        lemma_columns_same(m1, m2, k - 1);
    }
}

/// A maximization is written as the minimization of its negated objective:
/// the model that maximizes an objective and the model that minimizes the
/// objective with every coefficient and the constant negated have the same
/// COLUMNS, RHS and BOUNDS sections; only the `* sense:` comment tells them
/// apart.
pub proof fn lemma_maximize_is_negated_minimize(m1: LinearModel, m2: LinearModel)
    requires
        m1.columns@ == m2.columns@,
        m1.rows@ == m2.rows@,
        m1.objective is Some,
        m1.objective.unwrap().sense is Maximize,
        m1.objective.unwrap().terms is Some,
        m2.objective is Some,
        m2.objective.unwrap().sense is Minimize,
        m2.objective.unwrap().terms is Some,
        negated_objective(obj_terms(m1), obj_terms(m2)),
    ensures
        mps_ok(m1) == mps_ok(m2),
        mps_body(m1) == mps_body(m2),
        sense_word(m1) == "maximize"@,
        sense_word(m2) == "minimize"@,
{
    let a = obj_terms(m1).coeffs@;
    let b = obj_terms(m2).coeffs@;
    assert forall|i: int| 0 <= i < m1.columns@.len() implies #[trigger] column_block(m1, i)
        == column_block(m2, i) by {
        let c = m1.columns@[i];
        lemma_first_index_same_ids(a, b, c.id, 0);
        lemma_first_index_bounds(a, c.id, 0);
        assert(obj_entry(m1, c) == obj_entry(m2, c));
    }
    lemma_columns_same(m1, m2, m1.columns@.len() as int);
    assert(obj_rhs(m1) == obj_rhs(m2));
    assert(rhs_section(m1) == rhs_section(m2));
}

/// The line that the RHS section holds for a constraint named `name` with
/// right-hand side `rhs`.
pub open spec fn rhs_entry(name: Seq<char>, rhs: Seq<char>) -> Seq<char> {
    "    RHS       "@ + pad10(name) + rhs + "\n"@
}

proof fn lemma_rhs_upto_extends(rows: Seq<Row>, k: int, n: int)
    requires
        0 <= k <= n,
    ensures
        exists|q: Seq<char>| rhs_upto(rows, n) == #[trigger] (rhs_upto(rows, k) + q),
    decreases n - k,
{
    if n == k {
        assert(rhs_upto(rows, n) == rhs_upto(rows, k) + Seq::<char>::empty());
    } else {
        lemma_rhs_upto_extends(rows, k, n - 1);
        let q = choose|q: Seq<char>| rhs_upto(rows, n - 1) == #[trigger] (rhs_upto(rows, k) + q);
        let q2 = q + rhs_line(rows[n - 1]);
        assert(rhs_upto(rows, n) == rhs_upto(rows, k) + q2);
    }
}

/// Every linear constraint whose right-hand side is not zero gets its line
/// in the RHS section, whatever its sense (`L`, `G` or `E`), after the lines
/// of the constraints before it; one whose right-hand side is zero adds no
/// line. So the text of a model that can be written holds that line.
pub proof fn lemma_rhs_line_of_every_constraint(m: LinearModel, j: int)
    requires
        mps_ok(m),
        0 <= j < m.rows@.len(),
    ensures
        ({
            let r = m.rows@[j];
            let rhs = r.terms.unwrap().rhs.text@;
            &&& !spec_is_zero(rhs) ==> rhs_upto(m.rows@, j + 1) == rhs_upto(m.rows@, j)
                + rhs_entry(r.name@, rhs)
            &&& spec_is_zero(rhs) ==> rhs_upto(m.rows@, j + 1) == rhs_upto(m.rows@, j)
            &&& !spec_is_zero(rhs) ==> exists|q: Seq<char>| rhs_section(m) == "RHS\n"@ + obj_rhs(m)
                + rhs_upto(m.rows@, j) + #[trigger] (rhs_entry(r.name@, rhs) + q)
            &&& !spec_is_zero(rhs) ==> exists|p: Seq<char>, q: Seq<char>| mps_text(m) == #[trigger] (p
                + (rhs_entry(r.name@, rhs) + q))
        }),
{
    let rows = m.rows@;
    let n = rows.len() as int;
    let r = rows[j];
    assert(r.terms is Some);
    let rhs = r.terms.unwrap().rhs.text@;
    if !spec_is_zero(rhs) {
        let line = rhs_entry(r.name@, rhs);
        assert(rhs_upto(rows, j + 1) == rhs_upto(rows, j) + line);
        lemma_rhs_upto_extends(rows, j + 1, n);
        let q = choose|q: Seq<char>| rhs_upto(rows, n) == #[trigger] (rhs_upto(rows, j + 1) + q);
        let s0 = "RHS\n"@ + obj_rhs(m) + rhs_upto(rows, j);
        assert(rhs_section(m) == s0 + (line + q)) by {
            assert(rhs_upto(rows, n) == rhs_upto(rows, j) + (line + q));
        }
        let a = columns_upto(m, m.columns@.len() as int) + columns_close(m);
        let t1 = "BOUNDS\n"@;
        let t2 = bounds_upto(m.columns@, m.columns@.len() as int);
        let t3 = "ENDATA\n"@;
        lemma_regroup(preamble(m), a, s0, line, q, t1, t2, t3);
        assert(mps_text(m) == (preamble(m) + a + s0) + (line + (q + t1 + t2 + t3)));
    }
}

proof fn lemma_regroup(
    pre: Seq<char>,
    a: Seq<char>,
    s0: Seq<char>,
    line: Seq<char>,
    q: Seq<char>,
    t1: Seq<char>,
    t2: Seq<char>,
    t3: Seq<char>,
)
    ensures
        pre + (a + (s0 + (line + q)) + t1 + t2 + t3) == (pre + a + s0) + (line + (q + t1 + t2 + t3)),
{
    assert(pre + (a + (s0 + (line + q)) + t1 + t2 + t3) =~= (pre + a + s0) + (line + (q + t1 + t2
        + t3)));
}

/// The default bounds take no BOUNDS line: a column with lower bound zero and
/// no upper bound writes nothing, and a free column writes one `FR` line.
pub proof fn lemma_default_bounds(c: Column)
    ensures
        spec_is_zero(c.lb.text@) && c.ub.text@ == "inf"@ ==> bound_lines(c) == Seq::<char>::empty(),
        c.lb.text@ == "-inf"@ && c.ub.text@ == "inf"@ ==> bound_lines(c) == " FR BND       "@
            + c.name@ + "\n"@,
{
    if spec_is_zero(c.lb.text@) && c.ub.text@ == "inf"@ {
        assert(c.lb.text@ != "-inf"@) by {
            reveal_strlit("-inf");
            reveal_strlit("0");
            reveal_strlit("-0");
            assert("-inf"@.len() == 4);
            assert("0"@.len() == 1);
            assert("-0"@.len() == 2);
        }
    }
}

// ---------------------------------------------------------------------------
// The writer.
// ---------------------------------------------------------------------------

/// Appends `s`, padded with spaces to ten characters.
fn push_padded(out: &mut String, s: &str)
    ensures
        final(out)@ == old(out)@ + pad10(s@),
{
    let ghost start = out@;
    out.append(s);
    let len = s.unicode_len();
    if len < 10 {
        let mut k: usize = len;
        while k < 10
            invariant
                len == s@.len(),
                len <= k <= 10,
                out@ == start + s@ + spaces((k - len) as nat),
            decreases 10 - k,
        {
            let ghost before = out@;
            out.append(" ");
            proof {
                reveal_strlit(" ");
                assert(spaces((k - len) as nat) + " "@ =~= spaces((k + 1 - len) as nat));
                assert(out@ =~= start + s@ + spaces((k + 1 - len) as nat));
            }
            k = k + 1;
        }
    }
}

/// Appends one COLUMNS line.
fn push_entry(out: &mut String, col: &str, row: &str, coef: &str)
    ensures
        final(out)@ == old(out)@ + entry_line(col@, row@, coef@),
{
    let ghost start = out@;
    out.append("    ");
    push_padded(out, col);
    push_padded(out, row);
    out.append(coef);
    out.append("\n");
    assert(out@ =~= start + entry_line(col@, row@, coef@));
}

fn write_header(model: &LinearModel, out: &mut String)
    requires
        model.objective is Some,
    ensures
        final(out)@ == old(out)@ + header_text(*model),
{
    let ghost start = out@;
    out.append("* OXIMO MPS export\n");
    out.append("* sense: ");
    match &model.objective {
        Some(o) => match o.sense {
            ObjectiveSense::Minimize => out.append("minimize"),
            ObjectiveSense::Maximize => out.append("maximize"),
        },
        None => {},
    }
    out.append("\n");
    out.append("NAME          ");
    out.append(model.name.as_str());
    out.append("\n");
    out.append("ROWS\n");
    out.append(" N  OBJ\n");
    assert(out@ =~= start + header_text(*model));
}

fn write_rows(model: &LinearModel, out: &mut String)
    ensures
        final(out)@ == old(out)@ + rows_upto(model.rows@, model.rows@.len() as int),
{
    let ghost start = out@;
    let n = model.rows.len();
    let mut j: usize = 0;
    while j < n
        invariant
            n == model.rows@.len(),
            0 <= j <= n,
            out@ == start + rows_upto(model.rows@, j as int),
        decreases n - j,
    {
        let r = &model.rows[j];
        out.append(" ");
        match r.sense {
            Sense::Le => out.append("L"),
            Sense::Ge => out.append("G"),
            Sense::Eq => out.append("E"),
        }
        out.append("  ");
        out.append(r.name.as_str());
        out.append("\n");
        assert(out@ =~= start + rows_upto(model.rows@, j + 1));
        j = j + 1;
    }
}

/// Whether every constraint is linear.
fn rows_all_linear(rows: &Vec<Row>) -> (b: bool)
    ensures
        b == (forall|j: int| 0 <= j < rows@.len() ==> (#[trigger] rows@[j]).terms is Some),
{
    let n = rows.len();
    let mut j: usize = 0;
    while j < n
        invariant
            n == rows@.len(),
            0 <= j <= n,
            forall|k: int| 0 <= k < j ==> (#[trigger] rows@[k]).terms is Some,
        decreases n - j,
    {
        if rows[j].terms.is_none() {
            return false;
        }
        j = j + 1;
    }
    true
}

fn write_marker(model: &LinearModel, i: usize, out: &mut String)
    requires
        i < model.columns@.len(),
    ensures
        final(out)@ == old(out)@ + marker_before(model.columns@, i as int),
{
    let is_int = model.columns[i].domain.is_integer();
    let prev = i > 0 && model.columns[i - 1].domain.is_integer();
    if is_int && !prev {
        out.append("    MARKER                 'MARKER'                 'INTORG'\n");
    } else if !is_int && prev {
        out.append("    MARKER                 'MARKER'                 'INTEND'\n");
    }
}

fn write_column(
    model: &LinearModel,
    terms: &ObjectiveTerms,
    maximize: bool,
    i: usize,
    out: &mut String,
)
    requires
        mps_ok(*model),
        *terms == obj_terms(*model),
        maximize == is_max(*model),
        i < model.columns@.len(),
    ensures
        final(out)@ == old(out)@ + column_block(*model, i as int),
{
    let ghost start = out@;
    let col = &model.columns[i];
    write_marker(model, i, out);
    let ghost after_marker = out@;
    match find_coef(&terms.coeffs, col.id) {
        Some(k) => {
            let c = &terms.coeffs[k].1;
            if maximize {
                let v = c.neg();
                push_entry(out, col.name.as_str(), "OBJ", v.text.as_str());
            } else {
                push_entry(out, col.name.as_str(), "OBJ", c.text.as_str());
            }
        },
        None => {},
    }
    assert(out@ == after_marker + obj_entry(*model, *col));
    let ghost after_obj = out@;
    let n = model.rows.len();
    let mut j: usize = 0;
    while j < n
        invariant
            n == model.rows@.len(),
            0 <= j <= n,
            i < model.columns@.len(),
            *col == model.columns@[i as int],
            mps_ok(*model),
            out@ == after_obj + row_entries(model.rows@, *col, j as int),
        decreases n - j,
    {
        let r = &model.rows[j];
        assert(r.terms is Some);
        match &r.terms {
            Some(t) => match find_coef(&t.coeffs, col.id) {
                Some(k) => {
                    push_entry(out, col.name.as_str(), r.name.as_str(), t.coeffs[k].1.text.as_str());
                },
                None => {},
            },
            None => {},
        }
        assert(out@ =~= after_obj + row_entries(model.rows@, *col, j + 1));
        j = j + 1;
    }
    assert(out@ =~= start + column_block(*model, i as int));
}

fn write_columns(model: &LinearModel, terms: &ObjectiveTerms, maximize: bool, out: &mut String)
    requires
        mps_ok(*model),
        *terms == obj_terms(*model),
        maximize == is_max(*model),
    ensures
        final(out)@ == old(out)@ + columns_upto(*model, model.columns@.len() as int)
            + columns_close(*model),
{
    let ghost start = out@;
    let n = model.columns.len();
    let mut i: usize = 0;
    while i < n
        invariant
            n == model.columns@.len(),
            0 <= i <= n,
            mps_ok(*model),
            *terms == obj_terms(*model),
            maximize == is_max(*model),
            out@ == start + columns_upto(*model, i as int),
        decreases n - i,
    {
        write_column(model, terms, maximize, i, out);
        assert(out@ =~= start + columns_upto(*model, i + 1));
        i = i + 1;
    }
    let ghost before_close = out@;
    if n > 0 && model.columns[n - 1].domain.is_integer() {
        out.append("    MARKER                 'MARKER'                 'INTEND'\n");
    }
    assert(out@ =~= before_close + columns_close(*model));
}

/// Appends the objective's RHS line (if its constant is not zero).
fn write_obj_rhs(model: &LinearModel, terms: &ObjectiveTerms, maximize: bool, out: &mut String)
    requires
        model.objective is Some,
        model.objective.unwrap().terms is Some,
        *terms == obj_terms(*model),
        maximize == is_max(*model),
    ensures
        final(out)@ == old(out)@ + obj_rhs(*model),
{
    let ghost start = out@;
    let c = if maximize {
        terms.constant.neg()
    } else {
        terms.constant.copy()
    };
    if !c.is_zero() {
        let v = c.neg();
        out.append("    RHS       OBJ       ");
        out.append(v.text.as_str());
        out.append("\n");
    }
    assert(out@ =~= start + obj_rhs(*model));
}

/// Appends the RHS lines of the constraints, stopping with `Nonlinear` at the
/// first nonlinear one.
fn write_row_rhs(model: &LinearModel, out: &mut String) -> (r: Result<(), IoError>)
    ensures
        r is Ok <==> rows_linear(*model),
        r is Ok ==> final(out)@ == old(out)@ + rhs_upto(model.rows@, model.rows@.len() as int),
        r is Err ==> (r matches Err(IoError::Nonlinear)),
        r is Err ==> final(out)@ == old(out)@ + rhs_upto(model.rows@, first_nonlinear_from(*model, 0)),
{
    let ghost start = out@;
    let n = model.rows.len();
    let mut j: usize = 0;
    while j < n
        invariant
            n == model.rows@.len(),
            0 <= j <= n,
            forall|k: int| 0 <= k < j ==> (#[trigger] model.rows@[k]).terms is Some,
            first_nonlinear_from(*model, j as int) == first_nonlinear_from(*model, 0),
            start == old(out)@,
            out@ == start + rhs_upto(model.rows@, j as int),
        decreases n - j,
    {
        let r = &model.rows[j];
        match &r.terms {
            None => {
                assert(first_nonlinear_from(*model, j as int) == j as int);
                return Err(IoError::Nonlinear);
            },
            Some(t) => {
                if !t.rhs.is_zero() {
                    out.append("    RHS       ");
                    push_padded(out, r.name.as_str());
                    out.append(t.rhs.text.as_str());
                    out.append("\n");
                }
            },
        }
        assert(out@ =~= start + rhs_upto(model.rows@, j + 1));
        j = j + 1;
    }
    Ok(())
}

fn write_bounds(model: &LinearModel, out: &mut String)
    ensures
        final(out)@ == old(out)@ + bounds_upto(model.columns@, model.columns@.len() as int),
{
    let ghost start = out@;
    let n = model.columns.len();
    let mut i: usize = 0;
    while i < n
        invariant
            n == model.columns@.len(),
            0 <= i <= n,
            out@ == start + bounds_upto(model.columns@, i as int),
        decreases n - i,
    {
        let c = &model.columns[i];
        let ghost before = out@;
        let lo_inf = c.lb.is_neg_infinity();
        let hi_inf = c.ub.is_pos_infinity();
        if lo_inf && hi_inf {
            out.append(" FR BND       ");
            out.append(c.name.as_str());
            out.append("\n");
        } else if lo_inf {
            out.append(" MI BND       ");
            out.append(c.name.as_str());
            out.append("\n");
            out.append(" UP BND       ");
            push_padded(out, c.name.as_str());
            out.append(c.ub.text.as_str());
            out.append("\n");
        } else {
            if !c.lb.is_zero() {
                out.append(" LO BND       ");
                push_padded(out, c.name.as_str());
                out.append(c.lb.text.as_str());
                out.append("\n");
            }
            if !hi_inf {
                out.append(" UP BND       ");
                push_padded(out, c.name.as_str());
                out.append(c.ub.text.as_str());
                out.append("\n");
            }
        }
        assert(out@ =~= before + bound_lines(*c));
        assert(out@ =~= start + bounds_upto(model.columns@, i + 1));
        i = i + 1;
    }
}

/// Writes everything after the preamble of a model whose objective is
/// linear.
fn write_body(model: &LinearModel, terms: &ObjectiveTerms, maximize: bool, out: &mut String) -> (r:
    Result<(), IoError>)
    requires
        model.objective is Some,
        model.objective.unwrap().terms is Some,
        *terms == obj_terms(*model),
        maximize == is_max(*model),
    ensures
        r is Ok <==> rows_linear(*model),
        r is Err ==> (r matches Err(IoError::Nonlinear)),
        r is Ok ==> final(out)@ == old(out)@ + mps_body(*model),
        r is Err ==> final(out)@ == old(out)@ + partial_body(*model),
{
    let ghost start = out@;
    let all_linear = rows_all_linear(&model.rows);
    if !all_linear && model.columns.len() > 0 {
        write_marker(model, 0, out);
        return Err(IoError::Nonlinear);
    }
    if all_linear {
        write_columns(model, terms, maximize, out);
    } else {
        assert(columns_upto(*model, 0) =~= Seq::<char>::empty());
        assert(columns_close(*model) =~= Seq::<char>::empty());
    }
    let ghost after_columns = out@;
    out.append("RHS\n");
    write_obj_rhs(model, terms, maximize, out);
    let rr = write_row_rhs(model, out);
    if rr.is_err() {
        assert(out@ =~= start + partial_body(*model));
        return Err(IoError::Nonlinear);
    }
    assert(out@ =~= after_columns + rhs_section(*model));
    out.append("BOUNDS\n");
    write_bounds(model, out);
    out.append("ENDATA\n");
    assert(out@ =~= start + mps_body(*model));
    Ok(())
}

/// Writes `model` in fixed-format MPS, appending the text to `out`.
///
/// MPS only represents linear LP / MILP. A model without an objective gives
/// `NoObjective` and nothing is written; a nonlinear objective gives
/// `Nonlinear` and nothing is written; a nonlinear constraint gives
/// `Nonlinear` after the part of the file that precedes the point where it is
/// found. The objective row is named `OBJ`; a maximization is written as the
/// minimization of the negated objective, with a `* sense: maximize` comment.
pub fn write_mps(model: &LinearModel, out: &mut String) -> (r: Result<(), IoError>)
    ensures
        r is Ok <==> mps_ok(*model),
        model.objective is None ==> r matches Err(IoError::NoObjective),
        model.objective is Some && !mps_ok(*model) ==> r matches Err(IoError::Nonlinear),
        r is Ok ==> final(out)@ == old(out)@ + mps_text(*model),
        r is Err ==> final(out)@ == old(out)@ + mps_partial(*model),
{
    let ghost start = out@;
    let objective = match &model.objective {
        None => {
            assert(out@ =~= start + mps_partial(*model));
            return Err(IoError::NoObjective);
        },
        Some(o) => o,
    };
    let terms = match &objective.terms {
        None => {
            assert(out@ =~= start + mps_partial(*model));
            return Err(IoError::Nonlinear);
        },
        Some(t) => t,
    };
    let maximize = match objective.sense {
        ObjectiveSense::Maximize => true,
        ObjectiveSense::Minimize => false,
    };
    write_header(model, out);
    write_rows(model, out);
    out.append("COLUMNS\n");
    assert(out@ =~= start + preamble(*model));
    let r = write_body(model, terms, maximize, out);
    proof {
        assert(start + preamble(*model) + mps_body(*model) =~= start + mps_text(*model));
        assert(start + preamble(*model) + partial_body(*model) =~= start + mps_partial(*model));
    }
    r
}

/// Renders the MPS text of `model` into a `String`.
pub fn to_mps_string(model: &LinearModel) -> (r: Result<String, IoError>)
    ensures
        r is Ok <==> mps_ok(*model),
        model.objective is None ==> r matches Err(IoError::NoObjective),
        model.objective is Some && !mps_ok(*model) ==> r matches Err(IoError::Nonlinear),
        r matches Ok(s) ==> s@ == mps_text(*model),
{
    let mut buf = String::new();
    match write_mps(model, &mut buf) {
        Ok(()) => {
            assert(buf@ =~= mps_text(*model));
            Ok(buf)
        },
        Err(e) => Err(e),
    }
}

} // verus!
