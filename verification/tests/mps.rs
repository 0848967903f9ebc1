use oximo::error::IoError;
use oximo::ids::VarId;
use oximo::linear::{Column, LinearModel, ObjectiveRow, ObjectiveTerms, Row, RowTerms};
use oximo::model::{Domain, ObjectiveSense, Sense};
use oximo::mps::{to_mps_string, write_mps};
use oximo::number::Number;

fn num(s: &str) -> Number {
    Number::new(s.to_string())
}

fn col(id: u32, name: &str, domain: Domain, lb: &str, ub: &str) -> Column {
    Column { id: VarId(id), name: name.to_string(), domain, lb: num(lb), ub: num(ub) }
}

fn terms(pairs: &[(u32, &str)]) -> Vec<(VarId, Number)> {
    pairs.iter().map(|(v, c)| (VarId(*v), num(c))).collect()
}

fn row(name: &str, sense: Sense, pairs: &[(u32, &str)], rhs: &str) -> Row {
    Row { name: name.to_string(), sense, terms: Some(RowTerms { coeffs: terms(pairs), rhs: num(rhs) }) }
}

fn objective(sense: ObjectiveSense, pairs: &[(u32, &str)], constant: &str) -> Option<ObjectiveRow> {
    Some(ObjectiveRow { sense, terms: Some(ObjectiveTerms { coeffs: terms(pairs), constant: num(constant) }) })
}

/// x >= 0, 0 <= y <= 4, c1: x + 2y <= 14, minimize 3x + 4y.
fn transport(sense: ObjectiveSense) -> LinearModel {
    LinearModel {
        name: "transport".to_string(),
        columns: vec![col(0, "x", Domain::Real, "0", "inf"), col(1, "y", Domain::Real, "0", "4")],
        rows: vec![row("c1", Sense::Le, &[(0, "1"), (1, "2")], "14")],
        objective: objective(sense, &[(0, "3"), (1, "4")], "0"),
    }
}

#[test]
fn mps_export_round_trips_objective() {
    let m = transport(ObjectiveSense::Minimize);
    let s = to_mps_string(&m).unwrap();
    assert!(s.contains("NAME"));
    assert!(s.contains("OBJ"));
    assert!(s.contains("c1"));
    assert!(s.contains("ENDATA"));
}

#[test]
fn mps_transport_exact_text() {
    let s = to_mps_string(&transport(ObjectiveSense::Minimize)).unwrap();
    let expected = "* OXIMO MPS export\n\
* sense: minimize\n\
NAME          transport\n\
ROWS\n \
N  OBJ\n \
L  c1\n\
COLUMNS\n    \
x         OBJ       3\n    \
x         c1        1\n    \
y         OBJ       4\n    \
y         c1        2\n\
RHS\n    \
RHS       c1        14\n\
BOUNDS\n \
UP BND       y         4\n\
ENDATA\n";
    assert_eq!(s, expected);
}

#[test]
fn mps_maximize_negates_objective_row() {
    let s = to_mps_string(&transport(ObjectiveSense::Maximize)).unwrap();
    assert!(s.contains("* sense: maximize\n"));
    assert!(s.contains("    x         OBJ       -3\n"));
    assert!(s.contains("    y         OBJ       -4\n"));
    assert!(s.contains("    x         c1        1\n"));
}

#[test]
fn mps_maximize_matches_negated_minimize_body() {
    let max = to_mps_string(&transport(ObjectiveSense::Maximize)).unwrap();
    let mut min_model = transport(ObjectiveSense::Minimize);
    min_model.objective = objective(ObjectiveSense::Minimize, &[(0, "-3"), (1, "-4")], "-0");
    let min = to_mps_string(&min_model).unwrap();
    let body = |s: &str| s[s.find("NAME").unwrap()..].to_string();
    assert_eq!(body(&max), body(&min));
    assert!(min.contains("* sense: minimize\n"));
}

#[test]
fn mps_objective_constant_goes_to_rhs_negated() {
    let mut m = transport(ObjectiveSense::Minimize);
    m.objective = objective(ObjectiveSense::Minimize, &[(0, "3")], "2.5");
    let s = to_mps_string(&m).unwrap();
    assert!(s.contains("RHS\n    RHS       OBJ       -2.5\n"));
    m.objective = objective(ObjectiveSense::Maximize, &[(0, "3")], "2.5");
    let s = to_mps_string(&m).unwrap();
    assert!(s.contains("RHS\n    RHS       OBJ       2.5\n"));
}

#[test]
fn mps_integer_columns_are_wrapped_in_markers() {
    let m = LinearModel {
        name: "mixed".to_string(),
        columns: vec![
            col(0, "a", Domain::Integer, "0", "10"),
            col(1, "b", Domain::Binary, "0", "1"),
            col(2, "c", Domain::Real, "0", "inf"),
            col(3, "d", Domain::SemiInteger { threshold: num("2") }, "0", "9"),
        ],
        rows: vec![],
        objective: objective(ObjectiveSense::Minimize, &[(0, "1"), (1, "1"), (2, "1"), (3, "1")], "0"),
    };
    let s = to_mps_string(&m).unwrap();
    let org = "    MARKER                 'MARKER'                 'INTORG'\n";
    let end = "    MARKER                 'MARKER'                 'INTEND'\n";
    let expected_columns = format!(
        "COLUMNS\n{org}    a         OBJ       1\n    b         OBJ       1\n{end}    c         OBJ       1\n{org}    d         OBJ       1\n{end}RHS\n"
    );
    assert!(s.contains(&expected_columns), "{s}");
}

#[test]
fn mps_bounds_lines() {
    let m = LinearModel {
        name: "bounds".to_string(),
        columns: vec![
            col(0, "free", Domain::Real, "-inf", "inf"),
            col(1, "below", Domain::Real, "-inf", "7"),
            col(2, "lo", Domain::Real, "-3", "inf"),
            col(3, "both", Domain::Real, "1.5", "2"),
            col(4, "dflt", Domain::Real, "0", "inf"),
            col(5, "negzero", Domain::Real, "-0", "inf"),
        ],
        rows: vec![],
        objective: objective(ObjectiveSense::Minimize, &[], "0"),
    };
    let s = to_mps_string(&m).unwrap();
    let expected = "BOUNDS\n FR BND       free\n MI BND       below\n UP BND       below     7\n LO BND       lo        -3\n LO BND       both      1.5\n UP BND       both      2\nENDATA\n";
    assert!(s.ends_with(expected), "{s}");
}

#[test]
fn mps_long_names_are_not_cut() {
    let m = LinearModel {
        name: "long".to_string(),
        columns: vec![col(0, "a_long_column_name", Domain::Real, "0", "inf")],
        rows: vec![row("a_long_row_name", Sense::Ge, &[(0, "1")], "3")],
        objective: objective(ObjectiveSense::Minimize, &[], "0"),
    };
    let s = to_mps_string(&m).unwrap();
    assert!(s.contains(" G  a_long_row_name\n"));
    assert!(s.contains("    a_long_column_namea_long_row_name1\n"));
    assert!(s.contains("    RHS       a_long_row_name3\n"));
}

#[test]
fn mps_rows_of_each_sense() {
    let m = LinearModel {
        name: "senses".to_string(),
        columns: vec![col(0, "x", Domain::Real, "0", "inf")],
        rows: vec![
            row("le", Sense::Le, &[(0, "1")], "1"),
            row("ge", Sense::Ge, &[(0, "1")], "0"),
            row("eq", Sense::Eq, &[(0, "1")], "-0"),
        ],
        objective: objective(ObjectiveSense::Minimize, &[(0, "1")], "0"),
    };
    let s = to_mps_string(&m).unwrap();
    assert!(s.contains("ROWS\n N  OBJ\n L  le\n G  ge\n E  eq\nCOLUMNS\n"));
    assert!(s.contains("RHS\n    RHS       le        1\nBOUNDS\n"));
}

#[test]
fn mps_no_objective_is_an_error() {
    let mut m = transport(ObjectiveSense::Minimize);
    m.objective = None;
    let mut out = String::new();
    assert!(matches!(write_mps(&m, &mut out), Err(IoError::NoObjective)));
    assert!(out.is_empty());
    assert!(matches!(to_mps_string(&m), Err(IoError::NoObjective)));
}

#[test]
fn mps_nonlinear_objective_is_an_error() {
    let mut m = transport(ObjectiveSense::Minimize);
    m.objective = Some(ObjectiveRow { sense: ObjectiveSense::Minimize, terms: None });
    let mut out = String::new();
    assert!(matches!(write_mps(&m, &mut out), Err(IoError::Nonlinear)));
    assert!(out.is_empty());
}

#[test]
fn mps_nonlinear_constraint_stops_before_entries() {
    let mut m = transport(ObjectiveSense::Minimize);
    m.columns[0].domain = Domain::Integer;
    m.rows.push(Row { name: "nl".to_string(), sense: Sense::Le, terms: None });
    let mut out = String::new();
    assert!(matches!(write_mps(&m, &mut out), Err(IoError::Nonlinear)));
    assert!(out.ends_with("COLUMNS\n    MARKER                 'MARKER'                 'INTORG'\n"), "{out}");
    assert!(matches!(to_mps_string(&m), Err(IoError::Nonlinear)));
}

#[test]
fn mps_nonlinear_constraint_without_columns_stops_in_rhs() {
    let m = LinearModel {
        name: "empty".to_string(),
        columns: vec![],
        rows: vec![
            row("r0", Sense::Le, &[], "5"),
            Row { name: "r1".to_string(), sense: Sense::Le, terms: None },
            row("r2", Sense::Le, &[], "6"),
        ],
        objective: objective(ObjectiveSense::Minimize, &[], "1"),
    };
    let mut out = String::from("prefix\n");
    assert!(matches!(write_mps(&m, &mut out), Err(IoError::Nonlinear)));
    assert!(out.starts_with("prefix\n* OXIMO MPS export\n"));
    assert!(out.ends_with("COLUMNS\nRHS\n    RHS       OBJ       -1\n    RHS       r0        5\n"), "{out}");
}

#[test]
fn mps_write_appends_to_existing_text() {
    let m = transport(ObjectiveSense::Minimize);
    let mut out = String::from("# header\n");
    write_mps(&m, &mut out).unwrap();
    assert_eq!(out, format!("# header\n{}", to_mps_string(&m).unwrap()));
}

#[test]
fn io_error_messages() {
    assert_eq!(IoError::NoObjective.message(), "model has no objective");
    assert_eq!(IoError::Nonlinear.message(), "nonlinear nodes are not representable in this format");
    let e = IoError::Io(std::io::Error::new(std::io::ErrorKind::Other, "disk full"));
    assert_eq!(e.message(), "io: disk full");
}
