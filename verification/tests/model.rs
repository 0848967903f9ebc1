use oximo::expr::{sum, ExprArena, ExprNode};
use oximo::ids::{ConstraintId, ExprId, ParamId, VarId};
use oximo::indexed::IndexedVar;
use oximo::model::{Domain, Objective, ObjectiveSense};
use oximo::number::Number;
use oximo::result::SolverResult;
use oximo::set::{IndexKey, IndexSet};
use oximo::gurobi::{
    collect_solution, dual_map, solution_parts, status_from_gurobi, var_map, GurobiStatus,
    SolutionParts,
};
use oximo::solver::{Gams, Gurobi, ModelKind, Solver, SolverStatus};

fn num(s: &str) -> Number {
    Number::new(s.to_string())
}

#[test]
fn number_tests() {
    assert!(num("0").is_zero());
    assert!(num("-0").is_zero());
    assert!(!num("0.5").is_zero());
    assert!(!num("NaN").is_zero());
    assert!(num("-inf").is_neg_infinity());
    assert!(!num("inf").is_neg_infinity());
    assert!(num("inf").is_pos_infinity());
    assert_eq!(num("3").neg().text, "-3");
    assert_eq!(num("-2.5").neg().text, "2.5");
    assert_eq!(num("0").neg().text, "-0");
    assert_eq!(num("-0").neg().text, "0");
    assert_eq!(num("inf").neg().text, "-inf");
    assert_eq!(num("NaN").neg().text, "NaN");
    assert_eq!(num("0.0000001").neg().neg().text, "0.0000001");
}

#[test]
fn domain_integer_classes() {
    assert!(!Domain::Real.is_integer());
    assert!(Domain::Integer.is_integer());
    assert!(Domain::Binary.is_integer());
    assert!(!Domain::SemiContinuous { threshold: num("2") }.is_integer());
    assert!(Domain::SemiInteger { threshold: num("2") }.is_integer());
    assert_eq!(Domain::default(), Domain::Real);
}

#[test]
fn arena_builds_nodes_in_order() {
    let mut a = ExprArena::new();
    let x = a.var(VarId(0));
    let y = a.var(VarId(1));
    let c = a.constant(num("2"));
    let p = a.param(ParamId(0));
    let m = a.mul(c, y);
    let s = a.add(x, m);
    let d = a.sub(s, p);
    let n = a.neg(d);
    assert_eq!((x, y, c, p, m, s, d, n), (ExprId(0), ExprId(1), ExprId(2), ExprId(3), ExprId(4), ExprId(5), ExprId(6), ExprId(7)));
    assert_eq!(a.len(), 8);
    assert!(matches!(a.get(m), ExprNode::Mul(ExprId(2), ExprId(1))));
    assert!(matches!(a.get(s), ExprNode::Add(ExprId(0), ExprId(4))));
    assert!(matches!(a.get(d), ExprNode::Sub(ExprId(5), ExprId(3))));
    assert!(matches!(a.get(n), ExprNode::Neg(ExprId(6))));
    assert!(matches!(a.get(x), ExprNode::Var(VarId(0))));
    assert!(matches!(a.get(c), ExprNode::Const(k) if k.text == "2"));
}

#[test]
fn sum_folds_left_to_right() {
    let mut a = ExprArena::new();
    let xs: Vec<ExprId> = (0..4).map(|i| a.var(VarId(i))).collect();
    let total = sum(&mut a, &xs);
    assert_eq!(total, ExprId(6));
    assert_eq!(a.len(), 7);
    assert!(matches!(a.get(ExprId(4)), ExprNode::Add(ExprId(0), ExprId(1))));
    assert!(matches!(a.get(ExprId(5)), ExprNode::Add(ExprId(4), ExprId(2))));
    assert!(matches!(a.get(ExprId(6)), ExprNode::Add(ExprId(5), ExprId(3))));
}

#[test]
fn sum_of_one_item_is_the_item() {
    let mut a = ExprArena::new();
    let x = a.var(VarId(9));
    let total = sum(&mut a, &vec![x]);
    assert_eq!(total, x);
    assert_eq!(a.len(), 1);
}

#[test]
fn objective_holds_expr_and_sense() {
    let o = Objective { expr: ExprId(3), sense: ObjectiveSense::Maximize };
    let p = o.clone();
    assert_eq!(p.expr, ExprId(3));
    assert_eq!(p.sense, ObjectiveSense::Maximize);
}

#[test]
fn index_set_range_and_strings() {
    let r = IndexSet::range(2..5);
    assert_eq!(r.len(), 3);
    assert!(!r.is_empty());
    assert_eq!(r.keys(), vec![IndexKey::Int(2), IndexKey::Int(3), IndexKey::Int(4)]);
    assert!(IndexSet::range(5..2).is_empty());
    let s = IndexSet::strings(&["a", "b"]);
    assert_eq!(s.len(), 2);
    assert_eq!(s.keys(), vec![IndexKey::Str("a".to_string()), IndexKey::Str("b".to_string())]);
    let f = IndexSet::from_iter_i64(vec![7, -1]);
    assert_eq!(f.keys(), vec![IndexKey::Int(7), IndexKey::Int(-1)]);
    assert_eq!(f.key_at(1), Some(IndexKey::Int(-1)));
    assert_eq!(f.key_at(2), None);
}

#[test]
fn index_set_iter_walks_in_order() {
    let s = IndexSet::strings(&["x", "y"]);
    let mut it = s.iter();
    assert_eq!(it.next(), Some(IndexKey::Str("x".to_string())));
    assert_eq!(it.next(), Some(IndexKey::Str("y".to_string())));
    assert_eq!(it.next(), None);
    assert_eq!(it.next(), None);
}

#[test]
fn index_key_conversions() {
    assert_eq!(IndexKey::from(4i64), IndexKey::Int(4));
    assert_eq!(IndexKey::from("k"), IndexKey::Str("k".to_string()));
    assert_eq!(IndexKey::from("k".to_string()), IndexKey::Str("k".to_string()));
    assert_eq!(IndexKey::Str("z".to_string()).copy(), IndexKey::Str("z".to_string()));
}

#[test]
fn indexed_var_lookup() {
    let mut v = IndexedVar::new();
    assert!(v.is_empty());
    assert_eq!(v.insert(IndexKey::Int(0), ExprId(10)), None);
    assert_eq!(v.insert(IndexKey::from("b"), ExprId(11)), None);
    assert_eq!(v.insert(IndexKey::Int(0), ExprId(12)), Some(ExprId(10)));
    assert_eq!(v.len(), 2);
    assert_eq!(v.get(IndexKey::Int(0)), Some(ExprId(12)));
    assert_eq!(v.get(IndexKey::from("b")), Some(ExprId(11)));
    assert_eq!(v.get(IndexKey::Int(1)), None);
    let mut pairs = v.iter();
    pairs.sort_by_key(|(_, e)| e.0);
    assert_eq!(pairs, vec![(IndexKey::from("b"), ExprId(11)), (IndexKey::Int(0), ExprId(12))]);
}

#[test]
fn solver_result_lookups() {
    let mut a = ExprArena::new();
    let x = a.var(VarId(0));
    let y = a.var(VarId(1));
    let s = a.add(x, y);
    let mut r = SolverResult::default();
    assert_eq!(r.status, SolverStatus::NotSolved);
    assert!(r.objective.is_none());
    assert_eq!(r.iterations, 0);
    assert_eq!(r.value(VarId(0)), None);
    r.set_value(VarId(0), num("6"));
    r.set_dual(ConstraintId(2), num("-1.5"));
    assert_eq!(r.value(VarId(0)).map(|n| n.text), Some("6".to_string()));
    assert_eq!(r.value_of(&a, x).map(|n| n.text), Some("6".to_string()));
    assert_eq!(r.value_of(&a, y), None);
    assert_eq!(r.value_of(&a, s), None);
    assert_eq!(r.dual_of(ConstraintId(2)).map(|n| n.text), Some("-1.5".to_string()));
    assert_eq!(r.dual_of(ConstraintId(0)), None);

    let mut iv = IndexedVar::new();
    iv.insert(IndexKey::Int(0), x);
    iv.insert(IndexKey::Int(1), y);
    assert_eq!(r.value_of_idx(&a, &iv, IndexKey::Int(0)).map(|n| n.text), Some("6".to_string()));
    assert_eq!(r.value_of_idx(&a, &iv, IndexKey::Int(1)), None);
    assert_eq!(r.value_of_idx(&a, &iv, IndexKey::Int(5)), None);
    let vals = r.values_of(&a, &iv);
    assert_eq!(vals.len(), 1);
    assert_eq!(vals[0].0, IndexKey::Int(0));
    assert_eq!(vals[0].1.text, "6");
}

#[test]
fn backends_name_and_kinds() {
    let g = Gams::new();
    assert!(g.exec_path.is_none());
    assert_eq!(Gams::with_exec("/opt/gams/gams").exec_path, Some("/opt/gams/gams".to_string()));
    assert_eq!(g.name(), "gams");
    assert_eq!(Gurobi.name(), "gurobi");
    for b in [true, false] {
        let kinds = [ModelKind::LP, ModelKind::MILP, ModelKind::QP, ModelKind::MIQP, ModelKind::NLP, ModelKind::MINLP];
        for (i, k) in kinds.iter().enumerate() {
            let s = if b { g.supports(*k) } else { Gurobi.supports(*k) };
            assert_eq!(s, i < 2);
        }
    }
}

#[test]
fn gurobi_status_mapping() {
    assert_eq!(status_from_gurobi(GurobiStatus::Optimal), SolverStatus::Optimal);
    assert_eq!(status_from_gurobi(GurobiStatus::Infeasible), SolverStatus::Infeasible);
    assert_eq!(status_from_gurobi(GurobiStatus::InfOrUnbd), SolverStatus::Unbounded);
    assert_eq!(status_from_gurobi(GurobiStatus::Unbounded), SolverStatus::Unbounded);
    assert_eq!(status_from_gurobi(GurobiStatus::Numeric), SolverStatus::NumericError);
    assert_eq!(status_from_gurobi(GurobiStatus::NodeLimit), SolverStatus::TimeLimit);
    assert_eq!(status_from_gurobi(GurobiStatus::IterationLimit), SolverStatus::TimeLimit);
    assert_eq!(status_from_gurobi(GurobiStatus::TimeLimit), SolverStatus::TimeLimit);
    assert_eq!(status_from_gurobi(GurobiStatus::SubOptimal), SolverStatus::Feasible);
    assert_eq!(status_from_gurobi(GurobiStatus::Loaded), SolverStatus::NotSolved);
    assert_eq!(status_from_gurobi(GurobiStatus::CutOff), SolverStatus::Other("Status: CutOff".to_string()));
    assert_eq!(status_from_gurobi(GurobiStatus::UserObjLimit), SolverStatus::Other("Status: UserObjLimit".to_string()));
    assert_eq!(format!("Status: {:?}", GurobiStatus::Interrupted), "Status: Interrupted");
    assert_eq!(status_from_gurobi(GurobiStatus::Interrupted), SolverStatus::Other("Status: Interrupted".to_string()));
    assert_eq!(status_from_gurobi(GurobiStatus::SolutionLimit), SolverStatus::Other("Status: SolutionLimit".to_string()));
    assert_eq!(status_from_gurobi(GurobiStatus::InProgress), SolverStatus::Other("Status: InProgress".to_string()));
    assert!(SolverStatus::Optimal.has_solution());
    assert!(SolverStatus::Feasible.has_solution());
    assert!(!SolverStatus::TimeLimit.has_solution());
}

#[test]
fn number_from_integers() {
    assert_eq!(Number::from_i32(0).text, "0");
    assert_eq!(Number::from_i32(7).text, "7");
    assert_eq!(Number::from_i32(-42).text, "-42");
    assert_eq!(Number::from_i32(1000).text, "1000");
    assert_eq!(Number::from_i32(i32::MAX).text, (i32::MAX as f64).to_string());
    assert_eq!(Number::from_i32(i32::MIN).text, (i32::MIN as f64).to_string());
    for i in [-1000, -10, -9, -1, 1, 9, 10, 99, 100, 123456] {
        assert_eq!(Number::from_i32(i).text, (i as f64).to_string());
    }
}

#[test]
fn scalar_operations_store_the_constant_first() {
    let mut a = ExprArena::new();
    let x = a.var(VarId(0));
    let p = a.add_scalar(x, Number::from_i32(2));
    assert_eq!(p, ExprId(2));
    assert!(matches!(a.get(ExprId(1)), ExprNode::Const(k) if k.text == "2"));
    assert!(matches!(a.get(p), ExprNode::Add(ExprId(0), ExprId(1))));
    let q = a.sub_scalar(x, num("1.5"));
    assert!(matches!(a.get(q), ExprNode::Sub(ExprId(0), ExprId(3))));
    let r = a.scalar_sub(num("4"), x);
    assert!(matches!(a.get(r), ExprNode::Sub(ExprId(5), ExprId(0))));
    let m = a.mul_scalar(x, num("3"));
    assert!(matches!(a.get(m), ExprNode::Mul(ExprId(0), ExprId(7))));
    assert_eq!(a.len(), 9);
}

#[test]
fn solution_parts_decisions() {
    let none = SolutionParts { primal: false, duals: false };
    assert_eq!(solution_parts(&SolverStatus::TimeLimit, ModelKind::LP, 0), none);
    assert_eq!(solution_parts(&SolverStatus::TimeLimit, ModelKind::LP, 1), SolutionParts { primal: true, duals: true });
    assert_eq!(solution_parts(&SolverStatus::Optimal, ModelKind::MILP, 0), SolutionParts { primal: true, duals: false });
    assert_eq!(solution_parts(&SolverStatus::Feasible, ModelKind::LP, -1), SolutionParts { primal: true, duals: true });
    assert_eq!(solution_parts(&SolverStatus::Infeasible, ModelKind::QP, 0), none);
}

#[test]
fn indexed_var_index() {
    let mut v = IndexedVar::new();
    v.insert(IndexKey::from("a"), ExprId(3));
    assert_eq!(v.index(IndexKey::from("a")), ExprId(3));
}

#[test]
fn gurobi_parameters_and_names() {
    assert_eq!(oximo::gurobi::var_type(&Domain::Real), oximo::gurobi::GurobiVarType::Continuous);
    assert_eq!(oximo::gurobi::var_type(&Domain::Integer), oximo::gurobi::GurobiVarType::Integer);
    assert_eq!(oximo::gurobi::var_type(&Domain::Binary), oximo::gurobi::GurobiVarType::Binary);
    assert_eq!(
        oximo::gurobi::var_type(&Domain::SemiContinuous { threshold: num("1") }),
        oximo::gurobi::GurobiVarType::SemiCont
    );
    assert_eq!(
        oximo::gurobi::var_type(&Domain::SemiInteger { threshold: num("1") }),
        oximo::gurobi::GurobiVarType::SemiInt
    );
    assert_eq!(oximo::gurobi::column_name(0), "x0");
    assert_eq!(oximo::gurobi::column_name(1234), "x1234");
    assert_eq!(oximo::gurobi::row_name(7), "c7");
    assert_eq!(oximo::gurobi::row_name(u64::MAX), format!("c{}", u64::MAX));
    assert_eq!(oximo::gurobi::presolve_code(oximo::options::Presolve::Off), 0);
    assert_eq!(oximo::gurobi::presolve_code(oximo::options::Presolve::Auto), -1);
    assert_eq!(oximo::gurobi::presolve_code(oximo::options::Presolve::On), 2);
    assert_eq!(oximo::gurobi::threads_param(4), 4);
    assert_eq!(oximo::gurobi::threads_param(u32::MAX), i32::MAX);
    assert_eq!(oximo::gurobi::threads_param(i32::MAX as u32), i32::MAX);
    assert_eq!(oximo::gurobi::output_flag(true), 1);
    assert_eq!(oximo::gurobi::output_flag(false), 0);
    assert!(oximo::gurobi::needs_nonconvex(ModelKind::QP, 0));
    assert!(oximo::gurobi::needs_nonconvex(ModelKind::MINLP, -1));
    assert!(!oximo::gurobi::needs_nonconvex(ModelKind::NLP, 2));
    assert!(!oximo::gurobi::needs_nonconvex(ModelKind::LP, 0));
    assert!(!oximo::gurobi::needs_nonconvex(ModelKind::MILP, 0));
}

#[test]
fn collect_solution_keys_values_by_position() {
    let m = var_map(&vec![num("1"), num("2.5")]);
    assert_eq!(m.len(), 2);
    assert_eq!(m.get(&VarId(1)).map(|n| n.text.clone()), Some("2.5".to_string()));
    let d = dual_map(&vec![None, Some(num("-3"))]);
    assert_eq!(d.len(), 1);
    assert_eq!(d.get(&ConstraintId(1)).map(|n| n.text.clone()), Some("-3".to_string()));

    let (p, rc, du) = collect_solution(
        &SolverStatus::Optimal,
        ModelKind::LP,
        1,
        Some(vec![num("6"), num("4")]),
        Some(vec![num("0"), num("1")]),
        vec![Some(num("0.5")), None],
    );
    assert_eq!(p.len(), 2);
    assert_eq!(rc.get(&VarId(1)).map(|n| n.text.clone()), Some("1".to_string()));
    assert_eq!(du.len(), 1);

    let (p, rc, du) = collect_solution(&SolverStatus::Optimal, ModelKind::MILP, 1, Some(vec![num("6")]), Some(vec![num("0")]), vec![Some(num("1"))]);
    assert_eq!((p.len(), rc.len(), du.len()), (1, 0, 0));

    let (p, rc, du) = collect_solution(&SolverStatus::Infeasible, ModelKind::LP, 0, Some(vec![num("6")]), None, vec![]);
    assert_eq!((p.len(), rc.len(), du.len()), (0, 0, 0));

    let (p, rc, du) = collect_solution(&SolverStatus::TimeLimit, ModelKind::LP, 2, None, None, vec![None]);
    assert_eq!((p.len(), rc.len(), du.len()), (0, 0, 0));
}

#[test]
fn index_set_iteration_matches_keys_and_len() {
    for s in [IndexSet::range(-2..3), IndexSet::strings(&["p", "q", "r"]), IndexSet::from_iter_i64(vec![])] {
        let mut it = s.iter();
        let mut seen = Vec::new();
        for _ in 0..s.len() + 3 {
            if let Some(k) = it.next() {
                seen.push(k);
            }
        }
        assert_eq!(seen.len(), s.len());
        assert_eq!(seen, s.keys());
        assert_eq!(s.is_empty(), s.len() == 0);
    }
}
