use urm::column::Column;
use urm::expr::{Expr, Operand, Value};
use urm::field::{Field, Foreign, Quantified};
use urm::func::{Contains, Equals};
use urm::logic::{And, Or};
use urm::lower::{lower_logic, optimize, Lower, LowerWhere, LogicOp, Lowered};
use urm::node::project;
use urm::query::select;
use urm::ty::{Unit, Void};
use urm::value::{Scalar, Vector};
use urm::LocalId;

fn eq(name: &str, value: &str) -> Equals<Column<Unit<String>>, Scalar<String>> {
    Equals(Column::new(name, LocalId(0)), Scalar(value.to_string()))
}

fn leaf_names(l: &Lowered) -> Vec<String> {
    match l {
        Lowered::And(v) | Lowered::Or(v) => v.iter().flat_map(leaf_names).collect(),
        Lowered::Expr(Expr::Equals(Operand::Column(c), _)) => vec![c.clone()],
        Lowered::Expr(_) => vec!["?".to_string()],
    }
}

fn and_operands(l: &Option<Lowered>) -> Vec<String> {
    match l {
        Some(Lowered::And(v)) => v.iter().map(|x| leaf_names(x).join("+")).collect(),
        _ => panic!("expected a conjunction"),
    }
}

#[test]
fn conjunctions_flatten_the_same_way() {
    let balanced = And(And(eq("a", "1"), eq("b", "2")), And(eq("c", "3"), eq("d", "4"))).lower();
    let nested = And(eq("a", "1"), And(eq("b", "2"), And(eq("c", "3"), eq("d", "4")))).lower();
    assert_eq!(and_operands(&balanced), vec!["a", "b", "c", "d"]);
    assert_eq!(and_operands(&nested), vec!["a", "b", "c", "d"]);
}

#[test]
fn disjunction_inside_conjunction_stays_a_node() {
    let l = And(Or(eq("a", "1"), eq("b", "2")), And(eq("c", "3"), Or(eq("d", "4"), eq("e", "5")))).lower();
    match l {
        Some(Lowered::And(v)) => {
            assert_eq!(v.len(), 3);
            assert!(matches!(v[0], Lowered::Or(ref o) if o.len() == 2));
            assert!(matches!(v[1], Lowered::Expr(_)));
            assert!(matches!(v[2], Lowered::Or(ref o) if o.len() == 2));
        }
        _ => panic!("expected a conjunction"),
    }
}

#[test]
fn absent_operands_collapse() {
    assert!(And(Void::<bool>::new(), Void::<bool>::new()).lower().is_none());
    assert!(Or(Void::<bool>::new(), None::<Equals<Column<Unit<String>>, Scalar<String>>>).lower().is_none());
    match And(eq("a", "1"), Void::<bool>::new()).lower() {
        Some(Lowered::Expr(Expr::Equals(Operand::Column(c), Operand::Param(Value::Text(v))))) => {
            assert_eq!(c, "a");
            assert_eq!(v, "1");
        }
        _ => panic!("expected the single operand, unwrapped"),
    }
    match Or(Void::<bool>::new(), And(eq("a", "1"), eq("b", "2"))).lower() {
        Some(Lowered::And(v)) => assert_eq!(v.len(), 2),
        _ => panic!("expected the conjunction itself"),
    }
    assert!(optimize(LogicOp::Or, vec![]).is_none());
    assert!(lower_logic(LogicOp::And, None, None).is_none());
}

#[test]
fn contains_lowers_to_any() {
    let l = Contains(Vector(vec!["foo".to_string(), "bar".to_string()]), Column::<Unit<String>>::new("id", LocalId(0)))
        .lower_where();
    match l {
        Some(Lowered::Expr(Expr::Contains { vector: Operand::Param(Value::TextArray(v)), item: Operand::Column(c) })) => {
            assert_eq!(v, vec!["foo".to_string(), "bar".to_string()]);
            assert_eq!(c, "id");
        }
        _ => panic!("expected a containment test"),
    }
    match Equals(Column::<Unit<i64>>::new("year", LocalId(2)), Scalar(2020i64)).lower() {
        Some(Lowered::Expr(Expr::Equals(Operand::Column(c), Operand::Param(Value::Integer(n))))) => {
            assert_eq!(c, "year");
            assert_eq!(n, 2020);
        }
        _ => panic!("expected an equality"),
    }
}

#[test]
fn filtering_twice_is_a_conjunction() {
    let (engine, _) = select("edition").filter(eq("a", "1")).filter(Or(eq("b", "2"), eq("c", "3"))).probe();
    let sql = engine.build_query();
    assert!(sql.ends_with("WHERE\n (\n  a0.a = ?\n  AND\n  (\n   a0.b = ?\n   OR\n   a0.c = ?\n  )\n )"));
}

#[test]
fn relation_filter_twice_is_a_conjunction() {
    let rel = Foreign::new("edition", vec!["id".to_string()], vec!["publication_id".to_string()], Quantified::AsVec)
        .unwrap()
        .filter(eq("a", "1"))
        .filter(eq("b", "2"));
    let (mut engine, root) = select("publication").probe();
    project(&mut engine, &root, vec![Field::foreign("editions", LocalId(1), rel)]).unwrap();
    match &engine.select(1).filter {
        Some(Lowered::And(v)) => assert_eq!(v.len(), 3),
        _ => panic!("expected one flat conjunction"),
    }
}

#[test]
fn column_accessors() {
    let c = Column::<Unit<String>>::new("title", LocalId(7));
    assert_eq!(c.name(), "title");
    assert_eq!(c.local_id(), LocalId(7));
}
