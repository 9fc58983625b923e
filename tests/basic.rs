use urm::builder::QueryBuilder;
use urm::column::Column;
use urm::engine::{Engine, QueryField};
use urm::expr::{Expr, Operand};
use urm::field::{ColumnTuple, Direction, Field, FieldKind, Primitive, Quantified, Foreign, RowRange, Table};
use urm::func::Contains;
use urm::lower::Lowered;
use urm::node::{project, Node, Phase, UrmError};
use urm::query::select;
use urm::ty::Unit;
use urm::value::Vector;
use urm::LocalId;

fn strings(items: &[&str]) -> Vec<String> {
    items.iter().map(|s| s.to_string()).collect()
}

// publication(id) has editions: [edition], by edition(publication_id) => self(id)
fn publication_editions() -> Field {
    let (rel, dir) = Foreign::declare(
        ColumnTuple { table: Table::Foreign("edition".to_string()), columns: strings(&["publication_id"]) },
        ColumnTuple { table: Table::SelfTable, columns: strings(&["id"]) },
    )
    .unwrap();
    assert_eq!(dir, Direction::ForeignReferencesSelf);
    Field::foreign("editions", LocalId(1), rel)
}

// edition(id, publication_id) has publication: publication, by self(publication_id) => publication(id)
fn edition_publication_relation() -> Foreign {
    let (rel, dir) = Foreign::declare(
        ColumnTuple { table: Table::SelfTable, columns: strings(&["publication_id"]) },
        ColumnTuple { table: Table::Foreign("publication".to_string()), columns: strings(&["id"]) },
    )
    .unwrap();
    assert_eq!(dir, Direction::SelfReferencesForeign);
    rel
}

fn edition_publication() -> Field {
    Field::foreign("publication", LocalId(2), edition_publication_relation())
}

fn join_columns(field: &QueryField) -> (String, String) {
    match field {
        QueryField::Foreign { join_predicate: Lowered::Expr(Expr::Equals(Operand::Outer(l), Operand::Column(f))), .. } => {
            (l.clone(), f.clone())
        }
        _ => panic!("not a foreign entry with one join equality"),
    }
}

fn child(children: &[Option<Node>], k: usize) -> &Node {
    children[k].as_ref().unwrap()
}

const NESTED_SQL: &str = "SELECT
 jsonb_build_object(
  '1', (
   SELECT
    jsonb_build_object(
     '2', (
      SELECT
       jsonb_build_object(
       )
      FROM publication a2
      WHERE
       a1.publication_id = a2.id
     )
    )
   FROM edition a1
   WHERE
    a0.id = a1.publication_id
  )
 )
FROM publication a0";

#[test]
fn nested_relations_scenario() {
    let (mut engine, root) = select("publication").probe();
    let children = project(&mut engine, &root, vec![publication_editions()]).unwrap();
    let editions = child(&children, 0);
    let grandchildren = project(&mut engine, editions, vec![edition_publication()]).unwrap();
    assert!(grandchildren[0].is_some());

    assert_eq!(engine.len(), 3);
    let outer = engine.select(0);
    assert_eq!(outer.from.table, "publication");
    assert_eq!(outer.from.alias, 0);
    assert_eq!(outer.projection.len(), 1);
    assert_eq!(outer.projection[0].0, LocalId(1));
    match &outer.projection[0].1 {
        QueryField::Foreign { select, .. } => assert_eq!(*select, 1),
        _ => panic!("expected a foreign entry"),
    }
    assert_eq!(join_columns(&outer.projection[0].1), ("id".to_string(), "publication_id".to_string()));

    let inner = engine.select(1);
    assert_eq!(inner.from.table, "edition");
    assert_eq!(inner.from.alias, 1);
    assert_eq!(inner.projection.len(), 1);
    match &inner.projection[0].1 {
        QueryField::Foreign { select, .. } => assert_eq!(*select, 2),
        _ => panic!("expected a foreign entry"),
    }
    assert_eq!(join_columns(&inner.projection[0].1), ("publication_id".to_string(), "id".to_string()));

    let innermost = engine.select(2);
    assert_eq!(innermost.from.table, "publication");
    assert_eq!(innermost.from.alias, 2);
    assert!(innermost.projection.is_empty());

    assert_eq!(engine.build_query(), NESTED_SQL);
}

fn ids_filter() -> Contains<Vector<String>, Column<Unit<String>>> {
    Contains(Vector(strings(&["foo"])), Column::new("id", LocalId(0)))
}

fn probe_publication_then(editions: Field) -> Engine {
    let (mut engine, root) = select("publication").probe();
    let children =
        project(&mut engine, &root, vec![Field::primitive("id", LocalId(0)), editions]).unwrap();
    assert!(children[0].is_none());
    project(&mut engine, child(&children, 1), vec![Field::primitive("id", LocalId(0))]).unwrap();
    engine
}

fn filtered_editions() -> Field {
    let (rel, _) = Foreign::declare(
        ColumnTuple { table: Table::Foreign("edition".to_string()), columns: strings(&["publication_id"]) },
        ColumnTuple { table: Table::SelfTable, columns: strings(&["id"]) },
    )
    .unwrap();
    let rel = rel.filter(Some(ids_filter())).range(RowRange { start: Some(0), end: Some(20) });
    Field::foreign("editions", LocalId(1), rel)
}

fn projection_keys(engine: &Engine, i: usize) -> Vec<(u16, String)> {
    engine
        .select(i)
        .projection
        .iter()
        .map(|(k, f)| {
            let kind = match f {
                QueryField::Primitive { column } => column.clone(),
                QueryField::Foreign { select, .. } => format!("select {}", select),
            };
            (k.0, kind)
        })
        .collect()
}

#[test]
fn filter_and_range_leave_projection_alone() {
    let plain = probe_publication_then(publication_editions());
    let filtered = probe_publication_then(filtered_editions());

    assert_eq!(plain.len(), filtered.len());
    for i in 0..plain.len() {
        assert_eq!(projection_keys(&plain, i), projection_keys(&filtered, i));
    }
    assert!(plain.select(1).range.is_none());
    assert_eq!(filtered.select(1).range, Some(RowRange { start: Some(0), end: Some(20) }));
    assert!(matches!(plain.select(1).filter, Some(Lowered::Expr(_))));
    match &filtered.select(1).filter {
        Some(Lowered::And(clauses)) => assert_eq!(clauses.len(), 2),
        _ => panic!("expected the join predicate and the filter"),
    }
    let sql = filtered.build_query();
    assert!(sql.contains("   WHERE\n    (\n     a0.id = a1.publication_id\n     AND\n     a1.id = any(?)\n    )"));
    assert!(!plain.build_query().contains("any("));
}

#[test]
fn basic_resolve_test() {
    // editions(ids: ["foo"]) { publication { id editions { id } } }
    let (mut engine, root) = select("edition")
        .range(RowRange { start: Some(0), end: Some(20) })
        .filter(Some(ids_filter()))
        .probe();
    let c = project(&mut engine, &root, vec![edition_publication()]).unwrap();
    let publication = child(&c, 0);
    let c = project(
        &mut engine,
        publication,
        vec![Field::primitive("id", LocalId(0)), publication_editions()],
    )
    .unwrap();
    project(&mut engine, child(&c, 1), vec![Field::primitive("id", LocalId(0))]).unwrap();
    let sql = engine.build_query();
    let expected = "SELECT
 jsonb_build_object(
  '2', (
   SELECT
    jsonb_build_object(
     '0', a1.id,
     '1', (
      SELECT
       jsonb_build_object(
        '0', a2.id
       )
      FROM edition a2
      WHERE
       a1.id = a2.publication_id
     )
    )
   FROM publication a1
   WHERE
    a0.publication_id = a1.id
  )
 )
FROM edition a0
WHERE
 a0.id = any(?)";
    assert_eq!(sql, expected);
    assert_eq!(engine.select(0).range, Some(RowRange { start: Some(0), end: Some(20) }));
}

#[test]
fn typed_primitive_projection() {
    let p = Primitive::<String>::new("title", LocalId(3));
    assert_eq!(p.name(), "title");
    assert_eq!(p.local_id(), LocalId(3));
    let (mut engine, root) = select("publication").probe();
    project(&mut engine, &root, vec![p.into_field()]).unwrap();
    assert_eq!(projection_keys(&engine, 0), vec![(3, "title".to_string())]);
    assert!(engine.build_query().contains("'3', a0.title"));
}

#[test]
fn projecting_twice_keeps_one_entry() {
    let (mut engine, root) = select("publication").probe();
    project(&mut engine, &root, vec![Field::primitive("id", LocalId(0))]).unwrap();
    project(&mut engine, &root, vec![Field::primitive("id", LocalId(0)), Field::primitive("title", LocalId(3))])
        .unwrap();
    assert_eq!(projection_keys(&engine, 0), vec![(0, "id".to_string()), (3, "title".to_string())]);
    project(&mut engine, &root, vec![Field::primitive("name", LocalId(0))]).unwrap();
    assert_eq!(projection_keys(&engine, 0), vec![(0, "name".to_string()), (3, "title".to_string())]);
}

#[test]
fn each_foreign_projection_gets_its_own_alias() {
    let (mut engine, root) = select("publication").probe();
    let c = project(&mut engine, &root, vec![publication_editions()]).unwrap();
    let editions = child(&c, 0);
    let d = project(&mut engine, editions, vec![edition_publication()]).unwrap();
    project(&mut engine, child(&d, 0), vec![publication_editions()]).unwrap();
    let sql = engine.build_query();
    for alias in ["a0", "a1", "a2", "a3"] {
        assert!(sql.contains(&format!("{} ", alias)) || sql.contains(&format!("{}.", alias)));
    }
    assert!(!sql.contains("a4"));
    for i in 0..engine.len() {
        assert_eq!(engine.select(i).from.alias as usize, i);
    }
}

#[test]
fn deserialize_phase_gives_no_values() {
    let (mut engine, _) = select("publication").probe();
    let node = Node::new_deserialize();
    assert!(matches!(node.phase(), Phase::Deserialize));
    assert_eq!(node.probing().err(), Some(UrmError::Probe));
    let r = project(&mut engine, &node, vec![Field::primitive("id", LocalId(0))]);
    assert_eq!(r.err(), Some(UrmError::Deserialization));
    assert!(engine.select(0).projection.is_empty());
}

#[test]
fn relation_declarations() {
    let e = Foreign::declare(
        ColumnTuple { table: Table::SelfTable, columns: strings(&["id"]) },
        ColumnTuple { table: Table::SelfTable, columns: strings(&["id"]) },
    );
    assert_eq!(e.err(), Some(urm::field::RelationError::SelfReference));
    let e = Foreign::declare(
        ColumnTuple { table: Table::Foreign("bar".to_string()), columns: strings(&["id"]) },
        ColumnTuple { table: Table::Foreign("bar".to_string()), columns: strings(&["id"]) },
    );
    assert_eq!(e.err(), Some(urm::field::RelationError::NoSelf));
    let e = Foreign::new("bar", strings(&["a", "b"]), strings(&["a"]), Quantified::AsSelf);
    assert_eq!(e.err(), Some(urm::field::RelationError::ColumnCountMismatch));
    let e = Foreign::new("bar", vec![], vec![], Quantified::AsSelf);
    assert_eq!(e.err(), Some(urm::field::RelationError::NoColumns));

    let rel = edition_publication_relation();
    assert!(!rel.is_collection());
    assert_eq!(rel.quantified(), Quantified::AsSelf);
    assert_eq!(rel.table(), "publication");
    match publication_editions().kind {
        FieldKind::Foreign(r) => {
            assert!(r.is_collection());
            assert_eq!(r.quantified(), Quantified::AsVec);
        }
        FieldKind::Primitive => panic!("expected a relation"),
    }
}

#[test]
fn composite_join_is_a_conjunction() {
    let rel = Foreign::new("line", strings(&["order_id", "shop_id"]), strings(&["id", "shop"]), Quantified::AsOption)
        .unwrap();
    let mut b = QueryBuilder::new();
    urm::builder::build_clause(&mut b, &rel.join_predicate(), 4, 3);
    assert_eq!(b.into_string(), "(\n a3.order_id = a4.id\n AND\n a3.shop_id = a4.shop\n)");
}

#[test]
fn builder_text_and_indentation() {
    let mut b = QueryBuilder::new();
    b.push("a");
    b.newline_indent();
    b.push("b");
    b.newline_indent();
    b.push_number(1207);
    b.newline_outdent();
    b.push_number(0);
    b.outdent();
    b.newline();
    b.push("c");
    assert_eq!(b.indent(), 0);
    assert_eq!(b.into_string(), "a\n b\n  1207\n 0\nc");
}

#[test]
fn alias_space_runs_out_at_the_largest_size() {
    let (mut engine, root) = select("node").probe();
    let link = || {
        Field::foreign(
            "next",
            LocalId(1),
            Foreign::new("node", strings(&["id"]), strings(&["prev_id"]), Quantified::AsOption).unwrap(),
        )
    };
    let mut current = root;
    for _ in 1..urm::engine::MAX_SELECTS {
        let mut c = project(&mut engine, &current, vec![link()]).unwrap();
        current = c.pop().unwrap().unwrap();
    }
    assert_eq!(engine.len(), urm::engine::MAX_SELECTS);
    assert_eq!(engine.select(urm::engine::MAX_SELECTS - 1).from.alias, u16::MAX);
    let r = project(&mut engine, &current, vec![link()]);
    assert_eq!(r.err(), Some(UrmError::Probe));
    assert_eq!(engine.len(), urm::engine::MAX_SELECTS);
    assert!(engine.select(urm::engine::MAX_SELECTS - 1).projection.is_empty());
    let r = project(&mut engine, &current, vec![Field::primitive("id", LocalId(0))]).unwrap();
    assert!(r[0].is_none());
}
