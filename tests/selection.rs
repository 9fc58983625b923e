use urm::column::Column;
use urm::field::{ColumnTuple, Field, Foreign, RowRange, Table};
use urm::func::Contains;
use urm::lower::Lowered;
use urm::node::{Node, UrmError};
use urm::probe::{probe_selection, Pick};
use urm::query::select;
use urm::ty::Unit;
use urm::value::Vector;
use urm::LocalId;

fn strings(items: &[&str]) -> Vec<String> {
    items.iter().map(|s| s.to_string()).collect()
}

fn editions_field() -> Field {
    let (rel, _) = Foreign::declare(
        ColumnTuple { table: Table::Foreign("edition".to_string()), columns: strings(&["publication_id"]) },
        ColumnTuple { table: Table::SelfTable, columns: strings(&["id"]) },
    )
    .unwrap();
    Field::foreign("editions", LocalId(1), rel)
}

fn publication_field() -> Field {
    let (rel, _) = Foreign::declare(
        ColumnTuple { table: Table::SelfTable, columns: strings(&["publication_id"]) },
        ColumnTuple { table: Table::Foreign("publication".to_string()), columns: strings(&["id"]) },
    )
    .unwrap();
    Field::foreign("publication", LocalId(2), rel)
}

fn leaf(field: Field) -> Pick {
    Pick { field, nested: vec![] }
}

#[test]
fn selection_walk_builds_the_nested_query() {
    // editions(ids: ["foo"]) { publication { id editions { id } } }
    let selection = vec![Pick {
        field: publication_field(),
        nested: vec![
            leaf(Field::primitive("id", LocalId(0))),
            Pick { field: editions_field(), nested: vec![leaf(Field::primitive("id", LocalId(0)))] },
        ],
    }];
    let engine = select("edition")
        .range(RowRange { start: Some(0), end: Some(20) })
        .filter(Some(Contains(Vector(strings(&["foo"])), Column::<Unit<String>>::new("id", LocalId(0)))))
        .probe_with(selection)
        .unwrap();
    assert_eq!(engine.len(), 3);
    let expected = "SELECT
 jsonb_build_object(
  '2', (
   SELECT
    jsonb_build_object(
     '0', a1.id,
     '1', (
      SELECT
       jsonb_build_object(
        '0', a2.id
       )
      FROM edition a2
      WHERE
       a1.id = a2.publication_id
     )
    )
   FROM publication a1
   WHERE
    a0.publication_id = a1.id
  )
 )
FROM edition a0
WHERE
 a0.id = any(?)";
    assert_eq!(engine.build_query(), expected);
}

#[test]
fn siblings_are_walked_depth_first_in_order() {
    let selection = vec![
        Pick { field: editions_field(), nested: vec![Pick { field: publication_field(), nested: vec![] }] },
        leaf(Field::primitive("id", LocalId(0))),
        Pick { field: Field::foreign("more", LocalId(5), {
            Foreign::new("edition", strings(&["id"]), strings(&["publication_id"]), urm::field::Quantified::AsVec).unwrap()
        }), nested: vec![] },
    ];
    let engine = select("publication").probe_with(selection).unwrap();
    assert_eq!(engine.len(), 4);
    assert_eq!(engine.select(1).from.table, "edition");
    assert_eq!(engine.select(2).from.table, "publication");
    assert_eq!(engine.select(3).from.table, "edition");
    let keys: Vec<u16> = engine.select(0).projection.iter().map(|(k, _)| k.0).collect();
    assert_eq!(keys, vec![1, 0, 5]);
    assert!(matches!(engine.select(3).filter, Some(Lowered::Expr(_))));
}

#[test]
fn selection_walk_in_deserialize_phase_fails() {
    let (mut engine, _) = select("publication").probe();
    let r = probe_selection(&mut engine, &Node::new_deserialize(), vec![leaf(Field::primitive("id", LocalId(0)))]);
    assert_eq!(r, Err(UrmError::Deserialization));
    let r = probe_selection(&mut engine, &Node::new_deserialize(), vec![]);
    assert_eq!(r, Err(UrmError::Deserialization));
}
