use brickstats::local::{deserialize_bool, inventory_from_file, DatasetEntry, InvalidBool};
use brickstats::rebrickable::inventory_part;

fn row(part: &str, quantity: i32, color_id: i32, is_spare: Option<&str>) -> DatasetEntry {
    DatasetEntry { part: part.to_string(), quantity, color_id, is_spare: is_spare.map(|s| s.to_string()) }
}

#[test]
fn only_two_literals_are_flags() {
    assert_eq!(deserialize_bool("True"), Ok(Some(true)));
    assert_eq!(deserialize_bool("False"), Ok(Some(false)));
    for bad in ["true", "false", "TRUE", "", " True", "True ", "1", "yes"] {
        let error = deserialize_bool(bad).unwrap_err();
        assert_eq!(error, InvalidBool { row: 0, value: bad.to_string() });
        assert_eq!(error.message(), format!("invalid bool: {}", bad));
    }
}

#[test]
fn spare_rows_are_left_out() {
    let lines = inventory_from_file(vec![
        row("3001", 4, 1, Some("False")),
        row("3002", 1, 5, Some("True")),
        row("3003", 7, 5, None),
        row("3004", 2, 0, Some("True")),
        row("3005", 3, -1, Some("False")),
    ])
    .unwrap();
    assert_eq!(
        lines,
        vec![
            inventory_part::new_simplified("3001".to_string(), 1, 4, false),
            inventory_part::new_simplified("3003".to_string(), 5, 7, false),
            inventory_part::new_simplified("3005".to_string(), -1, 3, false),
        ]
    );
    assert_eq!(inventory_from_file(Vec::new()), Ok(Vec::new()));
}

#[test]
fn another_flag_fails_the_table() {
    let result = inventory_from_file(vec![
        row("3001", 4, 1, Some("True")),
        row("3002", 1, 5, Some("true")),
        row("3003", 1, 5, Some("nope")),
    ]);
    assert_eq!(result, Err(InvalidBool { row: 1, value: "true".to_string() }));
    assert!(inventory_from_file(vec![row("3001", 4, 1, Some(""))]).is_err());
}
