use light_control::sheet::CellCoordinates;

#[test]
fn format_coordinates() {
    assert_eq!("A1", CellCoordinates { row: 0, col: 0 }.format().as_str());
    assert_eq!("Z2", CellCoordinates { row: 1, col: 25 }.format().as_str());
    assert_eq!("AA7", CellCoordinates { row: 6, col: 26 }.format().as_str());
}
