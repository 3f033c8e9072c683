use calamine::{Data, Range};
use kvg::cards::{cards_from_rows, headers_from_rows, Card, CardsError, CardsServerProps};
use kvg::sheet::{get_cards, get_headers, range_rows, rows_height, title_row_choices};

fn rows(data: &[&[&str]]) -> Vec<Vec<String>> {
    data.iter().map(|r| r.iter().map(|c| c.to_string()).collect()).collect()
}

fn kv_pairs(card: &Card) -> Vec<(String, String)> {
    card.kv.iter().map(|p| (p.key.clone(), p.value.clone())).collect()
}

fn pairs(data: &[(&str, &str)]) -> Vec<(String, String)> {
    data.iter().map(|(k, v)| (k.to_string(), v.to_string())).collect()
}

fn sample() -> Vec<Vec<String>> {
    rows(&[&["id", "name", "age"], &["1", "Ali", "30"], &["2", "", "25"]])
}

#[test]
fn end_to_end_example() {
    let cards = cards_from_rows(&sample(), None, &vec![1, 2]).unwrap();
    assert_eq!(cards.len(), 2);
    assert_eq!(cards[0].row_index, 0);
    assert_eq!(kv_pairs(&cards[0]), pairs(&[("name", "Ali"), ("age", "30")]));
    assert_eq!(cards[1].row_index, 1);
    assert_eq!(kv_pairs(&cards[1]), pairs(&[("age", "25")]));
}

#[test]
fn kv_needs_label_and_value() {
    let g = rows(&[&["", "Name", "Name"], &["x", "", "Ali"]]);
    let cards = cards_from_rows(&g, None, &vec![0, 1, 2]).unwrap();
    assert_eq!(kv_pairs(&cards[0]), pairs(&[("Name", "Ali")]));
}

#[test]
fn column_order_and_duplicates_are_kept() {
    let cards = cards_from_rows(&sample(), None, &vec![2, 0, 2]).unwrap();
    assert_eq!(kv_pairs(&cards[0]), pairs(&[("age", "30"), ("id", "1"), ("age", "30")]));
}

#[test]
fn row_indexes_do_not_depend_on_columns() {
    let a = cards_from_rows(&sample(), None, &vec![0]).unwrap();
    let b = cards_from_rows(&sample(), None, &vec![1, 2]).unwrap();
    let ia: Vec<usize> = a.iter().map(|c| c.row_index).collect();
    let ib: Vec<usize> = b.iter().map(|c| c.row_index).collect();
    assert_eq!(ia, vec![0, 1]);
    assert_eq!(ia, ib);
}

#[test]
fn header_row_further_down() {
    let g = rows(&[&["report", ""], &["k", "v"], &["a", "1"], &["b", "2"]]);
    let cards = cards_from_rows(&g, Some(2), &vec![1]).unwrap();
    assert_eq!(cards.len(), 2);
    assert_eq!(cards[0].row_index, 0);
    assert_eq!(kv_pairs(&cards[0]), pairs(&[("v", "1")]));
    assert_eq!(kv_pairs(&cards[1]), pairs(&[("v", "2")]));
}

#[test]
fn default_header_row_is_the_first() {
    let a = cards_from_rows(&sample(), None, &vec![0, 1]).unwrap();
    let b = cards_from_rows(&sample(), Some(1), &vec![0, 1]).unwrap();
    assert_eq!(a.len(), b.len());
    for (x, y) in a.iter().zip(b.iter()) {
        assert_eq!(x.row_index, y.row_index);
        assert_eq!(kv_pairs(x), kv_pairs(y));
    }
}

#[test]
fn repeated_extraction_is_identical() {
    let a = cards_from_rows(&sample(), None, &vec![1, 2]).unwrap();
    let b = cards_from_rows(&sample(), None, &vec![1, 2]).unwrap();
    let va: Vec<_> = a.iter().map(|c| (c.row_index, kv_pairs(c))).collect();
    let vb: Vec<_> = b.iter().map(|c| (c.row_index, kv_pairs(c))).collect();
    assert_eq!(va, vb);
}

#[test]
fn column_beyond_width_fails_whole_extraction() {
    assert_eq!(cards_from_rows(&sample(), None, &vec![1, 3]).err(), Some(CardsError::IndexOutOfRange));
    let short = rows(&[&["a", "b"], &["1", "2"], &["3"]]);
    assert_eq!(cards_from_rows(&short, None, &vec![1]).err(), Some(CardsError::IndexOutOfRange));
}

#[test]
fn header_row_outside_sheet() {
    assert_eq!(cards_from_rows(&sample(), Some(4), &vec![0]).err(), Some(CardsError::HeaderNotFound));
    assert_eq!(cards_from_rows(&sample(), Some(0), &vec![0]).err(), Some(CardsError::HeaderNotFound));
    assert_eq!(cards_from_rows(&Vec::new(), None, &vec![0]).err(), Some(CardsError::HeaderNotFound));
}

#[test]
fn header_as_last_row_gives_no_cards() {
    let cards = cards_from_rows(&sample(), Some(3), &vec![0]).unwrap();
    assert!(cards.is_empty());
}

#[test]
fn headers_at_row() {
    assert_eq!(headers_from_rows(&sample(), None).unwrap(), vec!["id", "name", "age"]);
    assert_eq!(headers_from_rows(&sample(), Some(2)).unwrap(), vec!["1", "Ali", "30"]);
    assert_eq!(headers_from_rows(&sample(), Some(9)).err(), Some(CardsError::HeaderNotFound));
}

fn sample_range() -> Range<Data> {
    let mut r: Range<Data> = Range::new((0, 0), (2, 2));
    r.set_value((0, 0), Data::String("id".to_string()));
    r.set_value((0, 1), Data::String("name".to_string()));
    r.set_value((0, 2), Data::String("age".to_string()));
    r.set_value((1, 0), Data::Int(1));
    r.set_value((1, 1), Data::String("Ali".to_string()));
    r.set_value((1, 2), Data::Int(30));
    r.set_value((2, 0), Data::Int(2));
    r.set_value((2, 2), Data::Int(25));
    r
}

#[test]
fn range_cells_as_text() {
    assert_eq!(range_rows(&sample_range()), sample());
}

#[test]
fn cards_from_a_sheet_range() {
    let props = CardsServerProps {
        title_row_index: None,
        path: "book.xlsx".to_string(),
        sheet: "Sheet1".to_string(),
        columns_indexes: vec![1, 2],
    };
    let cards = get_cards(&sample_range(), &props).unwrap();
    assert_eq!(cards.len(), 2);
    assert_eq!(kv_pairs(&cards[0]), pairs(&[("name", "Ali"), ("age", "30")]));
    assert_eq!(kv_pairs(&cards[1]), pairs(&[("age", "25")]));
}

#[test]
fn headers_of_a_sheet_range() {
    assert_eq!(get_headers(&sample_range(), Some(1)).unwrap(), vec!["id", "name", "age"]);
    assert_eq!(get_headers(&Range::empty(), None).err(), Some(CardsError::HeaderNotFound));
}

#[test]
fn row_count_of_a_sheet() {
    assert_eq!(rows_height(Some(&sample_range())), 3);
    assert_eq!(rows_height(Some(&Range::empty())), 0);
    assert_eq!(rows_height(None), 0);
}

#[test]
fn header_row_choices() {
    assert_eq!(title_row_choices(3), vec![1, 2, 3]);
    assert!(title_row_choices(0).is_empty());
}
