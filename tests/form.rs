use kvg::form::{Stage, XlsxForm};

fn filled() -> XlsxForm {
    let mut f = XlsxForm::new();
    f.set_title("  Staff  ");
    f.path = Some("/data/book.xlsx".to_string());
    f.set_sheetname(" Sheet1 ");
    f.toggle_column(1, true);
    f
}

#[test]
fn complete_form_submits() {
    let mut f = filled();
    f.title_row_index = Some(2);
    assert!(!f.disabled());
    let p = f.on_submit().unwrap();
    assert_eq!(p.title_row_index, Some(2));
    assert_eq!(p.path, "/data/book.xlsx");
    assert_eq!(p.sheet, "Sheet1");
    assert_eq!(p.columns_indexes, vec![1]);
}

#[test]
fn incomplete_form_never_submits() {
    let mut f = filled();
    f.toggle_column(1, false);
    assert!(f.disabled());
    assert!(f.on_submit().is_none());

    let mut f = filled();
    f.set_sheetname("   ");
    assert!(f.on_submit().is_none());

    let mut f = filled();
    f.path = None;
    assert!(f.on_submit().is_none());

    let mut f = filled();
    f.set_title(" ");
    assert!(f.disabled());
    assert!(f.on_submit().is_none());
}

#[test]
fn title_and_sheet_are_trimmed() {
    let f = filled();
    assert_eq!(f.title, "Staff");
    assert_eq!(f.sheetname, "Sheet1");
}

#[test]
fn toggling_columns() {
    let mut f = XlsxForm::new();
    f.toggle_column(2, true);
    f.toggle_column(0, true);
    f.toggle_column(2, true);
    assert_eq!(f.columns_indexs, vec![2, 0, 2]);
    f.toggle_column(2, false);
    assert_eq!(f.columns_indexs, vec![0]);
    f.toggle_column(5, false);
    assert_eq!(f.columns_indexs, vec![0]);
}

#[test]
fn stale_result_is_discarded() {
    let mut s: Stage<Vec<String>> = Stage::new();
    let first = s.issue();
    let second = s.issue();
    assert!(!s.complete(first, vec!["old".to_string()]));
    assert!(s.current().is_none());
    assert!(s.complete(second, vec!["new".to_string()]));
    assert_eq!(s.current().clone(), Some(vec!["new".to_string()]));
    assert!(!s.complete(first, vec!["old".to_string()]));
    assert_eq!(s.current().clone(), Some(vec!["new".to_string()]));
}

#[test]
fn new_input_drops_previous_result() {
    let mut s: Stage<usize> = Stage::new();
    let g = s.issue();
    assert!(s.complete(g, 7));
    assert_eq!(*s.current(), Some(7));
    let h = s.issue();
    assert_eq!(h, g + 1);
    assert_eq!(s.generation(), h);
    assert_eq!(*s.current(), None);
}
