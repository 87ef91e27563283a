use oxidenms::network::diff::{rows_from_changes, LineChange};
use oxidenms::network::diff::{compare_configs, DiffType};

#[test]
fn diff_bulma_testi() {
    let eski = "hostname R1\n!\ninterface G0/0\n shutdown\n";
    let yeni = "hostname R1\n!\ninterface G0/0\n no shutdown\n";

    let fark = compare_configs(eski, yeni);

    assert_eq!(fark.len(), 5);
    assert_eq!(fark[0].tip, DiffType::Unchanged);
    assert_eq!(fark[3].tip, DiffType::Deleted);
    assert_eq!(fark[3].text, " shutdown\n");
    assert_eq!(fark[4].tip, DiffType::Inserted);
    assert_eq!(fark[4].text, " no shutdown\n");
}

#[test]
fn diff_rows_are_numbered_from_one() {
    let fark = compare_configs("a\nb\n", "a\nc\n");
    assert_eq!(fark[0].old_line_no, Some(1));
    assert_eq!(fark[0].new_line_no, Some(1));
    let deleted = fark.iter().find(|r| r.tip == DiffType::Deleted).unwrap();
    assert_eq!(deleted.old_line_no, Some(2));
    assert_eq!(deleted.new_line_no, None);
    let inserted = fark.iter().find(|r| r.tip == DiffType::Inserted).unwrap();
    assert_eq!(inserted.old_line_no, None);
    assert_eq!(inserted.new_line_no, Some(2));
}

#[test]
fn diff_of_equal_texts_is_unchanged() {
    let fark = compare_configs("x\ny\n", "x\ny\n");
    assert_eq!(fark.len(), 2);
    assert!(fark.iter().all(|r| r.tip == DiffType::Unchanged));
}

#[test]
fn rows_from_given_changes() {
    let rows = rows_from_changes(vec![
        LineChange { tag: DiffType::Deleted, old_index: Some(0), new_index: None, value: "a\n".to_string() },
        LineChange { tag: DiffType::Inserted, old_index: None, new_index: Some(4), value: "b\n".to_string() },
    ]);
    assert_eq!(rows.len(), 2);
    assert_eq!(rows[0].old_line_no, Some(1));
    assert_eq!(rows[0].new_line_no, None);
    assert_eq!(rows[1].new_line_no, Some(5));
    assert_eq!(rows[1].text, "b\n");
}

#[test]
fn diff_rows_rebuild_both_texts() {
    let eski = "hostname R1\n!\ninterface G0/0\n shutdown\nend";
    let yeni = "hostname R2\n!\ninterface G0/0\n no shutdown\n description up\nend";
    let fark = compare_configs(eski, yeni);
    let old_rows: Vec<_> = fark.iter().filter(|r| r.tip != DiffType::Inserted).collect();
    let new_rows: Vec<_> = fark.iter().filter(|r| r.tip != DiffType::Deleted).collect();
    let old_text: String = old_rows.iter().map(|r| r.text.as_str()).collect();
    let new_text: String = new_rows.iter().map(|r| r.text.as_str()).collect();
    assert_eq!(old_text, eski);
    assert_eq!(new_text, yeni);
    for (k, r) in old_rows.iter().enumerate() {
        assert_eq!(r.old_line_no, Some(k + 1));
    }
    for (k, r) in new_rows.iter().enumerate() {
        assert_eq!(r.new_line_no, Some(k + 1));
    }
}
