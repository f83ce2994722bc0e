use gnvim::grid::{clear, resize, scroll};
use gnvim::nvim_bridge::{Cell, GridLineSegment};
use gnvim::row::{Rope, Row};

fn row_of(text: &str) -> Row {
    let mut row = Row::new(text.chars().count());
    row.insert_rope_at(0, Rope::new(text.to_string(), 0));
    row
}

fn texts(rows: &Vec<Row>) -> Vec<String> {
    rows.iter().map(|r| r.text()).collect()
}

#[test]
fn row_update_writes_cells() {
    let mut row = Row::new(10);
    let line = GridLineSegment {
        grid: 1,
        row: 0,
        col_start: 2,
        cells: vec![
            Cell { text: "a".into(), hl_id: 3, repeat: 2, double_width: false },
            Cell { text: "b".into(), hl_id: 4, repeat: 1, double_width: false },
        ],
    };
    let segs = row.update(&line);
    let starts: Vec<(usize, usize, u64)> = segs.iter().map(|s| (s.start, s.len, s.leaf.hl_id)).collect();
    assert_eq!(starts, vec![(0, 2, 0), (2, 2, 3), (4, 1, 4), (5, 5, 0)]);
    assert_eq!(row.text(), "  aab     ");
    assert_eq!(row.len(), 10);
    assert_eq!(row.leaf_at(3).hl_id, 3);
    assert_eq!(row.leaf_at(5).hl_id, 4);
}

#[test]
fn row_clear() {
    let mut row = row_of("hello");
    row.clear();
    assert_eq!(row.text(), "     ");
    assert_eq!(row.len(), 5);
}

#[test]
fn copy_then_insert_keeps_row() {
    let mut row = row_of("0123456789");
    let copy = row.copy_range(3, 7);
    row.insert_rope_at(3, copy);
    assert_eq!(row.text(), "0123456789");
}

#[test]
fn split_then_concat_keeps_rope() {
    let rope = Rope::new("first".to_string(), 1).concat(Rope::new("second".to_string(), 2));
    for at in 0..=11 {
        let (a, b) = rope.clone().split(at);
        assert_eq!(a.concat(b).text(), "firstsecond");
    }
}

#[test]
fn grid_scroll_up() {
    let mut rows = vec![row_of("aaaa"), row_of("bbbb"), row_of("cccc"), row_of("dddd")];
    scroll(&mut rows, [0, 4, 0, 4], 1);
    assert_eq!(texts(&rows), vec!["bbbb", "cccc", "dddd", "    "]);
}

#[test]
fn grid_scroll_down_partial_columns() {
    let mut rows = vec![row_of("aaaa"), row_of("bbbb"), row_of("cccc"), row_of("dddd")];
    scroll(&mut rows, [1, 4, 1, 3], -2);
    assert_eq!(texts(&rows), vec!["aaaa", "b  b", "c  c", "dbbd"]);
}

#[test]
fn grid_resize_and_clear() {
    let mut rows = vec![row_of("xy")];
    resize(&mut rows, 3, 2);
    assert_eq!(texts(&rows), vec!["   ", "   "]);
    let mut rows = vec![row_of("ab"), row_of("cde")];
    clear(&mut rows);
    assert_eq!(texts(&rows), vec!["  ", "   "]);
}

#[test]
fn optimize_is_idempotent() {
    let rope = Rope::new("ab".to_string(), 1)
        .concat(Rope::new("".to_string(), 2))
        .concat(Rope::new("cd".to_string(), 1))
        .concat(Rope::new("ef".to_string(), 3));
    let once = rope.optimize();
    let twice = once.optimize();
    let a: Vec<(String, u64)> = once.leafs().iter().map(|l| (l.text.clone(), l.hl_id)).collect();
    let b: Vec<(String, u64)> = twice.leafs().iter().map(|l| (l.text.clone(), l.hl_id)).collect();
    assert_eq!(a, vec![("abcd".to_string(), 1), ("ef".to_string(), 3)]);
    assert_eq!(a, b);
}

#[test]
fn clear_then_copy_is_blank() {
    let mut row = row_of("0123456789");
    row.clear_range(3, 6);
    assert_eq!(row.copy_range(3, 6).text(), "   ");
    assert_eq!(row.copy_range(0, 3).text(), "012");
    assert_eq!(row.copy_range(6, 10).text(), "6789");
}

#[test]
fn row_keeps_width_through_operations() {
    let mut row = Row::new(8);
    row.insert_rope_at(2, Rope::new("héllo".to_string(), 3));
    assert_eq!((row.len(), row.text().chars().count()), (8, 8));
    row.clear_range(1, 4);
    assert_eq!((row.len(), row.text().chars().count()), (8, 8));
    let line = GridLineSegment {
        grid: 1,
        row: 0,
        col_start: 5,
        cells: vec![Cell { text: "ä".into(), hl_id: 2, repeat: 3, double_width: false }],
    };
    row.update(&line);
    assert_eq!(row.text(), "    läää");
    assert_eq!((row.len(), row.text().chars().count()), (8, 8));
    row.clear();
    assert_eq!(row.text(), "        ");
    assert_eq!(row.len(), 8);
}

#[test]
fn rope_concat_joins_same_highlight() {
    let r = Rope::new("first".to_string(), 0).concat(Rope::new("second".to_string(), 0));
    let leafs: Vec<String> = r.leafs().iter().map(|l| l.text.clone()).collect();
    assert_eq!(leafs, vec!["firstsecond"]);
    assert_eq!(r.len(), 11);
}

#[test]
fn row_new_is_one_blank_leaf() {
    let row = Row::new(5);
    assert_eq!(row.len(), 5);
    assert_eq!(row.text(), "     ");
    for k in [0, 1, 5, 9] {
        assert_eq!(row.leaf_at(k).hl_id, 0);
        assert_eq!(row.leaf_at(k).text, "     ");
    }
}
