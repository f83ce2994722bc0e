use gnvim::nvim_bridge::Cell;
use gnvim::row::{Leaf, Rope, Row};

#[test]
fn test_rope_from_nvim_cells() {
    let cells = vec![
        Cell { text: String::from("1"), hl_id: 1, repeat: 3, double_width: false },
        Cell { text: String::from("2"), hl_id: 2, repeat: 3, double_width: false },
    ];

    let rope = Rope::from_nvim_cells(&cells);

    assert_eq!(rope.text(), "111222");
    let leafs = rope.leafs();
    assert_eq!(leafs.len(), 3);
    assert_eq!(leafs[1].hl_id, 1);
    assert_eq!(leafs[2].hl_id, 2);

    let rope = rope.optimize();
    let leafs = rope.leafs();
    assert_eq!(leafs.len(), 2);
    assert_eq!(leafs[0].hl_id, 1);
    assert_eq!(leafs[1].hl_id, 2);
}

#[test]
fn test_leaf_split() {
    let leaf = Leaf::new(String::from("1234"), 0);
    let (left, right) = leaf.split(2);
    assert_eq!("12", left.text());
    assert_eq!("34", right.text());
}

#[test]
fn test_leaf_len() {
    let leaf = Leaf::new(String::from("123"), 0);
    assert_eq!(leaf.len, 3);
    let leaf = Leaf::new(String::from("✗ä"), 0);
    assert_eq!(leaf.len, 2);
}

#[test]
fn test_rope_len() {
    let left = Rope::Leaf(Leaf::new(String::from("123"), 0));
    let right = Rope::Leaf(Leaf::new(String::from("✗ä"), 0));
    let rope = Rope::Node(Box::new(left), Box::new(right));

    assert_eq!(rope.len(), 5);
}

#[test]
fn test_rope_weight() {
    let left = Rope::Leaf(Leaf::new(String::from("123"), 0));
    let right = Rope::Leaf(Leaf::new(String::from("✗ä"), 0));
    let rope = Rope::Node(Box::new(left), Box::new(right));

    assert_eq!(rope.weight(), 5);
}

#[test]
fn test_rope_concat() {
    let rope = Rope::new(String::from("Hello,"), 0);
    let other = Rope::new(String::from(" World!"), 0);
    let rope = rope.concat(other);
    assert_eq!(rope.text(), "Hello, World!");
    let other = Rope::new(String::from(" other"), 0);
    let rope = rope.concat(other);
    assert_eq!(rope.text(), "Hello, World! other");
}

#[test]
fn test_rope_split() {
    let rope = Rope::new(String::from("123✗ä"), 0);

    let (left, right) = rope.clone().split(3);
    assert_eq!(left.len(), 3);
    assert_eq!(right.len(), 2);

    let (left, right) = rope.clone().split(4);
    assert_eq!(left.len(), 4);
    assert_eq!(right.len(), 1);

    let (left, right) = rope.clone().split(1);
    assert_eq!(left.len(), 1);
    assert_eq!(right.len(), 4);

    let rope = Rope::new(String::from("1234✗ä"), 0);

    let (left, right) = rope.clone().split(1);
    assert_eq!(left.len(), 1);
    assert_eq!(right.len(), 5);

    let (left, right) = rope.clone().split(0);
    assert_eq!(left.len(), 0);
    assert_eq!(right.len(), 6);

    let (left, right) = rope.clone().split(6);
    assert_eq!(left.len(), 6);
    assert_eq!(right.len(), 0);
}

#[test]
fn test_rope_leafs() {
    let rope = Rope::new(String::from("first"), 1);
    let rope = rope.concat(Rope::new(String::from("second"), 2));
    let rope = rope.concat(Rope::new(String::from("third"), 3));

    let leafs = rope.leafs();
    assert_eq!(leafs.len(), 3);
    assert_eq!(leafs.get(0).unwrap().text, "first");
    assert_eq!(leafs.get(1).unwrap().text, "second");
    assert_eq!(leafs.get(2).unwrap().text, "third");

    let rope = Rope::new(String::from("first"), 0);
    let rope = rope.concat(Rope::new(String::from("second"), 0));

    let leafs = rope.leafs();
    assert_eq!(leafs.len(), 1);
    assert_eq!(leafs.get(0).unwrap().text, "firstsecond");
}

#[test]
fn test_row_copy_range() {
    let mut row = Row::new(30);
    let rope = Rope::new(String::from("first"), 0);
    let rope = rope.concat(Rope::new(String::from("second"), 0));
    let rope = rope.concat(Rope::new(String::from("third"), 0));
    row.rope = Some(rope);

    let range = row.copy_range(2, 10);
    assert_eq!(range.text(), "rstsecon")
}

#[test]
fn test_row_insert_rope_at() {
    let mut row = Row::new(30);
    let rope = Rope::new(String::from("first"), 0);
    let rope = rope.concat(Rope::new(String::from("second"), 0));
    let rope = rope.concat(Rope::new(String::from("third"), 0));

    row.insert_rope_at(5, rope);

    assert_eq!(row.rope.unwrap().text(), "     firstsecondthird         ");
}

#[test]
fn test_row_clear_range() {
    let mut row = Row::new(10);
    row.rope = Some(Rope::new(String::from("0123456789"), 0));

    row.clear_range(2, 5);

    assert_eq!(row.rope.unwrap().text(), "01   56789");
}

#[test]
fn test_rope_leaf_at() {
    let rope = Rope::new(String::from("first"), 1);
    let rope = rope.concat(Rope::new(String::from("second"), 2));
    let rope = rope.concat(Rope::new(String::from("third"), 3));

    assert_eq!(rope.leaf_at(2).hl_id, 1);
    assert_eq!(rope.leaf_at(0).hl_id, 1);
    assert_eq!(rope.leaf_at(5).hl_id, 1);
    assert_eq!(rope.leaf_at(6).hl_id, 2);
    assert_eq!(rope.leaf_at(8).hl_id, 2);
    assert_eq!(rope.leaf_at(11).hl_id, 2);
    assert_eq!(rope.leaf_at(13).hl_id, 3);
}

#[test]
fn test_rope_optimize() {
    let rope = Rope::new(String::from("first"), 0);
    let rope = rope.concat(Rope::Leaf(Leaf::new(String::from("second"), 1)));
    let rope = rope.concat(Rope::Leaf(Leaf::new(String::from("third"), 0)));
    let rope = rope.concat(Rope::Leaf(Leaf::new(String::from("fourth"), 1)));

    assert_eq!(rope.leafs().len(), 4);

    let (left, right) = rope.split(5);
    let rope = left.concat(right.split(6).1);
    assert_eq!(rope.text(), "firstthirdfourth");
    assert_eq!(rope.leafs().len(), 3);

    let rope = rope.optimize();
    assert_eq!(rope.text(), "firstthirdfourth");

    let leafs = rope.leafs();
    assert_eq!(leafs.len(), 2);
    assert_eq!(leafs[0].text, "firstthird");
    assert_eq!(leafs[1].text, "fourth");
}

#[test]
fn test_rope_optimize2() {
    let rope = Rope::new(String::from(""), 3);
    let rope = rope.concat(Rope::Leaf(Leaf::new(String::from("first"), 0)));
    let rope = rope.concat(Rope::Leaf(Leaf::new(String::from("second"), 1)));
    let rope = rope.concat(Rope::Leaf(Leaf::new(String::from("third"), 0)));
    let rope = rope.concat(Rope::Leaf(Leaf::new(String::from(""), 1)));

    assert_eq!(rope.leafs().len(), 5);

    let (left, right) = rope.split(5);
    let rope = left.concat(right.split(6).1);
    assert_eq!(rope.text(), "firstthird");
    assert_eq!(rope.leafs().len(), 4);

    let rope = rope.optimize();
    assert_eq!(rope.text(), "firstthird");

    let leafs = rope.leafs();
    assert_eq!(leafs.len(), 1);
    assert_eq!(leafs[0].text, "firstthird");
}
