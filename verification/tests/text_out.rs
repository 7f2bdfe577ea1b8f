use gevel::text::{push_decimal, push_digit, push_indent};
use gevel::tree::{push_percent, push_right_link, IndexTreeNode};

#[test]
fn digits() {
    let mut out = String::from("x");
    for d in 0..10u128 {
        push_digit(&mut out, d);
    }
    assert_eq!(out, "x0123456789");
}

#[test]
fn decimal_numbers() {
    let cases: [u128; 9] = [0, 7, 10, 99, 100, 1234567890, 4294967295, u64::MAX as u128, u128::MAX];
    for n in cases {
        let mut out = String::from("n=");
        push_decimal(&mut out, n);
        assert_eq!(out, format!("n={}", n));
    }
}

#[test]
fn indentation_is_four_spaces_a_level() {
    for level in 0..6usize {
        let mut out = String::from("|");
        push_indent(&mut out, level);
        assert_eq!(out, format!("|{}", " ".repeat(4 * level)));
    }
}

#[test]
fn percent_has_two_decimals() {
    let cases: [(u32, &str); 7] = [
        (0, "0.00"),
        (1, "0.01"),
        (10, "0.10"),
        (99, "0.99"),
        (100, "1.00"),
        (5029, "50.29"),
        (10000, "100.00"),
    ];
    for (hundredths, expected) in cases {
        let mut out = String::new();
        push_percent(&mut out, hundredths);
        assert_eq!(out, expected);
    }
}

#[test]
fn right_link_text() {
    let mut out = String::new();
    push_right_link(&mut out, None);
    assert_eq!(out, "Invalid Block");
    let mut out = String::new();
    push_right_link(&mut out, Some(0));
    assert_eq!(out, "0");
    let mut out = String::new();
    push_right_link(&mut out, Some(4294967294));
    assert_eq!(out, "4294967294");
}

#[test]
fn ties_go_to_the_even_neighbour() {
    // 256 of 8192 bytes are 3.125 %, 768 are 9.375 %.
    let node = IndexTreeNode::new(0, 8192 - 256, 0, 0, None, true);
    assert_eq!(node.occupied(), 312);
    let node = IndexTreeNode::new(0, 8192 - 768, 0, 0, None, true);
    assert_eq!(node.occupied(), 938);
    let node = IndexTreeNode::new(0, 8192, 0, 0, None, true);
    assert_eq!(node.occupied(), 0);
    let node = IndexTreeNode::new(0, 0, 0, 0, None, true);
    assert_eq!(node.occupied(), 10000);
}

#[test]
fn nodes_are_built_child_by_child() {
    let leaf = IndexTreeNode::new(3, 100, 1, 5, Some(6), true);
    assert!(leaf.is_leaf());
    assert!(leaf.children().is_none());
    let root = IndexTreeNode::new(1, 200, 0, 0, None, false);
    assert!(!root.is_leaf());
    assert_eq!(root.children().unwrap().len(), 0);
    let root = root.push_child(leaf);
    let children = root.children().unwrap();
    assert_eq!(children.len(), 1);
    assert_eq!(children[0].block_num(), 5);
    assert_eq!(children[0].right_link(), Some(6));
    assert_eq!(children[0].max_offset(), 3);
    let other = IndexTreeNode::new(0, 0, 2, 9, None, true);
    let root = root.push_child(other);
    let children = root.children().unwrap();
    assert_eq!(children.len(), 2);
    assert_eq!(children[0].block_num(), 5);
    assert_eq!(children[1].block_num(), 9);
    assert_eq!(children[1].offset(), 2);
}
