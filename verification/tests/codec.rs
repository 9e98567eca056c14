use flowy_core::codec::{frame_items, unframe_items};
use flowy_core::layout::{
    node_from_bytes, node_to_bytes, nodes_from_bytes, nodes_to_bytes, trash_from_bytes,
    trash_to_bytes, trashes_from_bytes, trashes_to_bytes,
};
use flowy_core::{FolderNode, Trash, TrashType};

fn node(id: &str, parent: &str, name: &str, desc: &str, time: i64) -> FolderNode {
    FolderNode {
        id: id.to_string(),
        parent_id: parent.to_string(),
        name: name.to_string(),
        desc: desc.to_string(),
        create_time: time,
    }
}

#[test]
fn the_layout_of_no_items_is_the_count_alone() {
    assert_eq!(frame_items(&Vec::new()), vec![0u8; 8]);
    assert_eq!(unframe_items(&vec![0u8; 8]), Some(Vec::new()));
}

#[test]
fn the_layout_of_two_items_byte_by_byte() {
    let items = vec![vec![0xaa, 0xbb], vec![]];
    let bytes = frame_items(&items);
    let expected: Vec<u8> = vec![
        2, 0, 0, 0, 0, 0, 0, 0, // two items
        2, 0, 0, 0, 0, 0, 0, 0, 0xaa, 0xbb, // the first, two bytes long
        0, 0, 0, 0, 0, 0, 0, 0, // the second, empty
    ];
    assert_eq!(bytes, expected);
    assert_eq!(unframe_items(&bytes), Some(items));
}

#[test]
fn lengths_are_little_endian() {
    let item = vec![1u8; 258];
    let bytes = frame_items(&vec![item.clone()]);
    assert_eq!(&bytes[0..8], &[1, 0, 0, 0, 0, 0, 0, 0]);
    assert_eq!(&bytes[8..16], &[2, 1, 0, 0, 0, 0, 0, 0]);
    assert_eq!(bytes.len(), 16 + 258);
    assert_eq!(unframe_items(&bytes), Some(vec![item]));
}

#[test]
fn what_lays_out_no_list_is_refused() {
    assert_eq!(unframe_items(&Vec::new()), None);
    assert_eq!(unframe_items(&vec![0u8; 7]), None);
    // one item announced, none there
    assert_eq!(unframe_items(&vec![1, 0, 0, 0, 0, 0, 0, 0]), None);
    // the item is longer than what is left
    let mut short = vec![1u8, 0, 0, 0, 0, 0, 0, 0];
    short.extend_from_slice(&[5, 0, 0, 0, 0, 0, 0, 0, 1, 2]);
    assert_eq!(unframe_items(&short), None);
    // something follows the list
    let mut long = frame_items(&vec![vec![1u8]]);
    long.push(0);
    assert_eq!(unframe_items(&long), None);
    // a count that no buffer can hold
    assert_eq!(unframe_items(&vec![0xff; 8]), None);
    // a length that no buffer can hold
    let mut huge = vec![1u8, 0, 0, 0, 0, 0, 0, 0];
    huge.extend_from_slice(&[0xff; 8]);
    assert_eq!(unframe_items(&huge), None);
}

#[test]
fn a_node_is_read_back_as_it_was_laid_out() {
    let n = node("w1", "", "Caf\u{e9} \u{2b50}", "", -5);
    let bytes = node_to_bytes(&n);
    let back = node_from_bytes(&bytes).unwrap();
    assert_eq!(back.id, "w1");
    assert_eq!(back.parent_id, "");
    assert_eq!(back.name, "Caf\u{e9} \u{2b50}");
    assert_eq!(back.desc, "");
    assert_eq!(back.create_time, -5);
}

#[test]
fn the_layout_of_a_node_byte_by_byte() {
    let n = node("a", "b", "c", "", 1);
    let fields = vec![
        b"a".to_vec(),
        b"b".to_vec(),
        b"c".to_vec(),
        Vec::new(),
        vec![1u8, 0, 0, 0, 0, 0, 0, 0],
    ];
    assert_eq!(node_to_bytes(&n), frame_items(&fields));
    let negative = node("a", "b", "c", "", -1);
    let fields = vec![b"a".to_vec(), b"b".to_vec(), b"c".to_vec(), Vec::new(), vec![0xffu8; 8]];
    assert_eq!(node_to_bytes(&negative), frame_items(&fields));
}

#[test]
fn extreme_times_are_read_back() {
    for t in [i64::MIN, -1, 0, 1, i64::MAX] {
        let back = node_from_bytes(&node_to_bytes(&node("x", "", "", "", t))).unwrap();
        assert_eq!(back.create_time, t);
    }
}

#[test]
fn a_node_with_text_that_is_no_utf8_is_refused() {
    let fields = vec![vec![0xff, 0xfe], Vec::new(), Vec::new(), Vec::new(), vec![0u8; 8]];
    assert!(node_from_bytes(&frame_items(&fields)).is_none());
    let fields = vec![b"ok".to_vec(), Vec::new(), vec![0xc3], Vec::new(), vec![0u8; 8]];
    assert!(node_from_bytes(&frame_items(&fields)).is_none());
}

#[test]
fn a_node_with_the_wrong_fields_is_refused() {
    let four = vec![Vec::new(), Vec::new(), Vec::new(), vec![0u8; 8]];
    assert!(node_from_bytes(&frame_items(&four)).is_none());
    let short_time = vec![Vec::new(), Vec::new(), Vec::new(), Vec::new(), vec![0u8; 7]];
    assert!(node_from_bytes(&frame_items(&short_time)).is_none());
    assert!(node_from_bytes(&vec![1, 2, 3]).is_none());
}

#[test]
fn a_trash_entry_is_read_back_as_it_was_laid_out() {
    for ty in [TrashType::Unknown, TrashType::View, TrashType::App] {
        let t = Trash { id: "v1".to_string(), name: "Page".to_string(), create_time: 42, ty };
        let back = trash_from_bytes(&trash_to_bytes(&t)).unwrap();
        assert_eq!(back.id, "v1");
        assert_eq!(back.name, "Page");
        assert_eq!(back.create_time, 42);
        assert_eq!(back.ty, ty);
    }
}

#[test]
fn the_kind_of_a_trash_entry_is_one_byte() {
    let t = Trash { id: "i".to_string(), name: "n".to_string(), create_time: 0, ty: TrashType::App };
    let fields = vec![b"i".to_vec(), b"n".to_vec(), vec![0u8; 8], vec![2u8]];
    assert_eq!(trash_to_bytes(&t), frame_items(&fields));
    let unknown_kind = vec![b"i".to_vec(), b"n".to_vec(), vec![0u8; 8], vec![3u8]];
    assert!(trash_from_bytes(&frame_items(&unknown_kind)).is_none());
    let no_kind = vec![b"i".to_vec(), b"n".to_vec(), vec![0u8; 8], Vec::new()];
    assert!(trash_from_bytes(&frame_items(&no_kind)).is_none());
}

#[test]
fn tables_are_read_back_in_order() {
    let rows = vec![node("a", "", "A", "", 1), node("b", "", "B", "x", 2), node("c", "", "C", "", 3)];
    let back = nodes_from_bytes(&nodes_to_bytes(&rows)).unwrap();
    assert_eq!(back.len(), 3);
    assert_eq!(back[0].id, "a");
    assert_eq!(back[1].id, "b");
    assert_eq!(back[1].desc, "x");
    assert_eq!(back[2].create_time, 3);
    assert_eq!(nodes_from_bytes(&nodes_to_bytes(&Vec::new())).unwrap().len(), 0);
    let trash = vec![Trash { id: "t".to_string(), name: "n".to_string(), create_time: 1, ty: TrashType::View }];
    let back = trashes_from_bytes(&trashes_to_bytes(&trash)).unwrap();
    assert_eq!(back.len(), 1);
    assert_eq!(back[0].id, "t");
}

#[test]
fn a_table_with_one_bad_row_is_refused() {
    let good = node_to_bytes(&node("a", "", "A", "", 1));
    let table = frame_items(&vec![good, vec![9, 9, 9]]);
    assert!(nodes_from_bytes(&table).is_none());
    assert!(trashes_from_bytes(&table).is_none());
}
