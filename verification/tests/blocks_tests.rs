use drakkar_vfx::blocks::KeyValueBlock;
use drakkar_vfx::blocks::{NewValueStrategy, ScalarBlock, SequenceBlock};
use drakkar_vfx::events::{InspectorEvent, KeyValueBlockEvent, SequenceBlockEvent};
use drakkar_vfx::models::key_value::{KeyValue, KeyValueEntry};

fn all_values<V>(ev: InspectorEvent<Vec<V>>) -> Vec<V> {
    match ev {
        InspectorEvent::Updated { v } => v,
    }
}

#[test]
fn scalar_block_applies_its_value() {
    let b = ScalarBlock::new("Lifetime".to_string(), 5).with_index(3);
    assert_eq!(b.index, 3);
    let mut target = 0;
    b.apply(&mut target);
    assert_eq!(target, 5);
}

#[test]
fn add_item_copies_most_recent_value() {
    let mut b = SequenceBlock::new("Sizes".to_string(), vec![1, 2, 3]);
    let (ev, all) = b.add_item();
    match ev {
        SequenceBlockEvent::ItemAdded { index, v } => {
            assert_eq!(index, 3);
            assert_eq!(v, 3);
        }
        _ => panic!("expected ItemAdded"),
    }
    assert_eq!(all_values(all), vec![1, 2, 3, 3]);
    assert_eq!(b.items, vec![1, 2, 3, 3]);
}

#[test]
fn add_item_to_empty_block_uses_default() {
    let mut b: SequenceBlock<i32> = SequenceBlock::new(String::new(), vec![]);
    b.add_item();
    assert_eq!(b.items, vec![0]);
    let mut b = SequenceBlock::new(String::new(), vec![1]).with_new_val(NewValueStrategy::Value(9));
    b.add_item();
    assert_eq!(b.items, vec![1, 9]);
    let mut b = SequenceBlock::new(String::new(), vec![]).with_new_val(NewValueStrategy::MostRecentOr(4));
    b.add_item();
    b.add_item();
    assert_eq!(b.items, vec![4, 4]);
}

#[test]
fn remove_item_in_and_out_of_range() {
    let mut b = SequenceBlock::new(String::new(), vec![1, 2, 3]);
    let (ev, all) = b.remove_item(1).unwrap();
    assert!(matches!(ev, SequenceBlockEvent::ItemRemoved { index: 1 }));
    assert_eq!(all_values(all), vec![1, 3]);
    assert_eq!(b.items, vec![1, 3]);
    assert!(b.remove_item(2).is_none());
    assert_eq!(b.items, vec![1, 3]);
}

#[test]
fn move_up_then_down_restores_order() {
    let mut b = SequenceBlock::new(String::new(), vec![1, 2, 3]);
    let (ev, all) = b.move_item_up(2).unwrap();
    assert!(matches!(ev, SequenceBlockEvent::ItemMoved { from_index: 2, to_index: 1 }));
    assert_eq!(all_values(all), vec![1, 3, 2]);
    assert_eq!(b.items, vec![1, 3, 2]);
    let (ev, all) = b.move_item_down(1).unwrap();
    assert!(matches!(ev, SequenceBlockEvent::ItemMoved { from_index: 1, to_index: 2 }));
    assert_eq!(all_values(all), vec![1, 2, 3]);
    assert_eq!(b.items, vec![1, 2, 3]);
    assert!(b.move_item_up(0).is_none());
    assert!(b.move_item_down(2).is_none());
    assert_eq!(b.items, vec![1, 2, 3]);
    assert_eq!(b.values(), vec![1, 2, 3]);
    let mut target = vec![7];
    b.apply(&mut target);
    assert_eq!(target, vec![1, 2, 3]);
}

#[test]
fn key_value_block_names_added_entries() {
    let mut b = KeyValueBlock::new("Properties".to_string(), vec![KeyValueEntry::new("mass".to_string(), KeyValue::Integer(1))]);
    let (ev, all) = b.add_item();
    match ev {
        KeyValueBlockEvent::EntryAdded { index, entry } => {
            assert_eq!(index, 1);
            assert_eq!(entry.key, "item_2");
            assert_eq!(entry.value, KeyValue::default());
        }
        _ => panic!("expected EntryAdded"),
    }
    assert_eq!(all_values(all).len(), 2);
    b.add_item();
    assert_eq!(b.items[2].key, "item_3");
    let (ev, all) = b.remove_item(0).unwrap();
    assert!(matches!(ev, KeyValueBlockEvent::EntryRemoved { index: 0 }));
    assert_eq!(all_values(all).iter().map(|e| e.key.clone()).collect::<Vec<_>>(), vec!["item_2", "item_3"]);
    assert!(b.remove_item(5).is_none());
    let mut target = Vec::new();
    b.apply(&mut target);
    assert_eq!(target.iter().map(|e| e.key.clone()).collect::<Vec<_>>(), vec!["item_2", "item_3"]);
}
