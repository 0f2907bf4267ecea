use kitties::owned::OwnedIndex;
use kitties::store::KittyStore;
use kitties::{Gender, Kitty, H256};

fn id(n: u8) -> H256 {
    let mut bytes = [0u8; 32];
    bytes[31] = n;
    H256(bytes)
}

fn kitty(owner: u64) -> Kitty {
    Kitty { dna: [owner as u8; 16], price: None, gender: Gender::Male, owner }
}

#[test]
fn store_keeps_one_record_per_identifier() {
    let mut store = KittyStore::new();
    assert_eq!(store.get(&id(1)), None);
    store.insert(id(1), kitty(1));
    store.insert(id(2), kitty(2));
    assert_eq!(store.get(&id(1)), Some(kitty(1)));
    assert_eq!(store.get(&id(2)), Some(kitty(2)));
    assert_eq!(store.get(&id(3)), None);
    store.insert(id(1), kitty(7));
    assert_eq!(store.get(&id(1)), Some(kitty(7)));
    assert_eq!(store.get(&id(2)), Some(kitty(2)));
}

#[test]
fn index_appends_until_the_bound() {
    let mut index = OwnedIndex::new(2);
    assert_eq!(index.bound(), 2);
    assert_eq!(index.len(1), 0);
    assert_eq!(index.get(1), Vec::<H256>::new());
    assert_eq!(index.try_push(1, id(1)), Ok(()));
    assert!(!index.is_full(1));
    assert_eq!(index.try_push(1, id(2)), Ok(()));
    assert!(index.is_full(1));
    assert_eq!(index.try_push(1, id(3)), Err(id(3)));
    assert_eq!(index.get(1), vec![id(1), id(2)]);
    assert_eq!(index.len(1), 2);
    assert_eq!(index.try_push(2, id(3)), Ok(()));
    assert_eq!(index.get(2), vec![id(3)]);
    assert_eq!(index.get(1), vec![id(1), id(2)]);
}

#[test]
fn index_with_bound_zero_takes_nothing() {
    let mut index = OwnedIndex::new(0);
    assert!(index.is_full(1));
    assert_eq!(index.try_push(1, id(1)), Err(id(1)));
    assert_eq!(index.len(1), 0);
}

#[test]
fn index_finds_the_first_place() {
    let mut index = OwnedIndex::new(4);
    for n in [5, 6, 5, 7] {
        assert_eq!(index.try_push(1, id(n)), Ok(()));
    }
    assert_eq!(index.position(1, &id(5)), Some(0));
    assert_eq!(index.position(1, &id(6)), Some(1));
    assert_eq!(index.position(1, &id(7)), Some(3));
    assert_eq!(index.position(1, &id(8)), None);
    assert_eq!(index.position(2, &id(5)), None);
}

#[test]
fn index_removes_by_swapping_the_last_entry_in() {
    let mut index = OwnedIndex::new(4);
    for n in [1, 2, 3, 4] {
        assert_eq!(index.try_push(1, id(n)), Ok(()));
    }
    assert_eq!(index.swap_remove(1, 1), id(2));
    assert_eq!(index.get(1), vec![id(1), id(4), id(3)]);
    assert_eq!(index.swap_remove(1, 2), id(3));
    assert_eq!(index.get(1), vec![id(1), id(4)]);
    assert_eq!(index.swap_remove(1, 0), id(1));
    assert_eq!(index.get(1), vec![id(4)]);
    assert_eq!(index.swap_remove(1, 0), id(4));
    assert_eq!(index.get(1), Vec::<H256>::new());
    assert_eq!(index.try_push(1, id(9)), Ok(()));
    assert_eq!(index.get(1), vec![id(9)]);
}
