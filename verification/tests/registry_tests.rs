use cw20_milestone_escrow::error::ContractError;
use cw20_milestone_escrow::registry::Registry;
use cw20_milestone_escrow::state::{
    all_escrow_milestone_ids, get_escrow_by_id, Escrow, GenericBalance,
};

fn escrow(title: &str) -> Escrow {
    Escrow {
        arbiter: "arb".to_string(),
        recipient: None,
        source: "source".to_string(),
        title: title.to_string(),
        description: "d".to_string(),
        end_height: None,
        end_time: None,
        balance: GenericBalance::default(),
        cw20_whitelist: vec![],
        milestones: vec![],
    }
}

#[test]
fn insert_only_where_absent() {
    let mut store = Registry::new();
    assert_eq!(store.insert_if_absent("one", escrow("first")), Ok(()));
    assert_eq!(
        store.insert_if_absent("one", escrow("second")),
        Err(ContractError::AlreadyInUse)
    );
    assert_eq!(store.load("one").unwrap().title, "first");
    assert_eq!(store.len(), 1);
    assert!(store.contains("one"));
    assert!(!store.contains("on"));
}

#[test]
fn save_replaces_and_delete_removes() {
    let mut store = Registry::new();
    store.save("b", escrow("1"));
    store.save("a", escrow("2"));
    store.save("c", escrow("3"));
    store.save("b", escrow("4"));
    assert_eq!(store.list_ids(), vec!["a", "b", "c"]);
    assert_eq!(store.load("b").unwrap().title, "4");
    assert_eq!(store.load("d"), Err(ContractError::NotFound));
    store.delete("a");
    store.delete("a");
    store.delete("zzz");
    assert_eq!(store.list_ids(), vec!["b", "c"]);
    assert_eq!(store.load("a"), Err(ContractError::NotFound));
    assert_eq!(store.load("c").unwrap().title, "3");
    store.delete("c");
    store.delete("b");
    assert_eq!(store.len(), 0);
    assert_eq!(store.list_ids(), Vec::<String>::new());
}

#[test]
fn ids_ascend_by_bytes() {
    let mut store = Registry::new();
    for id in ["b", "", "ab", "a", "B", "é", "aa", "z"] {
        store.save(id, escrow(id));
    }
    assert_eq!(store.list_ids(), vec!["", "B", "a", "aa", "ab", "b", "z", "é"]);
    for id in ["b", "", "ab", "a", "B", "é", "aa", "z"] {
        assert_eq!(store.load(id).unwrap().title, id);
    }
}

#[test]
fn accessors_over_the_registry() {
    let mut store = Registry::new();
    store.save("one", escrow("first"));
    assert_eq!(get_escrow_by_id(&store, &"one".to_string()).unwrap().title, "first");
    assert_eq!(get_escrow_by_id(&store, &"two".to_string()), Err(ContractError::NotFound));
    assert_eq!(all_escrow_milestone_ids(&store, "one"), Ok(vec![]));
    assert_eq!(all_escrow_milestone_ids(&store, "two"), Err(ContractError::NotFound));
}
