use cw20_milestone_escrow::registry::Registry;
use cw20_milestone_escrow::state::{all_escrow_ids, Escrow, GenericBalance};

fn dummy_escrow() -> Escrow {
    Escrow {
        arbiter: "arb".to_string(),
        recipient: Some("recip".to_string()),
        source: "source".to_string(),
        title: "some_escrow".to_string(),
        description: "some escrow desc".to_string(),
        end_height: None,
        end_time: None,
        balance: GenericBalance::default(),
        cw20_whitelist: vec![],
        milestones: vec![],
    }
}

#[test]
fn test_no_escrow_ids() {
    let storage = Registry::new();
    let ids = all_escrow_ids(&storage);
    assert_eq!(0, ids.len());
}

#[test]
fn test_all_escrow_ids_in_order() {
    let mut storage = Registry::new();
    storage.save("lazy", dummy_escrow());
    storage.save("assign", dummy_escrow());
    storage.save("zen", dummy_escrow());

    let ids = all_escrow_ids(&storage);
    assert_eq!(3, ids.len());
    assert_eq!(vec!["assign".to_string(), "lazy".to_string(), "zen".to_string()], ids)
}
