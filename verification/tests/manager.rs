use game_in_rust::manager::{EntityManager, ManagedEntity};

#[test]
fn manager_hands_out_ids_from_one() {
    let mut m: EntityManager<(i32, i32), &str> = EntityManager::new();
    let a = m.add_entity(0, (1, 2));
    let b = m.add_entity(3, (4, 5));
    assert_eq!((a, b), (1, 2));
    let ea = m.get_entity(1).unwrap();
    assert_eq!((ea.id, ea.model_id, ea.motion), (1, 0, (1, 2)));
    let eb = m.get_entity(2).unwrap();
    assert_eq!((eb.id, eb.model_id, eb.motion), (2, 3, (4, 5)));
    assert!(m.get_entity(0).is_none());
}

#[test]
fn manager_update_and_remove() {
    let mut m: EntityManager<u8, ()> = EntityManager::new();
    let id = m.add_entity(7, 1);
    m.update_entity(ManagedEntity { id, model_id: 8, motion: 9 });
    let e = m.get_entity(id).unwrap();
    assert_eq!((e.model_id, e.motion), (8, 9));
    m.remove_entity(id);
    assert!(m.get_entity(id).is_none());
    assert_eq!(m.add_entity(0, 0), 2);
}

#[test]
fn manager_models_by_index() {
    let mut m: EntityManager<u8, &str> = EntityManager::new();
    assert_eq!(m.add_model("cube"), 0);
    assert_eq!(m.add_model("floor"), 1);
    assert_eq!(m.model(1), Some(&"floor"));
    assert_eq!(m.model(2), None);
}
