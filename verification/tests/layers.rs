use ferrocopy::layers::{Damage, LayerRegistry, LayerState};

#[test]
fn layers_get_increasing_ids_and_start_fully_damaged() {
    let mut reg = LayerRegistry::new();
    let a = reg.insert_layer(5);
    let b = reg.insert_layer(1);
    assert_eq!((a, b), (1, 2));
    assert_eq!(reg.get_layer(a), Some(LayerState { z: 5, visible: true, damage: Damage::Full }));
    assert_eq!(reg.allocate_id(), 3);
    assert_eq!(reg.insert_layer(0), 4);
    assert_eq!(reg.get_layer(3), None);
}

#[test]
fn visible_layers_come_out_by_stacking_level() {
    let mut reg = LayerRegistry::new();
    let a = reg.insert_layer(5);
    let b = reg.insert_layer(1);
    let c = reg.insert_layer(3);
    let d = reg.insert_layer(1);
    assert_eq!(reg.sorted_visible(), vec![b, d, c, a]);
    reg.set_visibility(c, false);
    reg.set_layer_z(a, 0);
    assert_eq!(reg.sorted_visible(), vec![a, b, d]);
    reg.remove_layer(b);
    assert_eq!(reg.sorted_visible(), vec![a, d]);
    assert_eq!(reg.get_layer(b), None);
}

#[test]
fn damage_tracking() {
    let mut reg = LayerRegistry::new();
    let a = reg.insert_layer(0);
    let b = reg.insert_layer(1);
    assert!(reg.needs_full_redraw());
    reg.clear_dirty();
    assert_eq!(reg.get_layer(a).unwrap().damage, Damage::Clean);
    assert_eq!(reg.get_layer(b).unwrap().damage, Damage::Clean);
    assert!(!reg.needs_full_redraw());
    reg.mark_region(a);
    assert_eq!(reg.get_layer(a).unwrap().damage, Damage::Region);
    assert!(!reg.needs_full_redraw());
    reg.update_layer(b);
    assert_eq!(reg.get_layer(b).unwrap().damage, Damage::Full);
    assert!(reg.needs_full_redraw());
    reg.mark_region(b);
    assert_eq!(reg.get_layer(b).unwrap().damage, Damage::Full);
    reg.set_visibility(b, false);
    assert!(!reg.needs_full_redraw());
    reg.clear_dirty();
    assert_eq!(reg.get_layer(a).unwrap().damage, Damage::Clean);
    assert!(!reg.needs_full_redraw());
}

#[test]
fn changes_to_missing_layers_do_nothing() {
    let mut reg = LayerRegistry::new();
    reg.update_layer(7);
    reg.set_layer_z(7, 3);
    reg.set_visibility(7, true);
    reg.mark_region(7);
    reg.remove_layer(7);
    assert!(reg.sorted_visible().is_empty());
    assert!(!reg.needs_full_redraw());
}

#[test]
fn damaged_layers_lists_regions_in_stacking_order() {
    let mut reg = LayerRegistry::new();
    let a = reg.insert_layer(5);
    let b = reg.insert_layer(1);
    let c = reg.insert_layer(3);
    assert_eq!(reg.damaged_layers(), None);
    reg.clear_dirty();
    assert_eq!(reg.damaged_layers(), Some(vec![]));
    reg.mark_region(a);
    reg.mark_region(b);
    assert_eq!(reg.damaged_layers(), Some(vec![b, a]));
    reg.set_visibility(c, false);
    assert_eq!(reg.damaged_layers(), Some(vec![b, a]));
    reg.set_visibility(c, true);
    assert_eq!(reg.damaged_layers(), None);
    reg.clear_dirty();
    assert_eq!(reg.damaged_layers(), Some(vec![]));
}
