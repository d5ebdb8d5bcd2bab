use zagent::ui::view::{ActiveView, ViewId, ViewManager};

#[test]
fn round_trip_restores_lead_buffer() {
    let mut vm: ViewManager<u32> = ViewManager::new();
    assert!(vm.is_lead());
    assert_eq!(vm.status_label(), None);
    let (id, shown) = vm.switch_to(ViewId::new("alice".to_string()), vec![1, 2, 3]);
    assert_eq!(id, ViewId::new("alice".to_string()));
    assert!(shown.is_empty());
    assert_eq!(vm.active, ActiveView::Named(ViewId::new("alice".to_string())));
    assert_eq!(vm.status_label(), Some("alice".to_string()));
    assert_eq!(vm.active_named().map(|v| v.as_str()), Some("alice"));
    let back = vm.switch_to_lead(vec![9]);
    assert_eq!(back, Some(vec![1, 2, 3]));
    assert!(vm.is_lead());
    assert_eq!(vm.switch_to_lead(vec![]), None);
    let (_, again) = vm.switch_to(ViewId::new("alice".to_string()), vec![]);
    assert_eq!(again, vec![9]);
}

#[test]
fn named_views_keep_their_buffers() {
    let mut vm: ViewManager<u32> = ViewManager::new();
    let a = ViewId::new("a".to_string());
    let b = ViewId::new("b".to_string());
    vm.switch_to(a.clone(), vec![]);
    let (_, shown_b) = vm.switch_to(b.clone(), vec![10]);
    assert!(shown_b.is_empty());
    let (_, shown_a) = vm.switch_to(a.clone(), vec![20]);
    assert_eq!(shown_a, vec![10]);
    let (_, shown_b) = vm.switch_to(b.clone(), vec![11]);
    assert_eq!(shown_b, vec![20]);
    vm.switch_to(a.clone(), vec![12]);
    assert_eq!(vm.named_views().len(), 2);
}

#[test]
fn background_writes() {
    let mut vm: ViewManager<u32> = ViewManager::new();
    let a = ViewId::new("a".to_string());
    let b = ViewId::new("b".to_string());
    vm.write_to_inactive(&a, vec![1]);
    vm.write_to_inactive(&a, vec![2, 3]);
    assert!(vm.has_view(&a));
    vm.switch_to(b.clone(), vec![]);
    vm.write_to_inactive(&b, vec![7]);
    let (_, shown) = vm.switch_to(a.clone(), vec![5]);
    assert_eq!(shown, vec![1, 2, 3]);
    assert!(vm.is_active(&a));
    assert_eq!(vm.remove(&b), None);
    assert!(!vm.has_view(&b));
    assert!(vm.is_active(&a));
    let names: Vec<String> = vm.named_views().into_iter().map(|v| v.0).collect();
    assert_eq!(names, vec!["a".to_string()]);
}

#[test]
fn removing_the_displayed_view_shows_the_lead() {
    let mut vm: ViewManager<u32> = ViewManager::new();
    let a = ViewId::new("a".to_string());
    vm.switch_to(a.clone(), vec![4, 5]);
    assert_eq!(vm.remove(&a), Some(vec![4, 5]));
    assert!(vm.is_lead());
    assert!(!vm.has_view(&a));
    assert_eq!(vm.remove(&a), None);
}

#[test]
fn failed_display_keeps_the_previous_view() {
    let mut vm: ViewManager<u32> = ViewManager::new();
    let a = ViewId::new("a".to_string());
    let b = ViewId::new("b".to_string());
    vm.switch_to(a.clone(), vec![]);
    let previous = vm.active.clone();
    vm.switch_to(b.clone(), vec![3]);
    vm.settle_switch(previous, false);
    assert!(vm.is_active(&a));
    assert!(vm.has_view(&b));
    let (_, shown_b) = vm.switch_to(b.clone(), vec![6]);
    assert!(shown_b.is_empty());
    let (_, shown_a) = vm.switch_to(a.clone(), vec![]);
    assert_eq!(shown_a, vec![6]);
    let previous = vm.active.clone();
    vm.switch_to(b.clone(), vec![8]);
    vm.settle_switch(previous, true);
    assert!(vm.is_active(&b));
}
