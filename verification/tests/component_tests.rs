use otway::component::{ComponentError, ComponentList};

#[test]
fn push_then_get_mut_returns_the_pushed_instance() {
    let mut list: ComponentList<String> = ComponentList::new();
    list.push(1, String::from("drag-resize")).unwrap();
    assert_eq!(list.get(1).unwrap(), "drag-resize");
    let c = list.get_mut(1).unwrap();
    c.push_str("!");
    assert_eq!(list.get(1).unwrap(), "drag-resize!");
}

#[test]
fn get_on_an_unpushed_kind_fails_with_missing_component() {
    let list: ComponentList<u32> = ComponentList::new();
    assert_eq!(list.get(1).unwrap_err(), ComponentError::MissingComponent);
    let mut list = list;
    assert_eq!(
        list.get_mut(1).unwrap_err(),
        ComponentError::MissingComponent
    );
}

#[test]
fn duplicate_kind_insertion_overwrites() {
    let mut list: ComponentList<u32> = ComponentList::new();
    list.push(1, 10).unwrap();
    list.push(1, 20).unwrap();
    assert_eq!(*list.get(1).unwrap(), 20);
    let list = list.and_push(2, 30).and_push(1, 40);
    assert_eq!(*list.get(1).unwrap(), 40);
    assert_eq!(*list.get(2).unwrap(), 30);
}

#[test]
fn operations_during_dispatch_fail_with_update_in_progress() {
    let mut list: ComponentList<u32> = ComponentList::new();
    list.push(1, 10).unwrap();
    let table = list.begin_dispatch().unwrap();
    // the table is checked out: every operation fails, recoverably
    assert_eq!(
        list.push(2, 20).unwrap_err(),
        ComponentError::UpdateInProgress
    );
    assert_eq!(list.get(1).unwrap_err(), ComponentError::UpdateInProgress);
    assert_eq!(
        list.get_mut(1).unwrap_err(),
        ComponentError::UpdateInProgress
    );
    // recursive dispatch on the same node is refused
    assert_eq!(
        list.begin_dispatch().unwrap_err(),
        ComponentError::UpdateInProgress
    );
    // the dispatch pass sees every component in insertion order
    assert_eq!(table, vec![(1, 10)]);
    list.end_dispatch(table);
    assert_eq!(*list.get(1).unwrap(), 10);
    list.push(2, 20).unwrap();
    assert_eq!(*list.get(2).unwrap(), 20);
}

#[test]
fn error_messages_name_the_failure() {
    assert_eq!(
        ComponentError::UpdateInProgress.message(),
        "a component update is in progress"
    );
    assert_eq!(
        ComponentError::MissingComponent.message(),
        "component kind does not exist for this widget"
    );
}
