use cicero::StatefulVec;

#[test]
fn test_create() {
    {
        let stateful_vec = StatefulVec::new(Vec::<u8>::default(), None);
        assert!(stateful_vec.storage().is_empty());
        assert!(stateful_vec.current().is_none());
    }
    {
        let stateful_vec = StatefulVec::new(vec![1, 2, 3, 4, 5], Some(2));
        assert_eq!(*stateful_vec.storage(), vec![1, 2, 3, 4, 5]);
        assert_eq!(stateful_vec.current(), Some(2));
    }
    {
        let stateful_vec = StatefulVec::new(vec![1, 2, 3, 4, 5], Some(100));
        assert_eq!(*stateful_vec.storage(), vec![1, 2, 3, 4, 5]);
        assert_eq!(stateful_vec.current(), None);
    }
}

#[test]
fn test_has_previous() {
    {
        let stateful_vec = StatefulVec::new(vec![1, 2, 3, 4, 5], Some(1));
        assert!(stateful_vec.has_previous());
    }
    {
        let stateful_vec = StatefulVec::new(vec![1, 2, 3, 4, 5], Some(0));
        assert!(!stateful_vec.has_previous());
    }
    {
        let stateful_vec = StatefulVec::new(Vec::<u8>::default(), None);
        assert!(!stateful_vec.has_previous());
    }
    {
        let stateful_vec = StatefulVec::new(vec![1, 2, 3, 4, 5], None);
        assert!(stateful_vec.has_previous());
    }
}

#[test]
fn test_previous() {
    {
        let mut stateful_vec = StatefulVec::new(vec![1, 2, 3, 4, 5], Some(1));
        stateful_vec.select_previous();
        assert_eq!(stateful_vec.current(), Some(0));
    }
    {
        let mut stateful_vec = StatefulVec::new(vec![1, 2, 3, 4, 5], Some(0));
        stateful_vec.select_previous();
        assert_eq!(stateful_vec.current(), Some(0));
    }
    {
        let mut stateful_vec = StatefulVec::new(Vec::<u8>::default(), None);
        stateful_vec.select_previous();
        assert_eq!(stateful_vec.current(), None);
    }
    {
        let mut stateful_vec = StatefulVec::new(vec![1, 2, 3, 4, 5], None);
        stateful_vec.select_previous();
        assert_eq!(stateful_vec.current(), Some(4));
    }
}

#[test]
fn test_has_next() {
    {
        let stateful_vec = StatefulVec::new(vec![1, 2, 3, 4, 5], Some(1));
        assert!(stateful_vec.has_next());
    }
    {
        let stateful_vec = StatefulVec::new(vec![1, 2, 3, 4, 5], Some(4));
        assert!(!stateful_vec.has_next());
    }
    {
        let stateful_vec = StatefulVec::new(Vec::<u8>::default(), None);
        assert!(!stateful_vec.has_next());
    }
    {
        let stateful_vec = StatefulVec::new(vec![1, 2, 3, 4, 5], None);
        assert!(stateful_vec.has_next());
    }
}

#[test]
fn test_next() {
    {
        let mut stateful_vec = StatefulVec::new(vec![1, 2, 3, 4, 5], Some(1));
        stateful_vec.select_next();
        assert_eq!(stateful_vec.current(), Some(2));
    }
    {
        let mut stateful_vec = StatefulVec::new(vec![1, 2, 3, 4, 5], Some(4));
        stateful_vec.select_next();
        assert_eq!(stateful_vec.current(), Some(4));
    }
    {
        let mut stateful_vec = StatefulVec::new(Vec::<u8>::default(), None);
        stateful_vec.select_next();
        assert_eq!(stateful_vec.current(), None);
    }
    {
        let mut stateful_vec = StatefulVec::new(vec![1, 2, 3, 4, 5], None);
        stateful_vec.select_next();
        assert_eq!(stateful_vec.current(), Some(0));
    }
}

#[test]
fn test_current_item() {
    {
        let stateful_vec = StatefulVec::new(Vec::<u8>::default(), None);
        assert_eq!(stateful_vec.current_item(), None);
    }
    {
        let mut stateful_vec = StatefulVec::new(vec![1, 2, 3, 4, 5], None);
        assert_eq!(stateful_vec.current_item(), None);

        stateful_vec.select_previous();
        assert_eq!(stateful_vec.current_item(), Some(&5));

        stateful_vec.select_previous();
        assert_eq!(stateful_vec.current_item(), Some(&4));

        stateful_vec.select_previous();
        assert_eq!(stateful_vec.current_item(), Some(&3));

        stateful_vec.select_previous();
        assert_eq!(stateful_vec.current_item(), Some(&2));

        stateful_vec.select_previous();
        assert_eq!(stateful_vec.current_item(), Some(&1));

        stateful_vec.select_previous();
        assert_eq!(stateful_vec.current_item(), Some(&1));
    }
    {
        let mut stateful_vec = StatefulVec::new(vec![1, 2, 3, 4, 5], None);
        assert_eq!(stateful_vec.current_item(), None);

        stateful_vec.select_next();
        assert_eq!(stateful_vec.current_item(), Some(&1));

        stateful_vec.select_next();
        assert_eq!(stateful_vec.current_item(), Some(&2));

        stateful_vec.select_next();
        assert_eq!(stateful_vec.current_item(), Some(&3));

        stateful_vec.select_next();
        assert_eq!(stateful_vec.current_item(), Some(&4));

        stateful_vec.select_next();
        assert_eq!(stateful_vec.current_item(), Some(&5));

        stateful_vec.select_next();
        assert_eq!(stateful_vec.current_item(), Some(&5));
    }
}

#[test]
fn select_next_reaches_last_from_each_start_and_stays() {
    let items = vec![10, 20, 30, 40, 50, 60, 70];
    let len = items.len();
    for i in 0..len {
        let mut cursor = StatefulVec::new(items.clone(), Some(i));
        for _ in 0..(len - 1 - i) {
            cursor.select_next();
        }
        assert_eq!(cursor.current(), Some(len - 1));
        cursor.select_next();
        cursor.select_next();
        assert_eq!(cursor.current(), Some(len - 1));
    }
}

#[test]
fn select_previous_reaches_first_from_each_start_and_stays() {
    let items = vec![10, 20, 30, 40, 50, 60, 70];
    let len = items.len();
    for i in 0..len {
        let mut cursor = StatefulVec::new(items.clone(), Some(i));
        for _ in 0..i {
            cursor.select_previous();
        }
        assert_eq!(cursor.current(), Some(0));
        cursor.select_previous();
        assert_eq!(cursor.current(), Some(0));
    }
}

#[test]
fn select_if_found_keeps_selection_when_absent() {
    let mut cursor = StatefulVec::new(vec![3, 1, 4, 1, 5], Some(2));
    cursor.select_if_found(&9);
    assert_eq!(cursor.current(), Some(2));
}

#[test]
fn select_if_found_selects_first_match() {
    let mut cursor = StatefulVec::new(vec![3, 1, 4, 1, 5], Some(4));
    cursor.select_if_found(&1);
    assert_eq!(cursor.current(), Some(1));
    let mut unselected = StatefulVec::new(vec![3, 1, 4], None);
    unselected.select_if_found(&4);
    assert_eq!(unselected.current_item(), Some(&4));
}
