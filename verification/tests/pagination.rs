use flowgrid::json::JsonValue;
use flowgrid::pagination::{ListPage, ListPagesLimits, ListWalk, WalkStep};

fn page<T>(data: Vec<T>, last_id: Option<&str>, has_more: Option<bool>) -> ListPage<T> {
    ListPage {
        data,
        object: Some("list".to_string()),
        first_id: None,
        last_id: last_id.map(|s| s.to_string()),
        has_more,
        extra: vec![],
    }
}

#[test]
fn list_page_after_cursor() {
    let p: ListPage<()> = page(vec![], Some("x"), Some(true));
    assert_eq!(p.after_cursor(), Some("x".into()));
}

#[test]
fn list_page_unknown_field_in_extra() {
    let p: ListPage<String> = ListPage {
        data: vec![],
        object: None,
        first_id: None,
        last_id: None,
        has_more: None,
        extra: vec![("future_meta".to_string(), JsonValue::Number("1".to_string()))],
    };
    assert_eq!(
        flowgrid::json::find_member(&p.extra, "future_meta").and_then(|v| v.as_u64()),
        Some(1)
    );
}

#[test]
fn after_cursor_needs_has_more() {
    assert_eq!(page::<u8>(vec![], Some("x"), Some(false)).after_cursor(), None);
    assert_eq!(page::<u8>(vec![], Some("x"), None).after_cursor(), None);
    assert_eq!(page::<u8>(vec![], None, Some(true)).after_cursor(), None);
    assert!(page::<u8>(vec![], None, Some(true)).has_more());
    assert!(!page::<u8>(vec![], None, None).has_more());
}

#[test]
fn limits_defaults_and_pages_only() {
    let d = ListPagesLimits::default();
    assert_eq!(d, ListPagesLimits { max_pages: 100, max_items: Some(10_000) });
    assert_eq!(ListPagesLimits::pages_only(0), ListPagesLimits { max_pages: 1, max_items: None });
    assert_eq!(ListPagesLimits::pages_only(7), ListPagesLimits { max_pages: 7, max_items: None });
}

#[test]
fn walk_follows_cursors_until_the_last_page() {
    let mut w: ListWalk<u32> = ListWalk::new(ListPagesLimits::pages_only(10));
    assert!(w.wants_page());
    assert_eq!(w.take_page(page(vec![1, 2], Some("b"), Some(true))), WalkStep::Next("b".to_string()));
    assert!(w.wants_page());
    assert_eq!(w.take_page(page(vec![3], Some("c"), Some(false))), WalkStep::Finished);
    assert!(!w.wants_page());
    assert_eq!(w.into_items(), vec![1, 2, 3]);
}

#[test]
fn walk_stops_at_max_pages() {
    let mut w: ListWalk<u32> = ListWalk::new(ListPagesLimits::pages_only(2));
    assert_eq!(w.take_page(page(vec![1], Some("a"), Some(true))), WalkStep::Next("a".to_string()));
    assert_eq!(w.take_page(page(vec![2], Some("b"), Some(true))), WalkStep::Next("b".to_string()));
    assert!(!w.wants_page());
    assert_eq!(w.into_items(), vec![1, 2]);
}

#[test]
fn walk_stops_at_max_items() {
    let limits = ListPagesLimits { max_pages: 10, max_items: Some(3) };
    let mut w: ListWalk<u32> = ListWalk::new(limits);
    assert_eq!(w.take_page(page(vec![1, 2], Some("a"), Some(true))), WalkStep::Next("a".to_string()));
    assert_eq!(w.take_page(page(vec![3, 4, 5], Some("b"), Some(true))), WalkStep::Finished);
    assert!(!w.wants_page());
    assert_eq!(w.into_items(), vec![1, 2, 3]);
}

#[test]
fn walk_at_exact_cap_continues_until_another_item_arrives() {
    let limits = ListPagesLimits { max_pages: 10, max_items: Some(2) };
    let mut w: ListWalk<u32> = ListWalk::new(limits);
    assert_eq!(w.take_page(page(vec![1, 2], Some("a"), Some(true))), WalkStep::Next("a".to_string()));
    assert_eq!(w.take_page(page(vec![], Some("b"), Some(true))), WalkStep::Next("b".to_string()));
    assert_eq!(w.take_page(page(vec![9], Some("c"), Some(true))), WalkStep::Finished);
    assert_eq!(w.into_items(), vec![1, 2]);
}

#[test]
fn walk_reports_missing_cursor() {
    let mut w: ListWalk<u32> = ListWalk::new(ListPagesLimits::default());
    assert_eq!(w.take_page(page(vec![1], None, Some(true))), WalkStep::MissingCursor);
    assert!(!w.wants_page());
    assert_eq!(
        WalkStep::missing_cursor_message(),
        "OpenAI list: has_more is true but last_id is missing; cannot advance after cursor"
    );
}

#[test]
fn walk_with_zero_cap_takes_nothing() {
    let limits = ListPagesLimits { max_pages: 0, max_items: Some(0) };
    let mut w: ListWalk<u32> = ListWalk::new(limits);
    assert!(w.wants_page());
    assert_eq!(w.take_page(page(vec![1], Some("a"), Some(true))), WalkStep::Finished);
    assert_eq!(w.into_items(), Vec::<u32>::new());
}
