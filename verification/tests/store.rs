use lunch_order::store::{get_restaurants, Store};
use lunch_order::LunchOrderError;

#[test]
fn create_assigns_ids_in_order() {
    let mut s = Store::new();
    let a = s.create_at("thai".to_string(), 10).unwrap();
    let b = s.create_at("sushi".to_string(), 20).unwrap();
    assert_eq!(a.id, 1);
    assert_eq!(b.id, 2);
    assert_eq!(a.name, "thai");
    assert_eq!(a.last_visit_time, 10);
    assert_eq!(s.restaurant_count(), 2);
}

#[test]
fn create_rejects_empty_name() {
    let mut s = Store::new();
    let r = s.create_at(String::new(), 10);
    assert!(matches!(r, Err(LunchOrderError::Validation)));
    assert_eq!(s.restaurant_count(), 0);
}

#[test]
fn create_uses_the_clock() {
    let mut s = Store::new();
    let before: i64 = chrono::Utc::now().timestamp();
    let row = s.create("thai".to_string()).unwrap();
    let after: i64 = chrono::Utc::now().timestamp();
    assert!(before <= row.last_visit_time && row.last_visit_time <= after);
}

#[test]
fn created_row_comes_back_exactly_once() {
    let mut s = Store::new();
    s.create_at("thai".to_string(), 30).unwrap();
    s.create_at("sushi".to_string(), 10).unwrap();
    let listed = get_restaurants(&s).unwrap();
    let matching: Vec<_> = listed.iter().filter(|r| r.name == "sushi").collect();
    assert_eq!(matching.len(), 1);
    assert_eq!(matching[0].last_visit_time, 10);
}

#[test]
fn listing_orders_least_recently_visited_first() {
    let mut s = Store::new();
    s.create_at("thai".to_string(), 30).unwrap();
    s.create_at("sushi".to_string(), 10).unwrap();
    s.create_at("pizza".to_string(), 20).unwrap();
    let listed = get_restaurants(&s).unwrap();
    let names: Vec<&str> = listed.iter().map(|r| r.name.as_str()).collect();
    assert_eq!(names, vec!["sushi", "pizza", "thai"]);
    let times: Vec<i64> = listed.iter().map(|r| r.last_visit_time).collect();
    assert_eq!(times, vec![10, 20, 30]);
}

#[test]
fn empty_store_lists_nothing() {
    let s = Store::new();
    let listed = get_restaurants(&s).unwrap();
    assert_eq!(listed.len(), 0);
}

#[test]
fn recording_a_visit_strictly_increases_the_time() {
    let mut s = Store::new();
    s.create_at("thai".to_string(), 10).unwrap();
    let old_time: i64 = s.restaurant_at(0).last_visit_time;
    s.record_visit(1, 50).unwrap();
    let new_time: i64 = s.restaurant_at(0).last_visit_time;
    assert!(new_time > old_time);
    assert_eq!(new_time, 50);
}

#[test]
fn recorded_visit_moves_the_row_to_the_most_recent_rank() {
    let mut s = Store::new();
    s.create_at("thai".to_string(), 10).unwrap();
    s.create_at("sushi".to_string(), 20).unwrap();
    s.create_at("pizza".to_string(), 30).unwrap();
    s.record_visit(1, 40).unwrap();
    let listed = get_restaurants(&s).unwrap();
    let names: Vec<&str> = listed.iter().map(|r| r.name.as_str()).collect();
    assert_eq!(names, vec!["sushi", "pizza", "thai"]);
}

#[test]
fn visiting_an_unknown_id_changes_nothing() {
    let mut s = Store::new();
    s.create_at("thai".to_string(), 10).unwrap();
    let r = s.record_visit(999, 50);
    assert!(matches!(r, Err(LunchOrderError::NotFound)));
    assert_eq!(s.restaurant_count(), 1);
    assert_eq!(s.restaurant_at(0).last_visit_time, 10);
    assert_eq!(s.restaurant_at(0).name, "thai");
}

#[test]
fn visits_keep_other_rows_untouched() {
    let mut s = Store::new();
    s.create_at("thai".to_string(), 10).unwrap();
    s.create_at("sushi".to_string(), 20).unwrap();
    s.record_visit(2, 60).unwrap();
    assert_eq!(s.restaurant_at(0).last_visit_time, 10);
    assert_eq!(s.restaurant_at(1).last_visit_time, 60);
}

#[test]
fn errors_describe_themselves() {
    assert_eq!(LunchOrderError::NotFound.describe(), "no such row");
    assert_eq!(LunchOrderError::Validation.describe(), "invalid input");
    let wrapped = LunchOrderError::Registration(Box::new(LunchOrderError::Query));
    assert_eq!(wrapped.describe(), "registration failed");
}
