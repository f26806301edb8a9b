use build_cache::backend::http::{
    admits_declared_length, cache_key, error_status, get_status, plan_put, put_status, Backend, Namespace, PutPlan,
};
use build_cache::storage::payload::{Meter, Upload, MAX_BODY_BYTES};
use build_cache::storage::{InMemoryStore, StorageError};
use bytes::Bytes;

fn body(data: &'static [u8]) -> Upload {
    let mut u = Upload::new();
    u.push_chunk(Ok(Bytes::from_static(data)));
    u
}

#[test]
fn scenario_cas_put_then_get() {
    let mut store = InMemoryStore::new();
    assert_eq!(Backend::put_item(&mut store, "ab", None, body(b"hello")), 201);
    let r = Backend::get_item(&store, "ab");
    assert_eq!(r.status, 200);
    assert_eq!(r.body.unwrap().to_vec(), b"hello".to_vec());
}

#[test]
fn scenario_cas_second_put_keeps_value() {
    let mut store = InMemoryStore::new();
    assert_eq!(Backend::put_item(&mut store, "ab", None, body(b"hello")), 201);
    assert_eq!(Backend::put_item(&mut store, "ab", None, body(b"world")), 201);
    let r = Backend::get_item(&store, "ab");
    assert_eq!(r.status, 200);
    assert_eq!(r.body.unwrap().to_vec(), b"hello".to_vec());
}

#[test]
fn scenario_ac_missing_key() {
    let store = InMemoryStore::new();
    let r = Backend::get_action(&store, "missing-key");
    assert_eq!(r.status, 404);
    assert!(r.body.is_none());
}

#[test]
fn scenario_ac_second_put_is_accepted_unchanged() {
    let mut store = InMemoryStore::new();
    assert_eq!(Backend::put_action(&mut store, "x", None, body(b"r1")), 201);
    assert_eq!(Backend::put_action(&mut store, "x", None, body(b"r2")), 202);
    let r = Backend::get_action(&store, "x");
    assert_eq!(r.status, 200);
    assert_eq!(r.body.unwrap().to_vec(), b"r1".to_vec());
}

#[test]
fn namespaces_are_separate() {
    let mut store = InMemoryStore::new();
    assert_eq!(Backend::put_action(&mut store, "ab", None, body(b"action")), 201);
    assert_eq!(Backend::get_item(&store, "ab").status, 404);
    assert_eq!(Backend::put_item(&mut store, "ab", None, body(b"blob")), 201);
    assert_eq!(Backend::get_item(&store, "ab").body.unwrap().to_vec(), b"blob".to_vec());
    assert_eq!(Backend::get_action(&store, "ab").body.unwrap().to_vec(), b"action".to_vec());
}

#[test]
fn failed_put_reports_an_error_and_stores_nothing() {
    let mut store = InMemoryStore::new();
    let mut u = Upload::new();
    u.push_chunk(Err(StorageError::TransferFailure));
    assert_eq!(Backend::put_action(&mut store, "x", None, u), 500);
    assert_eq!(Backend::get_action(&store, "x").status, 404);
}

#[test]
fn cache_key_prefixes_the_namespace() {
    assert_eq!(cache_key(Namespace::Ac, "x"), "ac/x");
    assert_eq!(cache_key(Namespace::Cas, "ab/cd"), "cas/ab/cd");
    assert_eq!(cache_key(Namespace::Ac, ""), "ac/");
}

#[test]
fn status_decisions() {
    assert_eq!(get_status(true), 200);
    assert_eq!(get_status(false), 404);
    assert_eq!(plan_put(Namespace::Ac, true), PutPlan::Respond(202));
    assert_eq!(plan_put(Namespace::Cas, true), PutPlan::Respond(201));
    assert_eq!(plan_put(Namespace::Ac, false), PutPlan::Write);
    assert_eq!(plan_put(Namespace::Cas, false), PutPlan::Write);
    assert_eq!(put_status(Ok(())), 201);
    assert_eq!(put_status(Err(StorageError::TransferFailure)), 500);
    assert_eq!(error_status(StorageError::PayloadTooLarge), 413);
    assert_eq!(error_status(StorageError::InvalidKey), 400);
    assert_eq!(error_status(StorageError::UnsupportedOperation), 501);
}

#[test]
fn oversize_declared_body_is_refused_on_a_present_key() {
    let mut store = InMemoryStore::new();
    assert_eq!(Backend::put_item(&mut store, "ab", None, body(b"hello")), 201);
    let over = Some(MAX_BODY_BYTES as u64 + 1);
    assert_eq!(Backend::put_item(&mut store, "ab", over, body(b"world")), 413);
    assert_eq!(Backend::put_action(&mut store, "x", None, body(b"r1")), 201);
    assert_eq!(Backend::put_action(&mut store, "x", over, body(b"r2")), 413);
    assert_eq!(Backend::get_item(&store, "ab").body.unwrap().to_vec(), b"hello".to_vec());
    assert_eq!(Backend::get_action(&store, "x").body.unwrap().to_vec(), b"r1".to_vec());
}

#[test]
fn oversize_declared_body_is_refused_on_an_absent_key() {
    let mut store = InMemoryStore::new();
    let over = Some(MAX_BODY_BYTES as u64 + 1);
    assert_eq!(Backend::put_action(&mut store, "x", over, body(b"r1")), 413);
    assert_eq!(Backend::get_action(&store, "x").status, 404);
    let at_limit = Some(MAX_BODY_BYTES as u64);
    assert_eq!(Backend::put_action(&mut store, "x", at_limit, body(b"r1")), 201);
}

#[test]
fn body_read_past_the_ceiling_is_refused_on_a_present_key() {
    let mut store = InMemoryStore::new();
    assert_eq!(Backend::put_action(&mut store, "x", None, body(b"r1")), 201);
    let mut u = Upload::new();
    u.push_chunk(Ok(Bytes::from_static(b"ab")));
    u.push_chunk(Ok(Bytes::from(vec![0u8; MAX_BODY_BYTES - 1])));
    assert_eq!(Backend::put_action(&mut store, "x", None, u), 413);
    assert_eq!(Backend::get_action(&store, "x").body.unwrap().to_vec(), b"r1".to_vec());
}

#[test]
fn declared_length_admission() {
    assert!(admits_declared_length(None));
    assert!(admits_declared_length(Some(0)));
    assert!(admits_declared_length(Some(MAX_BODY_BYTES as u64)));
    assert!(!admits_declared_length(Some(MAX_BODY_BYTES as u64 + 1)));
}

#[test]
fn meter_holds_a_stream_to_the_ceiling() {
    let mut m = Meter::new();
    assert_eq!(m.count(MAX_BODY_BYTES - 1), Ok(()));
    assert_eq!(m.count(2), Err(StorageError::PayloadTooLarge));
    assert_eq!(m.count(1), Ok(()));
    assert_eq!(m.count(1), Err(StorageError::PayloadTooLarge));
    assert_eq!(m.count(0), Ok(()));
}
