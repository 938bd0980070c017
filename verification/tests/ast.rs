use core::fmt::Debug;
use std::hash::Hash;

use doctor::ast::DocComment;

fn assert_default<T: Default>() {}
fn assert_clone<T: Clone>() {}
fn assert_debug<T: Debug>() {}
fn assert_hash<T: Hash>() {}
fn assert_sync_send<T: Sync + Send>() {}

#[test]
fn test_doc_comment_implement_common_traits() {
    assert_default::<DocComment>();
    assert_clone::<DocComment>();
    assert_debug::<DocComment>();
    assert_hash::<DocComment>();
    assert_sync_send::<DocComment>();
}
