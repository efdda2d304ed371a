//! Names and slots of throwaway test databases.

use arcadedb_protocol::error::{map_rpc_error, Code, Status};
use arcadedb_protocol::testutil::{
    sanitize_prefix, tolerate_existing, unique_name as name_of, CheckoutStep, TestPool,
};
use arcadedb_protocol::{ArcadeDbError, ClientOptions};

fn unique_name(prefix: &str, seq: u64) -> String {
    let nanos = std::time::SystemTime::now()
        .duration_since(std::time::UNIX_EPOCH)
        .map(|d| d.as_nanos())
        .unwrap_or(0);
    name_of(prefix, nanos, seq)
}

#[test]
fn generated_names_are_unique_sanitized_and_prefixed() {
    let a = unique_name("my-test!", 0);
    let b = unique_name("my-test!", 1);
    assert!(a.starts_with("mytest_"), "{a}");
    assert_ne!(a, b);
    assert!(a.chars().all(|c| c.is_ascii_alphanumeric() || c == '_'));
    // Empty/hostile prefixes still produce a valid name.
    assert!(unique_name("///", 2).starts_with("test_"));
    // Absurdly long prefixes are truncated to something name-sized.
    assert!(unique_name(&"x".repeat(500), 3).len() < 80);
}

#[test]
fn names_spell_the_time_in_hexadecimal() {
    assert_eq!(name_of("p", 0, 0), "p_0_0");
    assert_eq!(name_of("p", 0x18f3a2b9c0, 12), "p_18f3a2b9c0_12");
    assert_eq!(name_of("é", u128::MAX, u64::MAX), "test_ffffffffffffffffffffffffffffffff_18446744073709551615");
    assert_eq!(sanitize_prefix(&"ab-".repeat(40)), "ab".repeat(24));
    assert_eq!(sanitize_prefix(&"x".repeat(48)), "x".repeat(48));
}

#[test]
fn pool_builder_defaults_to_eight_and_sanitizes_prefix() {
    let pool = TestPool::builder(ClientOptions::new("", "", "", ""), "my-pool!").build();
    assert_eq!(pool.size(), 8);
    assert_eq!(pool.prefix(), "mypool");
    let sized = TestPool::builder(ClientOptions::new("", "", "", ""), "p")
        .size(3)
        .build();
    assert_eq!(sized.size(), 3);
    assert_eq!(sized.available(), 3);
}

#[test]
fn slots_are_exclusive_and_come_back() {
    let mut pool = TestPool::builder(ClientOptions::new("a", "", "", ""), "p").size(2).build();
    assert_eq!(pool.options().addr, "a");
    let (first, name) = pool.take_slot().unwrap();
    assert_eq!((first, name.as_str()), (0, "p_0"));
    let (second, name) = pool.take_slot().unwrap();
    assert_eq!((second, name.as_str()), (1, "p_1"));
    match pool.take_slot() {
        Err(ArcadeDbError::InvalidInput { message }) => {
            assert_eq!(message, "test pool: permit held but no slot free")
        }
        other => panic!("{other:?}"),
    }
    pool.release_slot(first);
    assert_eq!(pool.available(), 1);
    assert_eq!(pool.take_slot().unwrap().0, 0);
}

fn taken() -> ArcadeDbError {
    map_rpc_error("create database", "p_0", Status::new(Code::AlreadyExists, "there"))
}

fn broken() -> ArcadeDbError {
    map_rpc_error("create database", "p_0", Status::new(Code::Internal, "boom"))
}

#[test]
fn a_checkout_recreates_its_database() {
    let next = |step: CheckoutStep, outcome, seeded| step.after(outcome, seeded);
    assert_eq!(next(CheckoutStep::ConnectAdmin, Ok(()), true).unwrap(), CheckoutStep::DropDatabase);
    // Dropping may fail: there may be nothing to drop.
    assert_eq!(
        next(CheckoutStep::DropDatabase, Err(broken()), true).unwrap(),
        CheckoutStep::CreateDatabase
    );
    assert_eq!(
        next(CheckoutStep::CreateDatabase, Err(taken()), true).unwrap(),
        CheckoutStep::ConnectData
    );
    assert!(next(CheckoutStep::CreateDatabase, Err(broken()), true).is_err());
    assert_eq!(next(CheckoutStep::ConnectData, Ok(()), true).unwrap(), CheckoutStep::Seed);
    assert_eq!(next(CheckoutStep::ConnectData, Ok(()), false).unwrap(), CheckoutStep::Ready);
    assert!(next(CheckoutStep::Seed, Err(taken()), true).is_err());
    assert_eq!(next(CheckoutStep::Seed, Ok(()), true).unwrap(), CheckoutStep::Ready);
    assert!(tolerate_existing(Err(taken())).is_ok());
    assert!(tolerate_existing(Err(broken())).is_err());
}
