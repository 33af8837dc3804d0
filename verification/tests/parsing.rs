//! The locator grammar, the decimal parser, the registry's check-and-set,
//! and path conversion, each on concrete values.

use mediarepo::locator::{parse_locator, parse_u32, LocatorError, Request};
use mediarepo::paths::convert_path;
use mediarepo::registry::{TaskRegistry, TaskState};

#[test]
fn parses_once_locator() {
    match parse_locator(b"once://abc123").unwrap() {
        Request::Once { key } => assert_eq!(key, b"abc123".to_vec()),
        _ => panic!("wrong scheme"),
    }
}

#[test]
fn parses_content_locator_trimming_slashes() {
    match parse_locator(b"content:///deadbeef//").unwrap() {
        Request::Content { hash } => assert_eq!(hash, b"deadbeef".to_vec()),
        _ => panic!("wrong scheme"),
    }
}

#[test]
fn parses_thumbnail_locator() {
    match parse_locator(b"thumb://deadbeef?width=100&height=200").unwrap() {
        Request::Thumbnail { hash, width, height } => {
            assert_eq!(hash, b"deadbeef".to_vec());
            assert_eq!(width, 100);
            assert_eq!(height, 200);
        }
        _ => panic!("wrong scheme"),
    }
}

#[test]
fn thumbnail_dimensions_default_to_250() {
    match parse_locator(b"thumb://h").unwrap() {
        Request::Thumbnail { width, height, .. } => {
            assert_eq!(width, 250);
            assert_eq!(height, 250);
        }
        _ => panic!("wrong scheme"),
    }
    match parse_locator(b"thumb://h?width=abc&height=").unwrap() {
        Request::Thumbnail { width, height, .. } => {
            assert_eq!(width, 250);
            assert_eq!(height, 250);
        }
        _ => panic!("wrong scheme"),
    }
}

#[test]
fn thumbnail_later_duplicate_parameter_wins() {
    match parse_locator(b"thumb://h?width=10&width=20").unwrap() {
        Request::Thumbnail { width, .. } => assert_eq!(width, 20),
        _ => panic!("wrong scheme"),
    }
}

#[test]
fn thumbnail_authority_ends_at_delimiter() {
    match parse_locator(b"thumb://hash/rest?height=9").unwrap() {
        Request::Thumbnail { hash, height, .. } => {
            assert_eq!(hash, b"hash".to_vec());
            assert_eq!(height, 9);
        }
        _ => panic!("wrong scheme"),
    }
}

#[test]
fn thumbnail_fragment_is_not_query() {
    match parse_locator(b"thumb://h#width=7").unwrap() {
        Request::Thumbnail { width, .. } => assert_eq!(width, 250),
        _ => panic!("wrong scheme"),
    }
}

#[test]
fn missing_domain_is_an_error() {
    assert_eq!(parse_locator(b"thumb://").unwrap_err(), LocatorError::MissingDomain);
    assert_eq!(
        parse_locator(b"thumb://?width=1").unwrap_err(),
        LocatorError::MissingDomain
    );
}

#[test]
fn unknown_scheme_is_an_error() {
    assert_eq!(parse_locator(b"gopher://x").unwrap_err(), LocatorError::UnknownScheme);
    assert_eq!(parse_locator(b"").unwrap_err(), LocatorError::UnknownScheme);
}

#[test]
fn parse_u32_accepts_plain_and_signed_decimals() {
    assert_eq!(parse_u32(b"0"), Some(0));
    assert_eq!(parse_u32(b"100"), Some(100));
    assert_eq!(parse_u32(b"+250"), Some(250));
    assert_eq!(parse_u32(b"4294967295"), Some(u32::MAX));
}

#[test]
fn parse_u32_rejects_junk_and_overflow() {
    assert_eq!(parse_u32(b""), None);
    assert_eq!(parse_u32(b"+"), None);
    assert_eq!(parse_u32(b"-1"), None);
    assert_eq!(parse_u32(b"12a"), None);
    assert_eq!(parse_u32(b" 1"), None);
    assert_eq!(parse_u32(b"4294967296"), None);
    assert_eq!(parse_u32(b"99999999999999999999"), None);
}

#[test]
fn registry_check_and_set() {
    let mut registry = TaskRegistry::new();
    assert_eq!(registry.task_state(b"k"), None);

    // Only the first of many attempts starts a task.
    assert!(registry.add_task(b"k".to_vec()));
    assert!(!registry.add_task(b"k".to_vec()));
    assert_eq!(registry.task_state(b"k"), Some(TaskState::Running));

    // A completed handle stays in place.
    registry.complete_task(b"k".to_vec(), true);
    assert_eq!(registry.task_state(b"k"), Some(TaskState::Completed));
    assert!(!registry.add_task(b"k".to_vec()));

    // A failed handle is superseded by a fresh attempt.
    let mut registry = TaskRegistry::new();
    assert!(registry.add_task(b"k".to_vec()));
    registry.complete_task(b"k".to_vec(), false);
    assert_eq!(registry.task_state(b"k"), Some(TaskState::Failed));
    assert!(registry.add_task(b"k".to_vec()));
    assert_eq!(registry.task_state(b"k"), Some(TaskState::Running));
}

#[test]
fn registry_keys_are_independent() {
    let mut registry = TaskRegistry::new();
    assert!(registry.add_task(b"a".to_vec()));
    assert_eq!(registry.task_state(b"b"), None);
    assert!(registry.add_task(b"b".to_vec()));
    registry.complete_task(b"a".to_vec(), true);
    assert_eq!(registry.task_state(b"a"), Some(TaskState::Completed));
    assert_eq!(registry.task_state(b"b"), Some(TaskState::Running));
}

#[test]
fn convert_path_normalizes_extended_length_form() {
    assert_eq!(
        convert_path(b"\\\\?\\D:\\repo\\dev-demo\\db\\repo.db"),
        b"/D:/repo/dev-demo/db/repo.db".to_vec()
    );
}

#[test]
fn convert_path_leaves_plain_paths_alone() {
    assert_eq!(convert_path(b"/home/user/repo.db"), b"/home/user/repo.db".to_vec());
    assert_eq!(convert_path(b""), b"".to_vec());
}

#[test]
fn settings_default_is_empty() {
    let settings = mediarepo::settings::Settings::default();
    assert!(settings.repositories.is_empty());
}
