use calligraphy::error::AppError;
use calligraphy::memory::MemRepository;
use calligraphy::service::CalligraphyService;

const USER_A: u128 = 0x1111_2222_3333_4444_5555_6666_7777_8888;

#[test]
fn test_upsert_success() {
    let user_id: u128 = USER_A;
    let user_name = "テストユーザー".to_string();
    let content = "Happy New Year".to_string();

    let mut service = CalligraphyService::new(MemRepository::new());
    let result = service.upsert(user_id, user_name.clone(), content, None, None, None, 1);

    assert!(result.is_ok());
    let stored = result.unwrap();
    assert_eq!(stored.user_name, user_name);
    assert_eq!(stored.content, "Happy New Year");
}

#[test]
fn test_upsert_validation_error() {
    let mut service = CalligraphyService::new(MemRepository::new());
    let user_id: u128 = USER_A;
    let long_content = "a".repeat(51);
    let user_name = "テストユーザー".to_string();

    let result = service.upsert(user_id, user_name, long_content, None, None, None, 1);

    assert!(matches!(result, Err(AppError::Validation(_))));
}

#[test]
fn test_upsert_username_validation_error() {
    let mut service = CalligraphyService::new(MemRepository::new());
    let user_id: u128 = USER_A;
    let content = "Valid content".to_string();
    let long_user_name = "a".repeat(21);

    let result = service.upsert(user_id, long_user_name, content, None, None, None, 1);

    assert!(matches!(result, Err(AppError::Validation(_))));
}

#[test]
fn test_get_found() {
    let user_id: u128 = USER_A;
    let user_name = "テストユーザー".to_string();
    let content = "Found".to_string();

    let mut service = CalligraphyService::new(MemRepository::new());
    service
        .upsert(user_id, user_name.clone(), content.clone(), None, None, None, 1)
        .unwrap();

    let result = service.get(user_id, None, 2);

    assert!(result.is_ok());
    let found = result.unwrap();
    assert_eq!(found.user_name, user_name);
    assert_eq!(found.content, content);
}

#[test]
fn test_get_not_found() {
    let user_id: u128 = USER_A;
    let mut service = CalligraphyService::new(MemRepository::new());

    let result = service.get(user_id, None, 1);

    assert!(matches!(result, Err(AppError::NotFound)));
}

#[test]
fn test_delete_success() {
    let user_id: u128 = USER_A;
    let mut service = CalligraphyService::new(MemRepository::new());
    service
        .upsert(user_id, "a".to_string(), "b".to_string(), None, None, None, 1)
        .unwrap();

    let result = service.delete(user_id, None, 2);

    assert!(result.is_ok());
}

#[test]
fn test_delete_not_found() {
    let user_id: u128 = USER_A;
    let mut service = CalligraphyService::new(MemRepository::new());

    let result = service.delete(user_id, None, 1);

    assert!(matches!(result, Err(AppError::NotFound)));
}

#[test]
fn test_validation_boundary_content() {
    let mut service = CalligraphyService::new(MemRepository::new());
    let exactly_50 = "あ".repeat(50);
    let result = service.upsert(USER_A, "name".to_string(), exactly_50.clone(), None, None, None, 1);
    assert!(result.is_ok());
    assert_eq!(result.unwrap().content, exactly_50);

    let over_51 = "あ".repeat(51);
    let result = service.upsert(USER_A, "name".to_string(), over_51, None, None, None, 2);
    match result {
        Err(AppError::Validation(msg)) => {
            assert_eq!(msg, "Content must be 50 chars or less");
        }
        other => panic!("expected a validation failure, got {:?}", other),
    }
}

#[test]
fn test_validation_boundary_name() {
    let mut service = CalligraphyService::new(MemRepository::new());
    let exactly_20 = "名".repeat(20);
    let result = service.upsert(USER_A, exactly_20.clone(), "content".to_string(), None, None, None, 1);
    assert!(result.is_ok());
    assert_eq!(result.unwrap().user_name, exactly_20);

    let over_21 = "名".repeat(21);
    let result = service.upsert(USER_A, over_21, "content".to_string(), None, None, None, 2);
    match result {
        Err(AppError::Validation(msg)) => {
            assert_eq!(msg, "User name must be 20 chars or less");
        }
        other => panic!("expected a validation failure, got {:?}", other),
    }
}

#[test]
fn test_upsert_replaces_and_keeps_created_at() {
    let mut service = CalligraphyService::new(MemRepository::new());
    let first = service
        .upsert(USER_A, "n".to_string(), "first".to_string(), None, None, None, 10)
        .unwrap();
    let second = service
        .upsert(USER_A, "n".to_string(), "second".to_string(), None, None, None, 20)
        .unwrap();

    assert_eq!(second.content, "second");
    assert_eq!(second.created_at, first.created_at);
    assert!(second.updated_at > first.updated_at);

    let listing = service.get_all(None, 30).unwrap();
    assert_eq!(listing.len(), 1);
    assert_eq!(listing[0].content, "second");
}
