use calligraphy::error::AppError;
use calligraphy::handlers;
use calligraphy::identity::AuthUser;
use calligraphy::memory::MemRepository;
use calligraphy::models::CreateCalligraphyRequest;
use calligraphy::service::CalligraphyService;
use calligraphy::store::CalligraphyRepositoryTrait;

// 127.0.0.1 as an integer key.
const LOCALHOST: u128 = 0x7f00_0001;

fn fresh_service() -> CalligraphyService<MemRepository> {
    CalligraphyService::new(MemRepository::new())
}

#[test]
fn test_upsert_handler() {
    let user_id: u128 = 0x0101_0101_0101_0101_0101_0101_0101_0101;
    let user_name = "テストユーザー".to_string();
    let content = "Test Content".to_string();

    let mut service = fresh_service();
    let auth_user = AuthUser { id: user_id };
    let payload = CreateCalligraphyRequest { user_name, content };
    let response = handlers::upsert(
        &mut service,
        auth_user,
        Some(LOCALHOST),
        None,
        None,
        payload,
        1,
    );

    assert!(response.is_ok());
}

#[test]
fn test_list_handler() {
    let user_id: u128 = 0x0202_0202_0202_0202_0202_0202_0202_0202;
    let user_name = "テストユーザー".to_string();
    let content = "List Item".to_string();

    let mut repo = MemRepository::new();
    repo.create(user_id, user_name, content, None, None, None, 1).unwrap();
    let mut service = CalligraphyService::new(repo);

    let viewer: u128 = 0x0303_0303_0303_0303_0303_0303_0303_0303;
    let response = handlers::list(&mut service, AuthUser { id: viewer }, Some(LOCALHOST), 2);

    assert!(response.is_ok());
}

#[test]
fn test_get_handler() {
    let user_id: u128 = 0x0404_0404_0404_0404_0404_0404_0404_0404;
    let user_name = "テストユーザー".to_string();
    let content = "Get Item".to_string();

    let mut repo = MemRepository::new();
    repo.create(user_id, user_name, content, None, None, None, 1).unwrap();
    let mut service = CalligraphyService::new(repo);

    let response = handlers::get(&mut service, AuthUser { id: user_id }, Some(LOCALHOST), 2);

    assert!(response.is_ok());
}

#[test]
fn test_delete_handler() {
    let user_id: u128 = 0x0505_0505_0505_0505_0505_0505_0505_0505;

    let mut repo = MemRepository::new();
    repo.create(user_id, "n".to_string(), "c".to_string(), None, None, None, 1).unwrap();
    let mut service = CalligraphyService::new(repo);

    let response = handlers::delete(&mut service, AuthUser { id: user_id }, Some(LOCALHOST), 2);

    assert!(response.is_ok());
}

#[test]
fn test_write_rate_limit() {
    let user_id: u128 = 0x0606_0606_0606_0606_0606_0606_0606_0606;
    let user_name = "RateLimitUser".to_string();
    let content = "Content".to_string();

    let addr_a: u128 = 0xc0a8_0101; // 192.168.1.1
    let addr_b: u128 = 0xc0a8_0102; // 192.168.1.2

    let mut service = fresh_service();

    let response1 = handlers::upsert(
        &mut service,
        AuthUser { id: user_id },
        Some(addr_a),
        None,
        None,
        CreateCalligraphyRequest { user_name: user_name.clone(), content: content.clone() },
        100,
    );
    assert!(response1.is_ok());

    let response2 = handlers::upsert(
        &mut service,
        AuthUser { id: user_id },
        Some(addr_a),
        None,
        None,
        CreateCalligraphyRequest { user_name: user_name.clone(), content: content.clone() },
        110,
    );
    match response2 {
        Err(AppError::TooManyRequests) => {}
        _ => panic!("Should return TooManyRequests error"),
    }

    let res3 = handlers::upsert(
        &mut service,
        AuthUser { id: user_id },
        Some(addr_b),
        None,
        None,
        CreateCalligraphyRequest { user_name: user_name.clone(), content: content.clone() },
        120,
    );
    assert!(res3.is_ok());
}

#[test]
fn test_read_rate_limit() {
    let addr: u128 = 0x0a00_0001; // 10.0.0.1
    let mut service = fresh_service();

    let viewer: u128 = 0x0707_0707_0707_0707_0707_0707_0707_0707;
    let response1 = handlers::list(&mut service, AuthUser { id: viewer }, Some(addr), 50);
    assert!(response1.is_ok());

    let response2 = handlers::list(&mut service, AuthUser { id: viewer }, Some(addr), 55);
    match response2 {
        Err(AppError::TooManyRequests) => {}
        _ => panic!("Should return TooManyRequests error"),
    }
}

#[test]
fn test_read_and_write_buckets_independent() {
    let addr: u128 = 0x0a00_0002;
    let user_id: u128 = 0x0808_0808_0808_0808_0808_0808_0808_0808;
    let mut service = fresh_service();

    // Exhaust the write bucket for this address.
    let first = handlers::upsert(
        &mut service,
        AuthUser { id: user_id },
        Some(addr),
        None,
        None,
        CreateCalligraphyRequest { user_name: "n".to_string(), content: "c".to_string() },
        10,
    );
    assert!(first.is_ok());
    let second = handlers::upsert(
        &mut service,
        AuthUser { id: user_id },
        Some(addr),
        None,
        None,
        CreateCalligraphyRequest { user_name: "n".to_string(), content: "c".to_string() },
        11,
    );
    assert!(matches!(second, Err(AppError::TooManyRequests)));

    // Reads from the same address are still permitted.
    let read = handlers::list(&mut service, AuthUser { id: user_id }, Some(addr), 12);
    assert!(read.is_ok());
}

#[test]
fn test_list_flags_is_mine() {
    let author: u128 = 0x0909_0909_0909_0909_0909_0909_0909_0909;
    let other: u128 = 0x0a0a_0a0a_0a0a_0a0a_0a0a_0a0a_0a0a_0a0a;

    let mut repo = MemRepository::new();
    repo.create(author, "a".to_string(), "mine".to_string(), None, None, None, 2).unwrap();
    repo.create(other, "b".to_string(), "theirs".to_string(), None, None, None, 1).unwrap();
    let mut service = CalligraphyService::new(repo);

    let listing = handlers::list(&mut service, AuthUser { id: author }, None, 3).unwrap();
    assert_eq!(listing.len(), 2);
    assert_eq!(listing[0].content, "mine");
    assert!(listing[0].is_mine);
    assert_eq!(listing[1].content, "theirs");
    assert!(!listing[1].is_mine);
}
