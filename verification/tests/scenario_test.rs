use calligraphy::error::AppError;
use calligraphy::handlers;
use calligraphy::identity::{resolve, Disposition};
use calligraphy::memory::MemRepository;
use calligraphy::models::CreateCalligraphyRequest;
use calligraphy::service::CalligraphyService;

#[test]
fn test_calligraphy_scenario() {
    let mut service = CalligraphyService::new(MemRepository::new());

    // Step 1: a first visit carries no cookie; an identity is issued and a
    // cookie directive comes back with the created posting.
    let first_visit = resolve(None);
    assert_eq!(first_visit.disposition, Disposition::Issued);
    let cookie = first_visit
        .set_cookie
        .expect("an issued identity must set a cookie");

    let created = handlers::upsert(
        &mut service,
        first_visit.user,
        None,
        None,
        None,
        CreateCalligraphyRequest {
            user_name: "Test User".to_string(),
            content: "Integration Test Scenario".to_string(),
        },
        1,
    )
    .expect("create must succeed");
    assert_eq!(created.user_name, "Test User");
    assert_eq!(created.content, "Integration Test Scenario");
    assert!(created.is_mine);

    // Step 2: a later request replays the cookie and reads the posting back.
    let second_visit = resolve(Some(cookie.value.as_str()));
    assert_eq!(second_visit.disposition, Disposition::Recognized);
    assert_eq!(second_visit.user.id, first_visit.user.id);

    let fetched = handlers::get(&mut service, second_visit.user, None, 2)
        .expect("fetch must succeed");
    assert_eq!(fetched.content, "Integration Test Scenario");
    assert_eq!(fetched.user_name, "Test User");

    // Step 3: the same identity deletes its posting.
    let third_visit = resolve(Some(cookie.value.as_str()));
    handlers::delete(&mut service, third_visit.user, None, 3).expect("delete must succeed");

    // Step 4: the posting is gone.
    let gone = handlers::get(&mut service, third_visit.user, None, 4);
    assert!(matches!(gone, Err(AppError::NotFound)));
}
