use lessons::access::{create_lesson, delete_lesson, lessons_for_date, read_lesson, update_lesson};
use lessons::account::AccountID;
use lessons::authentication::{Authentication, Claim, Identity};
use lessons::calendar::{Date, DateTime, Time};
use lessons::error::{AuthenticationError, Error};
use lessons::lesson::{Lesson, LessonID};
use lessons::permission::{
    is_read_permission, is_write_permission, LessonPermission, PermissionType,
};
use lessons::repeat::SingleOccurrence;
use lessons::transaction::Store;
use std::cell::Cell;

fn claim(account: u64) -> Claim {
    Claim { account_id: AccountID(account), payload: format!("claim of {}", account) }
}

fn identity(account: u64) -> Identity {
    let middleware = Authentication.new_transform(|identity: Identity, _request: ()| identity);
    middleware.call(Ok(claim(account)), ()).unwrap()
}

fn day() -> Date {
    Date::new(2024, 5, 17).unwrap()
}

fn lesson_of(owner: &Identity, db: &mut Store) -> Lesson {
    let once = SingleOccurrence {
        occurs_at: DateTime { date: day(), time: Time::new(9, 0, 0).unwrap() },
    };
    create_lesson(owner, db, "Algebra".to_string(), None, vec![once], vec![], vec![], vec![])
        .unwrap()
}

fn share(db: &mut Store, lesson: LessonID, account: u64, kind: PermissionType) {
    let mut transaction = db.begin();
    LessonPermission::save_in_transaction(&mut transaction, kind, &lesson, &AccountID(account))
        .unwrap();
    db.commit(transaction);
}

#[test]
fn verified_claim_is_forwarded_with_its_identity() {
    let runs = Cell::new(0u32);
    let middleware = Authentication.new_transform(|identity: Identity, request: &str| {
        runs.set(runs.get() + 1);
        format!("{} for account {}", request, identity.account_id().0)
    });
    let response = middleware.call(Ok(claim(7)), "list");
    assert_eq!(response, Ok("list for account 7".to_string()));
    assert_eq!(runs.get(), 1);
    let id = identity(7);
    assert_eq!(id.account_id(), AccountID(7));
    assert_eq!(id.claim(), &claim(7));
}

#[test]
fn request_without_verified_claim_is_rejected_before_the_wrapped_stage() {
    let runs = Cell::new(0u32);
    let middleware = Authentication.new_transform(|_identity: Identity, _request: &str| {
        runs.set(runs.get() + 1);
        "handled"
    });
    assert_eq!(
        middleware.call(Err(AuthenticationError::Missing), "list"),
        Err(Error::Authentication(AuthenticationError::Missing))
    );
    assert_eq!(
        middleware.call(Err(AuthenticationError::Invalid), "list"),
        Err(Error::Authentication(AuthenticationError::Invalid))
    );
    assert_eq!(runs.get(), 0);
    assert_eq!(middleware.call(Ok(claim(1)), "list"), Ok("handled"));
    assert_eq!(runs.get(), 1);
}

#[test]
fn middleware_keeps_the_stage_it_wraps() {
    let middleware = Authentication.new_transform(41u8);
    assert_eq!(*middleware.service(), 41);
}

#[test]
fn levels() {
    assert!(!is_read_permission(&None));
    assert!(is_read_permission(&Some(PermissionType::Read)));
    assert!(is_read_permission(&Some(PermissionType::ReadWrite)));
    assert!(!is_write_permission(&None));
    assert!(!is_write_permission(&Some(PermissionType::Read)));
    assert!(is_write_permission(&Some(PermissionType::ReadWrite)));
}

#[test]
fn owner_may_do_everything() {
    let mut db = Store::new();
    let owner = identity(7);
    let lesson = lesson_of(&owner, &mut db);
    assert_eq!(read_lesson(&owner, &db, lesson.id), Ok(lesson.clone()));
    assert_eq!(lessons_for_date(&owner, &db, &day()), vec![lesson.clone()]);
    let res = update_lesson(
        &owner,
        &mut db,
        &lesson.id,
        &Some("Geometry".to_string()),
        &None,
        &None,
        &None,
        &None,
        &None,
    );
    assert_eq!(res, Ok(()));
    assert_eq!(read_lesson(&owner, &db, lesson.id).unwrap().title, "Geometry");
    assert_eq!(delete_lesson(&owner, &mut db, &lesson.id), Ok(()));
    assert_eq!(read_lesson(&owner, &db, lesson.id), Err(Error::NotFound));
    assert!(lessons_for_date(&owner, &db, &day()).is_empty());
}

#[test]
fn account_without_grant_is_denied() {
    let mut db = Store::new();
    let owner = identity(7);
    let stranger = identity(9);
    let lesson = lesson_of(&owner, &mut db);
    assert_eq!(read_lesson(&stranger, &db, lesson.id), Err(Error::PermissionDenied));
    assert!(lessons_for_date(&stranger, &db, &day()).is_empty());
    let res = update_lesson(
        &stranger,
        &mut db,
        &lesson.id,
        &Some("Mine".to_string()),
        &Some(vec![]),
        &None,
        &None,
        &None,
        &None,
    );
    assert_eq!(res, Err(Error::PermissionDenied));
    assert_eq!(delete_lesson(&stranger, &mut db, &lesson.id), Err(Error::PermissionDenied));
    assert_eq!(read_lesson(&owner, &db, lesson.id), Ok(lesson));
}

#[test]
fn account_with_read_access_reads_and_does_not_write() {
    let mut db = Store::new();
    let owner = identity(7);
    let guest = identity(8);
    let lesson = lesson_of(&owner, &mut db);
    share(&mut db, lesson.id, 8, PermissionType::Read);
    assert_eq!(read_lesson(&guest, &db, lesson.id), Ok(lesson.clone()));
    assert_eq!(lessons_for_date(&guest, &db, &day()), vec![lesson.clone()]);
    let res = update_lesson(
        &guest,
        &mut db,
        &lesson.id,
        &None,
        &Some(vec![]),
        &None,
        &None,
        &None,
        &None,
    );
    assert_eq!(res, Err(Error::PermissionDenied));
    assert_eq!(delete_lesson(&guest, &mut db, &lesson.id), Err(Error::PermissionDenied));
    assert_eq!(read_lesson(&owner, &db, lesson.id), Ok(lesson));
}

#[test]
fn account_with_read_write_access_writes() {
    let mut db = Store::new();
    let owner = identity(7);
    let editor = identity(8);
    let lesson = lesson_of(&owner, &mut db);
    share(&mut db, lesson.id, 8, PermissionType::ReadWrite);
    let res = update_lesson(
        &editor,
        &mut db,
        &lesson.id,
        &None,
        &Some(vec![]),
        &None,
        &None,
        &None,
        &None,
    );
    assert_eq!(res, Ok(()));
    assert!(read_lesson(&owner, &db, lesson.id).unwrap().singles.is_empty());
    // What the update itself refuses is refused for an editor too.
    let res = update_lesson(
        &editor,
        &mut db,
        &lesson.id,
        &Some(String::new()),
        &None,
        &None,
        &None,
        &None,
        &None,
    );
    assert_eq!(res, Err(Error::Validation));
    assert_eq!(delete_lesson(&editor, &mut db, &lesson.id), Ok(()));
    assert_eq!(read_lesson(&owner, &db, lesson.id), Err(Error::NotFound));
}

#[test]
fn unknown_lessons() {
    let mut db = Store::new();
    let owner = identity(7);
    assert_eq!(read_lesson(&owner, &db, LessonID(3)), Err(Error::NotFound));
    let res =
        update_lesson(&owner, &mut db, &LessonID(3), &None, &None, &None, &None, &None, &None);
    assert_eq!(res, Err(Error::NotFound));
    assert_eq!(delete_lesson(&owner, &mut db, &LessonID(3)), Ok(()));
    let res = create_lesson(&owner, &mut db, String::new(), None, vec![], vec![], vec![], vec![]);
    assert_eq!(res, Err(Error::Validation));
}

#[test]
fn errors_describe_themselves() {
    assert_eq!(Error::NotFound.message(), "lesson not found");
    assert_eq!(Error::Validation.message(), "malformed parameter");
    assert_eq!(Error::PermissionDenied.message(), "permission denied");
    assert_eq!(Error::Storage.message(), "storage constraint violated");
    assert_eq!(
        Error::Authentication(AuthenticationError::Missing).message(),
        "credential missing"
    );
    assert_eq!(
        Error::Authentication(AuthenticationError::Invalid).message(),
        "credential not verified"
    );
}
