use lessons::account::AccountID;
use lessons::calendar::{Date, DateTime, Time};
use lessons::error::Error;
use lessons::lesson::{Lesson, LessonID};
use lessons::permission::{LessonPermission, PermissionType};
use lessons::repeat::{
    DailyRepeat, MonthlyRepeat, Repeat, SingleOccurrence, WeekDay, WeeklyRepeat,
};
use lessons::teacher::TeacherID;
use lessons::transaction::Store;

fn date(year: i32, month: u8, day: u8) -> Date {
    Date::new(year, month, day).unwrap()
}

fn nine() -> Time {
    Time::new(9, 0, 0).unwrap()
}

fn single(on: Date) -> SingleOccurrence {
    SingleOccurrence { occurs_at: DateTime { date: on, time: nine() } }
}

fn daily(start: Date, end: Option<Date>) -> DailyRepeat {
    DailyRepeat { start_date: start, end_date: end, time: nine() }
}

fn weekly(start: Date, week_day: WeekDay, every: i32) -> WeeklyRepeat {
    WeeklyRepeat { start_date: start, end_date: None, week_day, every, time: nine() }
}

fn monthly(start: Date, every: i32) -> MonthlyRepeat {
    MonthlyRepeat {
        start_date: start,
        end_date: None,
        time: DateTime { date: start, time: nine() },
        every,
    }
}

const OWNER: AccountID = AccountID(7);
const GUEST: AccountID = AccountID(8);
const STRANGER: AccountID = AccountID(9);

fn level(db: &Store, lesson: LessonID, account: AccountID) -> Option<PermissionType> {
    LessonPermission::of_account_in_transaction(db.snapshot(), &lesson, &account)
}

fn grant(db: &mut Store, lesson: LessonID, account: AccountID, kind: PermissionType) {
    let mut transaction = db.begin();
    LessonPermission::save_in_transaction(&mut transaction, kind, &lesson, &account).unwrap();
    db.commit(transaction);
}

fn full_lesson(db: &mut Store) -> Lesson {
    Lesson::create(
        db,
        "Algebra".to_string(),
        Some("Groups and rings".to_string()),
        vec![single(date(2024, 5, 17)), single(date(2024, 6, 1))],
        vec![daily(date(2024, 1, 10), Some(date(2024, 1, 12)))],
        vec![weekly(date(2024, 1, 1), WeekDay::Monday, 2)],
        vec![monthly(date(2024, 1, 31), 1)],
        &OWNER,
    )
    .unwrap()
}

fn bare_lesson(db: &mut Store, title: &str) -> Lesson {
    Lesson::create(db, title.to_string(), None, vec![], vec![], vec![], vec![], &OWNER).unwrap()
}

#[test]
fn created_lesson_is_read_back() {
    let mut db = Store::new();
    let created = full_lesson(&mut db);
    assert_eq!(created.id, LessonID(0));
    assert_eq!(created.title, "Algebra");
    assert_eq!(created.description, Some("Groups and rings".to_string()));
    assert_eq!(created.singles, vec![single(date(2024, 5, 17)), single(date(2024, 6, 1))]);
    assert_eq!(created.daily, vec![daily(date(2024, 1, 10), Some(date(2024, 1, 12)))]);
    assert_eq!(created.weekly, vec![weekly(date(2024, 1, 1), WeekDay::Monday, 2)]);
    assert_eq!(created.monthly, vec![monthly(date(2024, 1, 31), 1)]);
    assert!(created.teachers.is_empty());
    assert_eq!(Lesson::by_id(&db, created.id), Some(created.clone()));
    assert_eq!(level(&db, created.id, OWNER), Some(PermissionType::ReadWrite));
    assert_eq!(level(&db, created.id, GUEST), None);
}

#[test]
fn identifiers_are_given_out_in_turn() {
    let mut db = Store::new();
    let first = bare_lesson(&mut db, "first");
    let second = bare_lesson(&mut db, "second");
    assert_eq!(first.id, LessonID(0));
    assert_eq!(second.id, LessonID(1));
    Lesson::delete(&mut db, &second.id);
    let third = bare_lesson(&mut db, "third");
    assert_eq!(third.id, LessonID(2));
    assert_eq!(Lesson::by_id(&db, first.id), Some(first));
    assert_eq!(Lesson::by_id(&db, second.id), None);
    assert_eq!(Lesson::by_id(&db, third.id), Some(third));
}

#[test]
fn lesson_without_rules_exists_and_never_occurs() {
    let mut db = Store::new();
    let lesson = bare_lesson(&mut db, "idle");
    assert_eq!(Lesson::by_id(&db, lesson.id), Some(lesson));
    assert!(Lesson::for_date(&db, &date(2024, 1, 1), &OWNER).is_empty());
}

#[test]
fn read_of_an_unknown_lesson_finds_nothing() {
    let mut db = Store::new();
    assert_eq!(Lesson::by_id(&db, LessonID(0)), None);
    bare_lesson(&mut db, "only");
    assert_eq!(Lesson::by_id(&db, LessonID(1)), None);
    assert_eq!(Lesson::by_id(&db, LessonID(u64::MAX)), None);
}

#[test]
fn create_refuses_an_empty_title() {
    let mut db = Store::new();
    let res = Lesson::create(&mut db, String::new(), None, vec![], vec![], vec![], vec![], &OWNER);
    assert_eq!(res, Err(Error::Validation));
    assert_eq!(Lesson::by_id(&db, LessonID(0)), None);
    assert_eq!(bare_lesson(&mut db, "next").id, LessonID(0));
}

#[test]
fn create_refuses_malformed_rules_and_leaves_nothing_behind() {
    let mut db = Store::new();
    let res = Lesson::create(
        &mut db,
        "Algebra".to_string(),
        None,
        vec![single(date(2024, 5, 17))],
        vec![daily(date(2024, 1, 10), None)],
        vec![weekly(date(2024, 1, 1), WeekDay::Monday, 0)],
        vec![],
        &OWNER,
    );
    assert_eq!(res, Err(Error::Validation));
    let res = Lesson::create(
        &mut db,
        "Algebra".to_string(),
        None,
        vec![],
        vec![],
        vec![],
        vec![monthly(date(2024, 1, 31), 1), monthly(date(2024, 1, 31), -3)],
        &OWNER,
    );
    assert_eq!(res, Err(Error::Validation));
    let res = Lesson::create(
        &mut db,
        "Algebra".to_string(),
        None,
        vec![single(Date { year: 2023, month: 2, day: 29 })],
        vec![],
        vec![],
        vec![],
        &OWNER,
    );
    assert_eq!(res, Err(Error::Validation));
    assert_eq!(Lesson::by_id(&db, LessonID(0)), None);
    assert_eq!(level(&db, LessonID(0), OWNER), None);
    assert!(Lesson::for_date(&db, &date(2024, 5, 17), &OWNER).is_empty());
    // The store is as it was: the next lesson gets the first identifier and
    // none of the rows that were refused.
    let lesson = bare_lesson(&mut db, "clean");
    assert_eq!(lesson.id, LessonID(0));
    assert_eq!(Lesson::by_id(&db, lesson.id), Some(lesson));
}

#[test]
fn update_with_an_empty_list_clears_that_kind_only() {
    let mut db = Store::new();
    let created = full_lesson(&mut db);
    let res =
        Lesson::update(&mut db, &created.id, &None, &Some(vec![]), &None, &None, &None, &None);
    assert_eq!(res, Ok(()));
    let read = Lesson::by_id(&db, created.id).unwrap();
    assert!(read.singles.is_empty());
    assert_eq!(read.daily, created.daily);
    assert_eq!(read.weekly, created.weekly);
    assert_eq!(read.monthly, created.monthly);
    assert_eq!(read.title, created.title);
    assert_eq!(read.description, created.description);
}

#[test]
fn update_leaves_what_is_not_given() {
    let mut db = Store::new();
    let created = full_lesson(&mut db);
    let res = Lesson::update(&mut db, &created.id, &None, &None, &None, &None, &None, &None);
    assert_eq!(res, Ok(()));
    assert_eq!(Lesson::by_id(&db, created.id), Some(created.clone()));
    let new_weekly = vec![
        weekly(date(2024, 2, 1), WeekDay::Friday, 1),
        weekly(date(2024, 2, 1), WeekDay::Sunday, 3),
    ];
    let res = Lesson::update(
        &mut db,
        &created.id,
        &None,
        &None,
        &None,
        &Some(new_weekly.clone()),
        &None,
        &None,
    );
    assert_eq!(res, Ok(()));
    let read = Lesson::by_id(&db, created.id).unwrap();
    assert_eq!(read.weekly, new_weekly);
    assert_eq!(read.singles, created.singles);
    assert_eq!(read.daily, created.daily);
    assert_eq!(read.monthly, created.monthly);
}

#[test]
fn update_replaces_title_and_description() {
    let mut db = Store::new();
    let created = full_lesson(&mut db);
    let other = bare_lesson(&mut db, "other");
    let res = Lesson::update(
        &mut db,
        &created.id,
        &Some("Geometry".to_string()),
        &None,
        &None,
        &None,
        &None,
        &None,
    );
    assert_eq!(res, Ok(()));
    let read = Lesson::by_id(&db, created.id).unwrap();
    assert_eq!(read.title, "Geometry");
    assert_eq!(read.description, created.description);
    let res =
        Lesson::update(&mut db, &created.id, &None, &None, &None, &None, &None, &Some(None));
    assert_eq!(res, Ok(()));
    let read = Lesson::by_id(&db, created.id).unwrap();
    assert_eq!(read.title, "Geometry");
    assert_eq!(read.description, None);
    let res = Lesson::update(
        &mut db,
        &created.id,
        &Some("Topology".to_string()),
        &None,
        &None,
        &None,
        &None,
        &Some(Some("Open sets".to_string())),
    );
    assert_eq!(res, Ok(()));
    let read = Lesson::by_id(&db, created.id).unwrap();
    assert_eq!(read.title, "Topology");
    assert_eq!(read.description, Some("Open sets".to_string()));
    assert_eq!(read.singles, created.singles);
    assert_eq!(Lesson::by_id(&db, other.id), Some(other));
}

#[test]
fn update_of_an_unknown_lesson_is_not_found() {
    let mut db = Store::new();
    let created = full_lesson(&mut db);
    let res = Lesson::update(
        &mut db,
        &LessonID(5),
        &Some("Geometry".to_string()),
        &Some(vec![]),
        &None,
        &None,
        &None,
        &None,
    );
    assert_eq!(res, Err(Error::NotFound));
    assert_eq!(Lesson::by_id(&db, created.id), Some(created));
    assert_eq!(Lesson::by_id(&db, LessonID(5)), None);
}

#[test]
fn update_that_fails_changes_nothing() {
    let mut db = Store::new();
    let created = full_lesson(&mut db);
    // The title and the singles are fine, the monthly rule is not.
    let res = Lesson::update(
        &mut db,
        &created.id,
        &Some("Geometry".to_string()),
        &Some(vec![]),
        &None,
        &None,
        &Some(vec![monthly(date(2024, 1, 31), 0)]),
        &Some(None),
    );
    assert_eq!(res, Err(Error::Validation));
    assert_eq!(Lesson::by_id(&db, created.id), Some(created.clone()));
    let res = Lesson::update(
        &mut db,
        &created.id,
        &Some(String::new()),
        &None,
        &None,
        &None,
        &None,
        &None,
    );
    assert_eq!(res, Err(Error::Validation));
    assert_eq!(Lesson::by_id(&db, created.id), Some(created));
}

#[test]
fn update_of_one_lesson_leaves_the_others() {
    let mut db = Store::new();
    let first = full_lesson(&mut db);
    let second = full_lesson(&mut db);
    let res = Lesson::update(
        &mut db,
        &first.id,
        &None,
        &Some(vec![single(date(2030, 1, 1))]),
        &Some(vec![]),
        &Some(vec![]),
        &Some(vec![]),
        &None,
    );
    assert_eq!(res, Ok(()));
    let read = Lesson::by_id(&db, first.id).unwrap();
    assert_eq!(read.singles, vec![single(date(2030, 1, 1))]);
    assert!(read.daily.is_empty() && read.weekly.is_empty() && read.monthly.is_empty());
    assert_eq!(Lesson::by_id(&db, second.id), Some(second));
}

#[test]
fn deleted_lesson_is_gone_for_reads_and_for_dates() {
    let mut db = Store::new();
    let kept = full_lesson(&mut db);
    let gone = full_lesson(&mut db);
    assert_eq!(Lesson::for_date(&db, &date(2024, 5, 17), &OWNER).len(), 2);
    Lesson::delete(&mut db, &gone.id);
    assert_eq!(Lesson::by_id(&db, gone.id), None);
    assert_eq!(Lesson::by_id(&db, kept.id), Some(kept.clone()));
    for day in [
        date(2024, 5, 17),
        date(2024, 6, 1),
        date(2024, 1, 11),
        date(2024, 1, 15),
        date(2024, 3, 31),
        date(2025, 1, 1),
    ] {
        let found = Lesson::for_date(&db, &day, &OWNER);
        assert!(found.iter().all(|lesson| lesson.id != gone.id));
    }
    assert_eq!(Lesson::for_date(&db, &date(2024, 5, 17), &OWNER), vec![kept]);
    assert_eq!(level(&db, gone.id, OWNER), None);
    // Deleting once more changes nothing.
    Lesson::delete(&mut db, &gone.id);
    Lesson::delete(&mut db, &LessonID(77));
    assert_eq!(Lesson::for_date(&db, &date(2024, 5, 17), &OWNER).len(), 1);
}

#[test]
fn deleting_takes_the_rows_of_the_lesson_along() {
    let mut db = Store::new();
    let gone = full_lesson(&mut db);
    grant(&mut db, gone.id, GUEST, PermissionType::Read);
    let mut transaction = db.begin();
    transaction.link_teacher(&gone.id, &TeacherID(3)).unwrap();
    db.commit(transaction);
    Lesson::delete(&mut db, &gone.id);
    let rows = db.snapshot();
    assert!(SingleOccurrence::of_lesson_in_transaction(rows, &gone.id).is_empty());
    assert!(DailyRepeat::of_lesson_in_transaction(rows, &gone.id).is_empty());
    assert!(WeeklyRepeat::of_lesson_in_transaction(rows, &gone.id).is_empty());
    assert!(MonthlyRepeat::of_lesson_in_transaction(rows, &gone.id).is_empty());
    assert!(Lesson::teachers_of_lesson_by_id_in_transaction(rows, &gone.id).is_empty());
    assert_eq!(level(&db, gone.id, OWNER), None);
    assert_eq!(level(&db, gone.id, GUEST), None);
}

#[test]
fn dates_resolve_to_the_lessons_that_occur() {
    let mut db = Store::new();
    let algebra = full_lesson(&mut db);
    let idle = bare_lesson(&mut db, "idle");
    let fridays = Lesson::create(
        &mut db,
        "Fridays".to_string(),
        None,
        vec![],
        vec![],
        vec![weekly(date(2024, 1, 1), WeekDay::Friday, 1)],
        vec![],
        &OWNER,
    )
    .unwrap();
    // 2024-05-17 is a Friday and the day of a single occurrence.
    assert_eq!(
        Lesson::for_date(&db, &date(2024, 5, 17), &OWNER),
        vec![algebra.clone(), fridays.clone()]
    );
    // 2024-01-12 is a Friday within the daily range.
    assert_eq!(
        Lesson::for_date(&db, &date(2024, 1, 12), &OWNER),
        vec![algebra.clone(), fridays.clone()]
    );
    // Every second Monday since 2024-01-01.
    assert_eq!(Lesson::for_date(&db, &date(2024, 1, 15), &OWNER), vec![algebra.clone()]);
    assert!(Lesson::for_date(&db, &date(2024, 1, 8), &OWNER).is_empty());
    // The 31st of a month.
    assert_eq!(Lesson::for_date(&db, &date(2024, 3, 31), &OWNER), vec![algebra.clone()]);
    assert!(Lesson::for_date(&db, &date(2023, 12, 30), &OWNER).is_empty());
    assert_eq!(Lesson::by_id(&db, idle.id), Some(idle));
}

#[test]
fn lesson_that_several_rules_match_is_resolved_once() {
    let mut db = Store::new();
    let lesson = Lesson::create(
        &mut db,
        "Twice".to_string(),
        None,
        vec![single(date(2024, 1, 1)), single(date(2024, 1, 1))],
        vec![daily(date(2023, 1, 1), None)],
        vec![weekly(date(2024, 1, 1), WeekDay::Monday, 1)],
        vec![monthly(date(2023, 12, 1), 1)],
        &OWNER,
    )
    .unwrap();
    assert_eq!(Lesson::for_date(&db, &date(2024, 1, 1), &OWNER), vec![lesson]);
}

#[test]
fn dates_resolve_only_to_lessons_that_the_account_may_read() {
    let mut db = Store::new();
    let lesson = full_lesson(&mut db);
    let day = date(2024, 5, 17);
    assert_eq!(Lesson::for_date(&db, &day, &OWNER), vec![lesson.clone()]);
    assert!(Lesson::for_date(&db, &day, &GUEST).is_empty());
    assert!(Lesson::for_date(&db, &day, &STRANGER).is_empty());
    grant(&mut db, lesson.id, GUEST, PermissionType::Read);
    assert_eq!(level(&db, lesson.id, GUEST), Some(PermissionType::Read));
    assert_eq!(Lesson::for_date(&db, &day, &GUEST), vec![lesson.clone()]);
    assert!(Lesson::for_date(&db, &day, &STRANGER).is_empty());
    grant(&mut db, lesson.id, STRANGER, PermissionType::ReadWrite);
    assert_eq!(Lesson::for_date(&db, &day, &STRANGER), vec![lesson]);
    // A date without occurrence resolves to nothing, whatever the level.
    assert!(Lesson::for_date(&db, &date(2024, 5, 18), &OWNER).is_empty());
}

#[test]
fn grants_are_taken_once_for_each_lesson_and_account() {
    let mut db = Store::new();
    let lesson = bare_lesson(&mut db, "shared");
    let mut transaction = db.begin();
    assert_eq!(
        LessonPermission::save_in_transaction(
            &mut transaction,
            PermissionType::Read,
            &lesson.id,
            &GUEST
        ),
        Ok(())
    );
    assert_eq!(
        LessonPermission::save_in_transaction(
            &mut transaction,
            PermissionType::ReadWrite,
            &lesson.id,
            &GUEST
        ),
        Err(Error::Storage)
    );
    assert_eq!(
        LessonPermission::save_in_transaction(
            &mut transaction,
            PermissionType::Read,
            &lesson.id,
            &OWNER
        ),
        Err(Error::Storage)
    );
    assert_eq!(
        LessonPermission::save_in_transaction(
            &mut transaction,
            PermissionType::Read,
            &LessonID(40),
            &GUEST
        ),
        Err(Error::Storage)
    );
    assert_eq!(
        LessonPermission::of_account_in_transaction(&transaction, &lesson.id, &GUEST),
        Some(PermissionType::Read)
    );
    db.commit(transaction);
    assert_eq!(level(&db, lesson.id, GUEST), Some(PermissionType::Read));
    assert_eq!(level(&db, lesson.id, OWNER), Some(PermissionType::ReadWrite));
    assert_eq!(level(&db, LessonID(40), GUEST), None);
}

#[test]
fn teachers_are_read_with_the_lesson() {
    let mut db = Store::new();
    let lesson = bare_lesson(&mut db, "taught");
    let other = bare_lesson(&mut db, "untaught");
    let mut transaction = db.begin();
    assert_eq!(transaction.link_teacher(&lesson.id, &TeacherID(3)), Ok(()));
    assert_eq!(transaction.link_teacher(&lesson.id, &TeacherID(1)), Ok(()));
    assert_eq!(transaction.link_teacher(&lesson.id, &TeacherID(3)), Err(Error::Storage));
    assert_eq!(transaction.link_teacher(&LessonID(9), &TeacherID(3)), Err(Error::Storage));
    db.commit(transaction);
    let read = Lesson::by_id(&db, lesson.id).unwrap();
    assert_eq!(read.teachers, vec![TeacherID(3), TeacherID(1)]);
    assert!(Lesson::by_id(&db, other.id).unwrap().teachers.is_empty());
    assert_eq!(
        Lesson::teachers_of_lesson_by_id_in_transaction(db.snapshot(), &lesson.id),
        vec![TeacherID(3), TeacherID(1)]
    );
}

#[test]
fn transaction_that_is_not_committed_leaves_the_store_alone() {
    let mut db = Store::new();
    let lesson = full_lesson(&mut db);
    {
        let mut transaction = db.begin();
        transaction.delete_lesson(&lesson.id);
        assert!(!transaction.has_lesson(&lesson.id));
        let id = transaction.insert_base(&"draft".to_string(), &None).unwrap();
        assert_eq!(id, LessonID(1));
        assert!(transaction.has_lesson(&id));
    }
    assert_eq!(Lesson::by_id(&db, lesson.id), Some(lesson));
    assert_eq!(Lesson::by_id(&db, LessonID(1)), None);
    assert!(db.snapshot().has_lesson(&LessonID(0)));
}

#[test]
fn base_rows() {
    let mut db = Store::new();
    let mut transaction = db.begin();
    assert_eq!(transaction.insert_base(&String::new(), &None), Err(Error::Validation));
    let id = transaction.insert_base(&"one".to_string(), &Some("first".to_string())).unwrap();
    assert_eq!(transaction.base_of(&id), Some(("one".to_string(), Some("first".to_string()))));
    assert_eq!(transaction.base_of(&LessonID(1)), None);
    assert_eq!(transaction.update_base(&LessonID(1), &None, &None), Err(Error::NotFound));
    assert_eq!(
        transaction.update_base(&id, &Some(String::new()), &Some(None)),
        Err(Error::Validation)
    );
    assert_eq!(transaction.base_of(&id), Some(("one".to_string(), Some("first".to_string()))));
    assert_eq!(transaction.update_base(&id, &Some("two".to_string()), &None), Ok(()));
    assert_eq!(transaction.base_of(&id), Some(("two".to_string(), Some("first".to_string()))));
    assert_eq!(transaction.update_base(&id, &None, &Some(None)), Ok(()));
    assert_eq!(transaction.base_of(&id), Some(("two".to_string(), None)));
    db.commit(transaction);
    assert_eq!(Lesson::by_id(&db, id).unwrap().title, "two");
}

#[test]
fn rules_of_one_kind_in_a_transaction() {
    let mut db = Store::new();
    let first = bare_lesson(&mut db, "first");
    let second = bare_lesson(&mut db, "second");
    let mut transaction = db.begin();
    let a = weekly(date(2024, 1, 1), WeekDay::Monday, 1);
    let b = weekly(date(2024, 1, 1), WeekDay::Tuesday, 2);
    let c = weekly(date(2024, 1, 1), WeekDay::Sunday, 3);
    let bad = weekly(date(2024, 1, 1), WeekDay::Sunday, 0);
    assert_eq!(WeeklyRepeat::insert_in_transaction(&mut transaction, &vec![a], &first.id), Ok(()));
    assert_eq!(WeeklyRepeat::insert_in_transaction(&mut transaction, &vec![c], &second.id), Ok(()));
    assert_eq!(WeeklyRepeat::insert_in_transaction(&mut transaction, &vec![b], &first.id), Ok(()));
    assert_eq!(WeeklyRepeat::of_lesson_in_transaction(&transaction, &first.id), vec![a, b]);
    assert_eq!(WeeklyRepeat::of_lesson_in_transaction(&transaction, &second.id), vec![c]);
    // Nothing to insert is no error, even for a lesson that does not exist.
    assert_eq!(WeeklyRepeat::insert_in_transaction(&mut transaction, &vec![], &LessonID(9)), Ok(()));
    assert_eq!(
        WeeklyRepeat::insert_in_transaction(&mut transaction, &vec![a], &LessonID(9)),
        Err(Error::Storage)
    );
    assert_eq!(
        WeeklyRepeat::insert_in_transaction(&mut transaction, &vec![a, bad], &first.id),
        Err(Error::Validation)
    );
    assert_eq!(
        WeeklyRepeat::insert_in_transaction(&mut transaction, &vec![bad], &LessonID(9)),
        Err(Error::Validation)
    );
    assert_eq!(WeeklyRepeat::of_lesson_in_transaction(&transaction, &first.id), vec![a, b]);
    assert!(WeeklyRepeat::occurs_in_transaction(&transaction, &first.id, &date(2024, 1, 1)));
    assert!(WeeklyRepeat::occurs_in_transaction(&transaction, &first.id, &date(2024, 1, 16)));
    assert!(!WeeklyRepeat::occurs_in_transaction(&transaction, &first.id, &date(2024, 1, 9)));
    assert!(!WeeklyRepeat::occurs_in_transaction(&transaction, &second.id, &date(2024, 1, 1)));
    assert_eq!(
        WeeklyRepeat::update_in_transaction(&mut transaction, &vec![c, a], &first.id),
        Ok(())
    );
    assert_eq!(WeeklyRepeat::of_lesson_in_transaction(&transaction, &first.id), vec![c, a]);
    assert_eq!(WeeklyRepeat::of_lesson_in_transaction(&transaction, &second.id), vec![c]);
    // A replacement that is refused has dropped the old rules already.
    assert_eq!(
        WeeklyRepeat::update_in_transaction(&mut transaction, &vec![bad], &first.id),
        Err(Error::Validation)
    );
    assert!(WeeklyRepeat::of_lesson_in_transaction(&transaction, &first.id).is_empty());
    WeeklyRepeat::delete_in_transaction(&mut transaction, &second.id);
    assert!(WeeklyRepeat::of_lesson_in_transaction(&transaction, &second.id).is_empty());
    WeeklyRepeat::delete_in_transaction(&mut transaction, &LessonID(9));
    // The other kinds have tables of their own.
    assert_eq!(
        SingleOccurrence::insert_in_transaction(
            &mut transaction,
            &vec![single(date(2024, 1, 1))],
            &first.id
        ),
        Ok(())
    );
    assert_eq!(
        DailyRepeat::insert_in_transaction(
            &mut transaction,
            &vec![daily(date(2024, 1, 1), None)],
            &first.id
        ),
        Ok(())
    );
    assert_eq!(
        MonthlyRepeat::insert_in_transaction(
            &mut transaction,
            &vec![monthly(date(2024, 1, 1), 1)],
            &first.id
        ),
        Ok(())
    );
    SingleOccurrence::delete_in_transaction(&mut transaction, &first.id);
    assert!(SingleOccurrence::of_lesson_in_transaction(&transaction, &first.id).is_empty());
    assert_eq!(DailyRepeat::of_lesson_in_transaction(&transaction, &first.id).len(), 1);
    assert_eq!(MonthlyRepeat::of_lesson_in_transaction(&transaction, &first.id).len(), 1);
    DailyRepeat::delete_in_transaction(&mut transaction, &first.id);
    MonthlyRepeat::delete_in_transaction(&mut transaction, &first.id);
    assert!(DailyRepeat::of_lesson_in_transaction(&transaction, &first.id).is_empty());
    assert!(MonthlyRepeat::of_lesson_in_transaction(&transaction, &first.id).is_empty());
}

#[test]
fn restored_lessons_keep_their_identifiers() {
    let mut db = Store::new();
    let mut transaction = db.begin();
    assert_eq!(transaction.restore_base(&LessonID(5), &"five".to_string(), &None), Ok(()));
    assert_eq!(transaction.next_id(), 6);
    assert_eq!(transaction.restore_base(&LessonID(2), &"two".to_string(), &None), Ok(()));
    assert_eq!(transaction.next_id(), 6);
    assert_eq!(
        transaction.restore_base(&LessonID(5), &"again".to_string(), &None),
        Err(Error::Storage)
    );
    assert_eq!(
        transaction.restore_base(&LessonID(u64::MAX), &"last".to_string(), &None),
        Err(Error::Storage)
    );
    assert_eq!(transaction.restore_base(&LessonID(6), &String::new(), &None), Err(Error::Validation));
    transaction.reserve_ids(4);
    assert_eq!(transaction.next_id(), 6);
    transaction.reserve_ids(10);
    assert_eq!(transaction.next_id(), 10);
    db.commit(transaction);
    assert_eq!(Lesson::by_id(&db, LessonID(5)).unwrap().title, "five");
    assert_eq!(Lesson::by_id(&db, LessonID(2)).unwrap().title, "two");
    assert_eq!(bare_lesson(&mut db, "new").id, LessonID(10));
}

#[test]
fn store_without_identifiers_left_refuses_new_lessons() {
    let mut db = Store::new();
    let kept = bare_lesson(&mut db, "kept");
    let mut transaction = db.begin();
    transaction.reserve_ids(u64::MAX - 1);
    db.commit(transaction);
    let last = bare_lesson(&mut db, "last");
    assert_eq!(last.id, LessonID(u64::MAX - 1));
    let res = Lesson::create(
        &mut db,
        "one too many".to_string(),
        None,
        vec![single(date(2024, 1, 1))],
        vec![],
        vec![],
        vec![],
        &OWNER,
    );
    assert_eq!(res, Err(Error::Storage));
    // An empty title is found before the store is asked for an identifier.
    let res = Lesson::create(&mut db, String::new(), None, vec![], vec![], vec![], vec![], &OWNER);
    assert_eq!(res, Err(Error::Validation));
    assert_eq!(Lesson::by_id(&db, kept.id), Some(kept));
    assert_eq!(Lesson::by_id(&db, last.id), Some(last));
    assert_eq!(Lesson::by_id(&db, LessonID(u64::MAX)), None);
    assert_eq!(db.snapshot().next_id(), u64::MAX);
}
