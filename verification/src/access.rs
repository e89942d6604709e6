//! The operations of a lesson on behalf of an authenticated account.
//!
//! Each operation takes the identity that the authenticating stage made, so
//! none can be reached without one, and checks the account's level before it
//! touches the store: reading asks for read access, updating and deleting for
//! read-write access.

use crate::authentication::Identity;
use crate::calendar::Date;
use crate::error::Error;
use crate::lesson::{items_view, lesson_views, Lesson, LessonID, LessonView};
use crate::permission::{
    allows_read, allows_write, is_read_permission, is_write_permission, level_for,
    LessonPermission,
};
use crate::repeat::{DailyRepeat, MonthlyRepeat, SingleOccurrence, WeeklyRepeat};
use crate::transaction::{text_of, texts_of, Store};
use vstd::prelude::*;

verus! {

/// Creates a lesson that the account of `identity` owns.
pub fn create_lesson(
    identity: &Identity,
    db: &mut Store,
    title: String,
    description: Option<String>,
    singles: Vec<SingleOccurrence>,
    daily: Vec<DailyRepeat>,
    weekly: Vec<WeeklyRepeat>,
    monthly: Vec<MonthlyRepeat>,
) -> (res: Result<Lesson, Error>)
    requires
        old(db)@.wf(),
    ensures
        final(db)@.wf(),
        match res {
            Ok(lesson) => {
                &&& old(db)@.create_result(title@, singles@, daily@, weekly@, monthly@) is Ok
                &&& lesson@ == (LessonView {
                    id: LessonID(old(db)@.next_id as u64),
                    title: title@,
                    description: text_of(description),
                    singles: singles@,
                    weekly: weekly@,
                    daily: daily@,
                    monthly: monthly@,
                    teachers: Seq::empty(),
                })
                &&& final(db)@ == old(db)@.created(
                    title@,
                    text_of(description),
                    singles@,
                    daily@,
                    weekly@,
                    monthly@,
                    identity.account(),
                )
            },
            Err(e) => {
                &&& old(db)@.create_result(title@, singles@, daily@, weekly@, monthly@) == Err::<
                    (),
                    Error,
                >(e)
                &&& final(db)@ == old(db)@
            },
        },
{
    let owner = identity.account_id();
    Lesson::create(db, title, description, singles, daily, weekly, monthly, &owner)
}

/// The lesson `lesson_id`, for an account that may read it.
///
/// Without such a lesson the result is "not found"; with one that the account
/// may not read, permission is denied.
pub fn read_lesson(identity: &Identity, db: &Store, lesson_id: LessonID) -> (res: Result<
    Lesson,
    Error,
>)
    requires
        db@.wf(),
    ensures
        match res {
            Ok(lesson) => {
                &&& db@.read(lesson_id) == Some(lesson@)
                &&& allows_read(level_for(db@.grants, identity.account(), lesson_id))
            },
            Err(e) => {
                &&& e == Error::NotFound || e == Error::PermissionDenied
                &&& e == Error::NotFound <==> db@.read(lesson_id) is None
                &&& e == Error::PermissionDenied ==> !allows_read(
                    level_for(db@.grants, identity.account(), lesson_id),
                )
            },
        },
{
    let lesson = match Lesson::by_id(db, lesson_id) {
        Some(lesson) => lesson,
        None => {
            return Err(Error::NotFound);
        },
    };
    let level = LessonPermission::of_account_in_transaction(
        db.snapshot(),
        &lesson_id,
        &identity.account_id(),
    );
    if !is_read_permission(&level) {
        return Err(Error::PermissionDenied);
    }
    Ok(lesson)
}

/// Updates lesson `lesson_id`, for an account that may write it.
///
/// Without such a lesson the result is "not found"; with one that the account
/// may not write, permission is denied; then the update goes as any update
/// does. On an error the store is as it was.
pub fn update_lesson(
    identity: &Identity,
    db: &mut Store,
    lesson_id: &LessonID,
    title: &Option<String>,
    singles: &Option<Vec<SingleOccurrence>>,
    daily: &Option<Vec<DailyRepeat>>,
    weekly: &Option<Vec<WeeklyRepeat>>,
    monthly: &Option<Vec<MonthlyRepeat>>,
    description: &Option<Option<String>>,
) -> (res: Result<(), Error>)
    requires
        old(db)@.wf(),
    ensures
        final(db)@.wf(),
        res == (if !old(db)@.has_lesson(*lesson_id) {
            Err::<(), Error>(Error::NotFound)
        } else if !allows_write(level_for(old(db)@.grants, identity.account(), *lesson_id)) {
            Err::<(), Error>(Error::PermissionDenied)
        } else {
            old(db)@.update_result(
                *lesson_id,
                text_of(*title),
                items_view(*singles),
                items_view(*daily),
                items_view(*weekly),
                items_view(*monthly),
            )
        }),
        final(db)@ == (if res is Ok {
            old(db)@.updated(
                *lesson_id,
                text_of(*title),
                texts_of(*description),
                items_view(*singles),
                items_view(*daily),
                items_view(*weekly),
                items_view(*monthly),
            )
        } else {
            old(db)@
        }),
{
    if !db.snapshot().has_lesson(lesson_id) {
        return Err(Error::NotFound);
    }
    let level = LessonPermission::of_account_in_transaction(
        db.snapshot(),
        lesson_id,
        &identity.account_id(),
    );
    if !is_write_permission(&level) {
        return Err(Error::PermissionDenied);
    }
    Lesson::update(db, lesson_id, title, singles, daily, weekly, monthly, description)
}

/// Deletes lesson `lesson_id`, for an account that may write it.
///
/// Without such a lesson nothing changes and nothing is wrong; with one that
/// the account may not write, permission is denied and nothing changes.
pub fn delete_lesson(identity: &Identity, db: &mut Store, lesson_id: &LessonID) -> (res: Result<
    (),
    Error,
>)
    requires
        old(db)@.wf(),
    ensures
        final(db)@.wf(),
        res == (if old(db)@.has_lesson(*lesson_id) && !allows_write(
            level_for(old(db)@.grants, identity.account(), *lesson_id),
        ) {
            Err::<(), Error>(Error::PermissionDenied)
        } else {
            Ok::<(), Error>(())
        }),
        final(db)@ == (if res is Ok && old(db)@.has_lesson(*lesson_id) {
            old(db)@.without_lesson(*lesson_id)
        } else {
            old(db)@
        }),
{
    if !db.snapshot().has_lesson(lesson_id) {
        return Ok(());
    }
    let level = LessonPermission::of_account_in_transaction(
        db.snapshot(),
        lesson_id,
        &identity.account_id(),
    );
    if !is_write_permission(&level) {
        return Err(Error::PermissionDenied);
    }
    Lesson::delete(db, lesson_id);
    Ok(())
}

/// The lessons that occur on `date` and that the account of `identity` may
/// read.
pub fn lessons_for_date(identity: &Identity, db: &Store, date: &Date) -> (lessons: Vec<Lesson>)
    ensures
        lesson_views(lessons@) == db@.resolved(*date, identity.account()),
{
    Lesson::for_date(db, date, &identity.account_id())
}

} // verus!
