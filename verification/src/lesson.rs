//! Lessons, and the operations that keep a lesson and its rows together.
//!
//! A lesson is read and written as a whole: its title and description, its
//! rules of each kind, its teachers. Every operation that writes works on a
//! transaction of its own and commits at the end, so the store either takes
//! all of its changes or none.

use crate::account::AccountID;
use crate::calendar::Date;
use crate::error::Error;
use crate::permission::{
    allows_read, is_read_permission, level_for, Grant, LessonPermission, PermissionType,
};
use crate::repeat::{
    all_valid, any_on, DailyRepeat, MonthlyRepeat, Repeat, Rule, SingleOccurrence, WeeklyRepeat,
};
use crate::table::{items_of, items_of_unmentioned, mentions, select, tagged, without, Row};
use crate::teacher::TeacherID;
use crate::transaction::{
    copy_text, has_id, text_of, texts_of, LessonBaseView, Snapshot, Store, Transaction,
};
use vstd::prelude::*;

verus! {

/// Identifier of a lesson.
#[derive(Clone, Copy, Debug, PartialEq, Eq, Hash)]
pub struct LessonID(pub u64);

/// A lesson with all that belongs to it.
#[derive(Clone, Debug, PartialEq, Eq)]
pub struct Lesson {
    pub id: LessonID,
    pub title: String,
    pub description: Option<String>,
    pub singles: Vec<SingleOccurrence>,
    pub weekly: Vec<WeeklyRepeat>,
    pub daily: Vec<DailyRepeat>,
    pub monthly: Vec<MonthlyRepeat>,
    pub teachers: Vec<TeacherID>,
}

/// What a lesson holds.
pub struct LessonView {
    pub id: LessonID,
    pub title: Seq<char>,
    pub description: Option<Seq<char>>,
    pub singles: Seq<SingleOccurrence>,
    pub weekly: Seq<WeeklyRepeat>,
    pub daily: Seq<DailyRepeat>,
    pub monthly: Seq<MonthlyRepeat>,
    pub teachers: Seq<TeacherID>,
}

impl View for Lesson {
    type V = LessonView;

    open spec fn view(&self) -> LessonView {
        LessonView {
            id: self.id,
            title: self.title@,
            description: text_of(self.description),
            singles: self.singles@,
            weekly: self.weekly@,
            daily: self.daily@,
            monthly: self.monthly@,
            teachers: self.teachers@,
        }
    }
}

/// What each of `lessons` holds.
pub open spec fn lesson_views(lessons: Seq<Lesson>) -> Seq<LessonView> {
    lessons.map_values(|l: Lesson| l@)
}

/// The items of an optional list.
pub open spec fn items_view<R>(items: Option<Vec<R>>) -> Option<Seq<R>> {
    match items {
        Some(v) => Some(v@),
        None => None,
    }
}

/// `table` with the rows of lesson `id` replaced by `items`, if there are any
/// to replace them with.
pub open spec fn replaced<R>(table: Seq<Row<R>>, items: Option<Seq<R>>, id: LessonID) -> Seq<
    Row<R>,
> {
    match items {
        Some(new) => without(table, id) + tagged(new, id),
        None => table,
    }
}

/// Whether an optional list holds well-formed items only.
pub open spec fn valid_if_given<R: Rule>(items: Option<Seq<R>>) -> bool {
    match items {
        Some(new) => all_valid(new),
        None => true,
    }
}

impl Snapshot {
    /// The lesson of the row `base`, with all that the tables hold for it.
    pub open spec fn hydrated(self, base: LessonBaseView) -> LessonView {
        LessonView {
            id: base.id,
            title: base.title,
            description: base.description,
            singles: items_of(self.singles, base.id),
            weekly: items_of(self.weekly, base.id),
            daily: items_of(self.daily, base.id),
            monthly: items_of(self.monthly, base.id),
            teachers: items_of(self.teachers, base.id),
        }
    }

    /// The lesson `id`, if there is one.
    pub open spec fn read(self, id: LessonID) -> Option<LessonView> {
        if self.has_lesson(id) {
            Some(self.hydrated(self.lessons[self.index_of(id)]))
        } else {
            None
        }
    }

    /// Whether a rule of any kind makes lesson `id` occur on `date`.
    pub open spec fn occurs(self, id: LessonID, date: Date) -> bool {
        ||| any_on(items_of(self.singles, id), date)
        ||| any_on(items_of(self.daily, id), date)
        ||| any_on(items_of(self.weekly, id), date)
        ||| any_on(items_of(self.monthly, id), date)
    }

    /// Whether `account` may read lesson `id`.
    pub open spec fn visible(self, account: AccountID, id: LessonID) -> bool {
        allows_read(level_for(self.grants, account, id))
    }

    /// Among the first `n` lessons of the table, those that occur on `date`
    /// and that `account` may read, in the order of the table.
    pub open spec fn resolved_among(self, n: int, date: Date, account: AccountID) -> Seq<
        LessonView,
    >
        decreases n,
    {
        if n <= 0 {
            Seq::empty()
        } else {
            let before = self.resolved_among(n - 1, date, account);
            let base = self.lessons[n - 1];
            if self.occurs(base.id, date) && self.visible(account, base.id) {
                before.push(self.hydrated(base))
            } else {
                before
            }
        }
    }

    /// The lessons that occur on `date` and that `account` may read, in the
    /// order of the table of lessons.
    pub open spec fn resolved(self, date: Date, account: AccountID) -> Seq<LessonView> {
        self.resolved_among(self.lessons.len() as int, date, account)
    }

    /// How the creation of a lesson ends: an empty title is a validation
    /// error; then, where no identifier is left, the store refuses; then a
    /// malformed rule is a validation error.
    pub open spec fn create_result(
        self,
        title: Seq<char>,
        singles: Seq<SingleOccurrence>,
        daily: Seq<DailyRepeat>,
        weekly: Seq<WeeklyRepeat>,
        monthly: Seq<MonthlyRepeat>,
    ) -> Result<(), Error> {
        if title.len() == 0 {
            Err(Error::Validation)
        } else if self.next_id >= u64::MAX {
            Err(Error::Storage)
        } else if !(all_valid(singles) && all_valid(daily) && all_valid(weekly) && all_valid(
            monthly,
        )) {
            Err(Error::Validation)
        } else {
            Ok(())
        }
    }

    /// The rows after a lesson is created: one more lesson under the next
    /// new identifier, its rules, and a grant of read-write access to its
    /// owner.
    pub open spec fn created(
        self,
        title: Seq<char>,
        description: Option<Seq<char>>,
        singles: Seq<SingleOccurrence>,
        daily: Seq<DailyRepeat>,
        weekly: Seq<WeeklyRepeat>,
        monthly: Seq<MonthlyRepeat>,
        owner: AccountID,
    ) -> Snapshot {
        let id = LessonID(self.next_id as u64);
        Snapshot {
            next_id: self.next_id + 1,
            lessons: self.lessons.push(LessonBaseView { id, title, description }),
            singles: self.singles + tagged(singles, id),
            daily: self.daily + tagged(daily, id),
            weekly: self.weekly + tagged(weekly, id),
            monthly: self.monthly + tagged(monthly, id),
            teachers: self.teachers,
            grants: self.grants.push(
                Row {
                    lesson_id: id,
                    item: Grant { account_id: owner, permission_type: PermissionType::ReadWrite },
                },
            ),
        }
    }

    /// How an update of lesson `id` ends: without such a lesson it is "not
    /// found"; an empty title or a malformed rule is a validation error.
    pub open spec fn update_result(
        self,
        id: LessonID,
        title: Option<Seq<char>>,
        singles: Option<Seq<SingleOccurrence>>,
        daily: Option<Seq<DailyRepeat>>,
        weekly: Option<Seq<WeeklyRepeat>>,
        monthly: Option<Seq<MonthlyRepeat>>,
    ) -> Result<(), Error> {
        if !self.has_lesson(id) {
            Err(Error::NotFound)
        } else if title is Some && title->0.len() == 0 {
            Err(Error::Validation)
        } else if !(valid_if_given(singles) && valid_if_given(daily) && valid_if_given(weekly)
            && valid_if_given(monthly)) {
            Err(Error::Validation)
        } else {
            Ok(())
        }
    }

    /// The rows after an update of lesson `id`: each part that is given
    /// replaces what was there, and each part that is `None` stays.
    pub open spec fn updated(
        self,
        id: LessonID,
        title: Option<Seq<char>>,
        description: Option<Option<Seq<char>>>,
        singles: Option<Seq<SingleOccurrence>>,
        daily: Option<Seq<DailyRepeat>>,
        weekly: Option<Seq<WeeklyRepeat>>,
        monthly: Option<Seq<MonthlyRepeat>>,
    ) -> Snapshot {
        Snapshot {
            next_id: self.next_id,
            lessons: self.with_texts(id, title, description).lessons,
            singles: replaced(self.singles, singles, id),
            daily: replaced(self.daily, daily, id),
            weekly: replaced(self.weekly, weekly, id),
            monthly: replaced(self.monthly, monthly, id),
            teachers: self.teachers,
            grants: self.grants,
        }
    }
}

impl Lesson {
    /// The teachers of lesson `lesson_id`, in the order in which they were
    /// linked.
    pub fn teachers_of_lesson_by_id_in_transaction(
        transaction: &Transaction,
        lesson_id: &LessonID,
    ) -> (teachers: Vec<TeacherID>)
        ensures
            teachers@ == items_of(transaction@.teachers, *lesson_id),
    {
        select(&transaction.teachers, lesson_id)
    }

    /// The lesson with the given title and description, with all that
    /// `transaction` holds for `lesson_id`.
    fn hydrate(
        transaction: &Transaction,
        lesson_id: LessonID,
        title: String,
        description: Option<String>,
    ) -> (lesson: Lesson)
        ensures
            lesson@ == transaction@.hydrated(
                LessonBaseView { id: lesson_id, title: title@, description: text_of(description) },
            ),
    {
        let singles = SingleOccurrence::of_lesson_in_transaction(transaction, &lesson_id);
        let daily = DailyRepeat::of_lesson_in_transaction(transaction, &lesson_id);
        let weekly = WeeklyRepeat::of_lesson_in_transaction(transaction, &lesson_id);
        let monthly = MonthlyRepeat::of_lesson_in_transaction(transaction, &lesson_id);
        let teachers = Lesson::teachers_of_lesson_by_id_in_transaction(transaction, &lesson_id);
        Lesson { id: lesson_id, title, description, singles, daily, weekly, monthly, teachers }
    }

    /// The lesson `lesson_id` with all that belongs to it, or `None` where
    /// the store holds no such lesson. All parts are read from the same
    /// committed rows.
    pub fn by_id(db: &Store, lesson_id: LessonID) -> (found: Option<Lesson>)
        requires
            db@.wf(),
        ensures
            match found {
                Some(lesson) => db@.read(lesson_id) == Some(lesson@),
                None => db@.read(lesson_id) is None,
            },
    {
        let transaction = db.snapshot();
        match transaction.base_of(&lesson_id) {
            None => None,
            Some((title, description)) => {
                proof {
                    let base = db@.lessons[db@.index_of(lesson_id)];
                    assert(base == (LessonBaseView {
                        id: lesson_id,
                        title: title@,
                        description: text_of(description),
                    }));
                }
                Some(Lesson::hydrate(transaction, lesson_id, title, description))
            },
        }
    }

    /// Creates a lesson with the given title, description and rules, without
    /// teachers, and grants `owner` read-write access to it. The store picks
    /// the identifier.
    ///
    /// On an error the store is as it was.
    pub fn create(
        db: &mut Store,
        title: String,
        description: Option<String>,
        singles: Vec<SingleOccurrence>,
        daily: Vec<DailyRepeat>,
        weekly: Vec<WeeklyRepeat>,
        monthly: Vec<MonthlyRepeat>,
        owner: &AccountID,
    ) -> (res: Result<Lesson, Error>)
        requires
            old(db)@.wf(),
        ensures
            final(db)@.wf(),
            match res {
                Ok(lesson) => {
                    &&& old(db)@.create_result(title@, singles@, daily@, weekly@, monthly@) is Ok
                    &&& lesson@ == (LessonView {
                        id: LessonID(old(db)@.next_id as u64),
                        title: title@,
                        description: text_of(description),
                        singles: singles@,
                        weekly: weekly@,
                        daily: daily@,
                        monthly: monthly@,
                        teachers: Seq::empty(),
                    })
                    &&& final(db)@ == old(db)@.created(
                        title@,
                        text_of(description),
                        singles@,
                        daily@,
                        weekly@,
                        monthly@,
                        *owner,
                    )
                },
                Err(e) => {
                    &&& old(db)@.create_result(title@, singles@, daily@, weekly@, monthly@) == Err::<
                        (),
                        Error,
                    >(e)
                    &&& final(db)@ == old(db)@
                },
            },
    {
        let mut transaction = db.begin();
        let ghost start = db@;
        let id = match transaction.insert_base(&title, &description) {
            Ok(id) => id,
            Err(e) => {
                return Err(e);
            },
        };
        proof {
            assert(transaction@.lessons[start.lessons.len() as int].id == id);
            assert(transaction@.has_lesson(id));
        }
        match SingleOccurrence::insert_in_transaction(&mut transaction, &singles, &id) {
            Ok(()) => {},
            Err(e) => {
                return Err(e);
            },
        }
        match DailyRepeat::insert_in_transaction(&mut transaction, &daily, &id) {
            Ok(()) => {},
            Err(e) => {
                return Err(e);
            },
        }
        match WeeklyRepeat::insert_in_transaction(&mut transaction, &weekly, &id) {
            Ok(()) => {},
            Err(e) => {
                return Err(e);
            },
        }
        match MonthlyRepeat::insert_in_transaction(&mut transaction, &monthly, &id) {
            Ok(()) => {},
            Err(e) => {
                return Err(e);
            },
        }
        proof {
            start.new_id_unused(id);
            items_of_unmentioned(start.grants, id);
            assert(transaction@.grants == start.grants);
        }
        match LessonPermission::save_in_transaction(
            &mut transaction,
            PermissionType::ReadWrite,
            &id,
            owner,
        ) {
            Ok(()) => {},
            Err(e) => {
                return Err(e);
            },
        }
        db.commit(transaction);
        Ok(Lesson { id, title, description, singles, daily, weekly, monthly, teachers: Vec::new() })
    }

    /// Updates lesson `lesson_id`: each part that is given replaces what was
    /// there, an empty list too, and each part that is `None` stays as it is.
    ///
    /// On an error the store is as it was.
    pub fn update(
        db: &mut Store,
        lesson_id: &LessonID,
        title: &Option<String>,
        singles: &Option<Vec<SingleOccurrence>>,
        daily: &Option<Vec<DailyRepeat>>,
        weekly: &Option<Vec<WeeklyRepeat>>,
        monthly: &Option<Vec<MonthlyRepeat>>,
        description: &Option<Option<String>>,
    ) -> (res: Result<(), Error>)
        requires
            old(db)@.wf(),
        ensures
            final(db)@.wf(),
            res == old(db)@.update_result(
                *lesson_id,
                text_of(*title),
                items_view(*singles),
                items_view(*daily),
                items_view(*weekly),
                items_view(*monthly),
            ),
            final(db)@ == (if res is Ok {
                old(db)@.updated(
                    *lesson_id,
                    text_of(*title),
                    texts_of(*description),
                    items_view(*singles),
                    items_view(*daily),
                    items_view(*weekly),
                    items_view(*monthly),
                )
            } else {
                old(db)@
            }),
    {
        let mut transaction = db.begin();
        let ghost start = db@;
        match transaction.update_base(lesson_id, title, description) {
            Ok(()) => {},
            Err(e) => {
                return Err(e);
            },
        }
        proof {
            start.lessons_without(*lesson_id);
            assert(transaction@.lessons[start.index_of(*lesson_id)].id == *lesson_id);
            assert(transaction@.has_lesson(*lesson_id));
        }
        if let Some(items) = singles {
            match SingleOccurrence::update_in_transaction(&mut transaction, items, lesson_id) {
                Ok(()) => {},
                Err(e) => {
                    return Err(e);
                },
            }
        }
        if let Some(items) = daily {
            match DailyRepeat::update_in_transaction(&mut transaction, items, lesson_id) {
                Ok(()) => {},
                Err(e) => {
                    return Err(e);
                },
            }
        }
        if let Some(items) = weekly {
            match WeeklyRepeat::update_in_transaction(&mut transaction, items, lesson_id) {
                Ok(()) => {},
                Err(e) => {
                    return Err(e);
                },
            }
        }
        if let Some(items) = monthly {
            match MonthlyRepeat::update_in_transaction(&mut transaction, items, lesson_id) {
                Ok(()) => {},
                Err(e) => {
                    return Err(e);
                },
            }
        }
        db.commit(transaction);
        Ok(())
    }

    /// Deletes lesson `lesson_id` together with its rules, its links to
    /// teachers and its grants. Where there is no such lesson, nothing
    /// changes.
    pub fn delete(db: &mut Store, lesson_id: &LessonID)
        requires
            old(db)@.wf(),
        ensures
            final(db)@.wf(),
            final(db)@ == old(db)@.without_lesson(*lesson_id),
    {
        let mut transaction = db.begin();
        transaction.delete_lesson(lesson_id);
        db.commit(transaction);
    }

    /// The lessons that occur on `date` and that `account_id` may read, each
    /// with all that belongs to it, in the order of the table of lessons.
    pub fn for_date(db: &Store, date: &Date, account_id: &AccountID) -> (lessons: Vec<Lesson>)
        ensures
            lesson_views(lessons@) == db@.resolved(*date, *account_id),
    {
        let transaction = db.snapshot();
        let mut lessons: Vec<Lesson> = Vec::new();
        let mut i: usize = 0;
        while i < transaction.lessons.len()
            invariant
                i <= transaction.lessons.len(),
                transaction@ == db@,
                lesson_views(lessons@) == db@.resolved_among(i as int, *date, *account_id),
            decreases transaction.lessons.len() - i,
        {
            let base = &transaction.lessons[i];
            let id = base.id;
            let occurs = SingleOccurrence::occurs_in_transaction(transaction, &id, date)
                || DailyRepeat::occurs_in_transaction(transaction, &id, date)
                || WeeklyRepeat::occurs_in_transaction(transaction, &id, date)
                || MonthlyRepeat::occurs_in_transaction(transaction, &id, date);
            if occurs {
                let level = LessonPermission::of_account_in_transaction(transaction, &id, account_id);
                if is_read_permission(&level) {
                    let ghost before = lesson_views(lessons@);
                    let lesson = Lesson::hydrate(
                        transaction,
                        id,
                        base.title.clone(),
                        copy_text(&base.description),
                    );
                    lessons.push(lesson);
                    assert(lesson_views(lessons@) =~= before.push(lesson@));
                }
            }
            i = i + 1;
        }
        lessons
    }
}

impl Snapshot {
    /// No row of well-formed tables belongs to the lesson that comes next.
    pub proof fn new_id_unused(self, id: LessonID)
        requires
            self.wf(),
            id.0 >= self.next_id,
        ensures
            !self.has_lesson(id),
            !mentions(self.singles, id),
            !mentions(self.daily, id),
            !mentions(self.weekly, id),
            !mentions(self.monthly, id),
            !mentions(self.teachers, id),
            !mentions(self.grants, id),
    {
        if has_id(self.lessons, id) {
            let k = choose|k: int| 0 <= k < self.lessons.len() && (#[trigger] self.lessons[k]).id == id;
            assert(self.lessons[k].id.0 < self.next_id);
        }
        assert(!self.lesson_ids().contains(id));
    }
}

} // verus!
