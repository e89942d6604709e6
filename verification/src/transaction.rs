//! The store and its transactions.
//!
//! The store keeps one table of lessons and, for each kind of row that belongs
//! to a lesson, one table of such rows. A transaction is a private copy of all
//! tables: operations change the copy, and the store takes it over as a whole
//! on commit or not at all.

use crate::account::AccountID;
use crate::error::Error;
use crate::lesson::LessonID;
use crate::permission::{one_grant_each, Grant, PermissionType};
use crate::repeat::{all_valid, DailyRepeat, MonthlyRepeat, Rule, SingleOccurrence, WeeklyRepeat};
use crate::table::{
    copy_of, items_of, items_of_push, items_of_without, owned, owned_appended, owned_without, remove,
    select, tagged, without, Row,
};
use crate::teacher::TeacherID;
use vstd::prelude::*;

verus! {

/// The characters of an optional text.
pub open spec fn text_of(text: Option<String>) -> Option<Seq<char>> {
    match text {
        Some(s) => Some(s@),
        None => None,
    }
}

/// The characters of an optional replacement for an optional text.
pub open spec fn texts_of(text: Option<Option<String>>) -> Option<Option<Seq<char>>> {
    match text {
        Some(t) => Some(text_of(t)),
        None => None,
    }
}

/// The row of the table of lessons.
pub struct LessonBase {
    pub id: LessonID,
    pub title: String,
    pub description: Option<String>,
}

/// What a row of the table of lessons holds.
pub struct LessonBaseView {
    pub id: LessonID,
    pub title: Seq<char>,
    pub description: Option<Seq<char>>,
}

impl View for LessonBase {
    type V = LessonBaseView;

    open spec fn view(&self) -> LessonBaseView {
        LessonBaseView { id: self.id, title: self.title@, description: text_of(self.description) }
    }
}

/// Whether one of `lessons` has the identifier `id`.
pub open spec fn has_id(lessons: Seq<LessonBaseView>, id: LessonID) -> bool {
    exists|k: int| 0 <= k < lessons.len() && (#[trigger] lessons[k]).id == id
}

/// Whether every item that `table` holds is well formed.
pub open spec fn rows_valid<R: Rule>(table: Seq<Row<R>>) -> bool {
    forall|id: LessonID| all_valid(#[trigger] items_of(table, id))
}

/// The rows of every table at one moment.
pub struct Snapshot {
    /// The identifier that the next new lesson gets.
    pub next_id: nat,
    pub lessons: Seq<LessonBaseView>,
    pub singles: Seq<Row<SingleOccurrence>>,
    pub daily: Seq<Row<DailyRepeat>>,
    pub weekly: Seq<Row<WeeklyRepeat>>,
    pub monthly: Seq<Row<MonthlyRepeat>>,
    pub teachers: Seq<Row<TeacherID>>,
    pub grants: Seq<Row<Grant>>,
}

impl Snapshot {
    /// No rows at all.
    pub open spec fn empty() -> Snapshot {
        Snapshot {
            next_id: 0,
            lessons: Seq::empty(),
            singles: Seq::empty(),
            daily: Seq::empty(),
            weekly: Seq::empty(),
            monthly: Seq::empty(),
            teachers: Seq::empty(),
            grants: Seq::empty(),
        }
    }

    /// Whether a lesson has the identifier `id`.
    pub open spec fn has_lesson(self, id: LessonID) -> bool {
        has_id(self.lessons, id)
    }

    /// The identifiers of all lessons.
    pub open spec fn lesson_ids(self) -> Set<LessonID> {
        Set::new(|id: LessonID| has_id(self.lessons, id))
    }

    /// Where the lesson `id` stands in the table of lessons.
    pub open spec fn index_of(self, id: LessonID) -> int {
        choose|k: int| 0 <= k < self.lessons.len() && (#[trigger] self.lessons[k]).id == id
    }

    /// The constraints that the store keeps: no two lessons share an
    /// identifier, and every identifier in use lies below the next new one;
    /// every title has a character; every row belongs to a lesson of the
    /// store; every rule is well formed; no account has two grants on one
    /// lesson; and no teacher is linked twice to one lesson.
    pub open spec fn wf(self) -> bool {
        &&& forall|i: int, j: int|
            0 <= i < j < self.lessons.len() ==> (#[trigger] self.lessons[i]).id != (
            #[trigger] self.lessons[j]).id
        &&& forall|i: int|
            0 <= i < self.lessons.len() ==> (#[trigger] self.lessons[i]).id.0 < self.next_id
                && self.lessons[i].title.len() > 0
        &&& owned(self.singles, self.lesson_ids())
        &&& owned(self.daily, self.lesson_ids())
        &&& owned(self.weekly, self.lesson_ids())
        &&& owned(self.monthly, self.lesson_ids())
        &&& owned(self.teachers, self.lesson_ids())
        &&& owned(self.grants, self.lesson_ids())
        &&& rows_valid(self.singles)
        &&& rows_valid(self.daily)
        &&& rows_valid(self.weekly)
        &&& rows_valid(self.monthly)
        &&& forall|id: LessonID| one_grant_each(#[trigger] items_of(self.grants, id))
        &&& forall|id: LessonID| (#[trigger] items_of(self.teachers, id)).no_duplicates()
    }

    /// The rows after a lesson with the given title and description is added
    /// under the next new identifier.
    pub open spec fn with_base(self, title: Seq<char>, description: Option<Seq<char>>) -> Snapshot {
        Snapshot {
            next_id: self.next_id + 1,
            lessons: self.lessons.push(
                LessonBaseView { id: LessonID(self.next_id as u64), title, description },
            ),
            ..self
        }
    }

    /// The rows after a lesson with a given identifier, title and description
    /// is added; the next new identifier then lies above the given one.
    pub open spec fn with_restored(
        self,
        id: LessonID,
        title: Seq<char>,
        description: Option<Seq<char>>,
    ) -> Snapshot {
        Snapshot {
            next_id: if self.next_id > id.0 {
                self.next_id
            } else {
                (id.0 + 1) as nat
            },
            lessons: self.lessons.push(LessonBaseView { id, title, description }),
            ..self
        }
    }

    /// The rows after `account` is granted `kind` on `lesson`.
    pub open spec fn with_grant(
        self,
        lesson: LessonID,
        account: AccountID,
        kind: PermissionType,
    ) -> Snapshot {
        Snapshot {
            grants: self.grants.push(
                Row { lesson_id: lesson, item: Grant { account_id: account, permission_type: kind } },
            ),
            ..self
        }
    }

    /// The rows after `teacher` is linked to `lesson`.
    pub open spec fn with_teacher(self, lesson: LessonID, teacher: TeacherID) -> Snapshot {
        Snapshot { teachers: self.teachers.push(Row { lesson_id: lesson, item: teacher }), ..self }
    }

    /// The rows after the title, the description or both of lesson `id` are
    /// replaced; a part that is `None` stays as it is.
    pub open spec fn with_texts(
        self,
        id: LessonID,
        title: Option<Seq<char>>,
        description: Option<Option<Seq<char>>>,
    ) -> Snapshot {
        let at = self.index_of(id);
        let was = self.lessons[at];
        Snapshot {
            lessons: self.lessons.update(
                at,
                LessonBaseView {
                    id,
                    title: match title {
                        Some(t) => t,
                        None => was.title,
                    },
                    description: match description {
                        Some(d) => d,
                        None => was.description,
                    },
                },
            ),
            ..self
        }
    }

    /// The rows after lesson `id` is removed together with every row that
    /// belongs to it.
    pub open spec fn without_lesson(self, id: LessonID) -> Snapshot {
        Snapshot {
            next_id: self.next_id,
            lessons: if self.has_lesson(id) {
                self.lessons.remove(self.index_of(id))
            } else {
                self.lessons
            },
            singles: without(self.singles, id),
            daily: without(self.daily, id),
            weekly: without(self.weekly, id),
            monthly: without(self.monthly, id),
            teachers: without(self.teachers, id),
            grants: without(self.grants, id),
        }
    }
}

/// What the rows of the table of lessons hold.
pub open spec fn bases(lessons: Seq<LessonBase>) -> Seq<LessonBaseView> {
    lessons.map_values(|l: LessonBase| l@)
}

/// A private copy of all tables, to be changed and then committed.
pub struct Transaction {
    pub(crate) next_id: u64,
    pub(crate) lessons: Vec<LessonBase>,
    pub(crate) singles: Vec<Row<SingleOccurrence>>,
    pub(crate) daily: Vec<Row<DailyRepeat>>,
    pub(crate) weekly: Vec<Row<WeeklyRepeat>>,
    pub(crate) monthly: Vec<Row<MonthlyRepeat>>,
    pub(crate) teachers: Vec<Row<TeacherID>>,
    pub(crate) grants: Vec<Row<Grant>>,
}

/// A copy of an optional text.
pub(crate) fn copy_text(text: &Option<String>) -> (copy: Option<String>)
    ensures
        text_of(copy) == text_of(*text),
{
    match text {
        Some(s) => Some(s.clone()),
        None => None,
    }
}

impl Transaction {
    /// The rows that the transaction holds.
    pub open(crate) spec fn view(&self) -> Snapshot {
        Snapshot {
            next_id: self.next_id as nat,
            lessons: bases(self.lessons@),
            singles: self.singles@,
            daily: self.daily@,
            weekly: self.weekly@,
            monthly: self.monthly@,
            teachers: self.teachers@,
            grants: self.grants@,
        }
    }

    /// Where the lesson `id` stands in the table of lessons.
    pub(crate) fn position(&self, id: &LessonID) -> (at: Option<usize>)
        ensures
            match at {
                Some(i) => i < self@.lessons.len() && self@.lessons[i as int].id == *id,
                None => !self@.has_lesson(*id),
            },
    {
        let mut i: usize = 0;
        while i < self.lessons.len()
            invariant
                i <= self.lessons.len(),
                forall|k: int| 0 <= k < i ==> (#[trigger] self@.lessons[k]).id != *id,
            decreases self.lessons.len() - i,
        {
            if self.lessons[i].id.0 == id.0 {
                return Some(i);
            }
            i = i + 1;
        }
        None
    }

    /// Whether the transaction holds a lesson with the identifier `id`.
    pub fn has_lesson(&self, id: &LessonID) -> (found: bool)
        ensures
            found == self@.has_lesson(*id),
    {
        self.position(id).is_some()
    }

    /// Adds a lesson with the given title and description and no other rows,
    /// and returns the identifier that it got.
    ///
    /// An empty title is a validation error. Where no identifier is left, the
    /// store refuses the row. Either way nothing changes.
    pub fn insert_base(&mut self, title: &String, description: &Option<String>) -> (res: Result<
        LessonID,
        Error,
    >)
        requires
            old(self)@.wf(),
        ensures
            final(self)@.wf(),
            res == (if title@.len() == 0 {
                Err::<LessonID, Error>(Error::Validation)
            } else if old(self)@.next_id >= u64::MAX {
                Err::<LessonID, Error>(Error::Storage)
            } else {
                Ok::<LessonID, Error>(LessonID(old(self)@.next_id as u64))
            }),
            final(self)@ == (if res is Ok {
                old(self)@.with_base(title@, text_of(*description))
            } else {
                old(self)@
            }),
    {
        if title.as_str().is_empty() {
            return Err(Error::Validation);
        }
        if self.next_id == u64::MAX {
            return Err(Error::Storage);
        }
        let id = LessonID(self.next_id);
        self.lessons.push(
            LessonBase { id, title: title.clone(), description: copy_text(description) },
        );
        self.next_id = self.next_id + 1;
        proof {
            let before = old(self)@;
            let after = self@;
            assert(after.lessons =~= before.lessons.push(
                LessonBaseView { id, title: title@, description: text_of(*description) },
            ));
            assert forall|other: LessonID| before.lesson_ids().contains(other) implies #[trigger]
                after.lesson_ids().contains(other) by {
                let k = choose|k: int|
                    0 <= k < before.lessons.len() && (#[trigger] before.lessons[k]).id == other;
                assert(after.lessons[k].id == other);
            }
        }
        Ok(id)
    }

    /// Adds a lesson that was given its identifier before, with its title and
    /// description and no other rows. Identifiers that are given out later lie
    /// above `id`.
    ///
    /// An empty title is a validation error. The store refuses an identifier
    /// that a lesson has already, and the largest number, which it never gives
    /// out. Either way nothing changes.
    pub fn restore_base(&mut self, id: &LessonID, title: &String, description: &Option<String>) -> (res:
        Result<(), Error>)
        requires
            old(self)@.wf(),
        ensures
            final(self)@.wf(),
            res == (if title@.len() == 0 {
                Err::<(), Error>(Error::Validation)
            } else if id.0 == u64::MAX || old(self)@.has_lesson(*id) {
                Err::<(), Error>(Error::Storage)
            } else {
                Ok::<(), Error>(())
            }),
            final(self)@ == (if res is Ok {
                old(self)@.with_restored(*id, title@, text_of(*description))
            } else {
                old(self)@
            }),
    {
        if title.as_str().is_empty() {
            return Err(Error::Validation);
        }
        if id.0 == u64::MAX || self.has_lesson(id) {
            return Err(Error::Storage);
        }
        self.lessons.push(
            LessonBase { id: *id, title: title.clone(), description: copy_text(description) },
        );
        if self.next_id <= id.0 {
            self.next_id = id.0 + 1;
        }
        proof {
            let before = old(self)@;
            let after = self@;
            assert(after.lessons =~= before.lessons.push(
                LessonBaseView { id: *id, title: title@, description: text_of(*description) },
            ));
            assert forall|other: LessonID| before.lesson_ids().contains(other) implies #[trigger]
                after.lesson_ids().contains(other) by {
                let k = choose|k: int|
                    0 <= k < before.lessons.len() && (#[trigger] before.lessons[k]).id == other;
                assert(after.lessons[k].id == other);
            }
        }
        Ok(())
    }

    /// The identifier that the next new lesson gets.
    pub fn next_id(&self) -> (next: u64)
        ensures
            next == self@.next_id,
    {
        self.next_id
    }

    /// Sets identifiers aside: those that are given out from now on are
    /// `below` or above it.
    pub fn reserve_ids(&mut self, below: u64)
        requires
            old(self)@.wf(),
        ensures
            final(self)@.wf(),
            final(self)@ == (Snapshot {
                next_id: if old(self)@.next_id >= below {
                    old(self)@.next_id
                } else {
                    below as nat
                },
                ..old(self)@
            }),
    {
        if self.next_id < below {
            self.next_id = below;
        }
        proof {
            assert(self@.lesson_ids() =~= old(self)@.lesson_ids());
        }
    }

    /// Removes lesson `id` together with every row that belongs to it. Where
    /// there is no such lesson, nothing changes.
    pub fn delete_lesson(&mut self, id: &LessonID)
        requires
            old(self)@.wf(),
        ensures
            final(self)@.wf(),
            final(self)@ == old(self)@.without_lesson(*id),
            !final(self)@.has_lesson(*id),
    {
        remove(&mut self.singles, id);
        remove(&mut self.daily, id);
        remove(&mut self.weekly, id);
        remove(&mut self.monthly, id);
        remove(&mut self.teachers, id);
        remove(&mut self.grants, id);
        let at = self.position(id);
        if let Some(i) = at {
            self.lessons.remove(i);
        }
        proof {
            let before = old(self)@;
            let after = self@;
            before.lessons_without(*id);
            if let Some(i) = at {
                assert(before.lessons[i as int].id == *id);
                assert(i as int == before.index_of(*id));
                assert(after.lessons =~= before.lessons.remove(i as int));
            } else {
                assert(after.lessons =~= before.lessons);
            }
            assert(after == before.without_lesson(*id));
            before.without_lesson_wf(*id);
        }
    }

    /// Replaces the title, the description or both of lesson `id`; a part
    /// that is `None` stays as it is.
    ///
    /// Where there is no such lesson the result is "not found"; an empty
    /// title is a validation error. Either way nothing changes.
    pub fn update_base(
        &mut self,
        id: &LessonID,
        title: &Option<String>,
        description: &Option<Option<String>>,
    ) -> (res: Result<(), Error>)
        requires
            old(self)@.wf(),
        ensures
            final(self)@.wf(),
            res == (if !old(self)@.has_lesson(*id) {
                Err::<(), Error>(Error::NotFound)
            } else if title is Some && title->0@.len() == 0 {
                Err::<(), Error>(Error::Validation)
            } else {
                Ok::<(), Error>(())
            }),
            final(self)@ == (if res is Ok {
                old(self)@.with_texts(*id, text_of(*title), texts_of(*description))
            } else {
                old(self)@
            }),
    {
        let at = match self.position(id) {
            Some(i) => i,
            None => {
                return Err(Error::NotFound);
            },
        };
        let new_title = match title {
            Some(t) => {
                if t.as_str().is_empty() {
                    return Err(Error::Validation);
                }
                t.clone()
            },
            None => self.lessons[at].title.clone(),
        };
        let new_description = match description {
            Some(d) => copy_text(d),
            None => copy_text(&self.lessons[at].description),
        };
        proof {
            old(self)@.lessons_without(*id);
        }
        self.lessons.set(at, LessonBase { id: *id, title: new_title, description: new_description });
        proof {
            let before = old(self)@;
            let after = self@;
            assert(at as int == before.index_of(*id));
            assert(after.lessons =~= before.with_texts(
                *id,
                text_of(*title),
                texts_of(*description),
            ).lessons);
            before.same_ids_wf(after);
        }
        Ok(())
    }

    /// The title and the description of lesson `id`, if there is such a lesson.
    pub fn base_of(&self, id: &LessonID) -> (base: Option<(String, Option<String>)>)
        requires
            self@.wf(),
        ensures
            match base {
                Some((title, description)) => {
                    &&& self@.has_lesson(*id)
                    &&& title@ == self@.lessons[self@.index_of(*id)].title
                    &&& text_of(description) == self@.lessons[self@.index_of(*id)].description
                },
                None => !self@.has_lesson(*id),
            },
    {
        match self.position(id) {
            Some(i) => {
                proof {
                    self@.lessons_without(*id);
                }
                Some((self.lessons[i].title.clone(), copy_text(&self.lessons[i].description)))
            },
            None => None,
        }
    }

    /// Links `teacher` to lesson `id`.
    ///
    /// The store takes a link once, and only for a lesson that it holds:
    /// otherwise the link is refused and nothing changes.
    pub fn link_teacher(&mut self, id: &LessonID, teacher: &TeacherID) -> (res: Result<(), Error>)
        requires
            old(self)@.wf(),
        ensures
            final(self)@.wf(),
            res == (if old(self)@.has_lesson(*id) && !items_of(old(self)@.teachers, *id).contains(
                *teacher,
            ) {
                Ok::<(), Error>(())
            } else {
                Err::<(), Error>(Error::Storage)
            }),
            final(self)@ == (if res is Ok {
                old(self)@.with_teacher(*id, *teacher)
            } else {
                old(self)@
            }),
    {
        if !self.has_lesson(id) {
            return Err(Error::Storage);
        }
        let linked: Vec<TeacherID> = select(&self.teachers, id);
        let mut i: usize = 0;
        while i < linked.len()
            invariant
                i <= linked.len(),
                *self == *old(self),
                self@.wf(),
                linked@ == items_of(self@.teachers, *id),
                forall|k: int| 0 <= k < i ==> linked@[k] != *teacher,
            decreases linked.len() - i,
        {
            if linked[i].0 == teacher.0 {
                assert(linked@[i as int] == *teacher);
                return Err(Error::Storage);
            }
            i = i + 1;
        }
        self.teachers.push(Row { lesson_id: *id, item: *teacher });
        proof {
            let before = old(self)@;
            let after = self@;
            let row = Row { lesson_id: *id, item: *teacher };
            assert(before.teachers.push(row) =~= before.teachers + tagged(seq![*teacher], *id));
            owned_appended(before.teachers, seq![*teacher], *id, before.lesson_ids());
            assert forall|other: LessonID| (#[trigger] items_of(
                after.teachers,
                other,
            )).no_duplicates() by {
                items_of_push(before.teachers, row, other);
                assert(items_of(before.teachers, other).no_duplicates());
            }
        }
        Ok(())
    }

    /// A copy of the whole transaction.
    pub(crate) fn copy(&self) -> (copy: Transaction)
        ensures
            copy@ == self@,
    {
        let mut lessons: Vec<LessonBase> = Vec::new();
        let mut i: usize = 0;
        while i < self.lessons.len()
            invariant
                i <= self.lessons.len(),
                bases(lessons@) == bases(self.lessons@).take(i as int),
            decreases self.lessons.len() - i,
        {
            let base = &self.lessons[i];
            lessons.push(
                LessonBase {
                    id: base.id,
                    title: base.title.clone(),
                    description: copy_text(&base.description),
                },
            );
            assert(bases(lessons@) =~= bases(self.lessons@).take(i as int).push(
                bases(self.lessons@)[i as int],
            ));
            assert(bases(self.lessons@).take(i + 1) =~= bases(self.lessons@).take(i as int).push(
                bases(self.lessons@)[i as int],
            ));
            i = i + 1;
        }
        assert(bases(self.lessons@).take(i as int) =~= bases(self.lessons@));
        Transaction {
            next_id: self.next_id,
            lessons,
            singles: copy_of(&self.singles),
            daily: copy_of(&self.daily),
            weekly: copy_of(&self.weekly),
            monthly: copy_of(&self.monthly),
            teachers: copy_of(&self.teachers),
            grants: copy_of(&self.grants),
        }
    }
}

impl Snapshot {
    /// Rows that differ from well-formed ones only in the titles and
    /// descriptions of the lessons are well formed, if every title has a
    /// character.
    pub proof fn same_ids_wf(self, other: Snapshot)
        requires
            self.wf(),
            other.lessons.len() == self.lessons.len(),
            forall|k: int|
                0 <= k < self.lessons.len() ==> (#[trigger] other.lessons[k]).id
                    == self.lessons[k].id && other.lessons[k].title.len() > 0,
            other == (Snapshot { lessons: other.lessons, ..self }),
        ensures
            other.wf(),
            other.lesson_ids() == self.lesson_ids(),
    {
        assert forall|id: LessonID| other.lesson_ids().contains(id) == self.lesson_ids().contains(
            id,
        ) by {
            if has_id(self.lessons, id) {
                let k = choose|k: int|
                    0 <= k < self.lessons.len() && (#[trigger] self.lessons[k]).id == id;
                assert(other.lessons[k].id == id);
            }
            if has_id(other.lessons, id) {
                let k = choose|k: int|
                    0 <= k < other.lessons.len() && (#[trigger] other.lessons[k]).id == id;
                assert(self.lessons[k].id == id);
            }
        }
        assert(other.lesson_ids() =~= self.lesson_ids());
        assert forall|i: int, j: int| 0 <= i < j < other.lessons.len() implies (
        #[trigger] other.lessons[i]).id != (#[trigger] other.lessons[j]).id by {
            assert(self.lessons[i].id != self.lessons[j].id);
        }
        assert forall|i: int| 0 <= i < other.lessons.len() implies (#[trigger] other.lessons[i]).id.0
            < other.next_id && other.lessons[i].title.len() > 0 by {
            assert(self.lessons[i].id.0 < self.next_id);
        }
    }

    /// With unique identifiers, the lesson `id` stands at one place only, and
    /// the lessons that are left once it is removed are all the others.
    pub proof fn lessons_without(self, id: LessonID)
        requires
            self.wf(),
        ensures
            forall|k: int|
                0 <= k < self.lessons.len() && (#[trigger] self.lessons[k]).id == id ==> k
                    == self.index_of(id),
            self.without_lesson(id).lesson_ids() =~= self.lesson_ids().remove(id),
    {
        let gone = self.without_lesson(id);
        if self.has_lesson(id) {
            let at = self.index_of(id);
            assert forall|other: LessonID|
                gone.lesson_ids().contains(other) <==> self.lesson_ids().remove(id).contains(
                    other,
                ) by {
                if gone.lesson_ids().contains(other) {
                    let k = choose|k: int|
                        0 <= k < gone.lessons.len() && (#[trigger] gone.lessons[k]).id == other;
                    if k < at {
                        assert(self.lessons[k].id == other);
                    } else {
                        assert(self.lessons[k + 1].id == other);
                    }
                }
                if self.lesson_ids().remove(id).contains(other) {
                    let k = choose|k: int|
                        0 <= k < self.lessons.len() && (#[trigger] self.lessons[k]).id == other;
                    if k < at {
                        assert(gone.lessons[k].id == other);
                    } else {
                        assert(gone.lessons[k - 1].id == other);
                    }
                }
            }
        } else {
            assert(gone.lesson_ids() =~= self.lesson_ids().remove(id));
        }
    }

    /// Removing a lesson with its rows keeps the constraints.
    pub proof fn without_lesson_wf(self, id: LessonID)
        requires
            self.wf(),
        ensures
            self.without_lesson(id).wf(),
            !self.without_lesson(id).has_lesson(id),
    {
        let gone = self.without_lesson(id);
        self.lessons_without(id);
        owned_without(self.singles, id, self.lesson_ids());
        owned_without(self.daily, id, self.lesson_ids());
        owned_without(self.weekly, id, self.lesson_ids());
        owned_without(self.monthly, id, self.lesson_ids());
        owned_without(self.teachers, id, self.lesson_ids());
        owned_without(self.grants, id, self.lesson_ids());
        assert(!gone.lesson_ids().contains(id));
        assert forall|other: LessonID| all_valid(#[trigger] items_of(gone.singles, other)) by {
            items_of_without(self.singles, id, other);
            assert(all_valid(items_of(self.singles, other)));
        }
        assert forall|other: LessonID| all_valid(#[trigger] items_of(gone.daily, other)) by {
            items_of_without(self.daily, id, other);
            assert(all_valid(items_of(self.daily, other)));
        }
        assert forall|other: LessonID| all_valid(#[trigger] items_of(gone.weekly, other)) by {
            items_of_without(self.weekly, id, other);
            assert(all_valid(items_of(self.weekly, other)));
        }
        assert forall|other: LessonID| all_valid(#[trigger] items_of(gone.monthly, other)) by {
            items_of_without(self.monthly, id, other);
            assert(all_valid(items_of(self.monthly, other)));
        }
        assert forall|other: LessonID| one_grant_each(#[trigger] items_of(gone.grants, other)) by {
            items_of_without(self.grants, id, other);
            assert(one_grant_each(items_of(self.grants, other)));
        }
        assert forall|other: LessonID| (#[trigger] items_of(gone.teachers, other)).no_duplicates() by {
            items_of_without(self.teachers, id, other);
            assert(items_of(self.teachers, other).no_duplicates());
        }
        if self.has_lesson(id) {
            let at = self.index_of(id);
            assert forall|i: int, j: int| 0 <= i < j < gone.lessons.len() implies (
            #[trigger] gone.lessons[i]).id != (#[trigger] gone.lessons[j]).id by {
                let si = if i < at { i } else { i + 1 };
                let sj = if j < at { j } else { j + 1 };
                assert(gone.lessons[i] == self.lessons[si]);
                assert(gone.lessons[j] == self.lessons[sj]);
            }
            assert forall|i: int| 0 <= i < gone.lessons.len() implies (
            #[trigger] gone.lessons[i]).id.0 < gone.next_id && gone.lessons[i].title.len() > 0 by {
                let si = if i < at { i } else { i + 1 };
                assert(gone.lessons[i] == self.lessons[si]);
            }
        }
    }
}

/// The store: the rows that were committed last.
pub struct Store {
    pub(crate) committed: Transaction,
}

impl Store {
    /// The rows that the store holds.
    pub open(crate) spec fn view(&self) -> Snapshot {
        self.committed@
    }

    /// A store without rows.
    pub fn new() -> (store: Store)
        ensures
            store@ == Snapshot::empty(),
            store@.wf(),
    {
        let store = Store {
            committed: Transaction {
                next_id: 0,
                lessons: Vec::new(),
                singles: Vec::new(),
                daily: Vec::new(),
                weekly: Vec::new(),
                monthly: Vec::new(),
                teachers: Vec::new(),
                grants: Vec::new(),
            },
        };
        proof {
            assert(store@.lessons =~= Seq::empty());
        }
        store
    }

    /// The committed rows, to be read together: while they are borrowed the
    /// store cannot change.
    pub fn snapshot(&self) -> (rows: &Transaction)
        ensures
            rows@ == self@,
    {
        &self.committed
    }

    /// A transaction that starts from the committed rows.
    pub fn begin(&self) -> (transaction: Transaction)
        ensures
            transaction@ == self@,
    {
        self.committed.copy()
    }

    /// Makes the rows of `transaction` the committed rows.
    pub fn commit(&mut self, transaction: Transaction)
        ensures
            final(self)@ == transaction@,
    {
        self.committed = transaction;
    }
}

} // verus!
