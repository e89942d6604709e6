//! What holds of the store across its operations.
//!
//! Each operation of a lesson says in its own contract which rows the store
//! holds afterwards. The statements here follow a lesson through several
//! operations: what is read after a creation, an update or a deletion, and
//! which lessons a date and an account resolve to.

use crate::account::AccountID;
use crate::calendar::Date;
use crate::lesson::{replaced, valid_if_given, LessonID, LessonView};
use crate::permission::{allows_read, level_for, one_grant_each, Grant, PermissionType};
use crate::repeat::{
    table_appended, table_cleared, DailyRepeat, MonthlyRepeat, Rule, SingleOccurrence,
    WeeklyRepeat,
};
use crate::table::{
    items_of, items_of_concat, items_of_tagged, items_of_unmentioned,
    items_of_without, mentions, owned, owned_appended, tagged, without, without_unmentioned, Row,
};
use crate::transaction::{rows_valid, LessonBaseView, Snapshot};
use vstd::prelude::*;

verus! {

/// A table that belongs to some lessons belongs to any larger set of lessons.
proof fn owned_by_more<R>(table: Seq<Row<R>>, fewer: Set<LessonID>, more: Set<LessonID>)
    requires
        owned(table, fewer),
        fewer.subset_of(more),
    ensures
        owned(table, more),
{
    assert forall|id: LessonID| #[trigger] mentions(table, id) implies more.contains(
        id,
    ) by {
        assert(fewer.contains(id));
    }
}

/// What a lesson lists after rows are added for lesson `owner` to a table
/// that held none for it.
proof fn items_after_append<R>(table: Seq<Row<R>>, items: Seq<R>, owner: LessonID, id: LessonID)
    ensures
        items_of(table + tagged(items, owner), id) == (if id == owner {
            items_of(table, id) + items
        } else {
            items_of(table, id)
        }),
{
    items_of_concat(table, tagged(items, owner), id);
    items_of_tagged(items, owner, id);
    if id != owner {
        assert(items_of(table, id) + Seq::<R>::empty() =~= items_of(table, id));
    }
}

/// What a lesson lists after the rows of lesson `owner` are replaced.
proof fn items_after_replace<R>(
    table: Seq<Row<R>>,
    items: Option<Seq<R>>,
    owner: LessonID,
    id: LessonID,
)
    ensures
        items_of(replaced(table, items, owner), id) == (if id == owner && items is Some {
            items->0
        } else {
            items_of(table, id)
        }),
{
    if let Some(new) = items {
        items_after_append(without(table, owner), new, owner, id);
        items_of_without(table, owner, id);
        if id == owner {
            assert(Seq::<R>::empty() + new =~= new);
        }
    }
}

/// Replacing the rows of a lesson of the store by well-formed ones keeps a
/// table as the store wants it.
proof fn table_replaced<R: Rule>(
    table: Seq<Row<R>>,
    items: Option<Seq<R>>,
    id: LessonID,
    lessons: Set<LessonID>,
)
    requires
        owned(table, lessons),
        rows_valid(table),
        valid_if_given(items),
        lessons.contains(id),
    ensures
        owned(replaced(table, items, id), lessons),
        rows_valid(replaced(table, items, id)),
{
    if let Some(new) = items {
        table_cleared(table, id, lessons);
        table_appended(without(table, id), new, id, lessons);
    }
}

/// A lesson that was created is read back as it was created, without
/// teachers, and its owner holds the one grant on it, for reading and writing.
pub proof fn read_after_create(
    rows: Snapshot,
    title: Seq<char>,
    description: Option<Seq<char>>,
    singles: Seq<SingleOccurrence>,
    daily: Seq<DailyRepeat>,
    weekly: Seq<WeeklyRepeat>,
    monthly: Seq<MonthlyRepeat>,
    owner: AccountID,
)
    requires
        rows.wf(),
        rows.create_result(title, singles, daily, weekly, monthly) is Ok,
    ensures
        ({
            let after = rows.created(title, description, singles, daily, weekly, monthly, owner);
            let id = LessonID(rows.next_id as u64);
            &&& after.wf()
            &&& after.read(id) == Some(
                LessonView {
                    id,
                    title,
                    description,
                    singles,
                    weekly,
                    daily,
                    monthly,
                    teachers: Seq::empty(),
                },
            )
            &&& items_of(after.grants, id) == seq![
                Grant { account_id: owner, permission_type: PermissionType::ReadWrite },
            ]
            &&& forall|other: LessonID| other != id ==> after.read(other) == rows.read(other)
        }),
{
    let after = rows.created(title, description, singles, daily, weekly, monthly, owner);
    let id = LessonID(rows.next_id as u64);
    let base = LessonBaseView { id, title, description };
    let grant = Grant { account_id: owner, permission_type: PermissionType::ReadWrite };
    let at = rows.lessons.len() as int;
    rows.new_id_unused(id);
    assert(after.lessons[at] == base);
    assert(after.has_lesson(id));
    assert forall|other: LessonID| rows.lesson_ids().contains(other) implies #[trigger]
        after.lesson_ids().contains(other) by {
        let k = choose|k: int| 0 <= k < rows.lessons.len() && (#[trigger] rows.lessons[k]).id == other;
        assert(after.lessons[k].id == other);
    }
    let ids = after.lesson_ids();
    owned_by_more(rows.singles, rows.lesson_ids(), ids);
    owned_by_more(rows.daily, rows.lesson_ids(), ids);
    owned_by_more(rows.weekly, rows.lesson_ids(), ids);
    owned_by_more(rows.monthly, rows.lesson_ids(), ids);
    owned_by_more(rows.teachers, rows.lesson_ids(), ids);
    owned_by_more(rows.grants, rows.lesson_ids(), ids);
    table_appended(rows.singles, singles, id, ids);
    table_appended(rows.daily, daily, id, ids);
    table_appended(rows.weekly, weekly, id, ids);
    table_appended(rows.monthly, monthly, id, ids);
    assert(after.grants =~= rows.grants + tagged(seq![grant], id));
    owned_appended(rows.grants, seq![grant], id, ids);
    items_of_unmentioned(rows.grants, id);
    assert forall|other: LessonID| one_grant_each(#[trigger] items_of(after.grants, other)) by {
        items_after_append(rows.grants, seq![grant], id, other);
        assert(one_grant_each(items_of(rows.grants, other)));
    }
    assert(after.wf());
    after.lessons_without(id);
    assert(after.index_of(id) == at);
    items_of_unmentioned(rows.singles, id);
    items_of_unmentioned(rows.daily, id);
    items_of_unmentioned(rows.weekly, id);
    items_of_unmentioned(rows.monthly, id);
    items_of_unmentioned(rows.teachers, id);
    items_after_append(rows.singles, singles, id, id);
    items_after_append(rows.daily, daily, id, id);
    items_after_append(rows.weekly, weekly, id, id);
    items_after_append(rows.monthly, monthly, id, id);
    items_after_append(rows.grants, seq![grant], id, id);
    assert(items_of(rows.singles, id) + singles =~= singles);
    assert(items_of(rows.daily, id) + daily =~= daily);
    assert(items_of(rows.weekly, id) + weekly =~= weekly);
    assert(items_of(rows.monthly, id) + monthly =~= monthly);
    assert(items_of(rows.grants, id) + seq![grant] =~= seq![grant]);
    assert(items_of(rows.teachers, id) =~= Seq::empty());
    assert forall|other: LessonID| other != id implies after.read(other) == rows.read(other) by {
        items_after_append(rows.singles, singles, id, other);
        items_after_append(rows.daily, daily, id, other);
        items_after_append(rows.weekly, weekly, id, other);
        items_after_append(rows.monthly, monthly, id, other);
        if rows.has_lesson(other) {
            let k = rows.index_of(other);
            assert(after.lessons[k] == rows.lessons[k]);
            after.lessons_without(other);
            assert(after.index_of(other) == k);
        } else if after.has_lesson(other) {
            let k = after.index_of(other);
            if k < at {
                assert(rows.lessons[k].id == other);
            }
        }
    }
}

/// After an update, the lesson is read with each part that was given in
/// place of what was there, and with each part that was not given as it was.
/// Its teachers stay, and every other lesson is read as before.
pub proof fn read_after_update(
    rows: Snapshot,
    id: LessonID,
    title: Option<Seq<char>>,
    description: Option<Option<Seq<char>>>,
    singles: Option<Seq<SingleOccurrence>>,
    daily: Option<Seq<DailyRepeat>>,
    weekly: Option<Seq<WeeklyRepeat>>,
    monthly: Option<Seq<MonthlyRepeat>>,
)
    requires
        rows.wf(),
        rows.update_result(id, title, singles, daily, weekly, monthly) is Ok,
    ensures
        ({
            let after = rows.updated(id, title, description, singles, daily, weekly, monthly);
            let was = rows.read(id)->0;
            &&& after.wf()
            &&& rows.read(id) is Some
            &&& after.read(id) == Some(
                LessonView {
                    id,
                    title: if title is Some {
                        title->0
                    } else {
                        was.title
                    },
                    description: if description is Some {
                        description->0
                    } else {
                        was.description
                    },
                    singles: if singles is Some {
                        singles->0
                    } else {
                        was.singles
                    },
                    weekly: if weekly is Some {
                        weekly->0
                    } else {
                        was.weekly
                    },
                    daily: if daily is Some {
                        daily->0
                    } else {
                        was.daily
                    },
                    monthly: if monthly is Some {
                        monthly->0
                    } else {
                        was.monthly
                    },
                    teachers: was.teachers,
                },
            )
            &&& forall|other: LessonID| other != id ==> after.read(other) == rows.read(other)
        }),
{
    let after = rows.updated(id, title, description, singles, daily, weekly, monthly);
    let texts = rows.with_texts(id, title, description);
    let at = rows.index_of(id);
    rows.lessons_without(id);
    assert(texts.lessons[at].id == id);
    rows.same_ids_wf(texts);
    let ids = rows.lesson_ids();
    assert(ids.contains(id));
    table_replaced(rows.singles, singles, id, ids);
    table_replaced(rows.daily, daily, id, ids);
    table_replaced(rows.weekly, weekly, id, ids);
    table_replaced(rows.monthly, monthly, id, ids);
    assert(after.lesson_ids() =~= ids);
    assert(after.wf());
    assert forall|other: LessonID| after.has_lesson(other) implies after.index_of(other)
        == rows.index_of(other) by {
        after.lessons_without(other);
        rows.lessons_without(other);
        let k = after.index_of(other);
        assert(rows.lessons[k].id == other);
    }
    items_after_replace(rows.singles, singles, id, id);
    items_after_replace(rows.daily, daily, id, id);
    items_after_replace(rows.weekly, weekly, id, id);
    items_after_replace(rows.monthly, monthly, id, id);
    assert(after.has_lesson(id));
    assert(after.index_of(id) == at);
    assert forall|other: LessonID| other != id implies after.read(other) == rows.read(other) by {
        items_after_replace(rows.singles, singles, id, other);
        items_after_replace(rows.daily, daily, id, other);
        items_after_replace(rows.weekly, weekly, id, other);
        items_after_replace(rows.monthly, monthly, id, other);
        assert(after.lesson_ids().contains(other) == rows.lesson_ids().contains(other));
        if rows.has_lesson(other) {
            let k = rows.index_of(other);
            assert(rows.lessons[k].id == other);
            assert(after.lessons[k] == rows.lessons[k]);
            assert(after.has_lesson(other));
            assert(after.index_of(other) == k);
        }
    }
}

/// An update that gives an empty list of single occurrences, and no other
/// list, leaves the lesson without single occurrences and with the rules of
/// every other kind that it had.
pub proof fn update_with_empty_list_clears(
    rows: Snapshot,
    id: LessonID,
    title: Option<Seq<char>>,
    description: Option<Option<Seq<char>>>,
)
    requires
        rows.wf(),
        rows.has_lesson(id),
        title is Some ==> title->0.len() > 0,
    ensures
        ({
            let after = rows.updated(
                id,
                title,
                description,
                Some(Seq::<SingleOccurrence>::empty()),
                None,
                None,
                None,
            );
            &&& after.read(id) is Some
            &&& after.read(id)->0.singles.len() == 0
            &&& after.read(id)->0.daily == rows.read(id)->0.daily
            &&& after.read(id)->0.weekly == rows.read(id)->0.weekly
            &&& after.read(id)->0.monthly == rows.read(id)->0.monthly
        }),
{
    read_after_update(
        rows,
        id,
        title,
        description,
        Some(Seq::<SingleOccurrence>::empty()),
        None,
        None,
        None,
    );
}

/// Every lesson that a date and an account resolve to is a lesson of the
/// store, as it would be read, that occurs on the date and that the account
/// may read.
pub proof fn resolved_are_visible(rows: Snapshot, date: Date, account: AccountID)
    requires
        rows.wf(),
    ensures
        forall|k: int|
            0 <= k < rows.resolved(date, account).len() ==> {
                let lesson = #[trigger] rows.resolved(date, account)[k];
                &&& rows.read(lesson.id) == Some(lesson)
                &&& rows.occurs(lesson.id, date)
                &&& allows_read(level_for(rows.grants, account, lesson.id))
            },
{
    resolved_among_are_visible(rows, rows.lessons.len() as int, date, account);
}

proof fn resolved_among_are_visible(rows: Snapshot, n: int, date: Date, account: AccountID)
    requires
        rows.wf(),
        0 <= n <= rows.lessons.len(),
    ensures
        forall|k: int|
            0 <= k < rows.resolved_among(n, date, account).len() ==> {
                let lesson = #[trigger] rows.resolved_among(n, date, account)[k];
                &&& rows.read(lesson.id) == Some(lesson)
                &&& rows.occurs(lesson.id, date)
                &&& allows_read(level_for(rows.grants, account, lesson.id))
            },
    decreases n,
{
    if n > 0 {
        resolved_among_are_visible(rows, n - 1, date, account);
        let base = rows.lessons[n - 1];
        rows.lessons_without(base.id);
        assert(rows.index_of(base.id) == n - 1);
    }
}

/// Every lesson of the store that occurs on a date, and that an account may
/// read, is among the lessons that the date and the account resolve to.
pub proof fn visible_are_resolved(rows: Snapshot, date: Date, account: AccountID, id: LessonID)
    requires
        rows.wf(),
        rows.has_lesson(id),
        rows.occurs(id, date),
        allows_read(level_for(rows.grants, account, id)),
    ensures
        rows.resolved(date, account).contains(rows.read(id)->0),
{
    rows.lessons_without(id);
    visible_are_resolved_among(rows, rows.lessons.len() as int, date, account, rows.index_of(id));
}

proof fn visible_are_resolved_among(
    rows: Snapshot,
    n: int,
    date: Date,
    account: AccountID,
    at: int,
)
    requires
        0 <= at < n <= rows.lessons.len(),
        rows.occurs(rows.lessons[at].id, date),
        rows.visible(account, rows.lessons[at].id),
    ensures
        rows.resolved_among(n, date, account).contains(rows.hydrated(rows.lessons[at])),
    decreases n,
{
    let now = rows.resolved_among(n, date, account);
    if at == n - 1 {
        assert(now[now.len() - 1] == rows.hydrated(rows.lessons[at]));
    } else {
        visible_are_resolved_among(rows, n - 1, date, account, at);
        let before = rows.resolved_among(n - 1, date, account);
        let k = choose|k: int| 0 <= k < before.len() && before[k] == rows.hydrated(rows.lessons[at]);
        assert(now[k] == before[k]);
    }
}

/// A lesson that the store does not hold is not read, and no date and no
/// account resolve to it.
pub proof fn absent_is_not_resolved(rows: Snapshot, id: LessonID, date: Date, account: AccountID)
    requires
        !rows.has_lesson(id),
    ensures
        rows.read(id) is None,
        forall|k: int|
            0 <= k < rows.resolved(date, account).len() ==> (#[trigger] rows.resolved(
                date,
                account,
            )[k]).id != id,
{
    absent_is_not_resolved_among(rows, rows.lessons.len() as int, id, date, account);
}

proof fn absent_is_not_resolved_among(
    rows: Snapshot,
    n: int,
    id: LessonID,
    date: Date,
    account: AccountID,
)
    requires
        !rows.has_lesson(id),
        0 <= n <= rows.lessons.len(),
    ensures
        forall|k: int|
            0 <= k < rows.resolved_among(n, date, account).len() ==> (
            #[trigger] rows.resolved_among(n, date, account)[k]).id != id,
    decreases n,
{
    if n > 0 {
        absent_is_not_resolved_among(rows, n - 1, id, date, account);
        assert(rows.lessons[n - 1].id != id);
    }
}

/// After a lesson is deleted it is not read any more, and no date and no
/// account resolve to it.
pub proof fn read_after_delete(rows: Snapshot, id: LessonID, date: Date, account: AccountID)
    requires
        rows.wf(),
    ensures
        ({
            let after = rows.without_lesson(id);
            &&& after.wf()
            &&& after.read(id) is None
            &&& forall|k: int|
                0 <= k < after.resolved(date, account).len() ==> (#[trigger] after.resolved(
                    date,
                    account,
                )[k]).id != id
        }),
{
    rows.without_lesson_wf(id);
    absent_is_not_resolved(rows.without_lesson(id), id, date, account);
}

/// Deleting a lesson that the store does not hold changes nothing.
pub proof fn delete_of_absent(rows: Snapshot, id: LessonID)
    requires
        rows.wf(),
        !rows.has_lesson(id),
    ensures
        rows.without_lesson(id) == rows,
{
    assert(!rows.lesson_ids().contains(id));
    without_unmentioned(rows.singles, id);
    without_unmentioned(rows.daily, id);
    without_unmentioned(rows.weekly, id);
    without_unmentioned(rows.monthly, id);
    without_unmentioned(rows.teachers, id);
    without_unmentioned(rows.grants, id);
}

/// No lesson is resolved twice.
pub proof fn resolved_once(rows: Snapshot, date: Date, account: AccountID)
    requires
        rows.wf(),
    ensures
        forall|j: int, k: int|
            0 <= j < k < rows.resolved(date, account).len() ==> (#[trigger] rows.resolved(
                date,
                account,
            )[j]).id != (#[trigger] rows.resolved(date, account)[k]).id,
{
    resolved_among_once(rows, rows.lessons.len() as int, date, account);
}

proof fn resolved_among_once(rows: Snapshot, n: int, date: Date, account: AccountID)
    requires
        rows.wf(),
        0 <= n <= rows.lessons.len(),
    ensures
        forall|k: int|
            0 <= k < rows.resolved_among(n, date, account).len() ==> exists|i: int|
                0 <= i < n && (#[trigger] rows.lessons[i]).id == (#[trigger] rows.resolved_among(
                    n,
                    date,
                    account,
                )[k]).id,
        forall|j: int, k: int|
            0 <= j < k < rows.resolved_among(n, date, account).len() ==> (
            #[trigger] rows.resolved_among(n, date, account)[j]).id != (
            #[trigger] rows.resolved_among(n, date, account)[k]).id,
    decreases n,
{
    if n > 0 {
        resolved_among_once(rows, n - 1, date, account);
        let before = rows.resolved_among(n - 1, date, account);
        let now = rows.resolved_among(n, date, account);
        let base = rows.lessons[n - 1];
        assert forall|k: int| 0 <= k < now.len() implies exists|i: int|
            0 <= i < n && (#[trigger] rows.lessons[i]).id == (#[trigger] now[k]).id by {
            if k < before.len() {
                assert(now[k] == before[k]);
                let i = choose|i: int|
                    0 <= i < n - 1 && (#[trigger] rows.lessons[i]).id == before[k].id;
                assert(rows.lessons[i].id == now[k].id);
            } else {
                assert(rows.lessons[n - 1].id == now[k].id);
            }
        }
        assert forall|j: int, k: int| 0 <= j < k < now.len() implies (#[trigger] now[j]).id != (
        #[trigger] now[k]).id by {
            assert(now[j] == before[j]);
            if k < before.len() {
                assert(now[k] == before[k]);
            } else {
                let i = choose|i: int|
                    0 <= i < n - 1 && (#[trigger] rows.lessons[i]).id == before[j].id;
                assert(rows.lessons[i].id != rows.lessons[n - 1].id);
            }
        }
    }
}

/// An identifier that the store has given out and does not hold any more
/// never comes back: no creation, update or deletion makes a lesson of it.
pub proof fn deleted_stays_deleted(
    rows: Snapshot,
    gone: LessonID,
    id: LessonID,
    title: Seq<char>,
    description: Option<Seq<char>>,
    singles: Seq<SingleOccurrence>,
    daily: Seq<DailyRepeat>,
    weekly: Seq<WeeklyRepeat>,
    monthly: Seq<MonthlyRepeat>,
    owner: AccountID,
    new_title: Option<Seq<char>>,
    new_description: Option<Option<Seq<char>>>,
    new_singles: Option<Seq<SingleOccurrence>>,
    new_daily: Option<Seq<DailyRepeat>>,
    new_weekly: Option<Seq<WeeklyRepeat>>,
    new_monthly: Option<Seq<MonthlyRepeat>>,
)
    requires
        rows.wf(),
        !rows.has_lesson(gone),
        gone.0 < rows.next_id,
    ensures
        ({
            let after = rows.created(title, description, singles, daily, weekly, monthly, owner);
            rows.next_id < u64::MAX ==> !after.has_lesson(gone) && gone.0 < after.next_id
        }),
        ({
            let after = rows.updated(
                id,
                new_title,
                new_description,
                new_singles,
                new_daily,
                new_weekly,
                new_monthly,
            );
            rows.has_lesson(id) ==> !after.has_lesson(gone) && gone.0 < after.next_id
        }),
        ({
            let after = rows.without_lesson(id);
            !after.has_lesson(gone) && gone.0 < after.next_id
        }),
{
    let after = rows.created(title, description, singles, daily, weekly, monthly, owner);
    if rows.next_id < u64::MAX && after.has_lesson(gone) {
        let k = choose|k: int| 0 <= k < after.lessons.len() && (#[trigger] after.lessons[k]).id == gone;
        if k < rows.lessons.len() {
            assert(rows.lessons[k].id == gone);
        }
    }
    let changed = rows.updated(
        id,
        new_title,
        new_description,
        new_singles,
        new_daily,
        new_weekly,
        new_monthly,
    );
    if rows.has_lesson(id) && changed.has_lesson(gone) {
        let k = choose|k: int|
            0 <= k < changed.lessons.len() && (#[trigger] changed.lessons[k]).id == gone;
        rows.lessons_without(id);
        assert(rows.lessons[rows.index_of(id)].id == id);
        assert(rows.lessons[k].id == gone);
    }
    rows.lessons_without(id);
    assert(rows.without_lesson(id).lesson_ids().contains(gone) == rows.without_lesson(
        id,
    ).has_lesson(gone));
}

} // verus!
