//! The rules by which a lesson occurs: once, daily, weekly or monthly.
//!
//! Each kind of rule has a table of its own. All four offer the same
//! operations: to say whether the rule occurs on a date, and to list, add,
//! drop and replace the rules of a lesson inside a transaction.

use crate::calendar::{day_number_orders, days_in_month, Date, DateTime, Time};
use crate::error::Error;
use crate::lesson::LessonID;
use crate::table::{
    append, items_of, items_of_concat, items_of_tagged, items_of_without, owned, owned_appended,
    owned_without, remove, select, tagged, without, Row,
};
use crate::transaction::{rows_valid, Snapshot, Transaction};
use vstd::prelude::*;

verus! {

/// A day of the week.
#[derive(Clone, Copy, Debug, PartialEq, Eq)]
pub enum WeekDay {
    Monday,
    Tuesday,
    Wednesday,
    Thursday,
    Friday,
    Saturday,
    Sunday,
}

impl WeekDay {
    /// The number of the day: 1 for Monday up to 7 for Sunday.
    pub open spec fn number(self) -> int {
        match self {
            WeekDay::Monday => 1,
            WeekDay::Tuesday => 2,
            WeekDay::Wednesday => 3,
            WeekDay::Thursday => 4,
            WeekDay::Friday => 5,
            WeekDay::Saturday => 6,
            WeekDay::Sunday => 7,
        }
    }

    /// The number of the day: 1 for Monday up to 7 for Sunday.
    pub fn to_number(&self) -> (n: i16)
        ensures
            n == self.number(),
    {
        match self {
            WeekDay::Monday => 1,
            WeekDay::Tuesday => 2,
            WeekDay::Wednesday => 3,
            WeekDay::Thursday => 4,
            WeekDay::Friday => 5,
            WeekDay::Saturday => 6,
            WeekDay::Sunday => 7,
        }
    }

    /// The day with the number `n`, if `n` is one of 1 to 7.
    pub fn from_number(n: i16) -> (day: Option<WeekDay>)
        ensures
            1 <= n <= 7 ==> day is Some && day->0.number() == n,
            !(1 <= n <= 7) ==> day is None,
    {
        if n == 1 {
            Some(WeekDay::Monday)
        } else if n == 2 {
            Some(WeekDay::Tuesday)
        } else if n == 3 {
            Some(WeekDay::Wednesday)
        } else if n == 4 {
            Some(WeekDay::Thursday)
        } else if n == 5 {
            Some(WeekDay::Friday)
        } else if n == 6 {
            Some(WeekDay::Saturday)
        } else if n == 7 {
            Some(WeekDay::Sunday)
        } else {
            None
        }
    }

    /// The day of the week on which `date` falls.
    pub fn of(date: &Date) -> (day: WeekDay)
        ensures
            day.number() == date.weekday_number(),
    {
        let n: u8 = date.to_weekday_number();
        if n == 1 {
            WeekDay::Monday
        } else if n == 2 {
            WeekDay::Tuesday
        } else if n == 3 {
            WeekDay::Wednesday
        } else if n == 4 {
            WeekDay::Thursday
        } else if n == 5 {
            WeekDay::Friday
        } else if n == 6 {
            WeekDay::Saturday
        } else {
            WeekDay::Sunday
        }
    }
}

/// Whether `date` lies in the range that starts with `start` and ends with
/// `end`, both included; without an end the range goes on for ever.
pub open spec fn within(start: Date, end: Option<Date>, date: Date) -> bool {
    &&& start.on_or_before(date)
    &&& match end {
        Some(last) => date.on_or_before(last),
        None => true,
    }
}

/// Whether a range is made of dates that the calendar has.
pub open spec fn range_wf(start: Date, end: Option<Date>) -> bool {
    &&& start.wf()
    &&& match end {
        Some(last) => last.wf(),
        None => true,
    }
}

/// Whether `date` lies in the range from `start` to `end`.
pub fn is_within(start: &Date, end: &Option<Date>, date: &Date) -> (inside: bool)
    ensures
        inside == within(*start, *end, *date),
{
    if !start.is_on_or_before(date) {
        return false;
    }
    match end {
        Some(last) => date.is_on_or_before(last),
        None => true,
    }
}

/// Whether a range is made of dates that the calendar has.
pub fn is_range_valid(start: &Date, end: &Option<Date>) -> (ok: bool)
    ensures
        ok == range_wf(*start, *end),
{
    if !start.is_valid() {
        return false;
    }
    match end {
        Some(last) => last.is_valid(),
        None => true,
    }
}

/// Whether every one of `items` is well formed.
pub open spec fn all_valid<R: Rule>(items: Seq<R>) -> bool {
    forall|i: int| 0 <= i < items.len() ==> (#[trigger] items[i]).valid()
}

/// Whether one of `items` occurs on `date`.
pub open spec fn any_on<R: Rule>(items: Seq<R>, date: Date) -> bool {
    exists|i: int| 0 <= i < items.len() && (#[trigger] items[i]).occurs_on(date)
}

/// How an insertion of `items` for lesson `id` ends: nothing to insert is no
/// error; a malformed item is a validation error; and the store refuses rows
/// for a lesson that it does not hold.
pub open spec fn insert_result<R: Rule>(rows: Snapshot, items: Seq<R>, id: LessonID) -> Result<
    (),
    Error,
> {
    if items.len() == 0 {
        Ok(())
    } else if !all_valid(items) {
        Err(Error::Validation)
    } else if !rows.has_lesson(id) {
        Err(Error::Storage)
    } else {
        Ok(())
    }
}

/// A rule by which a lesson occurs: what can be asked of the rule alone.
pub trait Rule: Copy + Sized {
    /// Whether the parameters of the rule are well formed.
    spec fn valid(self) -> bool;

    /// Whether the rule makes its lesson occur on `date`.
    spec fn occurs_on(self, date: Date) -> bool;

    /// Whether the parameters of the rule are well formed.
    fn is_valid(&self) -> (ok: bool)
        ensures
            ok == self.valid(),
    ;

    /// Whether the rule makes its lesson occur on `date`.
    fn matches_date(&self, date: &Date) -> (hit: bool)
        ensures
            hit == self.occurs_on(*date),
    ;
}

/// A kind of rule with its table: what the store offers for every kind.
pub trait Repeat: Rule {
    /// The table of this kind among `rows`.
    spec fn table(rows: Snapshot) -> Seq<Row<Self>>;

    /// `rows` with the table of this kind replaced by `table`.
    spec fn with_table(rows: Snapshot, table: Seq<Row<Self>>) -> Snapshot;

    /// The rules of this kind that lesson `lesson_id` has, in the order in
    /// which they were added.
    fn of_lesson_in_transaction(transaction: &Transaction, lesson_id: &LessonID) -> (items: Vec<
        Self,
    >)
        ensures
            items@ == items_of(Self::table(transaction@), *lesson_id),
    ;

    /// Adds `repeats` to the rules of lesson `lesson_id`. On an error nothing
    /// changes.
    fn insert_in_transaction(
        transaction: &mut Transaction,
        repeats: &Vec<Self>,
        lesson_id: &LessonID,
    ) -> (res: Result<(), Error>)
        requires
            old(transaction)@.wf(),
        ensures
            final(transaction)@.wf(),
            res == insert_result(old(transaction)@, repeats@, *lesson_id),
            final(transaction)@ == (if res is Ok {
                Self::with_table(
                    old(transaction)@,
                    Self::table(old(transaction)@) + tagged(repeats@, *lesson_id),
                )
            } else {
                old(transaction)@
            }),
    ;

    /// Drops the rules of this kind that lesson `lesson_id` has.
    fn delete_in_transaction(transaction: &mut Transaction, lesson_id: &LessonID)
        requires
            old(transaction)@.wf(),
        ensures
            final(transaction)@.wf(),
            final(transaction)@ == Self::with_table(
                old(transaction)@,
                without(Self::table(old(transaction)@), *lesson_id),
            ),
    ;

    /// Replaces the rules of this kind that lesson `lesson_id` has by
    /// `repeats`: the old ones are dropped, then the new ones are added. On an
    /// error the old ones are gone and no new one is there.
    fn update_in_transaction(
        transaction: &mut Transaction,
        repeats: &Vec<Self>,
        lesson_id: &LessonID,
    ) -> (res: Result<(), Error>)
        requires
            old(transaction)@.wf(),
        ensures
            final(transaction)@.wf(),
            ({
                let dropped = Self::with_table(
                    old(transaction)@,
                    without(Self::table(old(transaction)@), *lesson_id),
                );
                &&& res == insert_result(dropped, repeats@, *lesson_id)
                &&& final(transaction)@ == (if res is Ok {
                    Self::with_table(dropped, Self::table(dropped) + tagged(repeats@, *lesson_id))
                } else {
                    dropped
                })
            }),
    {
        Self::delete_in_transaction(transaction, lesson_id);
        Self::insert_in_transaction(transaction, repeats, lesson_id)
    }

    /// Whether one of the rules of this kind makes lesson `lesson_id` occur on
    /// `date`.
    fn occurs_in_transaction(transaction: &Transaction, lesson_id: &LessonID, date: &Date) -> (hit:
        bool)
        ensures
            hit == any_on(items_of(Self::table(transaction@), *lesson_id), *date),
    {
        let items = Self::of_lesson_in_transaction(transaction, lesson_id);
        let mut i: usize = 0;
        while i < items.len()
            invariant
                i <= items.len(),
                items@ == items_of(Self::table(transaction@), *lesson_id),
                forall|k: int| 0 <= k < i ==> !(#[trigger] items@[k]).occurs_on(*date),
            decreases items.len() - i,
        {
            if items[i].matches_date(date) {
                return true;
            }
            i = i + 1;
        }
        false
    }
}

/// Whether every one of `items` is well formed.
pub fn are_valid<R: Rule>(items: &Vec<R>) -> (ok: bool)
    ensures
        ok == all_valid(items@),
{
    let mut i: usize = 0;
    while i < items.len()
        invariant
            i <= items.len(),
            forall|k: int| 0 <= k < i ==> (#[trigger] items@[k]).valid(),
        decreases items.len() - i,
    {
        if !items[i].is_valid() {
            return false;
        }
        i = i + 1;
    }
    true
}

/// Adds `items` for lesson `id` to `table`, where `known` says whether the
/// store holds that lesson.
fn insert_rows<R: Rule>(known: bool, table: &mut Vec<Row<R>>, items: &Vec<R>, id: &LessonID) -> (res:
    Result<(), Error>)
    ensures
        res == (if items@.len() == 0 {
            Ok::<(), Error>(())
        } else if !all_valid(items@) {
            Err::<(), Error>(Error::Validation)
        } else if !known {
            Err::<(), Error>(Error::Storage)
        } else {
            Ok::<(), Error>(())
        }),
        final(table)@ == (if res is Ok {
            old(table)@ + tagged(items@, *id)
        } else {
            old(table)@
        }),
{
    if items.len() == 0 {
        assert(table@ + tagged(items@, *id) =~= table@);
        return Ok(());
    }
    if !are_valid(items) {
        return Err(Error::Validation);
    }
    if !known {
        return Err(Error::Storage);
    }
    append(table, items, id);
    Ok(())
}

/// Added rows that are well formed, for a lesson of the store, keep a table
/// as the store wants it.
pub proof fn table_appended<R: Rule>(
    table: Seq<Row<R>>,
    items: Seq<R>,
    id: LessonID,
    lessons: Set<LessonID>,
)
    requires
        owned(table, lessons),
        rows_valid(table),
        all_valid(items),
        lessons.contains(id) || items.len() == 0,
    ensures
        owned(table + tagged(items, id), lessons),
        rows_valid(table + tagged(items, id)),
{
    if items.len() == 0 {
        assert(table + tagged(items, id) =~= table);
    } else {
        owned_appended(table, items, id, lessons);
        assert forall|other: LessonID|
            all_valid(#[trigger] items_of(table + tagged(items, id), other)) by {
            items_of_concat(table, tagged(items, id), other);
            items_of_tagged(items, id, other);
            assert(all_valid(items_of(table, other)));
        }
    }
}

/// Dropping the rows of a lesson keeps a table as the store wants it.
pub proof fn table_cleared<R: Rule>(table: Seq<Row<R>>, id: LessonID, lessons: Set<LessonID>)
    requires
        owned(table, lessons),
        rows_valid(table),
    ensures
        owned(without(table, id), lessons),
        rows_valid(without(table, id)),
{
    owned_without(table, id, lessons);
    assert forall|other: LessonID| all_valid(#[trigger] items_of(without(table, id), other)) by {
        items_of_without(table, id, other);
        assert(all_valid(items_of(table, other)));
    }
}

/// A lesson that occurs once, at a given moment.
#[derive(Clone, Copy, Debug, PartialEq, Eq)]
pub struct SingleOccurrence {
    /// The moment at which the lesson takes place.
    pub occurs_at: DateTime,
}

/// A lesson that occurs every day of a range.
#[derive(Clone, Copy, Debug, PartialEq, Eq)]
pub struct DailyRepeat {
    /// The first day of the range.
    pub start_date: Date,
    /// The last day of the range; without one the range has no end.
    pub end_date: Option<Date>,
    /// The time of day at which the lesson takes place.
    pub time: Time,
}

/// A lesson that occurs on one day of the week, every so many weeks.
#[derive(Clone, Copy, Debug, PartialEq, Eq)]
pub struct WeeklyRepeat {
    /// The first day of the range.
    pub start_date: Date,
    /// The last day of the range; without one the range has no end.
    pub end_date: Option<Date>,
    /// The day of the week on which the lesson takes place.
    pub week_day: WeekDay,
    /// The interval in weeks, at least one.
    pub every: i32,
    /// The time of day at which the lesson takes place.
    pub time: Time,
}

/// A lesson that occurs on one day of the month, every so many months.
#[derive(Clone, Copy, Debug, PartialEq, Eq)]
pub struct MonthlyRepeat {
    /// The first day of the range. Its day of the month is the day on which
    /// the lesson takes place.
    pub start_date: Date,
    /// The last day of the range; without one the range has no end.
    pub end_date: Option<Date>,
    /// The moment at which the lesson takes place for the first time.
    pub time: DateTime,
    /// The interval in months, at least one.
    pub every: i32,
}

impl Rule for SingleOccurrence {
    open spec fn valid(self) -> bool {
        self.occurs_at.wf()
    }

    /// A single occurrence occurs on the day of its moment.
    open spec fn occurs_on(self, date: Date) -> bool {
        self.occurs_at.date == date
    }

    fn is_valid(&self) -> (ok: bool) {
        self.occurs_at.is_valid()
    }

    fn matches_date(&self, date: &Date) -> (hit: bool) {
        self.occurs_at.date.same_day(date)
    }
}

impl Repeat for SingleOccurrence {
    open spec fn table(rows: Snapshot) -> Seq<Row<Self>> {
        rows.singles
    }

    open spec fn with_table(rows: Snapshot, table: Seq<Row<Self>>) -> Snapshot {
        Snapshot { singles: table, ..rows }
    }

    fn of_lesson_in_transaction(transaction: &Transaction, lesson_id: &LessonID) -> (items: Vec<
        Self,
    >) {
        select(&transaction.singles, lesson_id)
    }

    fn insert_in_transaction(
        transaction: &mut Transaction,
        repeats: &Vec<Self>,
        lesson_id: &LessonID,
    ) -> (res: Result<(), Error>) {
        let known = transaction.has_lesson(lesson_id);
        let res = insert_rows(known, &mut transaction.singles, repeats, lesson_id);
        proof {
            if res is Ok {
                let ids = old(transaction)@.lesson_ids();
                table_appended(old(transaction)@.singles, repeats@, *lesson_id, ids);
                assert(transaction@.lesson_ids() =~= ids);
            }
        }
        res
    }

    fn delete_in_transaction(transaction: &mut Transaction, lesson_id: &LessonID) {
        remove(&mut transaction.singles, lesson_id);
        proof {
            let ids = old(transaction)@.lesson_ids();
            table_cleared(old(transaction)@.singles, *lesson_id, ids);
            assert(transaction@.lesson_ids() =~= ids);
        }
    }
}

impl Rule for DailyRepeat {
    open spec fn valid(self) -> bool {
        range_wf(self.start_date, self.end_date) && self.time.wf()
    }

    /// A daily repeat occurs on every day of its range.
    open spec fn occurs_on(self, date: Date) -> bool {
        within(self.start_date, self.end_date, date)
    }

    fn is_valid(&self) -> (ok: bool) {
        is_range_valid(&self.start_date, &self.end_date) && self.time.is_valid()
    }

    fn matches_date(&self, date: &Date) -> (hit: bool) {
        is_within(&self.start_date, &self.end_date, date)
    }
}

impl Repeat for DailyRepeat {
    open spec fn table(rows: Snapshot) -> Seq<Row<Self>> {
        rows.daily
    }

    open spec fn with_table(rows: Snapshot, table: Seq<Row<Self>>) -> Snapshot {
        Snapshot { daily: table, ..rows }
    }

    fn of_lesson_in_transaction(transaction: &Transaction, lesson_id: &LessonID) -> (items: Vec<
        Self,
    >) {
        select(&transaction.daily, lesson_id)
    }

    fn insert_in_transaction(
        transaction: &mut Transaction,
        repeats: &Vec<Self>,
        lesson_id: &LessonID,
    ) -> (res: Result<(), Error>) {
        let known = transaction.has_lesson(lesson_id);
        let res = insert_rows(known, &mut transaction.daily, repeats, lesson_id);
        proof {
            if res is Ok {
                let ids = old(transaction)@.lesson_ids();
                table_appended(old(transaction)@.daily, repeats@, *lesson_id, ids);
                assert(transaction@.lesson_ids() =~= ids);
            }
        }
        res
    }

    fn delete_in_transaction(transaction: &mut Transaction, lesson_id: &LessonID) {
        remove(&mut transaction.daily, lesson_id);
        proof {
            let ids = old(transaction)@.lesson_ids();
            table_cleared(old(transaction)@.daily, *lesson_id, ids);
            assert(transaction@.lesson_ids() =~= ids);
        }
    }
}

impl Rule for WeeklyRepeat {
    open spec fn valid(self) -> bool {
        range_wf(self.start_date, self.end_date) && self.time.wf() && self.every >= 1
    }

    /// A weekly repeat occurs on the days of its range that fall on its day
    /// of the week, where the number of whole weeks since the start of the
    /// range is a multiple of the interval.
    open spec fn occurs_on(self, date: Date) -> bool {
        &&& within(self.start_date, self.end_date, date)
        &&& date.weekday_number() == self.week_day.number()
        &&& self.every >= 1
        &&& self.start_date.weeks_until(date) % (self.every as int) == 0
    }

    fn is_valid(&self) -> (ok: bool) {
        is_range_valid(&self.start_date, &self.end_date) && self.time.is_valid() && self.every >= 1
    }

    fn matches_date(&self, date: &Date) -> (hit: bool) {
        if !is_within(&self.start_date, &self.end_date, date) {
            return false;
        }
        if WeekDay::of(date).to_number() != self.week_day.to_number() {
            return false;
        }
        if self.every < 1 {
            return false;
        }
        let days: u64 = (date.to_day_number() - self.start_date.to_day_number()) as u64;
        let weeks: u64 = days / 7;
        weeks % (self.every as u64) == 0
    }
}

impl Repeat for WeeklyRepeat {
    open spec fn table(rows: Snapshot) -> Seq<Row<Self>> {
        rows.weekly
    }

    open spec fn with_table(rows: Snapshot, table: Seq<Row<Self>>) -> Snapshot {
        Snapshot { weekly: table, ..rows }
    }

    fn of_lesson_in_transaction(transaction: &Transaction, lesson_id: &LessonID) -> (items: Vec<
        Self,
    >) {
        select(&transaction.weekly, lesson_id)
    }

    fn insert_in_transaction(
        transaction: &mut Transaction,
        repeats: &Vec<Self>,
        lesson_id: &LessonID,
    ) -> (res: Result<(), Error>) {
        let known = transaction.has_lesson(lesson_id);
        let res = insert_rows(known, &mut transaction.weekly, repeats, lesson_id);
        proof {
            if res is Ok {
                let ids = old(transaction)@.lesson_ids();
                table_appended(old(transaction)@.weekly, repeats@, *lesson_id, ids);
                assert(transaction@.lesson_ids() =~= ids);
            }
        }
        res
    }

    fn delete_in_transaction(transaction: &mut Transaction, lesson_id: &LessonID) {
        remove(&mut transaction.weekly, lesson_id);
        proof {
            let ids = old(transaction)@.lesson_ids();
            table_cleared(old(transaction)@.weekly, *lesson_id, ids);
            assert(transaction@.lesson_ids() =~= ids);
        }
    }
}

impl Rule for MonthlyRepeat {
    open spec fn valid(self) -> bool {
        range_wf(self.start_date, self.end_date) && self.time.wf() && self.every >= 1
    }

    /// A monthly repeat occurs on the days of its range that have the day of
    /// the month of its start, where the number of months since the start is
    /// a multiple of the interval. A month that lacks that day has no
    /// occurrence.
    open spec fn occurs_on(self, date: Date) -> bool {
        &&& within(self.start_date, self.end_date, date)
        &&& date.day == self.start_date.day
        &&& self.every >= 1
        &&& self.start_date.months_until(date) >= 0
        &&& self.start_date.months_until(date) % (self.every as int) == 0
    }

    fn is_valid(&self) -> (ok: bool) {
        is_range_valid(&self.start_date, &self.end_date) && self.time.is_valid() && self.every >= 1
    }

    fn matches_date(&self, date: &Date) -> (hit: bool) {
        if !is_within(&self.start_date, &self.end_date, date) {
            return false;
        }
        if date.day != self.start_date.day {
            return false;
        }
        if self.every < 1 {
            return false;
        }
        let months: i64 = (date.year as i64 - self.start_date.year as i64) * 12 + (date.month as i64
            - self.start_date.month as i64);
        if months < 0 {
            return false;
        }
        (months as u64) % (self.every as u64) == 0
    }
}

impl Repeat for MonthlyRepeat {
    open spec fn table(rows: Snapshot) -> Seq<Row<Self>> {
        rows.monthly
    }

    open spec fn with_table(rows: Snapshot, table: Seq<Row<Self>>) -> Snapshot {
        Snapshot { monthly: table, ..rows }
    }

    fn of_lesson_in_transaction(transaction: &Transaction, lesson_id: &LessonID) -> (items: Vec<
        Self,
    >) {
        select(&transaction.monthly, lesson_id)
    }

    fn insert_in_transaction(
        transaction: &mut Transaction,
        repeats: &Vec<Self>,
        lesson_id: &LessonID,
    ) -> (res: Result<(), Error>) {
        let known = transaction.has_lesson(lesson_id);
        let res = insert_rows(known, &mut transaction.monthly, repeats, lesson_id);
        proof {
            if res is Ok {
                let ids = old(transaction)@.lesson_ids();
                table_appended(old(transaction)@.monthly, repeats@, *lesson_id, ids);
                assert(transaction@.lesson_ids() =~= ids);
            }
        }
        res
    }

    fn delete_in_transaction(transaction: &mut Transaction, lesson_id: &LessonID) {
        remove(&mut transaction.monthly, lesson_id);
        proof {
            let ids = old(transaction)@.lesson_ids();
            table_cleared(old(transaction)@.monthly, *lesson_id, ids);
            assert(transaction@.lesson_ids() =~= ids);
        }
    }
}

/// A lesson has a rule that occurs on a date exactly if a row of the table
/// belongs to the lesson and holds a rule that occurs on that date.
pub proof fn occurring_rule_has_row<R: Rule>(table: Seq<Row<R>>, id: LessonID, date: Date)
    ensures
        any_on(items_of(table, id), date) <==> exists|i: int|
            0 <= i < table.len() && (#[trigger] table[i]).lesson_id == id && table[i].item.occurs_on(
                date,
            ),
    decreases table.len(),
{
    if table.len() > 0 {
        let front = table.drop_last();
        let last = table.last();
        occurring_rule_has_row(front, id, date);
        let items = items_of(table, id);
        if any_on(items, date) {
            let k = choose|k: int| 0 <= k < items.len() && (#[trigger] items[k]).occurs_on(date);
            if last.lesson_id == id && k == items.len() - 1 {
                assert(table[table.len() - 1] == last);
            } else {
                assert(items_of(front, id)[k] == items[k]);
                let i = choose|i: int|
                    0 <= i < front.len() && (#[trigger] front[i]).lesson_id == id
                        && front[i].item.occurs_on(date);
                assert(table[i] == front[i]);
            }
        }
        if exists|i: int|
            0 <= i < table.len() && (#[trigger] table[i]).lesson_id == id && table[i].item.occurs_on(
                date,
            ) {
            let i = choose|i: int|
                0 <= i < table.len() && (#[trigger] table[i]).lesson_id == id
                    && table[i].item.occurs_on(date);
            if i == table.len() - 1 {
                assert(items[items.len() - 1] == last.item);
            } else {
                assert(front[i] == table[i]);
                let k = choose|k: int|
                    0 <= k < items_of(front, id).len() && (#[trigger] items_of(front, id)[k]).occurs_on(
                        date,
                    );
                assert(items[k] == items_of(front, id)[k]);
            }
        }
    }
}

/// In a month that lacks the day of the month on which a monthly repeat
/// starts, the repeat does not occur.
pub proof fn monthly_skips_short_months(rule: MonthlyRepeat, date: Date)
    requires
        date.wf(),
        rule.start_date.day > days_in_month(date.year as int, date.month as int),
    ensures
        !rule.occurs_on(date),
{
}

/// A well-formed monthly repeat occurs on no day before its start, so the
/// count of months since the start is never negative where it matters.
pub proof fn monthly_counts_forward(rule: MonthlyRepeat, date: Date)
    requires
        rule.start_date.wf(),
        date.wf(),
        within(rule.start_date, rule.end_date, date),
    ensures
        rule.start_date.months_until(date) >= 0,
{
    day_number_orders(rule.start_date, date);
    day_number_orders(date, rule.start_date);
}

} // verus!
