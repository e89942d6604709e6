//! Tables whose rows belong to lessons.
//!
//! Every table but that of the lessons themselves holds rows that name the
//! lesson they belong to. This module says what it means to list the rows of
//! one lesson, to drop them, and to add new ones, and holds the code that does
//! so for any kind of row.

use crate::lesson::LessonID;
use vstd::prelude::*;

verus! {

/// A row of a table: an item and the lesson that owns it.
#[derive(Clone, Copy, Debug, PartialEq, Eq)]
pub struct Row<R> {
    pub lesson_id: LessonID,
    pub item: R,
}

/// The items that `table` holds for lesson `id`, in the order of their rows.
pub open spec fn items_of<R>(table: Seq<Row<R>>, id: LessonID) -> Seq<R>
    decreases table.len(),
{
    if table.len() == 0 {
        Seq::empty()
    } else if table.last().lesson_id == id {
        items_of(table.drop_last(), id).push(table.last().item)
    } else {
        items_of(table.drop_last(), id)
    }
}

/// The rows of `table` that do not belong to lesson `id`, in their order.
pub open spec fn without<R>(table: Seq<Row<R>>, id: LessonID) -> Seq<Row<R>>
    decreases table.len(),
{
    if table.len() == 0 {
        Seq::empty()
    } else if table.last().lesson_id == id {
        without(table.drop_last(), id)
    } else {
        without(table.drop_last(), id).push(table.last())
    }
}

/// One row for each of `items`, in their order, all owned by lesson `id`.
pub open spec fn tagged<R>(items: Seq<R>, id: LessonID) -> Seq<Row<R>> {
    Seq::new(items.len(), |i: int| Row { lesson_id: id, item: items[i] })
}

/// Whether some row of `table` belongs to lesson `id`.
pub open spec fn mentions<R>(table: Seq<Row<R>>, id: LessonID) -> bool {
    exists|i: int| 0 <= i < table.len() && (#[trigger] table[i]).lesson_id == id
}

/// Listing after one more row: the row's item comes last if the row belongs
/// to the lesson, and nothing changes otherwise.
pub proof fn items_of_push<R>(table: Seq<Row<R>>, row: Row<R>, id: LessonID)
    ensures
        items_of(table.push(row), id) == (if row.lesson_id == id {
            items_of(table, id).push(row.item)
        } else {
            items_of(table, id)
        }),
{
    assert(table.push(row).drop_last() =~= table);
}

/// Dropping after one more row.
pub proof fn without_push<R>(table: Seq<Row<R>>, row: Row<R>, id: LessonID)
    ensures
        without(table.push(row), id) == (if row.lesson_id == id {
            without(table, id)
        } else {
            without(table, id).push(row)
        }),
{
    assert(table.push(row).drop_last() =~= table);
}

/// Listing two tables laid end to end lists the first, then the second.
pub proof fn items_of_concat<R>(a: Seq<Row<R>>, b: Seq<Row<R>>, id: LessonID)
    ensures
        items_of(a + b, id) == items_of(a, id) + items_of(b, id),
    decreases b.len(),
{
    if b.len() == 0 {
        assert(a + b =~= a);
        assert(items_of(a, id) + items_of(b, id) =~= items_of(a, id));
    } else {
        items_of_concat(a, b.drop_last(), id);
        assert((a + b).drop_last() =~= a + b.drop_last());
        assert((a + b).last() == b.last());
        if b.last().lesson_id == id {
            assert(items_of(a, id) + items_of(b.drop_last(), id).push(b.last().item) =~= (items_of(
                a,
                id,
            ) + items_of(b.drop_last(), id)).push(b.last().item));
        }
    }
}

/// The rows made for one lesson list as the items they were made from, and
/// hold nothing for any other lesson.
pub proof fn items_of_tagged<R>(items: Seq<R>, owner: LessonID, id: LessonID)
    ensures
        items_of(tagged(items, owner), id) == (if id == owner {
            items
        } else {
            Seq::<R>::empty()
        }),
    decreases items.len(),
{
    if items.len() > 0 {
        items_of_tagged(items.drop_last(), owner, id);
        assert(tagged(items, owner).drop_last() =~= tagged(items.drop_last(), owner));
        if id == owner {
            assert(items.drop_last().push(items.last()) =~= items);
        }
    } else {
        assert(items =~= Seq::<R>::empty());
    }
}

/// A lesson that no row mentions has no items, and the other way round.
pub proof fn items_of_unmentioned<R>(table: Seq<Row<R>>, id: LessonID)
    ensures
        mentions(table, id) <==> items_of(table, id).len() > 0,
    decreases table.len(),
{
    if table.len() > 0 {
        items_of_unmentioned(table.drop_last(), id);
        if mentions(table, id) {
            let i = choose|i: int| 0 <= i < table.len() && (#[trigger] table[i]).lesson_id == id;
            if i < table.len() - 1 {
                assert(table.drop_last()[i].lesson_id == id);
            }
        }
        if mentions(table.drop_last(), id) {
            let i = choose|i: int|
                0 <= i < table.drop_last().len() && (#[trigger] table.drop_last()[i]).lesson_id
                    == id;
            assert(table[i].lesson_id == id);
        }
        if table.last().lesson_id == id {
            assert(table[table.len() - 1].lesson_id == id);
        }
    }
}

/// After the rows of one lesson are dropped, that lesson has no items and
/// every other lesson has the items it had.
pub proof fn items_of_without<R>(table: Seq<Row<R>>, gone: LessonID, id: LessonID)
    ensures
        items_of(without(table, gone), id) == (if id == gone {
            Seq::<R>::empty()
        } else {
            items_of(table, id)
        }),
    decreases table.len(),
{
    if table.len() > 0 {
        items_of_without(table.drop_last(), gone, id);
        if table.last().lesson_id != gone {
            items_of_push(without(table.drop_last(), gone), table.last(), id);
        }
    }
}

/// Dropping the rows of a lesson that no row mentions changes nothing.
pub proof fn without_unmentioned<R>(table: Seq<Row<R>>, id: LessonID)
    requires
        !mentions(table, id),
    ensures
        without(table, id) == table,
    decreases table.len(),
{
    if table.len() > 0 {
        assert(table[table.len() - 1].lesson_id != id);
        assert forall|i: int| 0 <= i < table.drop_last().len() implies (#[trigger] table.drop_last()[i]).lesson_id
            != id by {
            assert(table[i].lesson_id != id);
        }
        without_unmentioned(table.drop_last(), id);
        assert(table.drop_last().push(table.last()) =~= table);
    } else {
        assert(table =~= Seq::<Row<R>>::empty());
    }
}

/// Whether every lesson that a row of `table` belongs to is among `lessons`.
pub open spec fn owned<R>(table: Seq<Row<R>>, lessons: Set<LessonID>) -> bool {
    forall|id: LessonID| #[trigger] mentions(table, id) ==> lessons.contains(id)
}

/// After rows are added for one lesson, the table mentions that lesson, if
/// any row was added, and the lessons it mentioned before.
pub proof fn mentions_appended<R>(table: Seq<Row<R>>, items: Seq<R>, owner: LessonID, id: LessonID)
    ensures
        mentions(table + tagged(items, owner), id) <==> mentions(table, id) || (id == owner
            && items.len() > 0),
{
    items_of_unmentioned(table + tagged(items, owner), id);
    items_of_unmentioned(table, id);
    items_of_concat(table, tagged(items, owner), id);
    items_of_tagged(items, owner, id);
}

/// After the rows of one lesson are dropped, the table mentions the other
/// lessons that it mentioned before.
pub proof fn mentions_without<R>(table: Seq<Row<R>>, gone: LessonID, id: LessonID)
    ensures
        mentions(without(table, gone), id) <==> id != gone && mentions(table, id),
{
    items_of_unmentioned(without(table, gone), id);
    items_of_unmentioned(table, id);
    items_of_without(table, gone, id);
}

/// Rows added for a known lesson keep every row owned by a known lesson.
pub proof fn owned_appended<R>(
    table: Seq<Row<R>>,
    items: Seq<R>,
    owner: LessonID,
    lessons: Set<LessonID>,
)
    requires
        owned(table, lessons),
        lessons.contains(owner),
    ensures
        owned(table + tagged(items, owner), lessons),
{
    assert forall|id: LessonID| #[trigger]
        mentions(table + tagged(items, owner), id) implies lessons.contains(id) by {
        mentions_appended(table, items, owner, id);
        assert(mentions(table, id) ==> lessons.contains(id));
    }
}

/// Once the rows of a lesson are dropped, the lesson itself can go.
pub proof fn owned_without<R>(table: Seq<Row<R>>, gone: LessonID, lessons: Set<LessonID>)
    requires
        owned(table, lessons),
    ensures
        owned(without(table, gone), lessons.remove(gone)),
        owned(without(table, gone), lessons),
{
    assert forall|id: LessonID| #[trigger] mentions(without(table, gone), id) implies lessons.remove(
        gone,
    ).contains(id) by {
        mentions_without(table, gone, id);
        assert(mentions(table, id) ==> lessons.contains(id));
    }
}

/// The items that `table` holds for lesson `id`, in the order of their rows.
pub fn select<R: Copy>(table: &Vec<Row<R>>, id: &LessonID) -> (items: Vec<R>)
    ensures
        items@ == items_of(table@, *id),
{
    let mut items: Vec<R> = Vec::new();
    let mut i: usize = 0;
    while i < table.len()
        invariant
            i <= table.len(),
            items@ == items_of(table@.take(i as int), *id),
        decreases table.len() - i,
    {
        proof {
            items_of_push(table@.take(i as int), table@[i as int], *id);
            assert(table@.take(i + 1) =~= table@.take(i as int).push(table@[i as int]));
        }
        if table[i].lesson_id.0 == id.0 {
            items.push(table[i].item);
        }
        i = i + 1;
    }
    assert(table@.take(i as int) =~= table@);
    items
}

/// Drops from `table` the rows of lesson `id`.
pub fn remove<R: Copy>(table: &mut Vec<Row<R>>, id: &LessonID)
    ensures
        final(table)@ == without(old(table)@, *id),
{
    let mut kept: Vec<Row<R>> = Vec::new();
    let mut i: usize = 0;
    while i < table.len()
        invariant
            i <= table.len(),
            kept@ == without(table@.take(i as int), *id),
        decreases table.len() - i,
    {
        proof {
            without_push(table@.take(i as int), table@[i as int], *id);
            assert(table@.take(i + 1) =~= table@.take(i as int).push(table@[i as int]));
        }
        if table[i].lesson_id.0 != id.0 {
            kept.push(table[i]);
        }
        i = i + 1;
    }
    assert(table@.take(i as int) =~= table@);
    *table = kept;
}

/// Adds to `table` one row for each of `items`, in their order, all owned by
/// lesson `id`.
pub fn append<R: Copy>(table: &mut Vec<Row<R>>, items: &Vec<R>, id: &LessonID)
    ensures
        final(table)@ == old(table)@ + tagged(items@, *id),
{
    let mut i: usize = 0;
    while i < items.len()
        invariant
            i <= items.len(),
            table@ == old(table)@ + tagged(items@.take(i as int), *id),
        decreases items.len() - i,
    {
        table.push(Row { lesson_id: *id, item: items[i] });
        proof {
            assert(items@.take(i + 1) =~= items@.take(i as int).push(items@[i as int]));
            assert(table@ =~= old(table)@ + tagged(items@.take(i + 1), *id));
        }
        i = i + 1;
    }
    assert(items@.take(i as int) =~= items@);
}

/// A copy of `table`.
pub fn copy_of<R: Copy>(table: &Vec<R>) -> (copy: Vec<R>)
    ensures
        copy@ == table@,
{
    let mut copy: Vec<R> = Vec::new();
    let mut i: usize = 0;
    while i < table.len()
        invariant
            i <= table.len(),
            copy@ == table@.take(i as int),
        decreases table.len() - i,
    {
        copy.push(table[i]);
        assert(table@.take(i + 1) =~= table@.take(i as int).push(table@[i as int]));
        i = i + 1;
    }
    assert(table@.take(i as int) =~= table@);
    copy
}

} // verus!
