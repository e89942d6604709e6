//! Access of accounts to lessons.
//!
//! A grant gives one account read or read-write access to one lesson. An
//! account's level on a lesson is the strongest grant it holds there, or
//! nothing. Read-write access includes read access.

use crate::account::AccountID;
use crate::error::Error;
use crate::lesson::LessonID;
use crate::table::{append, items_of, items_of_concat, items_of_tagged, owned_appended, select, tagged, Row};
use crate::transaction::Transaction;
use vstd::prelude::*;

verus! {

/// What a grant allows.
#[derive(Clone, Copy, Debug, PartialEq, Eq)]
pub enum PermissionType {
    Read,
    ReadWrite,
}

/// A grant as the table of grants holds it for a lesson.
#[derive(Clone, Copy, Debug, PartialEq, Eq)]
pub struct Grant {
    pub account_id: AccountID,
    pub permission_type: PermissionType,
}

/// Whether `grants` holds a grant of `kind` for `account`.
pub open spec fn granted(grants: Seq<Grant>, account: AccountID, kind: PermissionType) -> bool {
    exists|i: int|
        0 <= i < grants.len() && #[trigger] grants[i] == (Grant {
            account_id: account,
            permission_type: kind,
        })
}

/// The level that the grants of one lesson give to `account`.
pub open spec fn level_in(grants: Seq<Grant>, account: AccountID) -> Option<PermissionType> {
    if granted(grants, account, PermissionType::ReadWrite) {
        Some(PermissionType::ReadWrite)
    } else if granted(grants, account, PermissionType::Read) {
        Some(PermissionType::Read)
    } else {
        None
    }
}

/// The level of `account` on `lesson`.
pub open spec fn level_for(grants: Seq<Row<Grant>>, account: AccountID, lesson: LessonID) -> Option<
    PermissionType,
> {
    level_in(items_of(grants, lesson), account)
}

/// Whether no account has two grants among `grants`.
pub open spec fn one_grant_each(grants: Seq<Grant>) -> bool {
    forall|i: int, j: int|
        0 <= i < j < grants.len() ==> (#[trigger] grants[i]).account_id != (
        #[trigger] grants[j]).account_id
}

/// Whether `level` allows reading.
pub open spec fn allows_read(level: Option<PermissionType>) -> bool {
    level is Some
}

/// Whether `level` allows writing.
pub open spec fn allows_write(level: Option<PermissionType>) -> bool {
    level == Some(PermissionType::ReadWrite)
}

/// Whether `level` allows reading.
pub fn is_read_permission(level: &Option<PermissionType>) -> (ok: bool)
    ensures
        ok == allows_read(*level),
{
    level.is_some()
}

/// Whether `level` allows writing.
pub fn is_write_permission(level: &Option<PermissionType>) -> (ok: bool)
    ensures
        ok == allows_write(*level),
{
    match level {
        Some(PermissionType::ReadWrite) => true,
        _ => false,
    }
}

/// Whoever may write may read.
pub proof fn write_includes_read(level: Option<PermissionType>)
    ensures
        allows_write(level) ==> allows_read(level),
{
}

/// The grants of lessons.
pub struct LessonPermission;

impl LessonPermission {
    /// The level of `account_id` on `lesson_id`.
    pub fn of_account_in_transaction(
        transaction: &Transaction,
        lesson_id: &LessonID,
        account_id: &AccountID,
    ) -> (level: Option<PermissionType>)
        ensures
            level == level_for(transaction@.grants, *account_id, *lesson_id),
    {
        let grants: Vec<Grant> = select(&transaction.grants, lesson_id);
        let mut level: Option<PermissionType> = None;
        let mut i: usize = 0;
        while i < grants.len()
            invariant
                i <= grants.len(),
                level == level_in(grants@.take(i as int), *account_id),
            decreases grants.len() - i,
        {
            let ghost before = grants@.take(i as int);
            let ghost after = grants@.take(i + 1);
            proof {
                assert(after =~= before.push(grants@[i as int]));
                assert forall|kind: PermissionType|
                    granted(after, *account_id, kind) <==> granted(before, *account_id, kind)
                        || grants@[i as int] == (Grant {
                        account_id: *account_id,
                        permission_type: kind,
                    }) by {
                    if granted(before, *account_id, kind) {
                        let k = choose|k: int|
                            0 <= k < before.len() && #[trigger] before[k] == (Grant {
                                account_id: *account_id,
                                permission_type: kind,
                            });
                        assert(after[k] == before[k]);
                    }
                    if grants@[i as int] == (Grant { account_id: *account_id, permission_type: kind }) {
                        assert(after[i as int] == grants@[i as int]);
                    }
                    if granted(after, *account_id, kind) {
                        let k = choose|k: int|
                            0 <= k < after.len() && #[trigger] after[k] == (Grant {
                                account_id: *account_id,
                                permission_type: kind,
                            });
                        if k < i {
                            assert(before[k] == after[k]);
                        }
                    }
                }
            }
            if grants[i].account_id.0 == account_id.0 {
                match grants[i].permission_type {
                    PermissionType::ReadWrite => {
                        level = Some(PermissionType::ReadWrite);
                    },
                    PermissionType::Read => {
                        if level.is_none() {
                            level = Some(PermissionType::Read);
                        }
                    },
                }
            }
            i = i + 1;
        }
        assert(grants@.take(i as int) =~= grants@);
        level
    }

    /// Grants `account_id` access of `permission_type` to `lesson_id`.
    ///
    /// The store takes one grant for each pair of lesson and account, and only
    /// for a lesson that it holds: otherwise the grant is refused and nothing
    /// changes.
    pub fn save_in_transaction(
        transaction: &mut Transaction,
        permission_type: PermissionType,
        lesson_id: &LessonID,
        account_id: &AccountID,
    ) -> (res: Result<(), Error>)
        requires
            old(transaction)@.wf(),
        ensures
            final(transaction)@.wf(),
            res == (if old(transaction)@.has_lesson(*lesson_id) && level_for(
                old(transaction)@.grants,
                *account_id,
                *lesson_id,
            ) is None {
                Ok::<(), Error>(())
            } else {
                Err::<(), Error>(Error::Storage)
            }),
            final(transaction)@ == (if res is Ok {
                old(transaction)@.with_grant(*lesson_id, *account_id, permission_type)
            } else {
                old(transaction)@
            }),
    {
        if !transaction.has_lesson(lesson_id) {
            return Err(Error::Storage);
        }
        let level = LessonPermission::of_account_in_transaction(transaction, lesson_id, account_id);
        if level.is_some() {
            return Err(Error::Storage);
        }
        let grant = Grant { account_id: *account_id, permission_type };
        let mut one: Vec<Grant> = Vec::new();
        one.push(grant);
        append(&mut transaction.grants, &one, lesson_id);
        proof {
            let before = old(transaction)@;
            assert(one@ =~= seq![grant]);
            assert(before.grants + tagged(one@, *lesson_id) =~= before.grants.push(
                Row { lesson_id: *lesson_id, item: grant },
            ));
            owned_appended(before.grants, one@, *lesson_id, before.lesson_ids());
            assert forall|id: LessonID|
                one_grant_each(
                    #[trigger] items_of(before.grants + tagged(one@, *lesson_id), id),
                ) by {
                items_of_concat(before.grants, tagged(one@, *lesson_id), id);
                items_of_tagged(one@, *lesson_id, id);
                let had = items_of(before.grants, id);
                assert(one_grant_each(had));
                if id == *lesson_id {
                    let now = had + one@;
                    assert forall|i: int, j: int| 0 <= i < j < now.len() implies (
                    #[trigger] now[i]).account_id != (#[trigger] now[j]).account_id by {
                        if j == had.len() {
                            if had[i].account_id == *account_id {
                                match had[i].permission_type {
                                    PermissionType::Read => {
                                        assert(granted(had, *account_id, PermissionType::Read));
                                    },
                                    PermissionType::ReadWrite => {
                                        assert(granted(
                                            had,
                                            *account_id,
                                            PermissionType::ReadWrite,
                                        ));
                                    },
                                }
                            }
                        }
                    }
                } else {
                    assert(had + Seq::<Grant>::empty() =~= had);
                }
            }
        }
        Ok(())
    }
}

} // verus!
