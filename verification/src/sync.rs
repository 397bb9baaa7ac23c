//! The operations that bring the platform in line with the fixtures.
use vstd::prelude::*;

use crate::diff::well_timed;
use crate::diff::Diff;
use crate::error::ValidationError;
use crate::full_time::Fixture;
use crate::mapper::first_coach_role;
use crate::mapper::first_sub_group;
use crate::mapper::is_request_for;
use crate::mapper::is_update_of;
use crate::spond::CreateSpondRequest;
use crate::spond::Group;
use crate::spond::Spond;
use crate::spond::SpondId;
use crate::spond::SubGroupId;

verus! {

/// Whether a run only reports the difference or also applies it.
#[derive(Debug, Copy, Clone, PartialEq, Eq, Structural)]
pub enum SyncType {
    Dry,
    Real,
}

/// One change to the platform's calendar.
#[derive(Debug, Clone)]
pub enum Operation {
    /// Create the event that the request describes.
    Create(CreateSpondRequest),
    /// Replace an event by the given one.
    Update(Spond),
    /// Delete the event with the identifier.
    Delete(SpondId),
}

/// Whether `operations` applies `diff` for a subgroup of `group`: first one
/// creation for each new fixture, then one update for each modified pair,
/// then one deletion for each removed event, each in the order of its list.
pub open spec fn applies(
    operations: Seq<Operation>,
    diff: Diff,
    group: Group,
    sub_group_id: Seq<char>,
) -> bool {
    let creations = diff.new@.len();
    let updates = diff.modified@.len();
    let deletions = diff.removed@.len();
    let sub_group = first_sub_group(group.sub_groups@, sub_group_id);
    let role = first_coach_role(group.roles@);
    &&& operations.len() == creations + updates + deletions
    &&& forall|i: int|
        0 <= i < creations ==> {
            &&& #[trigger] operations[i] is Create
            &&& sub_group is Some
            &&& role is Some
            &&& is_request_for(
                operations[i]->Create_0,
                diff.new@[i],
                group,
                sub_group->Some_0,
                role->Some_0,
            )
        }
    &&& forall|i: int|
        0 <= i < updates ==> {
            &&& #[trigger] operations[creations + i] is Update
            &&& sub_group is Some
            &&& is_update_of(
                operations[creations + i]->Update_0,
                diff.modified@[i].1,
                diff.modified@[i].0,
                sub_group->Some_0,
            )
        }
    &&& forall|i: int|
        0 <= i < deletions ==> #[trigger] operations[creations + updates + i]
            == Operation::Delete(diff.removed@[i].id)
}

/// Lists the operations that apply a difference, in the order in which they
/// are to be performed. The roster is consulted only where an event has to
/// be created or updated.
pub fn operations(diff: Diff, group: &Group, sub_group_id: &SubGroupId) -> (r: Result<
    Vec<Operation>,
    ValidationError,
>)
    requires
        well_timed(diff),
    ensures
        match r {
            Ok(operations) => applies(operations@, diff, *group, sub_group_id@),
            Err(ValidationError::UnknownSubGroup) => {
                &&& diff.new@.len() + diff.modified@.len() > 0
                &&& first_sub_group(group.sub_groups@, sub_group_id@) is None
            },
            Err(ValidationError::MissingCoachRole) => {
                &&& diff.new@.len() > 0
                &&& first_sub_group(group.sub_groups@, sub_group_id@) is Some
                &&& first_coach_role(group.roles@) is None
            },
        },
{
    let ghost new = diff.new@;
    let ghost modified = diff.modified@;
    let ghost removed = diff.removed@;
    let ghost sub_group = first_sub_group(group.sub_groups@, sub_group_id@);
    let ghost role = first_coach_role(group.roles@);
    let Diff { new: fixtures, modified: pairs, removed: events } = diff;
    let mut operations: Vec<Operation> = Vec::new();
    for fixture in it: fixtures
        invariant
            it.seq() == new,
            new == diff.new@,
            forall|i: int| 0 <= i < new.len() ==> (#[trigger] new[i]).date_time.wf(),
            sub_group == first_sub_group(group.sub_groups@, sub_group_id@),
            role == first_coach_role(group.roles@),
            operations.len() == it.index(),
            forall|i: int|
                0 <= i < it.index() ==> {
                    &&& #[trigger] operations@[i] is Create
                    &&& sub_group is Some
                    &&& role is Some
                    &&& is_request_for(
                        operations@[i]->Create_0,
                        new[i],
                        *group,
                        sub_group->Some_0,
                        role->Some_0,
                    )
                },
    {
        assert(new[it.index() as int].date_time.wf());
        match fixture.to_create_spond_request(group, sub_group_id) {
            Ok(request) => {
                operations.push(Operation::Create(request));
            },
            Err(e) => {
                return Err(e);
            },
        }
    }
    let ghost creations = new.len() as int;
    for pair in it: pairs
        invariant
            it.seq() == modified,
            modified == diff.modified@,
            forall|i: int| 0 <= i < modified.len() ==> (#[trigger] modified[i]).0.date_time.wf(),
            sub_group == first_sub_group(group.sub_groups@, sub_group_id@),
            role == first_coach_role(group.roles@),
            creations == new.len(),
            operations.len() == creations + it.index(),
            forall|i: int|
                0 <= i < creations ==> {
                    &&& #[trigger] operations@[i] is Create
                    &&& sub_group is Some
                    &&& role is Some
                    &&& is_request_for(
                        operations@[i]->Create_0,
                        new[i],
                        *group,
                        sub_group->Some_0,
                        role->Some_0,
                    )
                },
            forall|i: int|
                0 <= i < it.index() ==> {
                    &&& #[trigger] operations@[creations + i] is Update
                    &&& sub_group is Some
                    &&& is_update_of(
                        operations@[creations + i]->Update_0,
                        modified[i].1,
                        modified[i].0,
                        sub_group->Some_0,
                    )
                },
    {
        let ghost done = it.index() as int;
        assert(modified[done].0.date_time.wf());
        let (fixture, spond) = pair;
        match spond.modify(&fixture, group, sub_group_id) {
            Ok(updated) => {
                let ghost before = operations@;
                operations.push(Operation::Update(updated));
                assert forall|i: int| 0 <= i < done + 1 implies {
                    &&& #[trigger] operations@[creations + i] is Update
                    &&& sub_group is Some
                    &&& is_update_of(
                        operations@[creations + i]->Update_0,
                        modified[i].1,
                        modified[i].0,
                        sub_group->Some_0,
                    )
                } by {
                    if i < done {
                        assert(operations@[creations + i] == before[creations + i]);
                    }
                }
            },
            Err(e) => {
                return Err(e);
            },
        }
    }
    let ghost updates = modified.len() as int;
    for event in it: events
        invariant
            it.seq() == removed,
            creations == new.len(),
            updates == modified.len(),
            sub_group == first_sub_group(group.sub_groups@, sub_group_id@),
            role == first_coach_role(group.roles@),
            operations.len() == creations + updates + it.index(),
            forall|i: int|
                0 <= i < creations ==> {
                    &&& #[trigger] operations@[i] is Create
                    &&& sub_group is Some
                    &&& role is Some
                    &&& is_request_for(
                        operations@[i]->Create_0,
                        new[i],
                        *group,
                        sub_group->Some_0,
                        role->Some_0,
                    )
                },
            forall|i: int|
                0 <= i < updates ==> {
                    &&& #[trigger] operations@[creations + i] is Update
                    &&& sub_group is Some
                    &&& is_update_of(
                        operations@[creations + i]->Update_0,
                        modified[i].1,
                        modified[i].0,
                        sub_group->Some_0,
                    )
                },
            forall|i: int|
                0 <= i < it.index() ==> #[trigger] operations@[creations + updates + i]
                    == Operation::Delete(removed[i].id),
    {
        let ghost done = it.index() as int;
        let ghost before = operations@;
        operations.push(Operation::Delete(event.id));
        assert forall|i: int| 0 <= i < done + 1 implies #[trigger] operations@[creations + updates
            + i] == Operation::Delete(removed[i].id) by {
            if i < done {
                assert(operations@[creations + updates + i] == before[creations + updates + i]);
            }
        }
        assert forall|i: int| 0 <= i < updates implies {
            &&& #[trigger] operations@[creations + i] is Update
            &&& sub_group is Some
            &&& is_update_of(
                operations@[creations + i]->Update_0,
                modified[i].1,
                modified[i].0,
                sub_group->Some_0,
            )
        } by {
            assert(operations@[creations + i] == before[creations + i]);
        }
    }
    Ok(operations)
}

} // verus!
