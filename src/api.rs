//! Deletion requests as a client makes them: a missing row is an error.
use vstd::prelude::*;
use crate::error::AppError;
use crate::store::SpotStore;

verus! {

/// Deletes the owner's own spot; `SpotNotFound` when no row with `id` was
/// submitted by `owner`.
pub fn delete_own_spot(store: &mut SpotStore, id: u64, owner: u128) -> (r: Result<(), AppError>)
    requires
        old(store).wf(),
    ensures
        final(store).wf(),
        final(store).next_id() == old(store).next_id(),
        (r is Ok) == exists|i: int| 0 <= i < old(store)@.len() && (#[trigger] old(store)@[i]).id == id
            && old(store)@[i].submitted_by == Some(owner),
        r is Ok ==> exists|i: int| 0 <= i < old(store)@.len() && (#[trigger] old(store)@[i]).id == id
            && final(store)@ == old(store)@.remove(i),
        r is Err ==> (r matches Err(AppError::SpotNotFound { spot_id }) && spot_id == id && final(store)@
            == old(store)@),
{
    if store.delete_own_spot(id, owner) {
        Ok(())
    } else {
        Err(AppError::SpotNotFound { spot_id: id })
    }
}

/// Deletes any spot; `SpotNotFound` when no row has `id`.
pub fn admin_delete_spot(store: &mut SpotStore, id: u64) -> (r: Result<(), AppError>)
    requires
        old(store).wf(),
    ensures
        final(store).wf(),
        final(store).next_id() == old(store).next_id(),
        (r is Ok) == exists|i: int| 0 <= i < old(store)@.len() && (#[trigger] old(store)@[i]).id == id,
        r is Ok ==> exists|i: int| 0 <= i < old(store)@.len() && (#[trigger] old(store)@[i]).id == id
            && final(store)@ == old(store)@.remove(i),
        r is Err ==> (r matches Err(AppError::SpotNotFound { spot_id }) && spot_id == id && final(store)@
            == old(store)@),
{
    if store.admin_delete_spot(id) {
        Ok(())
    } else {
        Err(AppError::SpotNotFound { spot_id: id })
    }
}

} // verus!
