//! The checks a self-spot passes before it reaches the store.
use vstd::prelude::*;
use crate::error::AppError;
use crate::program::{get_program, has_capability, is_first_active, no_active, ProgramRow};
use crate::spot::{copy_opt, SpotRow};
use crate::store::{inserted, self_row, self_spot_blocked, InsertSelfSpotParams, SpotStore, SELF_SPOT_WINDOW};

verus! {

/// A self-spot as a participant submits it; the frequency is in hertz.
#[derive(Debug)]
pub struct CreateSelfSpotRequest {
    pub program_slug: String,
    pub frequency_hz: u64,
    pub mode: String,
    pub reference: Option<String>,
    pub comments: Option<String>,
}

/// The capability a program must advertise to take self-spots.
pub open spec fn self_spot_capability() -> Seq<char> {
    "selfSpot"@
}

pub open spec fn self_spot_params(owner: u128, callsign: String, req: CreateSelfSpotRequest) -> InsertSelfSpotParams {
    InsertSelfSpotParams {
        participant_id: owner,
        callsign: callsign,
        program_slug: req.program_slug,
        frequency_hz: req.frequency_hz,
        mode: req.mode,
        reference: req.reference,
        comments: req.comments,
    }
}

/// Takes a self-spot from `owner`, whose callsign is `callsign`. The program
/// must be an active catalog entry (else `ProgramNotFound`) that advertises
/// `selfSpot` (else `CapabilityNotSupported`); then the store decides, as
/// `SpotStore::insert_self_spot` says.
pub fn create_self_spot(
    store: &mut SpotStore,
    catalog: &Vec<ProgramRow>,
    owner: u128,
    callsign: &String,
    req: &CreateSelfSpotRequest,
    now: i64,
) -> (r: Result<SpotRow, AppError>)
    requires
        old(store).wf(),
        now <= i64::MAX - SELF_SPOT_WINDOW,
    ensures
        final(store).wf(),
        no_active(catalog@, req.program_slug@) ==> (r matches Err(AppError::ProgramNotFound { slug }) && slug@ == req.program_slug@
            && final(store)@ == old(store)@),
        forall|i: int|
            is_first_active(catalog@, req.program_slug@, i) && !has_capability(
                #[trigger] catalog@[i],
                self_spot_capability(),
            ) ==> (r matches Err(AppError::CapabilityNotSupported { capability, program_slug })
                && capability@ == self_spot_capability() && program_slug@ == req.program_slug@
                && final(store)@ == old(store)@),
        forall|i: int|
            is_first_active(catalog@, req.program_slug@, i) && has_capability(
                #[trigger] catalog@[i],
                self_spot_capability(),
            ) ==> {
                &&& self_spot_blocked(old(store)@, owner, req.program_slug@, now as int) ==> (r matches Err(
                    AppError::SelfSpotExists,
                ))
                &&& match r {
                    Ok(row) => {
                        &&& !self_spot_blocked(old(store)@, owner, req.program_slug@, now as int)
                        &&& row == self_row(self_spot_params(owner, *callsign, *req), old(store).next_id(), now)
                        &&& inserted(old(store)@, final(store)@, row)
                    },
                    Err(e) => final(store)@ == old(store)@ && ((e is SelfSpotExists && self_spot_blocked(
                        old(store)@,
                        owner,
                        req.program_slug@,
                        now as int,
                    )) || (e is StoreFull && !old(store).has_room() && !self_spot_blocked(
                        old(store)@,
                        owner,
                        req.program_slug@,
                        now as int,
                    ))),
                }
            },
{
    let i = match get_program(catalog, &req.program_slug) {
        Some(i) => i,
        None => return Err(AppError::ProgramNotFound { slug: req.program_slug.clone() }),
    };
    let cap = "selfSpot".to_owned();
    if !catalog[i].has_capability(&cap) {
        return Err(
            AppError::CapabilityNotSupported { capability: cap, program_slug: req.program_slug.clone() },
        );
    }
    let params = InsertSelfSpotParams {
        participant_id: owner,
        callsign: callsign.clone(),
        program_slug: req.program_slug.clone(),
        frequency_hz: req.frequency_hz,
        mode: req.mode.clone(),
        reference: copy_opt(&req.reference),
        comments: copy_opt(&req.comments),
    };
    store.insert_self_spot(&params, now)
}

} // verus!
