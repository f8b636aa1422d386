//! Packing and writing a save in the background, one outside step at a time.

use vstd::prelude::*;

use crate::hook::cstr::ProgramCStr;
use crate::hook::save::{program_save_array_from_parts, save_file, AsyncSaveJob};
use crate::wide::encoded;

verus! {

/// What is to be done next for a save.
#[derive(Debug)]
pub enum JobAction {
    /// Copy the raw data into an array of the engine.
    CopyRaw,
    /// Let the engine pack that array.
    Pack,
    /// Read what the array holds now.
    ReadPacked,
    /// Copy a save file into an array of the engine.
    StoreSave(Vec<u8>),
    /// Let the engine write that array to this path.
    Save(ProgramCStr),
    /// Stop; the save went well or not.
    End(bool),
}

/// What came of the last action.
#[derive(Debug)]
pub enum JobEvent {
    RawCopied(bool),
    Packed(bool),
    PackedRead(Option<Vec<u8>>),
    SaveStored(bool),
    Saved(bool),
}

/// What follows on an event, for this save.
pub open spec fn follows(job: AsyncSaveJob, event: JobEvent, action: JobAction) -> bool {
    let failed = action == JobAction::End(false);
    match event {
        JobEvent::RawCopied(done) => if done {
            action == JobAction::Pack
        } else {
            failed
        },
        JobEvent::Packed(done) => if done {
            action == JobAction::ReadPacked
        } else {
            failed
        },
        JobEvent::PackedRead(Some(packed)) => if job.header@.len() == job.layout.data_offset
            && job.layout.data_offset + packed@.len() <= u32::MAX {
            action matches JobAction::StoreSave(save) && save@ == save_file(
                job.header@,
                packed@,
                job.layout.data_size_offset as int,
            )
        } else {
            failed
        },
        JobEvent::PackedRead(None) => failed,
        JobEvent::SaveStored(done) => if done && encoded(job.file_path@).len() <= u32::MAX {
            action matches JobAction::Save(path) && path.wf() && path.holds(
                encoded(job.file_path@),
            )
        } else {
            failed
        },
        JobEvent::Saved(done) => action == JobAction::End(done),
    }
}

/// What to do for a save, given what came of the last action. The first action is to copy the raw
/// data.
pub fn run_async_save_job(job: &AsyncSaveJob, event: JobEvent) -> (action: JobAction)
    requires
        job.layout.wf(),
    ensures
        follows(*job, event, action),
{
    match event {
        JobEvent::RawCopied(done) => if done {
            JobAction::Pack
        } else {
            JobAction::End(false)
        },
        JobEvent::Packed(done) => if done {
            JobAction::ReadPacked
        } else {
            JobAction::End(false)
        },
        JobEvent::PackedRead(packed) => match packed {
            Some(packed) => match program_save_array_from_parts(
                &job.header,
                &packed,
                &job.layout,
            ) {
                Some(save) => JobAction::StoreSave(save),
                None => JobAction::End(false),
            },
            None => JobAction::End(false),
        },
        JobEvent::SaveStored(done) => if done {
            match ProgramCStr::new(job.file_path.as_str()) {
                Some(path) => JobAction::Save(path),
                None => JobAction::End(false),
            }
        } else {
            JobAction::End(false)
        },
        JobEvent::Saved(done) => JobAction::End(done),
    }
}

} // verus!
