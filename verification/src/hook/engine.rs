//! Where the parts of the engine are that the hooks replace or call.

use vstd::prelude::*;

use crate::hook::code::HookStatus;

verus! {

pub const TNM_SAVE_TO_FILE_OFFSET: usize = 0x25DE60;

pub const TNM_PACK_BUFFER_OFFSET: usize = 0x25E120;

pub const TNM_CREATE_PNG_FROM_TEXTURE_AND_SAVE_TO_FILE_OFFSET: usize = 0x2389F0;

pub const ARRAY_ALLOC_OFFSET: usize = 0x131C90;

pub const ARRAY_REPLACE_STORAGE_OFFSET: usize = 0x1A4BB0;

pub const TPC_ANGOU_TABLE_OFFSET: usize = 0x6567B0;

pub const TSTR_ASSIGN_OFFSET: usize = 0x131E70;

/// The address at an offset into the engine's module; there is none where the module is null.
pub fn main_module_offset(module: usize, offset: usize) -> (address: Result<usize, HookStatus>)
    requires
        module + offset <= usize::MAX,
    ensures
        address == if module == 0 {
            Err(HookStatus::ModuleNotFound)
        } else {
            Ok((module + offset) as usize)
        },
{
    if module == 0 {
        return Err(HookStatus::ModuleNotFound);
    }
    Ok(module + offset)
}

} // verus!
