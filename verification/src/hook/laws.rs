//! What holds of the machine code that sends the engine's movie calls to the player.

use vstd::prelude::*;

use crate::bytes::{lemma_u32_round_trip, u32_at};
use crate::hook::code::{
    ask_and_test_code, call_code, call_view, complement, create_code, distance, ecx_eax_call,
    fill_code, get_size_code, is_rgb_code, jump_code, law_call_reaches_target, need_update_code,
    next_after, padded, patches_from, plain_view, reaches, step_at, store_code, total_time_code,
    MovieTargets, PatchStep, PatchView, MOVIE_CHECK_ERROR_NOP_OFFSET,
    MOVIE_CHECK_ERROR_PATCH_OFFSET, MOVIE_CHECK_NEED_UPDATE_PATCH_OFFSET,
    MOVIE_DESTROY_PATCH_OFFSET, MOVIE_END_LOOP_PATCH_OFFSET, MOVIE_FILL_BUFFER_PATCH_OFFSET,
    MOVIE_FILL_ECX_PATCH_OFFSET, MOVIE_FILL_FORCE_PATCH_OFFSET,
    MOVIE_IS_PLAYING_ALT_JNZ_PATCH_OFFSET, MOVIE_IS_PLAYING_ALT_PATCH_OFFSET,
    MOVIE_IS_PLAYING_JZ_PATCH_OFFSET, MOVIE_IS_PLAYING_PATCH_OFFSET, MOVIE_IS_RGB_PATCH_OFFSET,
    MOVIE_PATCH_SPAN, MOVIE_PATCH_STEPS, MOVIE_RESTRUCT_GET_SIZE_NOP_OFFSET,
    MOVIE_RESTRUCT_GET_SIZE_PATCH_OFFSET, MOVIE_RESTRUCT_INIT_CALL_OFFSET,
    MOVIE_RESTRUCT_INIT_NOP_OFFSET, MOVIE_RESTRUCT_INIT_NOP_PRE_OFFSET,
    MOVIE_RESTRUCT_LAST_ERROR_CALL_OFFSET, MOVIE_RESTRUCT_NEW_NOP_1_OFFSET,
    MOVIE_RESTRUCT_NEW_NOP_2_OFFSET, MOVIE_RESTRUCT_NEW_NOP_3_OFFSET,
    MOVIE_RESTRUCT_NEW_PATCH_OFFSET, MOVIE_RESTRUCT_NEW_STORE_PATCH_OFFSET,
    MOVIE_SEEK_NOP_PATCH_OFFSET, MOVIE_TOTAL_TIME_PATCH_OFFSET,
};

verus! {

/// Whether the instruction at `at` in a patch is `opcode` and takes the processor to `target`, by
/// the distance behind the opcode, counted from the end of the instruction.
#[verifier::opaque]
pub open spec fn leads(patch: PatchView, module: u32, at: int, opcode: u8, target: u32) -> bool {
    &&& at + 5 <= patch.bytes.len()
    &&& patch.bytes[at] == opcode
    &&& (module + patch.offset + at + 5 + u32_at(patch.bytes, at + 1)) % 0x1_0000_0000 == target
}

/// Whether a patch is made at an offset.
pub open spec fn patched_at(patches: Seq<PatchView>, offset: u32) -> bool {
    exists|i: int| 0 <= i < patches.len() && (#[trigger] patches[i]).offset == offset
}

/// All patches of a step.
spec fn all_of(step: PatchStep) -> Seq<PatchView> {
    step.before + step.rest
}

/// Every patch is one of a step.
proof fn lemma_patch_of_step(module: u32, targets: MovieTargets, index: int, i: int) -> (r: (
    int,
    int,
))
    requires
        0 <= index <= MOVIE_PATCH_STEPS,
        0 <= i < patches_from(module, targets, index).0.len(),
    ensures
        index <= r.0 < MOVIE_PATCH_STEPS,
        0 <= r.1 < all_of(step_at(module, targets, r.0)).len(),
        patches_from(module, targets, index).0[i] == all_of(step_at(module, targets, r.0))[r.1],
        r.1 < step_at(module, targets, r.0).before.len() || step_at(module, targets, r.0).reached,
    decreases MOVIE_PATCH_STEPS - index,
{
    let step = step_at(module, targets, index);
    if i < step.before.len() || (step.reached && i < all_of(step).len()) {
        (index, i)
    } else {
        lemma_patch_of_step(module, targets, index + 1, i - all_of(step).len())
    }
}

/// Where all calls reach their targets, every patch of every step is made.
proof fn lemma_step_is_made(module: u32, targets: MovieTargets, index: int, k: int, j: int) -> (r:
    int)
    requires
        0 <= index <= k < MOVIE_PATCH_STEPS,
        0 <= j < all_of(step_at(module, targets, k)).len(),
        patches_from(module, targets, index).1,
    ensures
        0 <= r < patches_from(module, targets, index).0.len(),
        patches_from(module, targets, index).0[r] == all_of(step_at(module, targets, k))[j],
    decreases k - index,
{
    let step = step_at(module, targets, index);
    if index == k {
        j
    } else {
        lemma_step_is_made(module, targets, index + 1, k, j) + all_of(step).len() as int
    }
}

/// A call that was worked out leads to its target.
proof fn lemma_leads(module: u32, offset: u32, len: int, code: Seq<u8>, at: int, target: u32)
    requires
        0 <= at,
        at + 5 <= code.len() <= len,
        module + offset + at + 5 <= u32::MAX,
        reaches(module, offset, at, target),
    ensures
        leads(call_view(module, offset, len, code, at, target), module, at, code[at], target),
{
    reveal(leads);
    let next = next_after(module, offset, at);
    let d = complement(distance(target, next)->0);
    lemma_u32_round_trip(padded(code, len), at + 1, d);
    law_call_reaches_target(target, next);
}

/// Each of the engine's calls leads to the function of the player that it is for, in whatever
/// patches are made.
pub proof fn law_calls_lead_to_their_targets(module: u32, targets: MovieTargets, i: int)
    requires
        module + MOVIE_PATCH_SPAN <= u32::MAX,
        0 <= i < patches_from(module, targets, 0).0.len(),
    ensures
        ({
            let patch = patches_from(module, targets, 0).0[i];
            &&& patch.offset == MOVIE_END_LOOP_PATCH_OFFSET ==> leads(
                patch,
                module,
                2,
                0xE8,
                targets.end_loop,
            )
            &&& patch.offset == MOVIE_IS_PLAYING_ALT_PATCH_OFFSET ==> leads(
                patch,
                module,
                2,
                0xE8,
                targets.is_playing,
            )
            &&& patch.offset == MOVIE_IS_PLAYING_PATCH_OFFSET ==> leads(
                patch,
                module,
                2,
                0xE8,
                targets.is_playing,
            )
            &&& patch.offset == MOVIE_DESTROY_PATCH_OFFSET ==> leads(
                patch,
                module,
                0,
                0xE9,
                targets.destroy,
            )
            &&& patch.offset == MOVIE_RESTRUCT_NEW_PATCH_OFFSET ==> leads(
                patch,
                module,
                3,
                0xE8,
                targets.new,
            )
            &&& patch.offset == MOVIE_RESTRUCT_INIT_CALL_OFFSET ==> leads(
                patch,
                module,
                0,
                0xE8,
                targets.init,
            )
            &&& patch.offset == MOVIE_RESTRUCT_LAST_ERROR_CALL_OFFSET ==> leads(
                patch,
                module,
                0,
                0xE8,
                targets.get_last_error,
            )
            &&& patch.offset == MOVIE_RESTRUCT_GET_SIZE_PATCH_OFFSET ==> leads(
                patch,
                module,
                14,
                0xE8,
                targets.get_size,
            )
            &&& patch.offset == MOVIE_IS_RGB_PATCH_OFFSET ==> leads(
                patch,
                module,
                3,
                0xE8,
                targets.is_rgb,
            )
            &&& patch.offset == MOVIE_TOTAL_TIME_PATCH_OFFSET ==> leads(
                patch,
                module,
                2,
                0xE8,
                targets.total_time_ms,
            )
            &&& patch.offset == MOVIE_CHECK_ERROR_PATCH_OFFSET ==> leads(
                patch,
                module,
                0,
                0xE8,
                targets.check_error,
            )
            &&& patch.offset == MOVIE_CHECK_NEED_UPDATE_PATCH_OFFSET ==> leads(
                patch,
                module,
                17,
                0xE8,
                targets.check_need_update,
            )
            &&& patch.offset == MOVIE_FILL_BUFFER_PATCH_OFFSET ==> leads(
                patch,
                module,
                14,
                0xE8,
                targets.fill_buffer,
            )
        }),
{
    let (k, j) = lemma_patch_of_step(module, targets, 0, i);
    lemma_step_leads(module, targets, k, j);
}

/// The calls of one step lead to their targets.
#[verifier::rlimit(100)]
proof fn lemma_step_leads(module: u32, targets: MovieTargets, k: int, j: int)
    requires
        module + MOVIE_PATCH_SPAN <= u32::MAX,
        0 <= k < MOVIE_PATCH_STEPS,
        0 <= j < all_of(step_at(module, targets, k)).len(),
        j < step_at(module, targets, k).before.len() || step_at(module, targets, k).reached,
    ensures
        ({
            let patch = all_of(step_at(module, targets, k))[j];
            &&& patch.offset == MOVIE_END_LOOP_PATCH_OFFSET ==> leads(
                patch,
                module,
                2,
                0xE8,
                targets.end_loop,
            )
            &&& patch.offset == MOVIE_IS_PLAYING_ALT_PATCH_OFFSET ==> leads(
                patch,
                module,
                2,
                0xE8,
                targets.is_playing,
            )
            &&& patch.offset == MOVIE_IS_PLAYING_PATCH_OFFSET ==> leads(
                patch,
                module,
                2,
                0xE8,
                targets.is_playing,
            )
            &&& patch.offset == MOVIE_DESTROY_PATCH_OFFSET ==> leads(
                patch,
                module,
                0,
                0xE9,
                targets.destroy,
            )
            &&& patch.offset == MOVIE_RESTRUCT_NEW_PATCH_OFFSET ==> leads(
                patch,
                module,
                3,
                0xE8,
                targets.new,
            )
            &&& patch.offset == MOVIE_RESTRUCT_INIT_CALL_OFFSET ==> leads(
                patch,
                module,
                0,
                0xE8,
                targets.init,
            )
            &&& patch.offset == MOVIE_RESTRUCT_LAST_ERROR_CALL_OFFSET ==> leads(
                patch,
                module,
                0,
                0xE8,
                targets.get_last_error,
            )
            &&& patch.offset == MOVIE_RESTRUCT_GET_SIZE_PATCH_OFFSET ==> leads(
                patch,
                module,
                14,
                0xE8,
                targets.get_size,
            )
            &&& patch.offset == MOVIE_IS_RGB_PATCH_OFFSET ==> leads(
                patch,
                module,
                3,
                0xE8,
                targets.is_rgb,
            )
            &&& patch.offset == MOVIE_TOTAL_TIME_PATCH_OFFSET ==> leads(
                patch,
                module,
                2,
                0xE8,
                targets.total_time_ms,
            )
            &&& patch.offset == MOVIE_CHECK_ERROR_PATCH_OFFSET ==> leads(
                patch,
                module,
                0,
                0xE8,
                targets.check_error,
            )
            &&& patch.offset == MOVIE_CHECK_NEED_UPDATE_PATCH_OFFSET ==> leads(
                patch,
                module,
                17,
                0xE8,
                targets.check_need_update,
            )
            &&& patch.offset == MOVIE_FILL_BUFFER_PATCH_OFFSET ==> leads(
                patch,
                module,
                14,
                0xE8,
                targets.fill_buffer,
            )
        }),
{
    let step = step_at(module, targets, k);
    if step.reached {
        if k == 0 {
            lemma_leads(
                module,
                MOVIE_END_LOOP_PATCH_OFFSET,
                9,
                ecx_eax_call(),
                2,
                targets.end_loop,
            );
        } else if k == 1 {
            lemma_leads(
                module,
                MOVIE_IS_PLAYING_ALT_PATCH_OFFSET,
                18,
                ask_and_test_code(),
                2,
                targets.is_playing,
            );
        } else if k == 3 {
            lemma_leads(
                module,
                MOVIE_IS_PLAYING_PATCH_OFFSET,
                18,
                ask_and_test_code(),
                2,
                targets.is_playing,
            );
        } else if k == 5 {
            lemma_leads(
                module,
                MOVIE_DESTROY_PATCH_OFFSET,
                5,
                jump_code(),
                0,
                targets.destroy,
            );
        } else if k == 6 {
            lemma_leads(
                module,
                MOVIE_RESTRUCT_NEW_PATCH_OFFSET,
                156,
                create_code(),
                3,
                targets.new,
            );
        } else if k == 8 {
            lemma_leads(
                module,
                MOVIE_RESTRUCT_INIT_CALL_OFFSET,
                5,
                call_code(),
                0,
                targets.init,
            );
        } else if k == 9 {
            lemma_leads(
                module,
                MOVIE_RESTRUCT_LAST_ERROR_CALL_OFFSET,
                5,
                call_code(),
                0,
                targets.get_last_error,
            );
        } else if k == 10 {
            lemma_leads(
                module,
                MOVIE_RESTRUCT_GET_SIZE_PATCH_OFFSET,
                44,
                get_size_code(),
                14,
                targets.get_size,
            );
        } else if k == 11 {
            lemma_leads(
                module,
                MOVIE_IS_RGB_PATCH_OFFSET,
                31,
                is_rgb_code(),
                3,
                targets.is_rgb,
            );
        } else if k == 12 {
            lemma_leads(
                module,
                MOVIE_TOTAL_TIME_PATCH_OFFSET,
                8,
                total_time_code(),
                2,
                targets.total_time_ms,
            );
        } else if k == 13 {
            lemma_leads(
                module,
                MOVIE_CHECK_ERROR_PATCH_OFFSET,
                5,
                call_code(),
                0,
                targets.check_error,
            );
        } else if k == 14 {
            lemma_leads(
                module,
                MOVIE_CHECK_NEED_UPDATE_PATCH_OFFSET,
                30,
                need_update_code(),
                17,
                targets.check_need_update,
            );
        } else if k == 17 {
            lemma_leads(
                module,
                MOVIE_FILL_BUFFER_PATCH_OFFSET,
                58,
                fill_code(),
                14,
                targets.fill_buffer,
            );
        }
    }
}

/// Where every call reaches its target, all of the engine's calls are sent to the player; and they
/// do where the module and the player lie in the lower half of the address space.
pub proof fn law_all_calls_are_patched(module: u32, targets: MovieTargets)
    requires
        module + MOVIE_PATCH_SPAN <= u32::MAX,
    ensures
        patches_from(module, targets, 0).1 ==> {
            let patches = patches_from(module, targets, 0).0;
            &&& patched_at(patches, MOVIE_END_LOOP_PATCH_OFFSET)
            &&& patched_at(patches, MOVIE_IS_PLAYING_ALT_PATCH_OFFSET)
            &&& patched_at(patches, MOVIE_IS_PLAYING_ALT_JNZ_PATCH_OFFSET)
            &&& patched_at(patches, MOVIE_IS_PLAYING_PATCH_OFFSET)
            &&& patched_at(patches, MOVIE_IS_PLAYING_JZ_PATCH_OFFSET)
            &&& patched_at(patches, MOVIE_SEEK_NOP_PATCH_OFFSET)
            &&& patched_at(patches, MOVIE_DESTROY_PATCH_OFFSET)
            &&& patched_at(patches, MOVIE_RESTRUCT_NEW_PATCH_OFFSET)
            &&& patched_at(patches, MOVIE_RESTRUCT_NEW_NOP_1_OFFSET)
            &&& patched_at(patches, MOVIE_RESTRUCT_NEW_STORE_PATCH_OFFSET)
            &&& patched_at(patches, MOVIE_RESTRUCT_NEW_NOP_2_OFFSET)
            &&& patched_at(patches, MOVIE_RESTRUCT_NEW_NOP_3_OFFSET)
            &&& patched_at(patches, MOVIE_RESTRUCT_INIT_NOP_PRE_OFFSET)
            &&& patched_at(patches, MOVIE_RESTRUCT_INIT_NOP_OFFSET)
            &&& patched_at(patches, MOVIE_RESTRUCT_INIT_CALL_OFFSET)
            &&& patched_at(patches, MOVIE_RESTRUCT_LAST_ERROR_CALL_OFFSET)
            &&& patched_at(patches, MOVIE_RESTRUCT_GET_SIZE_PATCH_OFFSET)
            &&& patched_at(patches, MOVIE_RESTRUCT_GET_SIZE_NOP_OFFSET)
            &&& patched_at(patches, MOVIE_IS_RGB_PATCH_OFFSET)
            &&& patched_at(patches, MOVIE_TOTAL_TIME_PATCH_OFFSET)
            &&& patched_at(patches, MOVIE_CHECK_ERROR_NOP_OFFSET)
            &&& patched_at(patches, MOVIE_CHECK_ERROR_PATCH_OFFSET)
            &&& patched_at(patches, MOVIE_CHECK_NEED_UPDATE_PATCH_OFFSET)
            &&& patched_at(patches, MOVIE_FILL_ECX_PATCH_OFFSET)
            &&& patched_at(patches, MOVIE_FILL_FORCE_PATCH_OFFSET)
            &&& patched_at(patches, MOVIE_FILL_BUFFER_PATCH_OFFSET)
        },
        module + MOVIE_PATCH_SPAN < 0x8000_0000 && targets_in_lower_half(targets)
            ==> patches_from(module, targets, 0).1,
{
    if patches_from(module, targets, 0).1 {
        let _ = lemma_step_is_made(module, targets, 0, 0, 0);
        let _ = lemma_step_is_made(module, targets, 0, 1, 0);
        let _ = lemma_step_is_made(module, targets, 0, 2, 0);
        let _ = lemma_step_is_made(module, targets, 0, 3, 0);
        let _ = lemma_step_is_made(module, targets, 0, 3, 1);
        let _ = lemma_step_is_made(module, targets, 0, 4, 0);
        let _ = lemma_step_is_made(module, targets, 0, 5, 0);
        let _ = lemma_step_is_made(module, targets, 0, 6, 0);
        let _ = lemma_step_is_made(module, targets, 0, 7, 0);
        let _ = lemma_step_is_made(module, targets, 0, 7, 1);
        let _ = lemma_step_is_made(module, targets, 0, 7, 2);
        let _ = lemma_step_is_made(module, targets, 0, 7, 3);
        let _ = lemma_step_is_made(module, targets, 0, 8, 0);
        let _ = lemma_step_is_made(module, targets, 0, 8, 1);
        let _ = lemma_step_is_made(module, targets, 0, 8, 2);
        let _ = lemma_step_is_made(module, targets, 0, 9, 0);
        let _ = lemma_step_is_made(module, targets, 0, 10, 0);
        let _ = lemma_step_is_made(module, targets, 0, 10, 1);
        let _ = lemma_step_is_made(module, targets, 0, 11, 0);
        let _ = lemma_step_is_made(module, targets, 0, 12, 0);
        let _ = lemma_step_is_made(module, targets, 0, 13, 0);
        let _ = lemma_step_is_made(module, targets, 0, 13, 1);
        let _ = lemma_step_is_made(module, targets, 0, 14, 0);
        let _ = lemma_step_is_made(module, targets, 0, 15, 0);
        let _ = lemma_step_is_made(module, targets, 0, 16, 0);
        let _ = lemma_step_is_made(module, targets, 0, 17, 0);
    }
    if module + MOVIE_PATCH_SPAN < 0x8000_0000 && targets_in_lower_half(targets) {
        lemma_all_reach(module, targets, 0);
    }
}

/// Whether the player's functions lie in the lower half of the address space.
pub open spec fn targets_in_lower_half(targets: MovieTargets) -> bool {
    &&& targets.end_loop < 0x8000_0000
    &&& targets.is_playing < 0x8000_0000
    &&& targets.destroy < 0x8000_0000
    &&& targets.new < 0x8000_0000
    &&& targets.init < 0x8000_0000
    &&& targets.get_last_error < 0x8000_0000
    &&& targets.get_size < 0x8000_0000
    &&& targets.is_rgb < 0x8000_0000
    &&& targets.total_time_ms < 0x8000_0000
    &&& targets.check_error < 0x8000_0000
    &&& targets.check_need_update < 0x8000_0000
    &&& targets.fill_buffer < 0x8000_0000
}

proof fn lemma_all_reach(module: u32, targets: MovieTargets, index: int)
    requires
        module + MOVIE_PATCH_SPAN < 0x8000_0000,
        targets_in_lower_half(targets),
        0 <= index <= MOVIE_PATCH_STEPS,
    ensures
        patches_from(module, targets, index).1,
    decreases MOVIE_PATCH_STEPS - index,
{
    if index < MOVIE_PATCH_STEPS {
        lemma_all_reach(module, targets, index + 1);
    }
}

/// Whether a patch is `len` bytes long and holds `before`, an instruction of five bytes and
/// `after`, with instructions that do nothing behind them.
#[verifier::opaque]
pub open spec fn surrounds(
    patch: PatchView,
    before: Seq<u8>,
    after: Seq<u8>,
    len: int,
) -> bool {
    let at = before.len() as int;
    let end = at + 5 + after.len();
    &&& patch.bytes.len() == len
    &&& end <= len
    &&& patch.bytes.subrange(0, at) == before
    &&& patch.bytes.subrange(at + 5, end) == after
    &&& forall|i: int| end <= i < len ==> #[trigger] patch.bytes[i] == 0x90
}

/// Whether a patch is `len` bytes long and holds `code`, with instructions that do nothing behind
/// it.
#[verifier::opaque]
pub open spec fn writes(patch: PatchView, code: Seq<u8>, len: int) -> bool {
    &&& patch.bytes.len() == len
    &&& code.len() <= len
    &&& patch.bytes.subrange(0, code.len() as int) == code
    &&& forall|i: int| code.len() <= i < len ==> #[trigger] patch.bytes[i] == 0x90
}

proof fn lemma_surrounds(
    module: u32,
    offset: u32,
    len: int,
    code: Seq<u8>,
    at: int,
    target: u32,
    before: Seq<u8>,
    after: Seq<u8>,
)
    requires
        at + 5 <= code.len() <= len,
        before.len() == at,
        forall|i: int| 0 <= i < at ==> code[i] == #[trigger] before[i],
        at + 5 + after.len() <= code.len(),
        forall|i: int| 0 <= i < after.len() ==> code[at + 5 + i] == #[trigger] after[i],
        forall|i: int| at + 5 + after.len() <= i < code.len() ==> #[trigger] code[i] == 0x90,
    ensures
        surrounds(call_view(module, offset, len, code, at, target), before, after, len),
{
    reveal(surrounds);
    let bytes = call_view(module, offset, len, code, at, target).bytes;
    assert(bytes.subrange(0, at) =~= before);
    assert(bytes.subrange(at + 5, at + 5 + after.len()) =~= after);
}

proof fn lemma_writes(offset: u32, given: Seq<u8>, code: Seq<u8>, len: int)
    requires
        code.len() <= given.len() <= len,
        forall|i: int| 0 <= i < code.len() ==> given[i] == #[trigger] code[i],
        forall|i: int| code.len() <= i < given.len() ==> #[trigger] given[i] == 0x90,
    ensures
        writes(plain_view(offset, padded(given, len)), code, len),
{
    reveal(writes);
    assert(padded(given, len).subrange(0, code.len() as int) =~= code);
}

/// The engine's code round each call hands the player what it asks for and takes the answer from
/// where the player leaves it, what it did in place of the call is taken out, and the two branches
/// behind the question whether a movie plays are turned round.
pub proof fn law_code_round_the_calls(module: u32, targets: MovieTargets, i: int)
    requires
        module + MOVIE_PATCH_SPAN <= u32::MAX,
        0 <= i < patches_from(module, targets, 0).0.len(),
    ensures
        ({
            let patch = patches_from(module, targets, 0).0[i];
            &&& patch.offset == MOVIE_END_LOOP_PATCH_OFFSET ==> surrounds(
                patch,
                seq![0x8Bu8, 0xC8],
                seq![],
                9,
            )
            &&& patch.offset == MOVIE_IS_PLAYING_ALT_PATCH_OFFSET ==> surrounds(
                patch,
                seq![0x8Bu8, 0xC8],
                seq![0x84u8, 0xC0],
                18,
            )
            &&& patch.offset == MOVIE_IS_PLAYING_PATCH_OFFSET ==> surrounds(
                patch,
                seq![0x8Bu8, 0xC8],
                seq![0x84u8, 0xC0],
                18,
            )
            &&& patch.offset == MOVIE_DESTROY_PATCH_OFFSET ==> surrounds(
                patch,
                seq![],
                seq![],
                5,
            )
            &&& patch.offset == MOVIE_RESTRUCT_NEW_PATCH_OFFSET ==> surrounds(
                patch,
                seq![0x83u8, 0xC4, 0x04],
                seq![0x8Bu8, 0xF8, 0x89, 0xBD, 0x60, 0xFF, 0xFF, 0xFF],
                156,
            )
            &&& patch.offset == MOVIE_RESTRUCT_INIT_CALL_OFFSET ==> surrounds(
                patch,
                seq![],
                seq![],
                5,
            )
            &&& patch.offset == MOVIE_RESTRUCT_LAST_ERROR_CALL_OFFSET ==> surrounds(
                patch,
                seq![],
                seq![],
                5,
            )
            &&& patch.offset == MOVIE_RESTRUCT_GET_SIZE_PATCH_OFFSET ==> surrounds(
                patch,
                seq![
                    0x8Bu8, 0x8F, 0xF0, 0x15, 0x00, 0x00, 0x8D, 0x45, 0xE0, 0x50, 0x8D, 0x45, 0xDC,
                    0x50,
                ],
                seq![0x8Du8, 0x4D, 0xB8],
                44,
            )
            &&& patch.offset == MOVIE_IS_RGB_PATCH_OFFSET ==> surrounds(
                patch,
                seq![0x51u8, 0x8B, 0xC8],
                seq![0x59u8, 0x85, 0xC0],
                31,
            )
            &&& patch.offset == MOVIE_TOTAL_TIME_PATCH_OFFSET ==> surrounds(
                patch,
                seq![0x8Bu8, 0xC8],
                seq![],
                8,
            )
            &&& patch.offset == MOVIE_CHECK_ERROR_PATCH_OFFSET ==> surrounds(
                patch,
                seq![],
                seq![],
                5,
            )
            &&& patch.offset == MOVIE_CHECK_NEED_UPDATE_PATCH_OFFSET ==> surrounds(
                patch,
                seq![
                    0x80u8, 0x7D, 0xE8, 0x00, 0x0F, 0x95, 0xC0, 0x0F, 0xB6, 0xC0, 0x50, 0xFF, 0x75,
                    0xE4, 0x8B, 0x4D, 0xEC,
                ],
                seq![0x33u8, 0xC9, 0x84, 0xC0],
                30,
            )
            &&& patch.offset == MOVIE_FILL_BUFFER_PATCH_OFFSET ==> surrounds(
                patch,
                seq![
                    0xFFu8, 0x75, 0xE0, 0xFF, 0x75, 0xDC, 0xFF, 0xB7, 0xF8, 0x15, 0x00, 0x00, 0x8B,
                    0xCA,
                ],
                seq![],
                58,
            )
            &&& patch.offset == MOVIE_IS_PLAYING_ALT_JNZ_PATCH_OFFSET ==> writes(
                patch,
                seq![0x75u8],
                1,
            )
            &&& patch.offset == MOVIE_IS_PLAYING_JZ_PATCH_OFFSET ==> writes(
                patch,
                seq![0x74u8],
                1,
            )
            &&& patch.offset == MOVIE_SEEK_NOP_PATCH_OFFSET ==> writes(
                patch,
                seq![],
                15,
            )
            &&& patch.offset == MOVIE_RESTRUCT_NEW_NOP_1_OFFSET ==> writes(
                patch,
                seq![],
                7,
            )
            &&& patch.offset == MOVIE_RESTRUCT_NEW_STORE_PATCH_OFFSET ==> writes(
                patch,
                seq![
                    0x8Bu8, 0x95, 0x64, 0xFF, 0xFF, 0xFF, 0x8B, 0x52, 0x04, 0x89, 0x55, 0xE4, 0x8B,
                    0x95, 0x5C, 0xFF, 0xFF, 0xFF, 0x33, 0xFF, 0x8B, 0x85, 0x60, 0xFF, 0xFF, 0xFF,
                    0x89, 0x82, 0xF0, 0x15, 0x00, 0x00, 0x8B, 0x82, 0xF4, 0x15, 0x00, 0x00, 0x89,
                    0xBD, 0x60, 0xFF, 0xFF, 0xFF, 0x8B, 0x4D, 0xE4, 0x89, 0x45, 0xE4, 0x89, 0x8A,
                    0xF4, 0x15, 0x00, 0x00,
                ],
                125,
            )
            &&& patch.offset == MOVIE_RESTRUCT_NEW_NOP_2_OFFSET ==> writes(
                patch,
                seq![],
                3,
            )
            &&& patch.offset == MOVIE_RESTRUCT_NEW_NOP_3_OFFSET ==> writes(
                patch,
                seq![],
                36,
            )
            &&& patch.offset == MOVIE_RESTRUCT_INIT_NOP_PRE_OFFSET ==> writes(
                patch,
                seq![0x8Bu8, 0xC8],
                2,
            )
            &&& patch.offset == MOVIE_RESTRUCT_INIT_NOP_OFFSET ==> writes(
                patch,
                seq![],
                1,
            )
            &&& patch.offset == MOVIE_RESTRUCT_GET_SIZE_NOP_OFFSET ==> writes(
                patch,
                seq![],
                3,
            )
            &&& patch.offset == MOVIE_CHECK_ERROR_NOP_OFFSET ==> writes(
                patch,
                seq![],
                2,
            )
            &&& patch.offset == MOVIE_FILL_ECX_PATCH_OFFSET ==> writes(
                patch,
                seq![0x8Bu8, 0xC8],
                2,
            )
            &&& patch.offset == MOVIE_FILL_FORCE_PATCH_OFFSET ==> writes(
                patch,
                seq![0xB0u8, 0x01],
                5,
            )
        }),
{
    let (k, j) = lemma_patch_of_step(module, targets, 0, i);
    lemma_step_code(module, targets, k, j);
}

#[verifier::rlimit(100)]
proof fn lemma_step_code(module: u32, targets: MovieTargets, k: int, j: int)
    requires
        module + MOVIE_PATCH_SPAN <= u32::MAX,
        0 <= k < MOVIE_PATCH_STEPS,
        0 <= j < all_of(step_at(module, targets, k)).len(),
    ensures
        ({
            let patch = all_of(step_at(module, targets, k))[j];
            &&& patch.offset == MOVIE_END_LOOP_PATCH_OFFSET ==> surrounds(
                patch,
                seq![0x8Bu8, 0xC8],
                seq![],
                9,
            )
            &&& patch.offset == MOVIE_IS_PLAYING_ALT_PATCH_OFFSET ==> surrounds(
                patch,
                seq![0x8Bu8, 0xC8],
                seq![0x84u8, 0xC0],
                18,
            )
            &&& patch.offset == MOVIE_IS_PLAYING_PATCH_OFFSET ==> surrounds(
                patch,
                seq![0x8Bu8, 0xC8],
                seq![0x84u8, 0xC0],
                18,
            )
            &&& patch.offset == MOVIE_DESTROY_PATCH_OFFSET ==> surrounds(
                patch,
                seq![],
                seq![],
                5,
            )
            &&& patch.offset == MOVIE_RESTRUCT_NEW_PATCH_OFFSET ==> surrounds(
                patch,
                seq![0x83u8, 0xC4, 0x04],
                seq![0x8Bu8, 0xF8, 0x89, 0xBD, 0x60, 0xFF, 0xFF, 0xFF],
                156,
            )
            &&& patch.offset == MOVIE_RESTRUCT_INIT_CALL_OFFSET ==> surrounds(
                patch,
                seq![],
                seq![],
                5,
            )
            &&& patch.offset == MOVIE_RESTRUCT_LAST_ERROR_CALL_OFFSET ==> surrounds(
                patch,
                seq![],
                seq![],
                5,
            )
            &&& patch.offset == MOVIE_RESTRUCT_GET_SIZE_PATCH_OFFSET ==> surrounds(
                patch,
                seq![
                    0x8Bu8, 0x8F, 0xF0, 0x15, 0x00, 0x00, 0x8D, 0x45, 0xE0, 0x50, 0x8D, 0x45, 0xDC,
                    0x50,
                ],
                seq![0x8Du8, 0x4D, 0xB8],
                44,
            )
            &&& patch.offset == MOVIE_IS_RGB_PATCH_OFFSET ==> surrounds(
                patch,
                seq![0x51u8, 0x8B, 0xC8],
                seq![0x59u8, 0x85, 0xC0],
                31,
            )
            &&& patch.offset == MOVIE_TOTAL_TIME_PATCH_OFFSET ==> surrounds(
                patch,
                seq![0x8Bu8, 0xC8],
                seq![],
                8,
            )
            &&& patch.offset == MOVIE_CHECK_ERROR_PATCH_OFFSET ==> surrounds(
                patch,
                seq![],
                seq![],
                5,
            )
            &&& patch.offset == MOVIE_CHECK_NEED_UPDATE_PATCH_OFFSET ==> surrounds(
                patch,
                seq![
                    0x80u8, 0x7D, 0xE8, 0x00, 0x0F, 0x95, 0xC0, 0x0F, 0xB6, 0xC0, 0x50, 0xFF, 0x75,
                    0xE4, 0x8B, 0x4D, 0xEC,
                ],
                seq![0x33u8, 0xC9, 0x84, 0xC0],
                30,
            )
            &&& patch.offset == MOVIE_FILL_BUFFER_PATCH_OFFSET ==> surrounds(
                patch,
                seq![
                    0xFFu8, 0x75, 0xE0, 0xFF, 0x75, 0xDC, 0xFF, 0xB7, 0xF8, 0x15, 0x00, 0x00, 0x8B,
                    0xCA,
                ],
                seq![],
                58,
            )
            &&& patch.offset == MOVIE_IS_PLAYING_ALT_JNZ_PATCH_OFFSET ==> writes(
                patch,
                seq![0x75u8],
                1,
            )
            &&& patch.offset == MOVIE_IS_PLAYING_JZ_PATCH_OFFSET ==> writes(
                patch,
                seq![0x74u8],
                1,
            )
            &&& patch.offset == MOVIE_SEEK_NOP_PATCH_OFFSET ==> writes(
                patch,
                seq![],
                15,
            )
            &&& patch.offset == MOVIE_RESTRUCT_NEW_NOP_1_OFFSET ==> writes(
                patch,
                seq![],
                7,
            )
            &&& patch.offset == MOVIE_RESTRUCT_NEW_STORE_PATCH_OFFSET ==> writes(
                patch,
                seq![
                    0x8Bu8, 0x95, 0x64, 0xFF, 0xFF, 0xFF, 0x8B, 0x52, 0x04, 0x89, 0x55, 0xE4, 0x8B,
                    0x95, 0x5C, 0xFF, 0xFF, 0xFF, 0x33, 0xFF, 0x8B, 0x85, 0x60, 0xFF, 0xFF, 0xFF,
                    0x89, 0x82, 0xF0, 0x15, 0x00, 0x00, 0x8B, 0x82, 0xF4, 0x15, 0x00, 0x00, 0x89,
                    0xBD, 0x60, 0xFF, 0xFF, 0xFF, 0x8B, 0x4D, 0xE4, 0x89, 0x45, 0xE4, 0x89, 0x8A,
                    0xF4, 0x15, 0x00, 0x00,
                ],
                125,
            )
            &&& patch.offset == MOVIE_RESTRUCT_NEW_NOP_2_OFFSET ==> writes(
                patch,
                seq![],
                3,
            )
            &&& patch.offset == MOVIE_RESTRUCT_NEW_NOP_3_OFFSET ==> writes(
                patch,
                seq![],
                36,
            )
            &&& patch.offset == MOVIE_RESTRUCT_INIT_NOP_PRE_OFFSET ==> writes(
                patch,
                seq![0x8Bu8, 0xC8],
                2,
            )
            &&& patch.offset == MOVIE_RESTRUCT_INIT_NOP_OFFSET ==> writes(
                patch,
                seq![],
                1,
            )
            &&& patch.offset == MOVIE_RESTRUCT_GET_SIZE_NOP_OFFSET ==> writes(
                patch,
                seq![],
                3,
            )
            &&& patch.offset == MOVIE_CHECK_ERROR_NOP_OFFSET ==> writes(
                patch,
                seq![],
                2,
            )
            &&& patch.offset == MOVIE_FILL_ECX_PATCH_OFFSET ==> writes(
                patch,
                seq![0x8Bu8, 0xC8],
                2,
            )
            &&& patch.offset == MOVIE_FILL_FORCE_PATCH_OFFSET ==> writes(
                patch,
                seq![0xB0u8, 0x01],
                5,
            )
        }),
{
    if k == 0 {
        lemma_surrounds(
            module,
            MOVIE_END_LOOP_PATCH_OFFSET,
            9,
            ecx_eax_call(),
            2,
            targets.end_loop,
            seq![0x8Bu8, 0xC8],
            seq![],
        );
    } else if k == 1 {
        lemma_surrounds(
            module,
            MOVIE_IS_PLAYING_ALT_PATCH_OFFSET,
            18,
            ask_and_test_code(),
            2,
            targets.is_playing,
            seq![0x8Bu8, 0xC8],
            seq![0x84u8, 0xC0],
        );
    } else if k == 2 {
        lemma_writes(MOVIE_IS_PLAYING_ALT_JNZ_PATCH_OFFSET, seq![0x75u8], seq![0x75u8], 1);
    } else if k == 3 {
        lemma_surrounds(
            module,
            MOVIE_IS_PLAYING_PATCH_OFFSET,
            18,
            ask_and_test_code(),
            2,
            targets.is_playing,
            seq![0x8Bu8, 0xC8],
            seq![0x84u8, 0xC0],
        );
        lemma_writes(MOVIE_IS_PLAYING_JZ_PATCH_OFFSET, seq![0x74u8], seq![0x74u8], 1);
    } else if k == 4 {
        lemma_writes(MOVIE_SEEK_NOP_PATCH_OFFSET, seq![], seq![], 15);
    } else if k == 5 {
        lemma_surrounds(
            module,
            MOVIE_DESTROY_PATCH_OFFSET,
            5,
            jump_code(),
            0,
            targets.destroy,
            seq![],
            seq![],
        );
    } else if k == 6 {
        lemma_surrounds(
            module,
            MOVIE_RESTRUCT_NEW_PATCH_OFFSET,
            156,
            create_code(),
            3,
            targets.new,
            seq![0x83u8, 0xC4, 0x04],
            seq![0x8Bu8, 0xF8, 0x89, 0xBD, 0x60, 0xFF, 0xFF, 0xFF],
        );
    } else if k == 7 {
        lemma_writes(MOVIE_RESTRUCT_NEW_NOP_1_OFFSET, seq![], seq![], 7);
        lemma_writes(MOVIE_RESTRUCT_NEW_STORE_PATCH_OFFSET, store_code(), store_code(), 125);
        assert(store_code() =~= seq![
            0x8Bu8, 0x95, 0x64, 0xFF, 0xFF, 0xFF, 0x8B, 0x52, 0x04, 0x89, 0x55, 0xE4, 0x8B, 0x95,
            0x5C, 0xFF, 0xFF, 0xFF, 0x33, 0xFF, 0x8B, 0x85, 0x60, 0xFF, 0xFF, 0xFF, 0x89, 0x82,
            0xF0, 0x15, 0x00, 0x00, 0x8B, 0x82, 0xF4, 0x15, 0x00, 0x00, 0x89, 0xBD, 0x60, 0xFF,
            0xFF, 0xFF, 0x8B, 0x4D, 0xE4, 0x89, 0x45, 0xE4, 0x89, 0x8A, 0xF4, 0x15, 0x00, 0x00,
        ]);
        lemma_writes(MOVIE_RESTRUCT_NEW_NOP_2_OFFSET, seq![], seq![], 3);
        lemma_writes(MOVIE_RESTRUCT_NEW_NOP_3_OFFSET, seq![], seq![], 36);
    } else if k == 8 {
        lemma_surrounds(
            module,
            MOVIE_RESTRUCT_INIT_CALL_OFFSET,
            5,
            call_code(),
            0,
            targets.init,
            seq![],
            seq![],
        );
        lemma_writes(MOVIE_RESTRUCT_INIT_NOP_PRE_OFFSET, seq![0x8Bu8, 0xC8], seq![0x8Bu8, 0xC8], 2);
        lemma_writes(MOVIE_RESTRUCT_INIT_NOP_OFFSET, seq![0x90u8], seq![], 1);
    } else if k == 9 {
        lemma_surrounds(
            module,
            MOVIE_RESTRUCT_LAST_ERROR_CALL_OFFSET,
            5,
            call_code(),
            0,
            targets.get_last_error,
            seq![],
            seq![],
        );
    } else if k == 10 {
        lemma_surrounds(
            module,
            MOVIE_RESTRUCT_GET_SIZE_PATCH_OFFSET,
            44,
            get_size_code(),
            14,
            targets.get_size,
            seq![
                0x8Bu8, 0x8F, 0xF0, 0x15, 0x00, 0x00, 0x8D, 0x45, 0xE0, 0x50, 0x8D, 0x45, 0xDC,
                0x50,
            ],
            seq![0x8Du8, 0x4D, 0xB8],
        );
        lemma_writes(MOVIE_RESTRUCT_GET_SIZE_NOP_OFFSET, seq![0x90u8, 0x90, 0x90], seq![], 3);
    } else if k == 11 {
        lemma_surrounds(
            module,
            MOVIE_IS_RGB_PATCH_OFFSET,
            31,
            is_rgb_code(),
            3,
            targets.is_rgb,
            seq![0x51u8, 0x8B, 0xC8],
            seq![0x59u8, 0x85, 0xC0],
        );
    } else if k == 12 {
        lemma_surrounds(
            module,
            MOVIE_TOTAL_TIME_PATCH_OFFSET,
            8,
            total_time_code(),
            2,
            targets.total_time_ms,
            seq![0x8Bu8, 0xC8],
            seq![],
        );
    } else if k == 13 {
        lemma_surrounds(
            module,
            MOVIE_CHECK_ERROR_PATCH_OFFSET,
            5,
            call_code(),
            0,
            targets.check_error,
            seq![],
            seq![],
        );
        lemma_writes(MOVIE_CHECK_ERROR_NOP_OFFSET, seq![0x90u8, 0x90], seq![], 2);
    } else if k == 14 {
        lemma_surrounds(
            module,
            MOVIE_CHECK_NEED_UPDATE_PATCH_OFFSET,
            30,
            need_update_code(),
            17,
            targets.check_need_update,
            seq![
                0x80u8, 0x7D, 0xE8, 0x00, 0x0F, 0x95, 0xC0, 0x0F, 0xB6, 0xC0, 0x50, 0xFF, 0x75,
                0xE4, 0x8B, 0x4D, 0xEC,
            ],
            seq![0x33u8, 0xC9, 0x84, 0xC0],
        );
    } else if k == 15 {
        lemma_writes(MOVIE_FILL_ECX_PATCH_OFFSET, seq![0x8Bu8, 0xC8], seq![0x8Bu8, 0xC8], 2);
    } else if k == 16 {
        lemma_writes(MOVIE_FILL_FORCE_PATCH_OFFSET, seq![0xB0u8, 0x01], seq![0xB0u8, 0x01], 5);
    } else if k == 17 {
        lemma_surrounds(
            module,
            MOVIE_FILL_BUFFER_PATCH_OFFSET,
            58,
            fill_code(),
            14,
            targets.fill_buffer,
            seq![
                0xFFu8, 0x75, 0xE0, 0xFF, 0x75, 0xDC, 0xFF, 0xB7, 0xF8, 0x15, 0x00, 0x00, 0x8B,
                0xCA,
            ],
            seq![],
        );
    }
}

/// Where the calls and what goes with them stand in the engine's module.
pub proof fn law_places_in_the_engine()
    ensures
        MOVIE_END_LOOP_PATCH_OFFSET == 0x15C329,
        MOVIE_IS_PLAYING_ALT_PATCH_OFFSET == 0x1FB8E9,
        MOVIE_IS_PLAYING_ALT_JNZ_PATCH_OFFSET == 0x1FB8FB,
        MOVIE_IS_PLAYING_PATCH_OFFSET == 0x2035BA,
        MOVIE_IS_PLAYING_JZ_PATCH_OFFSET == 0x2035CC,
        MOVIE_SEEK_NOP_PATCH_OFFSET == 0x15C29A,
        MOVIE_DESTROY_PATCH_OFFSET == 0x2F2523,
        MOVIE_RESTRUCT_NEW_PATCH_OFFSET == 0x202DAA,
        MOVIE_RESTRUCT_NEW_NOP_1_OFFSET == 0x202EC1,
        MOVIE_RESTRUCT_NEW_STORE_PATCH_OFFSET == 0x202ECC,
        MOVIE_RESTRUCT_NEW_NOP_2_OFFSET == 0x202F77,
        MOVIE_RESTRUCT_NEW_NOP_3_OFFSET == 0x202F7E,
        MOVIE_RESTRUCT_INIT_NOP_PRE_OFFSET == 0x202FB9,
        MOVIE_RESTRUCT_INIT_NOP_OFFSET == 0x202FBE,
        MOVIE_RESTRUCT_INIT_CALL_OFFSET == 0x202FC7,
        MOVIE_RESTRUCT_LAST_ERROR_CALL_OFFSET == 0x202FDF,
        MOVIE_RESTRUCT_GET_SIZE_PATCH_OFFSET == 0x20308F,
        MOVIE_RESTRUCT_GET_SIZE_NOP_OFFSET == 0x2030BE,
        MOVIE_IS_RGB_PATCH_OFFSET == 0x1FE40D,
        MOVIE_TOTAL_TIME_PATCH_OFFSET == 0x2033E4,
        MOVIE_CHECK_ERROR_NOP_OFFSET == 0x203418,
        MOVIE_CHECK_ERROR_PATCH_OFFSET == 0x20341F,
        MOVIE_CHECK_NEED_UPDATE_PATCH_OFFSET == 0x20342C,
        MOVIE_FILL_ECX_PATCH_OFFSET == 0x203478,
        MOVIE_FILL_FORCE_PATCH_OFFSET == 0x20347D,
        MOVIE_FILL_BUFFER_PATCH_OFFSET == 0x20348C,
{
}

} // verus!
