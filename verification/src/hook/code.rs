//! The machine code that sends the engine's movie calls to the player.

use vstd::prelude::*;

use crate::bytes::{splice, u32_bytes, write_u32};

verus! {

/// Why a patch cannot be made.
#[derive(Clone, Copy, Debug, PartialEq, Eq, Structural)]
pub enum HookStatus {
    /// A call does not reach its target, or does not fit in the patch.
    MemoryAlloc,
    /// The memory cannot be made writable.
    MemoryProtect,
    /// The engine's module was not found.
    ModuleNotFound,
}

/// Bytes that are written at an offset into the engine's module.
#[derive(Debug)]
pub struct CodePatch {
    pub offset: u32,
    pub bytes: Vec<u8>,
}

/// Where the player's functions are.
#[derive(Clone, Copy, Debug)]
pub struct MovieTargets {
    pub end_loop: u32,
    pub is_playing: u32,
    pub destroy: u32,
    pub new: u32,
    pub init: u32,
    pub get_last_error: u32,
    pub get_size: u32,
    pub is_rgb: u32,
    pub total_time_ms: u32,
    pub check_error: u32,
    pub check_need_update: u32,
    pub fill_buffer: u32,
}

pub const MOVIE_END_LOOP_PATCH_OFFSET: u32 = 0x15C329;

pub const MOVIE_IS_PLAYING_ALT_PATCH_OFFSET: u32 = 0x1FB8E9;

pub const MOVIE_IS_PLAYING_ALT_JNZ_PATCH_OFFSET: u32 = 0x1FB8FB;

pub const MOVIE_IS_PLAYING_PATCH_OFFSET: u32 = 0x2035BA;

pub const MOVIE_IS_PLAYING_JZ_PATCH_OFFSET: u32 = 0x2035CC;

pub const MOVIE_SEEK_NOP_PATCH_OFFSET: u32 = 0x15C29A;

pub const MOVIE_DESTROY_PATCH_OFFSET: u32 = 0x2F2523;

pub const MOVIE_RESTRUCT_NEW_PATCH_OFFSET: u32 = 0x202DAA;

pub const MOVIE_RESTRUCT_NEW_NOP_1_OFFSET: u32 = 0x202EC1;

pub const MOVIE_RESTRUCT_NEW_STORE_PATCH_OFFSET: u32 = 0x202ECC;

pub const MOVIE_RESTRUCT_NEW_NOP_2_OFFSET: u32 = 0x202F77;

pub const MOVIE_RESTRUCT_NEW_NOP_3_OFFSET: u32 = 0x202F7E;

pub const MOVIE_RESTRUCT_INIT_NOP_PRE_OFFSET: u32 = 0x202FB9;

pub const MOVIE_RESTRUCT_INIT_NOP_OFFSET: u32 = 0x202FBE;

pub const MOVIE_RESTRUCT_INIT_CALL_OFFSET: u32 = 0x202FC7;

pub const MOVIE_RESTRUCT_LAST_ERROR_CALL_OFFSET: u32 = 0x202FDF;

pub const MOVIE_RESTRUCT_GET_SIZE_PATCH_OFFSET: u32 = 0x20308F;

pub const MOVIE_RESTRUCT_GET_SIZE_NOP_OFFSET: u32 = 0x2030BE;

pub const MOVIE_IS_RGB_PATCH_OFFSET: u32 = 0x1FE40D;

pub const MOVIE_TOTAL_TIME_PATCH_OFFSET: u32 = 0x2033E4;

pub const MOVIE_CHECK_ERROR_NOP_OFFSET: u32 = 0x203418;

pub const MOVIE_CHECK_ERROR_PATCH_OFFSET: u32 = 0x20341F;

pub const MOVIE_CHECK_NEED_UPDATE_PATCH_OFFSET: u32 = 0x20342C;

pub const MOVIE_FILL_ECX_PATCH_OFFSET: u32 = 0x203478;

pub const MOVIE_FILL_FORCE_PATCH_OFFSET: u32 = 0x20347D;

pub const MOVIE_FILL_BUFFER_PATCH_OFFSET: u32 = 0x20348C;

/// A patch: where it goes and what it writes.
pub struct PatchView {
    pub offset: int,
    pub bytes: Seq<u8>,
}

impl View for CodePatch {
    type V = PatchView;

    open spec fn view(&self) -> PatchView {
        PatchView { offset: self.offset as int, bytes: self.bytes@ }
    }
}

/// Some patches.
pub open spec fn views(patches: Seq<CodePatch>) -> Seq<PatchView> {
    Seq::new(patches.len(), |i: int| patches[i]@)
}

/// `len` instructions that do nothing.
pub open spec fn nops(len: nat) -> Seq<u8> {
    Seq::new(len, |i: int| 0x90u8)
}

/// `code` with instructions that do nothing behind it, up to `len` bytes.
pub open spec fn padded(code: Seq<u8>, len: int) -> Seq<u8> {
    code + nops((len - code.len()) as nat)
}

/// An address as a signed number.
pub open spec fn signed(address: u32) -> int {
    if address < 0x8000_0000 {
        address as int
    } else {
        address - 0x1_0000_0000
    }
}

/// How far `target` is from `next`, where that is a signed 32-bit number.
pub open spec fn distance(target: u32, next: u32) -> Option<int> {
    let d = signed(target) - signed(next);
    if -0x8000_0000 <= d < 0x8000_0000 {
        Some(d)
    } else {
        None
    }
}

/// A signed 32-bit number in two's complement.
pub open spec fn complement(d: int) -> u32 {
    (if d < 0 {
        d + 0x1_0000_0000
    } else {
        d
    }) as u32
}

/// Where the processor is once it has read the call at `call_at` in a patch.
pub open spec fn next_after(module: u32, offset: u32, call_at: int) -> u32 {
    (module + offset + call_at + 5) as u32
}

/// Whether a call in a patch reaches its target.
pub open spec fn reaches(module: u32, offset: u32, call_at: int, target: u32) -> bool {
    distance(target, next_after(module, offset, call_at)) is Some
}

/// A patch of `len` bytes that starts with `code`, whose call at `call_at` goes to `target`.
pub open spec fn call_view(
    module: u32,
    offset: u32,
    len: int,
    code: Seq<u8>,
    call_at: int,
    target: u32,
) -> PatchView {
    PatchView {
        offset: offset as int,
        bytes: splice(
            padded(code, len),
            call_at + 1,
            u32_bytes(complement(distance(target, next_after(module, offset, call_at))->0)),
        ),
    }
}

/// A patch that writes `bytes`.
pub open spec fn plain_view(offset: u32, bytes: Seq<u8>) -> PatchView {
    PatchView { offset: offset as int, bytes }
}

/// A call whose distance was worked out goes to its target: the distance counts from behind the
/// call, round the end of the address space where it has to.
pub proof fn law_call_reaches_target(target: u32, next: u32)
    requires
        distance(target, next) is Some,
    ensures
        (next + complement(distance(target, next)->0)) % 0x1_0000_0000 == target,
{
}

/// The distance of a target, in two's complement.
fn relative(target: u32, next: u32) -> (r: Option<u32>)
    ensures
        r == match distance(target, next) {
            Some(d) => Some(complement(d)),
            None => None,
        },
{
    let to: i64 = if target < 0x8000_0000 {
        target as i64
    } else {
        target as i64 - 0x1_0000_0000
    };
    let from: i64 = if next < 0x8000_0000 {
        next as i64
    } else {
        next as i64 - 0x1_0000_0000
    };
    let d: i64 = to - from;
    if d < -0x8000_0000 || d >= 0x8000_0000 {
        return None;
    }
    if d < 0 {
        Some((d + 0x1_0000_0000) as u32)
    } else {
        Some(d as u32)
    }
}

/// Adds a patch of `len` bytes that starts with `code`, its call at `call_at` going to `target`.
fn push_call(
    out: &mut Vec<CodePatch>,
    module: u32,
    offset: u32,
    len: usize,
    code: &[u8],
    call_at: u32,
    target: u32,
) -> (r: Result<(), HookStatus>)
    requires
        module + offset + call_at + 5 <= u32::MAX,
        call_at + 5 <= code@.len() <= len,
    ensures
        match r {
            Ok(_) => reaches(module, offset, call_at as int, target) && views(final(out)@) == views(
                old(out)@,
            ).push(call_view(module, offset, len as int, code@, call_at as int, target)),
            Err(status) => !reaches(module, offset, call_at as int, target) && status
                == HookStatus::MemoryAlloc && final(out)@ == old(out)@,
        },
{
    let next: u32 = module + offset + call_at + 5;
    let rel: u32 = match relative(target, next) {
        Some(rel) => rel,
        None => return Err(HookStatus::MemoryAlloc),
    };
    let mut bytes: Vec<u8> = Vec::new();
    bytes.extend_from_slice(code);
    assert(bytes@ =~= code@);
    bytes.resize(len, 0x90);
    assert(bytes@ =~= padded(code@, len as int));
    write_u32(&mut bytes, call_at as usize + 1, rel);
    out.push(CodePatch { offset, bytes });
    assert(views(out@) =~= views(old(out)@).push(
        call_view(module, offset, len as int, code@, call_at as int, target),
    ));
    Ok(())
}

/// Adds a patch that writes `code`, with instructions that do nothing behind it up to `len` bytes.
fn push_plain(out: &mut Vec<CodePatch>, offset: u32, len: usize, code: &[u8])
    requires
        code@.len() <= len,
    ensures
        views(final(out)@) == views(old(out)@).push(plain_view(offset, padded(code@, len as int))),
{
    let mut bytes: Vec<u8> = Vec::new();
    bytes.extend_from_slice(code);
    assert(bytes@ =~= code@);
    bytes.resize(len, 0x90);
    assert(bytes@ =~= padded(code@, len as int));
    out.push(CodePatch { offset, bytes });
    assert(views(out@) =~= views(old(out)@).push(plain_view(offset, padded(code@, len as int))));
}

/// The code that hands the object in EAX to a function.
pub open spec fn ecx_eax_call() -> Seq<u8> {
    seq![0x8Bu8, 0xC8, 0xE8, 0, 0, 0, 0]
}

/// Makes the engine call `call_target` for the object in EAX.
pub fn patch_ecx_eax_call(
    out: &mut Vec<CodePatch>,
    module: u32,
    offset: u32,
    patch_len: usize,
    call_target: u32,
) -> (r: Result<(), HookStatus>)
    requires
        patch_len >= 7 ==> module + offset + 7 <= u32::MAX,
    ensures
        match r {
            Ok(_) => patch_len >= 7 && reaches(module, offset, 2, call_target) && views(final(out)@)
                == views(old(out)@).push(
                call_view(module, offset, patch_len as int, ecx_eax_call(), 2, call_target),
            ),
            Err(status) => (patch_len < 7 || !reaches(module, offset, 2, call_target)) && status
                == HookStatus::MemoryAlloc && final(out)@ == old(out)@,
        },
{
    if patch_len < 7 {
        return Err(HookStatus::MemoryAlloc);
    }
    let code: [u8; 7] = [0x8B, 0xC8, 0xE8, 0, 0, 0, 0];
    assert(code@ =~= ecx_eax_call());
    push_call(out, module, offset, patch_len, &code, 2, call_target)
}

/// What one step of patching comes to: patches that are made in any case, whether its call reaches
/// its target, and the patches that are then made too.
pub struct PatchStep {
    pub before: Seq<PatchView>,
    pub reached: bool,
    pub rest: Seq<PatchView>,
}

impl PatchStep {
    /// Whether `r` and `after` are what the step makes of `before`.
    pub open spec fn made(
        self,
        before: Seq<CodePatch>,
        after: Seq<CodePatch>,
        r: Result<(), HookStatus>,
    ) -> bool {
        match r {
            Ok(_) => self.reached && views(after) == views(before) + self.before + self.rest,
            Err(status) => !self.reached && status == HookStatus::MemoryAlloc && views(after)
                == views(before) + self.before,
        }
    }
}

/// The highest address into the engine's module, counted from its start, that a patch speaks of.
pub const MOVIE_PATCH_SPAN: u32 = 0x2F2528;

/// `mov ecx, eax`, a call, `test al, al`.
pub open spec fn ask_and_test_code() -> Seq<u8> {
    seq![0x8Bu8, 0xC8, 0xE8, 0x00, 0x00, 0x00, 0x00, 0x84, 0xC0]
}

/// A jump.
pub open spec fn jump_code() -> Seq<u8> {
    seq![0xE9u8, 0x00, 0x00, 0x00, 0x00]
}

/// A call.
pub open spec fn call_code() -> Seq<u8> {
    seq![0xE8u8, 0x00, 0x00, 0x00, 0x00]
}

/// `add esp, 4`, a call, `mov edi, eax`, `mov [ebp-0A0h], edi`.
pub open spec fn create_code() -> Seq<u8> {
    seq![
        0x83u8, 0xC4, 0x04, 0xE8, 0x00, 0x00, 0x00, 0x00, 0x8B, 0xF8, 0x89, 0xBD, 0x60, 0xFF, 0xFF,
        0xFF,
    ]
}

/// Puts the new player, which is in `[ebp-0A0h]`, where the engine keeps its movie, at
/// `[edx+15F0h]`, with its counter behind it.
pub open spec fn store_code() -> Seq<u8> {
    seq![
        0x8Bu8, 0x95, 0x64, 0xFF, 0xFF, 0xFF, 0x8B, 0x52, 0x04, 0x89, 0x55, 0xE4, 0x8B, 0x95, 0x5C,
        0xFF, 0xFF, 0xFF, 0x33, 0xFF, 0x8B, 0x85, 0x60, 0xFF, 0xFF, 0xFF, 0x89, 0x82, 0xF0, 0x15,
        0x00, 0x00, 0x8B, 0x82, 0xF4, 0x15, 0x00, 0x00, 0x89, 0xBD, 0x60, 0xFF, 0xFF, 0xFF, 0x8B,
        0x4D, 0xE4, 0x89, 0x45, 0xE4, 0x89, 0x8A, 0xF4, 0x15, 0x00, 0x00,
    ]
}

/// `mov ecx, [edi+15F0h]`, the addresses of two locals on the stack, a call, `lea ecx, [ebp-48h]`.
pub open spec fn get_size_code() -> Seq<u8> {
    seq![
        0x8Bu8, 0x8F, 0xF0, 0x15, 0x00, 0x00, 0x8D, 0x45, 0xE0, 0x50, 0x8D, 0x45, 0xDC, 0x50, 0xE8,
        0x00, 0x00, 0x00, 0x00, 0x8D, 0x4D, 0xB8,
    ]
}

/// `push ecx`, `mov ecx, eax`, a call, `pop ecx`, `test eax, eax`.
pub open spec fn is_rgb_code() -> Seq<u8> {
    seq![0x51u8, 0x8B, 0xC8, 0xE8, 0x00, 0x00, 0x00, 0x00, 0x59, 0x85, 0xC0]
}

/// `mov ecx, eax`, a call, `nop`.
pub open spec fn total_time_code() -> Seq<u8> {
    seq![0x8Bu8, 0xC8, 0xE8, 0x00, 0x00, 0x00, 0x00, 0x90]
}

/// Whether the update is forced and the time on the stack, `mov ecx, [ebp-14h]`, a call,
/// `xor ecx, ecx`, `test al, al`.
pub open spec fn need_update_code() -> Seq<u8> {
    seq![
        0x80u8, 0x7D, 0xE8, 0x00, 0x0F, 0x95, 0xC0, 0x0F, 0xB6, 0xC0, 0x50, 0xFF, 0x75, 0xE4, 0x8B,
        0x4D, 0xEC, 0xE8, 0x00, 0x00, 0x00, 0x00, 0x33, 0xC9, 0x84, 0xC0,
    ]
}

/// The pitch, the buffer and the time on the stack, `mov ecx, edx`, a call.
pub open spec fn fill_code() -> Seq<u8> {
    seq![
        0xFFu8, 0x75, 0xE0, 0xFF, 0x75, 0xDC, 0xFF, 0xB7, 0xF8, 0x15, 0x00, 0x00, 0x8B, 0xCA, 0xE8,
        0x00, 0x00, 0x00, 0x00,
    ]
}

/// The patches of `patch_movie_is_playing_alt`.
pub open spec fn is_playing_alt_step(module: u32, target: u32) -> PatchStep {
    PatchStep {
        before: seq![],
        reached: reaches(module, MOVIE_IS_PLAYING_ALT_PATCH_OFFSET, 2, target),
        rest: seq![
            call_view(
                module,
                MOVIE_IS_PLAYING_ALT_PATCH_OFFSET,
                18,
                ask_and_test_code(),
                2,
                target,
            ),
        ],
    }
}

/// Makes the engine ask the player whether it plays, in the second place where it asks.
pub fn patch_movie_is_playing_alt(
    out: &mut Vec<CodePatch>,
    module: u32,
    target: u32,
) -> (r: Result<(), HookStatus>)
    requires
        module + MOVIE_PATCH_SPAN <= u32::MAX,
    ensures
        is_playing_alt_step(module, target).made(old(out)@, final(out)@, r),
{
    let ghost step = is_playing_alt_step(module, target);
    let ghost start = out@;
    let code: [u8; 9] = [0x8B, 0xC8, 0xE8, 0x00, 0x00, 0x00, 0x00, 0x84, 0xC0];
    assert(code@ =~= ask_and_test_code());
    let r = push_call(out, module, MOVIE_IS_PLAYING_ALT_PATCH_OFFSET, 18, &code, 2, target);
    assert(step.made(start, out@, r)) by {
        assert(views(start) + step.before =~= views(start));
        assert(r is Ok ==> views(out@) =~= views(start) + step.before + step.rest);
    }
    r
}

/// The patches of `patch_movie_is_playing_alt_jnz`.
pub open spec fn is_playing_alt_jnz_step() -> PatchStep {
    PatchStep {
        before: seq![
            plain_view(MOVIE_IS_PLAYING_ALT_JNZ_PATCH_OFFSET, padded(seq![0x75u8], 1)),
        ],
        reached: true,
        rest: seq![],
    }
}

/// Turns the branch behind the second question round.
pub fn patch_movie_is_playing_alt_jnz(out: &mut Vec<CodePatch>) -> (r: Result<(), HookStatus>)
    ensures
        is_playing_alt_jnz_step().made(old(out)@, final(out)@, r),
{
    let ghost step = is_playing_alt_jnz_step();
    let ghost start = out@;
    let code: [u8; 1] = [0x75];
    assert(code@ =~= seq![0x75u8]);
    push_plain(out, MOVIE_IS_PLAYING_ALT_JNZ_PATCH_OFFSET, 1, &code);
    assert(views(out@) =~= views(start) + step.before + step.rest);
    Ok(())
}

/// The patches of `patch_movie_is_playing`.
pub open spec fn is_playing_step(module: u32, target: u32) -> PatchStep {
    PatchStep {
        before: seq![],
        reached: reaches(module, MOVIE_IS_PLAYING_PATCH_OFFSET, 2, target),
        rest: seq![
            call_view(module, MOVIE_IS_PLAYING_PATCH_OFFSET, 18, ask_and_test_code(), 2, target),
            plain_view(MOVIE_IS_PLAYING_JZ_PATCH_OFFSET, padded(seq![0x74u8], 1)),
        ],
    }
}

/// Makes the engine ask the player whether it plays, and turns the branch behind it round.
pub fn patch_movie_is_playing(
    out: &mut Vec<CodePatch>,
    module: u32,
    target: u32,
) -> (r: Result<(), HookStatus>)
    requires
        module + MOVIE_PATCH_SPAN <= u32::MAX,
    ensures
        is_playing_step(module, target).made(old(out)@, final(out)@, r),
{
    let ghost step = is_playing_step(module, target);
    let ghost start = out@;
    let code_1: [u8; 9] = [0x8B, 0xC8, 0xE8, 0x00, 0x00, 0x00, 0x00, 0x84, 0xC0];
    assert(code_1@ =~= ask_and_test_code());
    match push_call(out, module, MOVIE_IS_PLAYING_PATCH_OFFSET, 18, &code_1, 2, target) {
        Ok(()) => {},
        Err(status) => {
            assert(views(start) + step.before =~= views(out@));
            return Err(status);
        },
    }
    let code_2: [u8; 1] = [0x74];
    assert(code_2@ =~= seq![0x74u8]);
    push_plain(out, MOVIE_IS_PLAYING_JZ_PATCH_OFFSET, 1, &code_2);
    assert(views(out@) =~= views(start) + step.before + step.rest);
    Ok(())
}

/// The patches of `patch_movie_seek_nop`.
pub open spec fn seek_nop_step() -> PatchStep {
    PatchStep {
        before: seq![
            plain_view(MOVIE_SEEK_NOP_PATCH_OFFSET, padded(seq![], 15)),
        ],
        reached: true,
        rest: seq![],
    }
}

/// Takes the engine's own seek out.
pub fn patch_movie_seek_nop(out: &mut Vec<CodePatch>) -> (r: Result<(), HookStatus>)
    ensures
        seek_nop_step().made(old(out)@, final(out)@, r),
{
    let ghost step = seek_nop_step();
    let ghost start = out@;
    push_plain(out, MOVIE_SEEK_NOP_PATCH_OFFSET, 15, &[]);
    assert(views(out@) =~= views(start) + step.before + step.rest);
    Ok(())
}

/// The patches of `patch_movie_destroy`.
pub open spec fn destroy_step(module: u32, target: u32) -> PatchStep {
    PatchStep {
        before: seq![],
        reached: reaches(module, MOVIE_DESTROY_PATCH_OFFSET, 0, target),
        rest: seq![
            call_view(module, MOVIE_DESTROY_PATCH_OFFSET, 5, jump_code(), 0, target),
        ],
    }
}

/// Makes the engine destroy the player in place of its own movie.
pub fn patch_movie_destroy(
    out: &mut Vec<CodePatch>,
    module: u32,
    target: u32,
) -> (r: Result<(), HookStatus>)
    requires
        module + MOVIE_PATCH_SPAN <= u32::MAX,
    ensures
        destroy_step(module, target).made(old(out)@, final(out)@, r),
{
    let ghost step = destroy_step(module, target);
    let ghost start = out@;
    let code: [u8; 5] = [0xE9, 0x00, 0x00, 0x00, 0x00];
    assert(code@ =~= jump_code());
    let r = push_call(out, module, MOVIE_DESTROY_PATCH_OFFSET, 5, &code, 0, target);
    assert(step.made(start, out@, r)) by {
        assert(views(start) + step.before =~= views(start));
        assert(r is Ok ==> views(out@) =~= views(start) + step.before + step.rest);
    }
    r
}

/// The patches of `patch_movie_restruct_new`.
pub open spec fn restruct_new_step(module: u32, target: u32) -> PatchStep {
    PatchStep {
        before: seq![],
        reached: reaches(module, MOVIE_RESTRUCT_NEW_PATCH_OFFSET, 3, target),
        rest: seq![
            call_view(module, MOVIE_RESTRUCT_NEW_PATCH_OFFSET, 156, create_code(), 3, target),
        ],
    }
}

/// Makes the engine create the player.
pub fn patch_movie_restruct_new(
    out: &mut Vec<CodePatch>,
    module: u32,
    target: u32,
) -> (r: Result<(), HookStatus>)
    requires
        module + MOVIE_PATCH_SPAN <= u32::MAX,
    ensures
        restruct_new_step(module, target).made(old(out)@, final(out)@, r),
{
    let ghost step = restruct_new_step(module, target);
    let ghost start = out@;
    let code: [u8; 16] = [
        0x83, 0xC4, 0x04, 0xE8, 0x00, 0x00, 0x00, 0x00, 0x8B, 0xF8, 0x89, 0xBD, 0x60, 0xFF, 0xFF,
        0xFF,
    ];
    assert(code@ =~= create_code());
    let r = push_call(out, module, MOVIE_RESTRUCT_NEW_PATCH_OFFSET, 156, &code, 3, target);
    assert(step.made(start, out@, r)) by {
        assert(views(start) + step.before =~= views(start));
        assert(r is Ok ==> views(out@) =~= views(start) + step.before + step.rest);
    }
    r
}

/// The patches of `patch_movie_restruct_new_followups`.
pub open spec fn restruct_new_followups_step() -> PatchStep {
    PatchStep {
        before: seq![
            plain_view(MOVIE_RESTRUCT_NEW_NOP_1_OFFSET, padded(seq![], 7)),
            plain_view(MOVIE_RESTRUCT_NEW_STORE_PATCH_OFFSET, padded(store_code(), 125)),
            plain_view(MOVIE_RESTRUCT_NEW_NOP_2_OFFSET, padded(seq![], 3)),
            plain_view(MOVIE_RESTRUCT_NEW_NOP_3_OFFSET, padded(seq![], 36)),
        ],
        reached: true,
        rest: seq![],
    }
}

/// Makes the engine keep the player where it kept its own movie.
pub fn patch_movie_restruct_new_followups(out: &mut Vec<CodePatch>) -> (r: Result<(), HookStatus>)
    ensures
        restruct_new_followups_step().made(old(out)@, final(out)@, r),
{
    let ghost step = restruct_new_followups_step();
    let ghost start = out@;
    push_plain(out, MOVIE_RESTRUCT_NEW_NOP_1_OFFSET, 7, &[]);
    let code_2: [u8; 56] = [
        0x8B, 0x95, 0x64, 0xFF, 0xFF, 0xFF, 0x8B, 0x52, 0x04, 0x89, 0x55, 0xE4, 0x8B, 0x95, 0x5C,
        0xFF, 0xFF, 0xFF, 0x33, 0xFF, 0x8B, 0x85, 0x60, 0xFF, 0xFF, 0xFF, 0x89, 0x82, 0xF0, 0x15,
        0x00, 0x00, 0x8B, 0x82, 0xF4, 0x15, 0x00, 0x00, 0x89, 0xBD, 0x60, 0xFF, 0xFF, 0xFF, 0x8B,
        0x4D, 0xE4, 0x89, 0x45, 0xE4, 0x89, 0x8A, 0xF4, 0x15, 0x00, 0x00,
    ];
    assert(code_2@ =~= store_code());
    push_plain(out, MOVIE_RESTRUCT_NEW_STORE_PATCH_OFFSET, 125, &code_2);
    push_plain(out, MOVIE_RESTRUCT_NEW_NOP_2_OFFSET, 3, &[]);
    push_plain(out, MOVIE_RESTRUCT_NEW_NOP_3_OFFSET, 36, &[]);
    assert(views(out@) =~= views(start) + step.before + step.rest);
    Ok(())
}

/// The patches of `patch_movie_restruct_init_call`.
pub open spec fn restruct_init_call_step(module: u32, target: u32) -> PatchStep {
    PatchStep {
        before: seq![
            plain_view(MOVIE_RESTRUCT_INIT_NOP_PRE_OFFSET, padded(seq![0x8Bu8, 0xC8], 2)),
            plain_view(MOVIE_RESTRUCT_INIT_NOP_OFFSET, padded(seq![0x90u8], 1)),
        ],
        reached: reaches(module, MOVIE_RESTRUCT_INIT_CALL_OFFSET, 0, target),
        rest: seq![
            call_view(module, MOVIE_RESTRUCT_INIT_CALL_OFFSET, 5, call_code(), 0, target),
        ],
    }
}

/// Makes the engine open the movie with the player.
pub fn patch_movie_restruct_init_call(
    out: &mut Vec<CodePatch>,
    module: u32,
    target: u32,
) -> (r: Result<(), HookStatus>)
    requires
        module + MOVIE_PATCH_SPAN <= u32::MAX,
    ensures
        restruct_init_call_step(module, target).made(old(out)@, final(out)@, r),
{
    let ghost step = restruct_init_call_step(module, target);
    let ghost start = out@;
    let code_1: [u8; 2] = [0x8B, 0xC8];
    assert(code_1@ =~= seq![0x8Bu8, 0xC8]);
    push_plain(out, MOVIE_RESTRUCT_INIT_NOP_PRE_OFFSET, 2, &code_1);
    let code_2: [u8; 1] = [0x90];
    assert(code_2@ =~= seq![0x90u8]);
    push_plain(out, MOVIE_RESTRUCT_INIT_NOP_OFFSET, 1, &code_2);
    let code_3: [u8; 5] = [0xE8, 0x00, 0x00, 0x00, 0x00];
    assert(code_3@ =~= call_code());
    assert(views(out@) =~= views(start) + step.before);
    let r = push_call(out, module, MOVIE_RESTRUCT_INIT_CALL_OFFSET, 5, &code_3, 0, target);
    assert(step.made(start, out@, r)) by {
        assert(r is Ok ==> views(out@) =~= views(start) + step.before + step.rest);
    }
    r
}

/// The patches of `patch_movie_restruct_last_error_call`.
pub open spec fn restruct_last_error_call_step(module: u32, target: u32) -> PatchStep {
    PatchStep {
        before: seq![],
        reached: reaches(module, MOVIE_RESTRUCT_LAST_ERROR_CALL_OFFSET, 0, target),
        rest: seq![
            call_view(module, MOVIE_RESTRUCT_LAST_ERROR_CALL_OFFSET, 5, call_code(), 0, target),
        ],
    }
}

/// Makes the engine ask the player what went wrong.
pub fn patch_movie_restruct_last_error_call(
    out: &mut Vec<CodePatch>,
    module: u32,
    target: u32,
) -> (r: Result<(), HookStatus>)
    requires
        module + MOVIE_PATCH_SPAN <= u32::MAX,
    ensures
        restruct_last_error_call_step(module, target).made(old(out)@, final(out)@, r),
{
    let ghost step = restruct_last_error_call_step(module, target);
    let ghost start = out@;
    let code: [u8; 5] = [0xE8, 0x00, 0x00, 0x00, 0x00];
    assert(code@ =~= call_code());
    let r = push_call(out, module, MOVIE_RESTRUCT_LAST_ERROR_CALL_OFFSET, 5, &code, 0, target);
    assert(step.made(start, out@, r)) by {
        assert(views(start) + step.before =~= views(start));
        assert(r is Ok ==> views(out@) =~= views(start) + step.before + step.rest);
    }
    r
}

/// The patches of `patch_movie_restruct_get_size`.
pub open spec fn restruct_get_size_step(module: u32, target: u32) -> PatchStep {
    PatchStep {
        before: seq![],
        reached: reaches(module, MOVIE_RESTRUCT_GET_SIZE_PATCH_OFFSET, 14, target),
        rest: seq![
            call_view(
                module,
                MOVIE_RESTRUCT_GET_SIZE_PATCH_OFFSET,
                44,
                get_size_code(),
                14,
                target,
            ),
            plain_view(MOVIE_RESTRUCT_GET_SIZE_NOP_OFFSET, padded(seq![0x90u8, 0x90, 0x90], 3)),
        ],
    }
}

/// Makes the engine ask the player for the size of the picture.
pub fn patch_movie_restruct_get_size(
    out: &mut Vec<CodePatch>,
    module: u32,
    target: u32,
) -> (r: Result<(), HookStatus>)
    requires
        module + MOVIE_PATCH_SPAN <= u32::MAX,
    ensures
        restruct_get_size_step(module, target).made(old(out)@, final(out)@, r),
{
    let ghost step = restruct_get_size_step(module, target);
    let ghost start = out@;
    let code_1: [u8; 22] = [
        0x8B, 0x8F, 0xF0, 0x15, 0x00, 0x00, 0x8D, 0x45, 0xE0, 0x50, 0x8D, 0x45, 0xDC, 0x50, 0xE8,
        0x00, 0x00, 0x00, 0x00, 0x8D, 0x4D, 0xB8,
    ];
    assert(code_1@ =~= get_size_code());
    match push_call(out, module, MOVIE_RESTRUCT_GET_SIZE_PATCH_OFFSET, 44, &code_1, 14, target) {
        Ok(()) => {},
        Err(status) => {
            assert(views(start) + step.before =~= views(out@));
            return Err(status);
        },
    }
    let code_2: [u8; 3] = [0x90, 0x90, 0x90];
    assert(code_2@ =~= seq![0x90u8, 0x90, 0x90]);
    push_plain(out, MOVIE_RESTRUCT_GET_SIZE_NOP_OFFSET, 3, &code_2);
    assert(views(out@) =~= views(start) + step.before + step.rest);
    Ok(())
}

/// The patches of `patch_movie_is_rgb`.
pub open spec fn is_rgb_step(module: u32, target: u32) -> PatchStep {
    PatchStep {
        before: seq![],
        reached: reaches(module, MOVIE_IS_RGB_PATCH_OFFSET, 3, target),
        rest: seq![
            call_view(module, MOVIE_IS_RGB_PATCH_OFFSET, 31, is_rgb_code(), 3, target),
        ],
    }
}

/// Makes the engine ask the player whether the picture has alpha.
pub fn patch_movie_is_rgb(
    out: &mut Vec<CodePatch>,
    module: u32,
    target: u32,
) -> (r: Result<(), HookStatus>)
    requires
        module + MOVIE_PATCH_SPAN <= u32::MAX,
    ensures
        is_rgb_step(module, target).made(old(out)@, final(out)@, r),
{
    let ghost step = is_rgb_step(module, target);
    let ghost start = out@;
    let code: [u8; 11] = [0x51, 0x8B, 0xC8, 0xE8, 0x00, 0x00, 0x00, 0x00, 0x59, 0x85, 0xC0];
    assert(code@ =~= is_rgb_code());
    let r = push_call(out, module, MOVIE_IS_RGB_PATCH_OFFSET, 31, &code, 3, target);
    assert(step.made(start, out@, r)) by {
        assert(views(start) + step.before =~= views(start));
        assert(r is Ok ==> views(out@) =~= views(start) + step.before + step.rest);
    }
    r
}

/// The patches of `patch_movie_total_time`.
pub open spec fn total_time_step(module: u32, target: u32) -> PatchStep {
    PatchStep {
        before: seq![],
        reached: reaches(module, MOVIE_TOTAL_TIME_PATCH_OFFSET, 2, target),
        rest: seq![
            call_view(module, MOVIE_TOTAL_TIME_PATCH_OFFSET, 8, total_time_code(), 2, target),
        ],
    }
}

/// Makes the engine ask the player how long the movie is.
pub fn patch_movie_total_time(
    out: &mut Vec<CodePatch>,
    module: u32,
    target: u32,
) -> (r: Result<(), HookStatus>)
    requires
        module + MOVIE_PATCH_SPAN <= u32::MAX,
    ensures
        total_time_step(module, target).made(old(out)@, final(out)@, r),
{
    let ghost step = total_time_step(module, target);
    let ghost start = out@;
    let code: [u8; 8] = [0x8B, 0xC8, 0xE8, 0x00, 0x00, 0x00, 0x00, 0x90];
    assert(code@ =~= total_time_code());
    let r = push_call(out, module, MOVIE_TOTAL_TIME_PATCH_OFFSET, 8, &code, 2, target);
    assert(step.made(start, out@, r)) by {
        assert(views(start) + step.before =~= views(start));
        assert(r is Ok ==> views(out@) =~= views(start) + step.before + step.rest);
    }
    r
}

/// The patches of `patch_movie_check_error`.
pub open spec fn check_error_step(module: u32, target: u32) -> PatchStep {
    PatchStep {
        before: seq![
            plain_view(MOVIE_CHECK_ERROR_NOP_OFFSET, padded(seq![0x90u8, 0x90], 2)),
        ],
        reached: reaches(module, MOVIE_CHECK_ERROR_PATCH_OFFSET, 0, target),
        rest: seq![
            call_view(module, MOVIE_CHECK_ERROR_PATCH_OFFSET, 5, call_code(), 0, target),
        ],
    }
}

/// Makes the engine ask the player whether it failed.
pub fn patch_movie_check_error(
    out: &mut Vec<CodePatch>,
    module: u32,
    target: u32,
) -> (r: Result<(), HookStatus>)
    requires
        module + MOVIE_PATCH_SPAN <= u32::MAX,
    ensures
        check_error_step(module, target).made(old(out)@, final(out)@, r),
{
    let ghost step = check_error_step(module, target);
    let ghost start = out@;
    let code_1: [u8; 2] = [0x90, 0x90];
    assert(code_1@ =~= seq![0x90u8, 0x90]);
    push_plain(out, MOVIE_CHECK_ERROR_NOP_OFFSET, 2, &code_1);
    let code_2: [u8; 5] = [0xE8, 0x00, 0x00, 0x00, 0x00];
    assert(code_2@ =~= call_code());
    assert(views(out@) =~= views(start) + step.before);
    let r = push_call(out, module, MOVIE_CHECK_ERROR_PATCH_OFFSET, 5, &code_2, 0, target);
    assert(step.made(start, out@, r)) by {
        assert(r is Ok ==> views(out@) =~= views(start) + step.before + step.rest);
    }
    r
}

/// The patches of `patch_movie_check_need_update`.
pub open spec fn check_need_update_step(module: u32, target: u32) -> PatchStep {
    PatchStep {
        before: seq![],
        reached: reaches(module, MOVIE_CHECK_NEED_UPDATE_PATCH_OFFSET, 17, target),
        rest: seq![
            call_view(
                module,
                MOVIE_CHECK_NEED_UPDATE_PATCH_OFFSET,
                30,
                need_update_code(),
                17,
                target,
            ),
        ],
    }
}

/// Makes the engine ask the player whether a new frame is needed.
pub fn patch_movie_check_need_update(
    out: &mut Vec<CodePatch>,
    module: u32,
    target: u32,
) -> (r: Result<(), HookStatus>)
    requires
        module + MOVIE_PATCH_SPAN <= u32::MAX,
    ensures
        check_need_update_step(module, target).made(old(out)@, final(out)@, r),
{
    let ghost step = check_need_update_step(module, target);
    let ghost start = out@;
    let code: [u8; 26] = [
        0x80, 0x7D, 0xE8, 0x00, 0x0F, 0x95, 0xC0, 0x0F, 0xB6, 0xC0, 0x50, 0xFF, 0x75, 0xE4, 0x8B,
        0x4D, 0xEC, 0xE8, 0x00, 0x00, 0x00, 0x00, 0x33, 0xC9, 0x84, 0xC0,
    ];
    assert(code@ =~= need_update_code());
    let r = push_call(out, module, MOVIE_CHECK_NEED_UPDATE_PATCH_OFFSET, 30, &code, 17, target);
    assert(step.made(start, out@, r)) by {
        assert(views(start) + step.before =~= views(start));
        assert(r is Ok ==> views(out@) =~= views(start) + step.before + step.rest);
    }
    r
}

/// The patches of `patch_movie_fill_ecx`.
pub open spec fn fill_ecx_step() -> PatchStep {
    PatchStep {
        before: seq![
            plain_view(MOVIE_FILL_ECX_PATCH_OFFSET, padded(seq![0x8Bu8, 0xC8], 2)),
        ],
        reached: true,
        rest: seq![],
    }
}

/// Hands the player on in ECX.
pub fn patch_movie_fill_ecx(out: &mut Vec<CodePatch>) -> (r: Result<(), HookStatus>)
    ensures
        fill_ecx_step().made(old(out)@, final(out)@, r),
{
    let ghost step = fill_ecx_step();
    let ghost start = out@;
    let code: [u8; 2] = [0x8B, 0xC8];
    assert(code@ =~= seq![0x8Bu8, 0xC8]);
    push_plain(out, MOVIE_FILL_ECX_PATCH_OFFSET, 2, &code);
    assert(views(out@) =~= views(start) + step.before + step.rest);
    Ok(())
}

/// The patches of `patch_movie_fill_force`.
pub open spec fn fill_force_step() -> PatchStep {
    PatchStep {
        before: seq![
            plain_view(MOVIE_FILL_FORCE_PATCH_OFFSET, padded(seq![0xB0u8, 0x01], 5)),
        ],
        reached: true,
        rest: seq![],
    }
}

/// Makes the engine fill the buffer in any case.
pub fn patch_movie_fill_force(out: &mut Vec<CodePatch>) -> (r: Result<(), HookStatus>)
    ensures
        fill_force_step().made(old(out)@, final(out)@, r),
{
    let ghost step = fill_force_step();
    let ghost start = out@;
    let code: [u8; 2] = [0xB0, 0x01];
    assert(code@ =~= seq![0xB0u8, 0x01]);
    push_plain(out, MOVIE_FILL_FORCE_PATCH_OFFSET, 5, &code);
    assert(views(out@) =~= views(start) + step.before + step.rest);
    Ok(())
}

/// The patches of `patch_movie_fill_buffer`.
pub open spec fn fill_buffer_step(module: u32, target: u32) -> PatchStep {
    PatchStep {
        before: seq![],
        reached: reaches(module, MOVIE_FILL_BUFFER_PATCH_OFFSET, 14, target),
        rest: seq![
            call_view(module, MOVIE_FILL_BUFFER_PATCH_OFFSET, 58, fill_code(), 14, target),
        ],
    }
}

/// Makes the player fill the engine's buffer.
pub fn patch_movie_fill_buffer(
    out: &mut Vec<CodePatch>,
    module: u32,
    target: u32,
) -> (r: Result<(), HookStatus>)
    requires
        module + MOVIE_PATCH_SPAN <= u32::MAX,
    ensures
        fill_buffer_step(module, target).made(old(out)@, final(out)@, r),
{
    let ghost step = fill_buffer_step(module, target);
    let ghost start = out@;
    let code: [u8; 19] = [
        0xFF, 0x75, 0xE0, 0xFF, 0x75, 0xDC, 0xFF, 0xB7, 0xF8, 0x15, 0x00, 0x00, 0x8B, 0xCA, 0xE8,
        0x00, 0x00, 0x00, 0x00,
    ];
    assert(code@ =~= fill_code());
    let r = push_call(out, module, MOVIE_FILL_BUFFER_PATCH_OFFSET, 58, &code, 14, target);
    assert(step.made(start, out@, r)) by {
        assert(views(start) + step.before =~= views(start));
        assert(r is Ok ==> views(out@) =~= views(start) + step.before + step.rest);
    }
    r
}

/// The patch that ends the loop.
pub open spec fn end_loop_step(module: u32, target: u32) -> PatchStep {
    PatchStep {
        before: seq![],
        reached: reaches(module, MOVIE_END_LOOP_PATCH_OFFSET, 2, target),
        rest: seq![
            call_view(module, MOVIE_END_LOOP_PATCH_OFFSET, 9, ecx_eax_call(), 2, target),
        ],
    }
}

/// How many steps patching takes.
pub const MOVIE_PATCH_STEPS: usize = 18;

/// The steps of patching, in order.
pub open spec fn step_at(module: u32, targets: MovieTargets, index: int) -> PatchStep {
    if index == 0 {
        end_loop_step(module, targets.end_loop)
    } else if index == 1 {
        is_playing_alt_step(module, targets.is_playing)
    } else if index == 2 {
        is_playing_alt_jnz_step()
    } else if index == 3 {
        is_playing_step(module, targets.is_playing)
    } else if index == 4 {
        seek_nop_step()
    } else if index == 5 {
        destroy_step(module, targets.destroy)
    } else if index == 6 {
        restruct_new_step(module, targets.new)
    } else if index == 7 {
        restruct_new_followups_step()
    } else if index == 8 {
        restruct_init_call_step(module, targets.init)
    } else if index == 9 {
        restruct_last_error_call_step(module, targets.get_last_error)
    } else if index == 10 {
        restruct_get_size_step(module, targets.get_size)
    } else if index == 11 {
        is_rgb_step(module, targets.is_rgb)
    } else if index == 12 {
        total_time_step(module, targets.total_time_ms)
    } else if index == 13 {
        check_error_step(module, targets.check_error)
    } else if index == 14 {
        check_need_update_step(module, targets.check_need_update)
    } else if index == 15 {
        fill_ecx_step()
    } else if index == 16 {
        fill_force_step()
    } else {
        fill_buffer_step(module, targets.fill_buffer)
    }
}

/// The patches that the steps from `index` on make, up to the first whose call does not reach its
/// target; and whether all of them do.
pub open spec fn patches_from(module: u32, targets: MovieTargets, index: int) -> (
    Seq<PatchView>,
    bool,
)
    decreases MOVIE_PATCH_STEPS - index,
{
    if index >= MOVIE_PATCH_STEPS {
        (seq![], true)
    } else {
        let step = step_at(module, targets, index);
        if !step.reached {
            (step.before, false)
        } else {
            let later = patches_from(module, targets, index + 1);
            (step.before + step.rest + later.0, later.1)
        }
    }
}

/// Makes the patches of one step.
fn patch_step(
    out: &mut Vec<CodePatch>,
    module: u32,
    targets: &MovieTargets,
    index: usize,
) -> (r: Result<(), HookStatus>)
    requires
        module + MOVIE_PATCH_SPAN <= u32::MAX,
        index < MOVIE_PATCH_STEPS,
    ensures
        step_at(module, *targets, index as int).made(old(out)@, final(out)@, r),
{
    match index {
        0 => {
            let ghost start = out@;
            let r = patch_ecx_eax_call(
                out,
                module,
                MOVIE_END_LOOP_PATCH_OFFSET,
                9,
                targets.end_loop,
            );
            assert(end_loop_step(module, targets.end_loop).made(start, out@, r)) by {
                assert(views(start) + end_loop_step(module, targets.end_loop).before =~= views(
                    start,
                ));
            }
            r
        },
        1 => patch_movie_is_playing_alt(out, module, targets.is_playing),
        2 => patch_movie_is_playing_alt_jnz(out),
        3 => patch_movie_is_playing(out, module, targets.is_playing),
        4 => patch_movie_seek_nop(out),
        5 => patch_movie_destroy(out, module, targets.destroy),
        6 => patch_movie_restruct_new(out, module, targets.new),
        7 => patch_movie_restruct_new_followups(out),
        8 => patch_movie_restruct_init_call(out, module, targets.init),
        9 => patch_movie_restruct_last_error_call(out, module, targets.get_last_error),
        10 => patch_movie_restruct_get_size(out, module, targets.get_size),
        11 => patch_movie_is_rgb(out, module, targets.is_rgb),
        12 => patch_movie_total_time(out, module, targets.total_time_ms),
        13 => patch_movie_check_error(out, module, targets.check_error),
        14 => patch_movie_check_need_update(out, module, targets.check_need_update),
        15 => patch_movie_fill_ecx(out),
        16 => patch_movie_fill_force(out),
        _ => patch_movie_fill_buffer(out, module, targets.fill_buffer),
    }
}

/// The patches that send the engine's movie calls to the player, in the order in which they are
/// written. Where a call does not reach its target, these are the patches before it, and why there
/// are no more.
pub fn movie_patches(module: u32, targets: &MovieTargets) -> (r: (
    Vec<CodePatch>,
    Result<(), HookStatus>,
))
    requires
        module + MOVIE_PATCH_SPAN <= u32::MAX,
    ensures
        views(r.0@) == patches_from(module, *targets, 0).0,
        r.1 == if patches_from(module, *targets, 0).1 {
            Ok::<(), HookStatus>(())
        } else {
            Err(HookStatus::MemoryAlloc)
        },
{
    let mut out: Vec<CodePatch> = Vec::new();
    let mut index: usize = 0;
    assert(views(out@) + patches_from(module, *targets, 0).0 =~= patches_from(
        module,
        *targets,
        0,
    ).0);
    while index < MOVIE_PATCH_STEPS
        invariant
            module + MOVIE_PATCH_SPAN <= u32::MAX,
            index <= MOVIE_PATCH_STEPS,
            patches_from(module, *targets, 0).0 == views(out@) + patches_from(
                module,
                *targets,
                index as int,
            ).0,
            patches_from(module, *targets, 0).1 == patches_from(module, *targets, index as int).1,
        decreases MOVIE_PATCH_STEPS - index,
    {
        let ghost start = out@;
        let ghost step = step_at(module, *targets, index as int);
        match patch_step(&mut out, module, targets, index) {
            Ok(()) => {
                assert(views(start) + (step.before + step.rest + patches_from(
                    module,
                    *targets,
                    index + 1,
                ).0) =~= views(out@) + patches_from(module, *targets, index + 1).0);
            },
            Err(status) => {
                return (out, Err(status));
            },
        }
        index += 1;
    }
    assert(views(out@) + patches_from(module, *targets, index as int).0 =~= views(out@));
    (out, Ok(()))
}

} // verus!
