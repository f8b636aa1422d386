//! Loading the hook library into a running process.

use vstd::prelude::*;

use crate::bytes::{get_u16, get_u32, u16_at, u32_at};
use crate::pe::image::{header_fault, machine_of, nt_at};
use crate::pe::patch::{machine_name, machine_text};
use crate::text::{
    all_digits, chars_of, dec, digits_value, has_only_digits, hex_upper, is_digit,
    law_decimal_reads_back, lower_text, parse_digits, push_dec, push_hex, same_chars, same_text,
    text_of, to_lower,
};
use crate::wide::{decoded, from_utf16_lossy};

verus! {

/// The machine that stands for "not known".
pub const IMAGE_FILE_MACHINE_UNKNOWN: u16 = 0;

/// How the injector is called.
pub fn usage(exe: &str) -> (text: String)
    ensures
        text@ == "usage: "@ + exe@ + " <process-name-or-pid> [path-to-siglus_hook.dll]"@,
{
    let mut text = "usage: ".to_owned();
    text.append(exe);
    text.append(" <process-name-or-pid> [path-to-siglus_hook.dll]");
    text
}

/// The digits of a number that may have a plus sign in front.
pub open spec fn unsigned_digits(text: Seq<char>) -> Seq<char> {
    if text.len() > 0 && text[0] == '+' {
        text.skip(1)
    } else {
        text
    }
}

/// The number of a process, where a text is one.
pub open spec fn pid_of(text: Seq<char>) -> Option<u32> {
    let digits = unsigned_digits(text);
    if all_digits(digits) && digits_value(digits) <= u32::MAX {
        Some(digits_value(digits) as u32)
    } else {
        None
    }
}

/// The number of a process, where a text is one; otherwise it is a name.
pub fn parse_pid(text: &str) -> (pid: Option<u32>)
    ensures
        pid == pid_of(text@),
{
    let chars = chars_of(text);
    let start: usize = if chars.len() > 0 && chars[0] == '+' {
        1
    } else {
        0
    };
    let digits = &chars.as_slice()[start..chars.len()];
    assert(digits@ =~= unsigned_digits(text@));
    if has_only_digits(digits) {
        parse_digits(digits)
    } else {
        None
    }
}

/// A text without the `.exe` at its end, however often it stands there.
pub open spec fn trimmed(text: Seq<char>) -> Seq<char>
    decreases text.len(),
{
    if text.len() >= 4 && text.skip(text.len() - 4) == seq!['.', 'e', 'x', 'e'] {
        trimmed(text.take(text.len() - 4))
    } else {
        text
    }
}

/// What the names of processes are compared by.
pub open spec fn normalized(name: Seq<char>) -> Seq<char> {
    lower_text(trimmed(name))
}

/// What the names of processes are compared by.
pub fn normalize_process_name(name: &str) -> (normal: String)
    ensures
        normal@ == normalized(name@),
{
    let chars = chars_of(name);
    let suffix: [char; 4] = ['.', 'e', 'x', 'e'];
    assert(suffix@ =~= seq!['.', 'e', 'x', 'e']);
    let mut len: usize = chars.len();
    assert(chars@.take(len as int) =~= chars@);
    while len >= 4
        invariant_except_break
            len <= chars.len(),
            suffix@ == seq!['.', 'e', 'x', 'e'],
            trimmed(chars@.take(len as int)) == trimmed(chars@),
        ensures
            len <= chars.len(),
            trimmed(chars@) == chars@.take(len as int),
        decreases len,
    {
        let end = &chars.as_slice()[len - 4..len];
        assert(end@ =~= chars@.take(len as int).skip(len - 4));
        if !same_chars(end, &suffix) {
            break;
        }
        assert(chars@.take(len as int).take(len - 4) =~= chars@.take(len - 4));
        len -= 4;
    }
    let front = &chars.as_slice()[0..len];
    assert(front@ =~= chars@.take(len as int));
    to_lower(text_of(front).as_str())
}

/// Where the first zero stands, looking from `i` on.
pub open spec fn first_zero(units: Seq<u16>, i: int) -> int
    decreases units.len() - i,
{
    if i >= units.len() || units[i] == 0 {
        i
    } else {
        first_zero(units, i + 1)
    }
}

/// The text in front of the first zero; all of it where there is no zero.
pub fn wide_null_terminated_to_string(wide: &[u16]) -> (text: String)
    ensures
        text@ == decoded(wide@.take(first_zero(wide@, 0))),
{
    let mut len: usize = 0;
    while len < wide.len() && wide[len] != 0
        invariant
            len <= wide.len(),
            first_zero(wide@, 0) == first_zero(wide@, len as int),
        decreases wide.len() - len,
    {
        len += 1;
    }
    let front = &wide[0..len];
    assert(front@ =~= wide@.take(len as int));
    from_utf16_lossy(front)
}

/// One running process: its number and the name of its file, with a zero behind it.
#[derive(Debug)]
pub struct ProcessEntry {
    pub id: u32,
    pub exe_file: Vec<u16>,
}

impl ProcessEntry {
    /// The name of the file.
    pub open spec fn name(self) -> Seq<char> {
        decoded(self.exe_file@.take(first_zero(self.exe_file@, 0)))
    }

    /// Whether the process goes by a name.
    pub open spec fn goes_by(self, name: Seq<char>) -> bool {
        normalized(self.name()) == normalized(name)
    }
}

/// The first process that goes by a name.
pub fn find_process_id(process_name: &str, entries: &[ProcessEntry]) -> (id: Result<u32, String>)
    ensures
        match id {
            Ok(id) => exists|i: int|
                0 <= i < entries@.len() && (#[trigger] entries@[i]).goes_by(process_name@)
                    && entries@[i].id == id && forall|j: int|
                    0 <= j < i ==> !(#[trigger] entries@[j]).goes_by(process_name@),
            Err(message) => message@ == "process not found: "@ + process_name@ && forall|i: int|
                0 <= i < entries@.len() ==> !(#[trigger] entries@[i]).goes_by(process_name@),
        },
{
    let target = normalize_process_name(process_name);
    let mut i: usize = 0;
    while i < entries.len()
        invariant
            i <= entries.len(),
            target@ == normalized(process_name@),
            forall|j: int| 0 <= j < i ==> !(#[trigger] entries@[j]).goes_by(process_name@),
        decreases entries.len() - i,
    {
        let name = wide_null_terminated_to_string(&entries[i].exe_file);
        let normal = normalize_process_name(name.as_str());
        if same_text(normal.as_str(), target.as_str()) {
            assert(entries@[i as int].goes_by(process_name@));
            return Ok(entries[i].id);
        }
        i += 1;
    }
    Err("process not found: ".to_owned().concat(process_name))
}

/// The machine that a process runs as: its own, or that of the system where it is not emulated.
pub fn process_arch(process_machine: u16, native_machine: u16) -> (machine: u16)
    ensures
        machine == if process_machine == IMAGE_FILE_MACHINE_UNKNOWN {
            native_machine
        } else {
            process_machine
        },
{
    if process_machine == IMAGE_FILE_MACHINE_UNKNOWN {
        native_machine
    } else {
        process_machine
    }
}

/// What a machine is called.
pub fn arch_name(machine: u16) -> (name: &'static str)
    ensures
        name@ == machine_text(machine),
{
    machine_name(machine)
}

/// Why the library cannot be loaded into the target, going by the three machines.
pub open spec fn arch_fault(injector: u16, target: u16, dll: u16) -> Option<Seq<char>> {
    if injector != target {
        Some(
            "process architecture mismatch: injector is "@ + machine_text(injector)
                + ", target is "@ + machine_text(target)
                + ". Build both DLL and injector with the matching target, e.g. `cargo build --target i686-pc-windows-msvc` for 32-bit Siglus games."@,
        )
    } else if dll != target {
        Some(
            "DLL architecture mismatch: DLL is "@ + machine_text(dll) + ", target is "@
                + machine_text(target)
                + ". Rebuild siglus_hook for the same target architecture."@,
        )
    } else {
        None
    }
}

/// Whether the injector, the target and the library are for one machine.
pub fn ensure_process_arch_matches(
    injector_arch: u16,
    target_arch: u16,
    dll_arch: u16,
) -> (r: Result<(), String>)
    ensures
        match r {
            Ok(_) => arch_fault(injector_arch, target_arch, dll_arch) is None,
            Err(message) => arch_fault(injector_arch, target_arch, dll_arch) == Some(message@),
        },
{
    if injector_arch != target_arch {
        let mut text = "process architecture mismatch: injector is ".to_owned();
        text.append(arch_name(injector_arch));
        text.append(", target is ");
        text.append(arch_name(target_arch));
        text.append(
            ". Build both DLL and injector with the matching target, e.g. `cargo build --target i686-pc-windows-msvc` for 32-bit Siglus games.",
        );
        return Err(text);
    }
    if dll_arch != target_arch {
        let mut text = "DLL architecture mismatch: DLL is ".to_owned();
        text.append(arch_name(dll_arch));
        text.append(", target is ");
        text.append(arch_name(target_arch));
        text.append(". Rebuild siglus_hook for the same target architecture.");
        return Err(text);
    }
    Ok(())
}

/// Where the PE header of a library stands, from the first bytes of the file.
pub fn pe_header_offset(path: &str, dos_header: &[u8; 0x40]) -> (offset: Result<u64, String>)
    ensures
        match offset {
            Ok(offset) => dos_header@[0] == 0x4D && dos_header@[1] == 0x5A && offset == u32_at(
                dos_header@,
                0x3C,
            ),
            Err(message) => (dos_header@[0] != 0x4D || dos_header@[1] != 0x5A) && message@
                == "DLL is not a PE file: "@ + path@,
        },
{
    if dos_header[0] != 0x4D || dos_header[1] != 0x5A {
        return Err("DLL is not a PE file: ".to_owned().concat(path));
    }
    Ok(get_u32(dos_header, 0x3C) as u64)
}

/// The machine of a library, from the first bytes of its PE header.
pub fn pe_header_machine(path: &str, coff_header: &[u8; 6]) -> (machine: Result<u16, String>)
    ensures
        match machine {
            Ok(machine) => u32_at(coff_header@, 0) == 0x4550 && machine == u16_at(coff_header@, 4),
            Err(message) => u32_at(coff_header@, 0) != 0x4550 && message@
                == "DLL has an invalid PE signature: "@ + path@,
        },
{
    if get_u32(coff_header, 0) != 0x4550 {
        return Err("DLL has an invalid PE signature: ".to_owned().concat(path));
    }
    Ok(get_u16(coff_header, 4))
}

/// The injector and the patcher see the same machine in a library that the patcher can read.
pub proof fn law_injector_and_patcher_agree(b: Seq<u8>)
    requires
        header_fault(b) is None,
    ensures
        ({
            let dos = b.take(0x40);
            let coff = b.subrange(nt_at(b), nt_at(b) + 6);
            &&& dos[0] == 0x4D && dos[1] == 0x5A
            &&& u32_at(dos, 0x3C) == nt_at(b)
            &&& u32_at(coff, 0) == 0x4550
            &&& u16_at(coff, 4) == machine_of(b)
        }),
{
    let dos = b.take(0x40);
    let coff = b.subrange(nt_at(b), nt_at(b) + 6);
    assert forall|k: int| 0 <= k < 4 implies #[trigger] dos[0x3C + k] == b[0x3C + k] by {}
    crate::bytes::lemma_u32_same(dos, 0x3C, b, 0x3C);
    assert forall|k: int| 0 <= k < 4 implies #[trigger] coff[0 + k] == b[nt_at(b) + k] by {}
    crate::bytes::lemma_u32_same(coff, 0, b, nt_at(b));
    assert forall|k: int| 0 <= k < 2 implies #[trigger] coff[4 + k] == b[nt_at(b) + 4 + k] by {}
    crate::bytes::lemma_u16_same(coff, 4, b, nt_at(b) + 4);
}

/// What is to be done next to load the library. The first action is to open the process.
#[derive(Debug)]
pub enum InjectAction {
    /// Compare the machines.
    CheckArchitecture,
    /// Take this many bytes of memory in the process.
    Allocate(usize),
    /// Write the path of the library there.
    WritePath,
    /// Find the function that loads a library.
    FindLoader,
    /// Start it in the process, on the path.
    StartThread,
    /// Wait for it and see what it returned.
    ReadExitCode,
    /// Stop: the library was loaded, at this handle.
    Done(u32),
    /// Stop: it was not.
    Fail(String),
}

/// What came of the last action; the system's error number stands with a failure.
#[derive(Debug)]
pub enum InjectEvent {
    Opened(Result<(), u32>),
    Architecture(Result<(), String>),
    Allocated(Result<(), u32>),
    Written { done: bool, written: usize, error: u32 },
    LoaderFound(Result<(), String>),
    ThreadStarted(Result<(), u32>),
    ExitCode(Result<u32, u32>),
}

/// The words for a call that failed with an error number.
pub open spec fn failed_text(call: Seq<char>, error: u32) -> Seq<char> {
    call + " failed: "@ + dec(error as nat)
}

fn failed(call: &str, error: u32) -> (text: String)
    ensures
        text@ == failed_text(call@, error),
{
    let mut text = call.to_owned();
    text.append(" failed: ");
    push_dec(&mut text, error as u64);
    text
}

fn open_call(pid: u32) -> (text: String)
    ensures
        text@ == "OpenProcess("@ + dec(pid as nat) + ")"@,
{
    let mut text = "OpenProcess(".to_owned();
    push_dec(&mut text, pid as u64);
    text.append(")");
    text
}

/// What is said where the library was not loaded in the process.
pub open spec fn not_loaded_text(dll_path: Seq<char>) -> Seq<char> {
    "remote LoadLibraryW failed for "@ + dll_path
        + ". Check that the target can read the DLL path, the DLL matches process architecture, and required runtime/dependencies are available."@
}

/// What follows on an event, for the process `pid` and a path of `path_units` code units.
pub open spec fn inject_follows(
    pid: u32,
    dll_path: Seq<char>,
    path_units: int,
    event: InjectEvent,
    action: InjectAction,
) -> bool {
    match event {
        InjectEvent::Opened(Ok(_)) => action is CheckArchitecture,
        InjectEvent::Opened(Err(error)) => action matches InjectAction::Fail(text) && text@
            == failed_text("OpenProcess("@ + dec(pid as nat) + ")"@, error),
        InjectEvent::Architecture(Ok(_)) => action == InjectAction::Allocate(
            (2 * path_units) as usize,
        ),
        InjectEvent::Architecture(Err(message)) => action == InjectAction::Fail(message),
        InjectEvent::Allocated(Ok(_)) => action is WritePath,
        InjectEvent::Allocated(Err(error)) => action matches InjectAction::Fail(text) && text@
            == failed_text("VirtualAllocEx"@, error),
        InjectEvent::Written { done, written, error } => if done && written == 2 * path_units {
            action is FindLoader
        } else {
            action matches InjectAction::Fail(text) && text@ == failed_text(
                "WriteProcessMemory"@,
                error,
            )
        },
        InjectEvent::LoaderFound(Ok(_)) => action is StartThread,
        InjectEvent::LoaderFound(Err(message)) => action == InjectAction::Fail(message),
        InjectEvent::ThreadStarted(Ok(_)) => action is ReadExitCode,
        InjectEvent::ThreadStarted(Err(error)) => action matches InjectAction::Fail(text) && text@
            == failed_text("CreateRemoteThread"@, error),
        InjectEvent::ExitCode(Ok(code)) => if code != 0 {
            action == InjectAction::Done(code)
        } else {
            action matches InjectAction::Fail(text) && text@ == not_loaded_text(dll_path)
        },
        InjectEvent::ExitCode(Err(error)) => action matches InjectAction::Fail(text) && text@
            == failed_text("GetExitCodeThread"@, error),
    }
}

/// What to do to load the library, given what came of the last action. `path_units` counts the
/// code units of the path with the zero behind them.
pub fn inject_dll(
    pid: u32,
    dll_path: &str,
    path_units: usize,
    event: InjectEvent,
) -> (action: InjectAction)
    requires
        2 * path_units <= usize::MAX,
    ensures
        inject_follows(pid, dll_path@, path_units as int, event, action),
{
    match event {
        InjectEvent::Opened(opened) => match opened {
            Ok(()) => InjectAction::CheckArchitecture,
            Err(error) => InjectAction::Fail(failed(open_call(pid).as_str(), error)),
        },
        InjectEvent::Architecture(checked) => match checked {
            Ok(()) => InjectAction::Allocate(2 * path_units),
            Err(message) => InjectAction::Fail(message),
        },
        InjectEvent::Allocated(allocated) => match allocated {
            Ok(()) => InjectAction::WritePath,
            Err(error) => InjectAction::Fail(failed("VirtualAllocEx", error)),
        },
        InjectEvent::Written { done, written, error } => if done && written == 2 * path_units {
            InjectAction::FindLoader
        } else {
            InjectAction::Fail(failed("WriteProcessMemory", error))
        },
        InjectEvent::LoaderFound(found) => match found {
            Ok(()) => InjectAction::StartThread,
            Err(message) => InjectAction::Fail(message),
        },
        InjectEvent::ThreadStarted(started) => match started {
            Ok(()) => InjectAction::ReadExitCode,
            Err(error) => InjectAction::Fail(failed("CreateRemoteThread", error)),
        },
        InjectEvent::ExitCode(code) => match code {
            Ok(code) => if code != 0 {
                InjectAction::Done(code)
            } else {
                let mut text = "remote LoadLibraryW failed for ".to_owned();
                text.append(dll_path);
                text.append(
                    ". Check that the target can read the DLL path, the DLL matches process architecture, and required runtime/dependencies are available.",
                );
                InjectAction::Fail(text)
            },
            Err(error) => InjectAction::Fail(failed("GetExitCodeThread", error)),
        },
    }
}

/// What is said where the library was loaded.
pub fn injected_text(dll_path: &str, pid: u32, remote_module: u32) -> (text: String)
    ensures
        text@ == "Injected "@ + dll_path@ + " into process "@ + dec(pid as nat)
            + "; remote module handle: 0x"@ + hex_upper(remote_module as nat),
{
    let mut text = "Injected ".to_owned();
    text.append(dll_path);
    text.append(" into process ");
    push_dec(&mut text, pid as u64);
    text.append("; remote module handle: 0x");
    push_hex(&mut text, remote_module as u64);
    text
}

/// The name of a process is compared without the `.exe` at its end, and one that has none is
/// compared as it is.
pub proof fn law_extension_does_not_count(name: Seq<char>)
    ensures
        normalized(name + seq!['.', 'e', 'x', 'e']) == normalized(name),
        name.len() < 4 || name.skip(name.len() - 4) != seq!['.', 'e', 'x', 'e'] ==> normalized(name)
            == lower_text(name),
{
    let suffix = seq!['.', 'e', 'x', 'e'];
    let longer = name + suffix;
    assert(longer.skip(longer.len() - 4) =~= suffix);
    assert(longer.take(longer.len() - 4) =~= name);
}

/// What names are compared by is a front of the name, without `.exe` at its end and without ASCII
/// capitals.
pub proof fn law_compared_name_is_a_front(name: Seq<char>)
    ensures
        ({
            let front = trimmed(name);
            &&& front.len() <= name.len()
            &&& front == name.take(front.len() as int)
            &&& front.len() < 4 || front.skip(front.len() - 4) != seq!['.', 'e', 'x', 'e']
        }),
    decreases name.len(),
{
    if name.len() >= 4 && name.skip(name.len() - 4) == seq!['.', 'e', 'x', 'e'] {
        let shorter = name.take(name.len() - 4);
        law_compared_name_is_a_front(shorter);
        let front = trimmed(shorter);
        assert(shorter.take(front.len() as int) =~= name.take(front.len() as int));
    } else {
        assert(name.take(name.len() as int) =~= name);
    }
}

/// A text ends in front of its first zero.
pub proof fn law_text_ends_at_the_first_zero(units: Seq<u16>, from: int, k: int)
    requires
        0 <= from <= units.len(),
    ensures
        ({
            let end = first_zero(units, from);
            &&& from <= end <= units.len()
            &&& end == units.len() || units[end] == 0
            &&& from <= k < end ==> units[k] != 0
        }),
    decreases units.len() - from,
{
    if from < units.len() && units[from] != 0 {
        law_text_ends_at_the_first_zero(units, from + 1, k);
    }
}

/// The library is loaded only where the injector, the target and the library are all for one
/// machine.
pub proof fn law_machines_have_to_match(injector: u16, target: u16, dll: u16)
    ensures
        arch_fault(injector, target, dll) is None <==> injector == target && dll == target,
{
}

/// A number with a plus sign in front is the number; one that is written out in decimal is read as
/// that number, and a name with anything but digits is none.
pub proof fn law_process_numbers(text: Seq<char>, n: u32, i: int)
    ensures
        pid_of(dec(n as nat)) == Some(n),
        pid_of(seq!['+'] + dec(n as nat)) == Some(n),
        0 < i < text.len() && !('0' <= text[i] && text[i] <= '9') ==> pid_of(text) is None,
        text.len() == 0 ==> pid_of(text) is None,
{
    law_decimal_reads_back(n as nat);
    let digits = dec(n as nat);
    assert(is_digit(digits[0]));
    assert((seq!['+'] + digits).skip(1) =~= digits);
    if 0 < i < text.len() && !is_digit(text[i]) {
        if text[0] == '+' {
            assert(unsigned_digits(text)[i - 1] == text[i]);
        } else {
            assert(unsigned_digits(text)[i] == text[i]);
        }
    }
}

} // verus!
