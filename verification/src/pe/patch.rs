//! Deciding whether an executable is to be patched or restored.

use vstd::pervasive::unreached;
use vstd::prelude::*;
use vstd::string::to_string_from_display_ensures;

use crate::pe::hook::{
    add_hook_import, hook_import, hook_section_name, HookFault, HookImport, HOOK_DLL_NAME,
};
use crate::pe::image::{
    descriptors_of, has_section_named, header_fault, imports, machine_of, Outcome, PeFault, PeImage,
};
use crate::pe::laws::{law_patched_image_imports_hook, parts_apart};

verus! {

/// What takes the place of the extension in the path of a backup.
pub const BACKUP_EXTENSION: &'static str = "siglus_iat_backup";

/// What is known of an executable and the files beside it.
#[derive(Clone, Debug)]
pub struct PatchStatus {
    pub exe_path: String,
    pub dll_path: String,
    pub dll_exists: bool,
    pub backup_path: String,
    pub backup_exists: bool,
    pub patched: bool,
    pub exe_machine: u16,
    pub dll_machine: Option<u16>,
}

/// Why an executable was not patched or restored.
#[derive(Debug)]
pub enum PatchError {
    Io(std::io::Error),
    InvalidPe(String),
    AlreadyPatched,
    NotPatched,
    MissingHookDll(String),
    MissingBackup(String),
    ArchitectureMismatch { exe_machine: u16, dll_machine: u16 },
}

impl From<std::io::Error> for PatchError {
    fn from(value: std::io::Error) -> (r: PatchError) {
        PatchError::Io(value)
    }
}

impl vstd::std_specs::convert::FromSpecImpl<std::io::Error> for PatchError {
    open spec fn obeys_from_spec() -> bool {
        true
    }

    open spec fn from_spec(value: std::io::Error) -> PatchError {
        PatchError::Io(value)
    }
}

/// What a machine is called.
pub open spec fn machine_text(machine: u16) -> Seq<char> {
    if machine == 0x014C {
        "x86"@
    } else if machine == 0x8664 {
        "x64"@
    } else {
        "unknown"@
    }
}

/// What a machine is called.
pub fn machine_name(machine: u16) -> (name: &'static str)
    ensures
        name@ == machine_text(machine),
{
    match machine {
        0x014C => "x86",
        0x8664 => "x64",
        _ => "unknown",
    }
}

impl PatchStatus {
    /// The machines of the executable and of the library, in words.
    pub fn machine_summary(&self) -> (text: String)
        ensures
            text@ == match self.dll_machine {
                Some(dll_machine) => "EXE: "@ + machine_text(self.exe_machine) + ", DLL: "@
                    + machine_text(dll_machine),
                None => "EXE: "@ + machine_text(self.exe_machine) + ", DLL: missing"@,
            },
    {
        let mut text: String = "EXE: ".to_owned();
        text.append(machine_name(self.exe_machine));
        match self.dll_machine {
            Some(dll_machine) => {
                text.append(", DLL: ");
                text.append(machine_name(dll_machine));
            },
            None => {
                text.append(", DLL: missing");
            },
        }
        text
    }
}

impl PatchError {
    /// The words for every failure but that of reading or writing a file, which speaks for itself.
    pub open spec fn text(self) -> Option<Seq<char>> {
        match self {
            PatchError::Io(_) => None,
            PatchError::InvalidPe(message) => Some(message@),
            PatchError::AlreadyPatched => Some(
                "the executable already imports "@ + HOOK_DLL_NAME@,
            ),
            PatchError::NotPatched => Some("the executable does not import "@ + HOOK_DLL_NAME@),
            PatchError::MissingHookDll(path) => Some(
                "missing hook DLL next to the executable: "@ + path@,
            ),
            PatchError::MissingBackup(path) => Some("missing backup for unpatch: "@ + path@),
            PatchError::ArchitectureMismatch { exe_machine, dll_machine } => Some(
                "architecture mismatch: EXE is "@ + machine_text(exe_machine) + ", DLL is "@
                    + machine_text(dll_machine),
            ),
        }
    }

    /// Whether `message` holds the words for this failure; those of reading or writing a file are
    /// what the system's error is shown as.
    pub open spec fn says(self, message: String) -> bool {
        match self {
            PatchError::Io(error) => to_string_from_display_ensures(&error, message),
            _ => self.text() == Some(message@),
        }
    }

    /// The failure of a malformed image.
    fn of_fault(fault: PeFault) -> (error: PatchError)
        requires
            fault is Invalid,
        ensures
            error matches PatchError::InvalidPe(m) && fault matches PeFault::Invalid(message) && m@
                == message@,
    {
        match fault {
            PeFault::Invalid(message) => PatchError::InvalidPe(message),
            PeFault::Overflow => unreached(),
        }
    }

    /// The failure in words.
    pub fn message(&self) -> (message: String)
        ensures
            self.says(message),
    {
        match self {
            PatchError::Io(error) => error.to_string(),
            PatchError::InvalidPe(message) => message.clone(),
            PatchError::AlreadyPatched => "the executable already imports ".to_owned().concat(
                HOOK_DLL_NAME,
            ),
            PatchError::NotPatched => "the executable does not import ".to_owned().concat(
                HOOK_DLL_NAME,
            ),
            PatchError::MissingHookDll(path) => {
                "missing hook DLL next to the executable: ".to_owned().concat(path.as_str())
            },
            PatchError::MissingBackup(path) => "missing backup for unpatch: ".to_owned().concat(
                path.as_str(),
            ),
            PatchError::ArchitectureMismatch { exe_machine, dll_machine } => {
                let mut message: String = "architecture mismatch: EXE is ".to_owned();
                message.append(machine_name(*exe_machine));
                message.append(", DLL is ");
                message.append(machine_name(*dll_machine));
                message
            },
        }
    }
}

/// An executable and what stands beside it.
pub struct ExeFiles {
    pub exe_path: String,
    pub exe: Vec<u8>,
    /// Where the hook library belongs; nowhere, where the executable's path has no parent.
    pub dll_path: Option<String>,
    /// The hook library, where there is one.
    pub dll: Option<Vec<u8>>,
    pub backup_path: String,
    pub backup_exists: bool,
}

/// What is said of an executable whose path has no parent directory.
pub open spec fn no_parent_text(exe_path: Seq<char>) -> Seq<char> {
    "executable path has no parent directory: "@ + exe_path
}

/// Whether an image that can be read is patched.
pub open spec fn is_patched(exe: Seq<u8>) -> Outcome<bool> {
    match imports(exe, HOOK_DLL_NAME@) {
        Outcome::Value(found) => Outcome::Value(
            found || has_section_named(exe, hook_section_name()),
        ),
        other => other,
    }
}

impl ExeFiles {
    /// Whether the executable is patched, or the first thing that keeps that from being known.
    pub open spec fn patched(self) -> Outcome<bool> {
        if header_fault(self.exe@) is Some {
            Outcome::Fault(header_fault(self.exe@)->0)
        } else if self.dll_path is None {
            Outcome::Fault(no_parent_text(self.exe_path@))
        } else if self.dll is Some && header_fault(self.dll->0@) is Some {
            Outcome::Fault(header_fault(self.dll->0@)->0)
        } else {
            is_patched(self.exe@)
        }
    }

    /// The machine of the hook library, where there is one.
    pub open spec fn dll_machine(self) -> Option<u16> {
        match self.dll {
            Some(dll) => Some(machine_of(dll@)),
            None => None,
        }
    }
}

impl ExeFiles {
    /// Whether nothing stands in the way of rewriting the executable.
    pub open spec fn ready(self) -> bool {
        self.patched() == Outcome::Value(false) && self.dll_machine() == Some(
            machine_of(self.exe@),
        )
    }
}

/// The machine that an image is for.
pub fn machine(bytes: &[u8]) -> (r: Result<u16, PatchError>)
    ensures
        match r {
            Ok(machine) => header_fault(bytes@) is None && machine == machine_of(bytes@),
            Err(error) => error matches PatchError::InvalidPe(m) && header_fault(bytes@) == Some(
                m@,
            ),
        },
{
    match PeImage::parse(bytes) {
        Ok(pe) => Ok(pe.machine),
        Err(fault) => Err(PatchError::of_fault(fault)),
    }
}

/// Whether the addresses that `status` has to follow fit in 32 bits.
pub fn status_fits(files: &ExeFiles) -> (fits: bool)
    ensures
        fits == !(files.patched() is Overflow),
{
    let pe = match PeImage::parse(&files.exe) {
        Ok(pe) => pe,
        Err(_) => return true,
    };
    if files.dll_path.is_none() {
        return true;
    }
    if let Some(dll) = &files.dll {
        if machine(dll).is_err() {
            return true;
        }
    }
    match pe.imports_dll(HOOK_DLL_NAME) {
        Err(PeFault::Overflow) => false,
        _ => true,
    }
}

/// Finds out what there is to know of an executable and the files beside it.
pub fn status(files: &ExeFiles) -> (r: Result<PatchStatus, PatchError>)
    requires
        !(files.patched() is Overflow),
    ensures
        match r {
            Ok(status) => {
                &&& files.patched() == Outcome::Value(status.patched)
                &&& status.exe_path@ == files.exe_path@
                &&& files.dll_path matches Some(dll_path) && status.dll_path@ == dll_path@
                &&& status.dll_exists == (files.dll is Some)
                &&& status.backup_path@ == files.backup_path@
                &&& status.backup_exists == files.backup_exists
                &&& status.exe_machine == machine_of(files.exe@)
                &&& status.dll_machine == files.dll_machine()
            },
            Err(error) => error matches PatchError::InvalidPe(m) && files.patched()
                == Outcome::<bool>::Fault(m@),
        },
{
    let pe = match PeImage::parse(&files.exe) {
        Ok(pe) => pe,
        Err(fault) => return Err(PatchError::of_fault(fault)),
    };
    let dll_path = match &files.dll_path {
        Some(dll_path) => dll_path.clone(),
        None => {
            return Err(
                PatchError::InvalidPe(
                    "executable path has no parent directory: ".to_owned().concat(
                        files.exe_path.as_str(),
                    ),
                ),
            );
        },
    };
    let dll_machine: Option<u16> = match &files.dll {
        Some(dll) => match machine(dll) {
            Ok(found) => Some(found),
            Err(error) => return Err(error),
        },
        None => None,
    };
    let imported = match pe.imports_dll(HOOK_DLL_NAME) {
        Ok(imported) => imported,
        Err(fault) => return Err(PatchError::of_fault(fault)),
    };
    let name: [u8; 8] = [0x2E, 0x73, 0x69, 0x67, 0x68, 0x6F, 0x6F, 0x6B];
    assert(name@ =~= hook_section_name());
    Ok(
        PatchStatus {
            exe_path: files.exe_path.clone(),
            dll_path,
            dll_exists: files.dll.is_some(),
            backup_path: files.backup_path.clone(),
            backup_exists: files.backup_exists,
            patched: imported || pe.has_section(&name),
            exe_machine: pe.machine,
            dll_machine,
        },
    )
}

/// What patching takes: whether the executable is copied to the backup first, and what is then
/// written in its place, or why nothing is.
#[derive(Debug)]
pub struct PatchPlan {
    pub make_backup: bool,
    pub image: Result<Vec<u8>, PatchError>,
}

/// Decides what patching an executable takes.
pub fn patch(files: &ExeFiles) -> (r: Result<PatchPlan, PatchError>)
    requires
        !(files.patched() is Overflow),
        files.ready() ==> !(hook_import(files.exe@) is Overflow),
    ensures
        match r {
            Ok(plan) => {
                &&& files.ready()
                &&& plan.make_backup == !files.backup_exists
                &&& match plan.image {
                    Ok(image) => hook_import(files.exe@) == HookImport::Patched(image@),
                    Err(error) => error matches PatchError::InvalidPe(m) && hook_import(
                        files.exe@,
                    ) matches HookImport::Invalid(text, _) && text == m@,
                }
            },
            Err(PatchError::InvalidPe(m)) => files.patched() == Outcome::<bool>::Fault(m@),
            Err(PatchError::AlreadyPatched) => files.patched() == Outcome::Value(true),
            Err(PatchError::MissingHookDll(path)) => files.patched() == Outcome::Value(false)
                && files.dll is None && (files.dll_path matches Some(dll_path) && path@
                == dll_path@),
            Err(PatchError::ArchitectureMismatch { exe_machine, dll_machine }) => files.patched()
                == Outcome::Value(false) && exe_machine == machine_of(files.exe@)
                && files.dll_machine() == Some(dll_machine) && exe_machine != dll_machine,
            Err(_) => false,
        },
{
    let current = match status(files) {
        Ok(current) => current,
        Err(error) => return Err(error),
    };
    if current.patched {
        return Err(PatchError::AlreadyPatched);
    }
    let dll_machine: u16 = match current.dll_machine {
        Some(dll_machine) => dll_machine,
        None => return Err(PatchError::MissingHookDll(current.dll_path)),
    };
    if current.exe_machine != dll_machine {
        return Err(
            PatchError::ArchitectureMismatch { exe_machine: current.exe_machine, dll_machine },
        );
    }
    let mut bytes: Vec<u8> = files.exe.clone();
    assert(bytes@ =~= files.exe@);
    let image = match add_hook_import(&mut bytes) {
        Ok(()) => Ok(bytes),
        Err(HookFault::Pe(fault)) => Err(PatchError::of_fault(fault)),
        Err(HookFault::AlreadyPatched) => Err(PatchError::AlreadyPatched),
    };
    Ok(PatchPlan { make_backup: !current.backup_exists, image })
}

/// Decides whether the backup may be copied over an executable.
pub fn unpatch(files: &ExeFiles) -> (r: Result<(), PatchError>)
    requires
        !(files.patched() is Overflow),
    ensures
        match r {
            Ok(_) => files.patched() == Outcome::Value(true) && files.backup_exists,
            Err(PatchError::InvalidPe(m)) => files.patched() == Outcome::<bool>::Fault(m@),
            Err(PatchError::NotPatched) => files.patched() == Outcome::Value(false),
            Err(PatchError::MissingBackup(path)) => files.patched() == Outcome::Value(true)
                && !files.backup_exists && path@ == files.backup_path@,
            Err(_) => false,
        },
{
    let current = match status(files) {
        Ok(current) => current,
        Err(error) => return Err(error),
    };
    if !current.patched {
        return Err(PatchError::NotPatched);
    }
    if !current.backup_exists {
        return Err(PatchError::MissingBackup(current.backup_path));
    }
    Ok(())
}

/// The contents of an executable and of its backup.
pub struct ExeContents {
    pub exe: Seq<u8>,
    pub backup: Option<Seq<u8>>,
}

/// The contents after a plan was carried out that found no backup or kept the one there was.
pub open spec fn after_patch(before: ExeContents, image: Seq<u8>) -> ExeContents {
    ExeContents {
        exe: image,
        backup: if before.backup is None {
            Some(before.exe)
        } else {
            before.backup
        },
    }
}

/// The contents after the backup was copied over the executable.
pub open spec fn after_unpatch(before: ExeContents) -> ExeContents {
    ExeContents { exe: before.backup->0, backup: before.backup }
}

/// A patched executable is seen as patched, has a backup, and unpatching it brings back what it
/// held before, where no older backup was there.
pub proof fn law_unpatch_restores(before: ExeContents)
    requires
        hook_import(before.exe) is Patched,
        parts_apart(before.exe, descriptors_of(before.exe)->Value_0.1),
    ensures
        ({
            let after = after_patch(before, hook_import(before.exe)->Patched_0);
            &&& header_fault(after.exe) is None
            &&& is_patched(after.exe) == Outcome::Value(true)
            &&& machine_of(after.exe) == machine_of(before.exe)
            &&& after.backup is Some
            &&& before.backup is None ==> after_unpatch(after).exe == before.exe
            &&& before.backup is Some ==> after.backup == before.backup
        }),
{
    law_patched_image_imports_hook(before.exe);
}

/// An executable that is seen as patched is never patched again, and only one that is seen as not
/// patched can be.
pub proof fn law_patched_files_are_left_alone(exe: Seq<u8>)
    requires
        header_fault(exe) is None,
    ensures
        is_patched(exe) == Outcome::Value(true) <==> hook_import(exe) is AlreadyPatched,
        hook_import(exe) is Patched ==> is_patched(exe) == Outcome::Value(false),
        has_section_named(exe, seq![0x2Eu8, 0x73, 0x69, 0x67, 0x68, 0x6F, 0x6F, 0x6B]) && imports(
            exe,
            "siglus_hook.dll"@,
        ) is Value ==> is_patched(exe) == Outcome::Value(true),
        imports(exe, "siglus_hook.dll"@) == Outcome::Value(true) ==> is_patched(exe)
            == Outcome::Value(true),
{
}

} // verus!
