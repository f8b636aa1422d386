//! What the window of the patcher shows and does.

use vstd::prelude::*;

use crate::pe::patch::{machine_text, PatchError, PatchStatus};

verus! {

/// What a click asks for.
#[derive(Clone, Copy, Debug, PartialEq, Eq, Structural)]
pub enum WindowCommand {
    Browse,
    Patch,
    Unpatch,
    Nothing,
}

pub const ID_BROWSE: usize = 1001;

pub const ID_PATCH: usize = 1002;

pub const ID_UNPATCH: usize = 1003;

/// The command that a control sends: the low 16 bits tell which control it is.
pub fn window_command(wparam: usize) -> (command: WindowCommand)
    ensures
        command == if wparam % 0x1_0000 == 1001 {
            WindowCommand::Browse
        } else if wparam % 0x1_0000 == 1002 {
            WindowCommand::Patch
        } else if wparam % 0x1_0000 == 1003 {
            WindowCommand::Unpatch
        } else {
            WindowCommand::Nothing
        },
{
    let id: usize = wparam % 0x1_0000;
    if id == ID_BROWSE {
        WindowCommand::Browse
    } else if id == ID_PATCH {
        WindowCommand::Patch
    } else if id == ID_UNPATCH {
        WindowCommand::Unpatch
    } else {
        WindowCommand::Nothing
    }
}

/// What is said of a file that is there or not.
pub open spec fn found_text(exists: bool) -> Seq<char> {
    if exists {
        "found"@
    } else {
        "missing"@
    }
}

fn found_word(exists: bool) -> (text: &'static str)
    ensures
        text@ == found_text(exists),
{
    if exists {
        "found"
    } else {
        "missing"
    }
}

/// What is said of an executable and the files beside it.
pub open spec fn status_text(status: PatchStatus) -> Seq<char> {
    let patched = if status.patched {
        "\nStatus: patched"@
    } else {
        "\nStatus: not patched"@
    };
    let machines = match status.dll_machine {
        Some(dll) => "EXE: "@ + machine_text(status.exe_machine) + ", DLL: "@ + machine_text(dll),
        None => "EXE: "@ + machine_text(status.exe_machine) + ", DLL: missing"@,
    };
    "Selected: "@ + status.exe_path@ + patched + "\nHook DLL: "@ + status.dll_path@ + " ("@
        + found_text(status.dll_exists) + ")\nBackup: "@ + status.backup_path@ + " ("@ + found_text(
        status.backup_exists,
    ) + ")\n"@ + machines
}

/// What the window says of the chosen executable.
pub fn refresh_status(status: &Result<PatchStatus, PatchError>) -> (text: String)
    ensures
        match status {
            Ok(status) => text@ == status_text(*status),
            Err(error) => exists|reason: String| #[trigger]
                error.says(reason) && text@ == "Status: failed to inspect executable\n"@ + reason@,
        },
{
    match status {
        Ok(status) => {
            let mut text = "Selected: ".to_owned();
            text.append(status.exe_path.as_str());
            text.append(
                if status.patched {
                    "\nStatus: patched"
                } else {
                    "\nStatus: not patched"
                },
            );
            text.append("\nHook DLL: ");
            text.append(status.dll_path.as_str());
            text.append(" (");
            text.append(found_word(status.dll_exists));
            text.append(")\nBackup: ");
            text.append(status.backup_path.as_str());
            text.append(" (");
            text.append(found_word(status.backup_exists));
            text.append(")\n");
            text.append(status.machine_summary().as_str());
            text
        },
        Err(error) => {
            let mut text = "Status: failed to inspect executable\n".to_owned();
            let reason = error.message();
            text.append(reason.as_str());
            text
        },
    }
}

/// What was asked for.
#[derive(Clone, Copy, Debug, PartialEq, Eq, Structural)]
pub enum Task {
    Patch,
    Unpatch,
}

/// What the window says when a task is over: a line for its log, and a message.
#[derive(Debug)]
pub struct TaskReport {
    pub log: String,
    pub message: String,
    pub is_error: bool,
}

/// What the window says when a task is over.
pub fn report(task: Task, exe_path: &str, result: &Result<(), PatchError>) -> (report: TaskReport)
    ensures
        report.is_error == (result is Err),
        match (task, result) {
            (Task::Patch, Ok(_)) => report.log@ == "Patched "@ + exe_path@ && report.message@
                == "Patch completed."@,
            (Task::Unpatch, Ok(_)) => report.log@ == "Restored "@ + exe_path@ && report.message@
                == "Unpatch completed."@,
            (Task::Patch, Err(error)) => exists|reason: String| #[trigger]
                error.says(reason) && report.log@ == "Patch failed: "@ + reason@ && report.message@
                    == "Patch failed:\n"@ + reason@,
            (Task::Unpatch, Err(error)) => exists|reason: String| #[trigger]
                error.says(reason) && report.log@ == "Unpatch failed: "@ + reason@
                    && report.message@ == "Unpatch failed:\n"@ + reason@,
        },
{
    match result {
        Ok(_) => match task {
            Task::Patch => TaskReport {
                log: "Patched ".to_owned().concat(exe_path),
                message: "Patch completed.".to_owned(),
                is_error: false,
            },
            Task::Unpatch => TaskReport {
                log: "Restored ".to_owned().concat(exe_path),
                message: "Unpatch completed.".to_owned(),
                is_error: false,
            },
        },
        Err(error) => {
            let reason = error.message();
            match task {
                Task::Patch => TaskReport {
                    log: "Patch failed: ".to_owned().concat(reason.as_str()),
                    message: "Patch failed:\n".to_owned().concat(reason.as_str()),
                    is_error: true,
                },
                Task::Unpatch => TaskReport {
                    log: "Unpatch failed: ".to_owned().concat(reason.as_str()),
                    message: "Unpatch failed:\n".to_owned().concat(reason.as_str()),
                    is_error: true,
                },
            }
        },
    }
}

/// Adds a line to the log.
pub fn append_log(log: &mut String, message: &str)
    ensures
        final(log)@ == old(log)@ + message@ + "\r\n"@,
{
    log.append(message);
    log.append("\r\n");
}

} // verus!
