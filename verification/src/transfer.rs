//! File transfer over a session: the SFTP-preferred / exec-fallback
//! strategy, the exact remote command lines of the exec path, and the
//! exit-code discipline shared by all of them. Driving the channel is the
//! callers' business.

use vstd::prelude::*;
use vstd::string::StringExecFns;

use crate::device::{Device, FileTransfer};
use crate::quote::{escaped_of, shell_escape};
use crate::text::{append_int, append_oct, int_chars, oct_chars};

verus! {

/// Why a transfer operation failed.
#[derive(Debug)]
pub enum TransferError {
    ExitCode { code: i32, reason: String },
    Ssh(String),
    Io(String),
}

/// The upload copy loop hands the progress callback a cumulative byte count
/// after each chunk of at most this many bytes.
pub const PUT_CHUNK_SIZE: usize = 8192;

/// Whether SFTP may be attempted for this device: it is skipped exactly
/// when the device prefers streaming. On any SFTP failure the exec fallback
/// is used instead.
pub fn sftp_allowed(device: &Device) -> (r: bool)
    ensures
        r == (device@.files != Some(FileTransfer::Stream)),
{
    match device.files {
        Some(FileTransfer::Stream) => false,
        _ => true,
    }
}

/// How one transfer operation talks to the device.
#[derive(Clone, Copy, Debug, PartialEq, Eq, Structural)]
pub enum TransferRoute {
    Sftp,
    Exec,
}

/// The route an operation takes: a device preferring streaming never sees
/// SFTP; otherwise SFTP is used when opening it succeeded, and any SFTP
/// failure falls back to the exec path.
pub fn transfer_route(device: &Device, sftp_opened: bool) -> (r: TransferRoute)
    ensures
        device@.files == Some(FileTransfer::Stream) ==> r is Exec,
        device@.files != Some(FileTransfer::Stream) ==> r == (if sftp_opened {
            TransferRoute::Sftp
        } else {
            TransferRoute::Exec
        }),
{
    if sftp_allowed(device) && sftp_opened {
        TransferRoute::Sftp
    } else {
        TransferRoute::Exec
    }
}

/// The exec fallback for creating a directory: `mkdir -p`, then `chmod` to
/// the requested octal mode, both on the quoted path.
pub fn mkdir_command(dir: &str, mode: u32) -> (r: String)
    ensures
        r@ == "mkdir -p "@ + escaped_of(dir@) + " && chmod "@ + oct_chars(mode as nat) + " "@
            + escaped_of(dir@),
{
    let quoted = shell_escape(dir);
    let mut cmd = String::from_str("mkdir -p ");
    cmd.append(quoted.as_str());
    cmd.append(" && chmod ");
    append_oct(&mut cmd, mode as u64);
    cmd.append(" ");
    cmd.append(quoted.as_str());
    cmd
}

/// The exec fallback for an upload: `cat` into the quoted target, the body
/// streamed to stdin.
pub fn put_command(target: &str) -> (r: String)
    ensures
        r@ == "cat > "@ + escaped_of(target@),
{
    let mut cmd = String::from_str("cat > ");
    let quoted = shell_escape(target);
    cmd.append(quoted.as_str());
    cmd
}

/// The exec fallback for a download: `cat` of the quoted source.
pub fn get_command(source: &str) -> (r: String)
    ensures
        r@ == "cat "@ + escaped_of(source@),
{
    let mut cmd = String::from_str("cat ");
    let quoted = shell_escape(source);
    cmd.append(quoted.as_str());
    cmd
}

/// The exec fallback for removal: recursive, forced.
pub fn rm_command(path: &str) -> (r: String)
    ensures
        r@ == "rm -rf "@ + escaped_of(path@),
{
    let mut cmd = String::from_str("rm -rf ");
    let quoted = shell_escape(path);
    cmd.append(quoted.as_str());
    cmd
}

/// The exit-code discipline of every exec-path operation: status zero is
/// success, any other status is an error naming the command and the status.
pub fn exit_result(command: &str, code: i32) -> (r: Result<(), TransferError>)
    ensures
        code == 0 ==> r is Ok,
        code != 0 ==> (r matches Err(e) && e matches TransferError::ExitCode {
            code: c,
            reason,
        } && c == code && reason@ == command@ + " command exited with status "@ + int_chars(
            code as int,
        )),
{
    if code == 0 {
        Ok(())
    } else {
        let mut reason = command.to_owned();
        reason.append(" command exited with status ");
        append_int(&mut reason, code as i64);
        Err(TransferError::ExitCode { code, reason })
    }
}

/// What a remote path already holds, as SFTP metadata reports it.
#[derive(Clone, Copy, Debug, PartialEq, Eq, Structural)]
pub enum RemoteFileKind {
    Directory,
    Regular,
    Other,
}

/// What the SFTP path of `mkdir` must do next.
pub enum MkdirSftpAction {
    /// The directory is already there: succeed without touching it, so a
    /// second `mkdir` of the same path succeeds as the first did.
    AlreadyExists,
    /// Something other than a directory is in the way.
    Fail(TransferError),
    /// Nothing is there: create the directory.
    CreateDir,
}

/// The SFTP `mkdir` decision on what the target path already holds: an
/// existing directory is success, an existing non-directory is an error,
/// and an absent path is created.
pub fn mkdir_sftp_step(existing: Option<RemoteFileKind>, dir: &str) -> (r: MkdirSftpAction)
    ensures
        existing == Some(RemoteFileKind::Directory) ==> r is AlreadyExists,
        (match existing {
            Some(k) => k != RemoteFileKind::Directory,
            None => false,
        }) ==> (r matches MkdirSftpAction::Fail(e) && e matches TransferError::ExitCode {
            code,
            reason,
        } && code == 1 && reason@ == "File "@ + dir@ + " exists and is not a directory"@),
        existing is None ==> r is CreateDir,
{
    match existing {
        Some(RemoteFileKind::Directory) => MkdirSftpAction::AlreadyExists,
        Some(_) => {
            let mut reason = String::from_str("File ");
            reason.append(dir);
            reason.append(" exists and is not a directory");
            MkdirSftpAction::Fail(TransferError::ExitCode { code: 1, reason })
        },
        None => MkdirSftpAction::CreateDir,
    }
}

} // verus!
