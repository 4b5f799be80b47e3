//! Application install and removal over the Luna bus: the projection of
//! installer subscription messages onto progress, success and failure, the
//! remote upload path, and the step-by-step install flow a driver executes.

use vstd::prelude::*;
use vstd::string::StringExecFns;

use crate::luna::{install_payload, LunaError};
use crate::rx::{regex_is_match, regex_match, regex_new, regex_pattern, regex_valid};
use crate::text::{json_string, strip_prefix_or_self};
use crate::transfer::TransferError;

verus! {

/// Why an install or removal failed.
#[derive(Debug)]
pub enum InstallError {
    /// The installer reported a failed state.
    Response { error_code: i32, reason: String },
    Luna(LunaError),
    Transfer(TransferError),
    Io(String),
}

/// The fields the installer's subscription messages carry under `details`.
pub struct InstallerReport {
    pub state: Option<String>,
    pub package_id: Option<String>,
    pub error_code: Option<i32>,
    pub reason: Option<String>,
}

/// One item read from an installer subscription, already decoded by the
/// caller: a well-formed report, a line that was not valid JSON, or a read
/// error.
pub enum SubscriptionItem {
    Report(InstallerReport),
    BadJson(String),
    ReadError(String),
}

/// What one subscription item means for the caller's loop.
pub enum InstallerStep {
    /// A terminal event: the result is decided; the subscription is done.
    Done(Result<String, InstallError>),
    /// A progress state to display; keep reading.
    Progress(String),
    /// Nothing of interest; keep reading.
    Ignore,
}

/// Projects one subscription item onto the installer's outcome: a state
/// matching the failure pattern is a terminal error carrying the reported
/// code (default 0) and reason (default "unknown error"); a state matching
/// the success pattern or the caller's terminal pattern is terminal success
/// carrying the reported package id (default empty); any other state is
/// progress; a report without a state says nothing. The first terminal
/// event wins: the caller stops at `Done`.
pub fn map_installer_message(item: SubscriptionItem, expected: &regex::Regex) -> (r: InstallerStep)
    ensures
        ({
            let failed_ok = regex_valid("(?i)FAILED"@);
            let success_ok = regex_valid("(?i)^SUCCESS"@);
            match item {
                SubscriptionItem::ReadError(m) => r matches InstallerStep::Done(res)
                    && res matches Err(e) && (e matches InstallError::Io(im) && im@ == m@),
                SubscriptionItem::BadJson(m) => r matches InstallerStep::Done(res)
                    && res matches Err(e) && (e matches InstallError::Io(im) && im@ == m@),
                SubscriptionItem::Report(rep) => match rep.state {
                    None => r is Ignore,
                    Some(state) => if !failed_ok || !success_ok {
                        r matches InstallerStep::Done(res) && res matches Err(e) && e is Io
                    } else if regex_match("(?i)FAILED"@, state@) {
                        r matches InstallerStep::Done(res) && res matches Err(e) && (
                        e matches InstallError::Response { error_code, reason } && error_code == (
                        match rep.error_code {
                            Some(c) => c,
                            None => 0,
                        }) && reason@ == (match rep.reason {
                            Some(t) => t@,
                            None => "unknown error"@,
                        }))
                    } else if regex_match("(?i)^SUCCESS"@, state@) || regex_match(
                        regex_pattern(*expected),
                        state@,
                    ) {
                        r matches InstallerStep::Done(res) && res matches Ok(id) && id@ == (
                        match rep.package_id {
                            Some(p) => p@,
                            None => Seq::<char>::empty(),
                        })
                    } else {
                        r matches InstallerStep::Progress(p) && p@ == state@
                    },
                },
            }
        }),
{
    match item {
        SubscriptionItem::ReadError(m) => InstallerStep::Done(Err(InstallError::Io(m))),
        SubscriptionItem::BadJson(m) => InstallerStep::Done(Err(InstallError::Io(m))),
        SubscriptionItem::Report(rep) => {
            let InstallerReport { state, package_id, error_code, reason } = rep;
            match state {
                None => InstallerStep::Ignore,
                Some(state) => {
                    let failed_re = regex_new("(?i)FAILED");
                    let success_re = regex_new("(?i)^SUCCESS");
                    match (failed_re, success_re) {
                        (Ok(failed), Ok(success)) => {
                            if regex_is_match(&failed, state.as_str()) {
                                InstallerStep::Done(
                                    Err(
                                        InstallError::Response {
                                            error_code: match error_code {
                                                Some(c) => c,
                                                None => 0,
                                            },
                                            reason: match reason {
                                                Some(t) => t,
                                                None => String::from_str("unknown error"),
                                            },
                                        },
                                    ),
                                )
                            } else if regex_is_match(&success, state.as_str()) || regex_is_match(
                                expected,
                                state.as_str(),
                            ) {
                                InstallerStep::Done(
                                    Ok(
                                        match package_id {
                                            Some(p) => p,
                                            None => String::new(),
                                        },
                                    ),
                                )
                            } else {
                                InstallerStep::Progress(state)
                            }
                        },
                        _ => InstallerStep::Done(
                            Err(InstallError::Io(String::from_str("bad state pattern"))),
                        ),
                    }
                },
            }
        },
    }
}

/// One installed application, as the application manager lists it.
pub struct App {
    pub id: String,
    pub version: String,
    pub app_type: String,
    pub title: String,
    pub vendor: Option<String>,
}

/// The application manager's answer to a list request.
pub struct ListAppsResponse {
    pub apps: Vec<App>,
    pub return_value: bool,
}

impl ListAppsResponse {
    /// The ids of the listed applications, in order.
    pub fn app_ids(&self) -> (r: Vec<String>)
        ensures
            r@.len() == self.apps@.len(),
            forall|i: int| 0 <= i < r@.len() ==> #[trigger] r@[i]@ == self.apps@[i].id@,
    {
        let mut ids: Vec<String> = Vec::new();
        let n = self.apps.len();
        let mut i: usize = 0;
        while i < n
            invariant
                n == self.apps@.len(),
                i <= n,
                ids@.len() == i,
                forall|k: int| 0 <= k < i ==> #[trigger] ids@[k]@ == self.apps@[k].id@,
            decreases n - i,
        {
            ids.push(self.apps[i].id.clone());
            i = i + 1;
        }
        ids
    }
}

/// The display label of a progress state: a leading `installing : ` prefix
/// is dropped.
pub fn progress_label(state: &str) -> (r: String)
    ensures
        r@ == if state@.len() >= "installing : "@.len() && state@.take(
            "installing : "@.len() as int,
        ) == "installing : "@ {
            state@.skip("installing : "@.len() as int)
        } else {
            state@
        },
{
    strip_prefix_or_self(state, "installing : ")
}

/// The hex digest the upload path is derived from; the result depends on
/// the bytes alone.
pub uninterp spec fn sha256_hex_of(data: Seq<u8>) -> Seq<char>;

/// Relies on sha256::digest: the lower-case hex SHA-256 digest, 64
/// characters for the 32 digest bytes.
#[verifier::external_body]
fn sha256_hex(data: &Vec<u8>) -> (r: String)
    ensures
        r@ == sha256_hex_of(data@),
        r@.len() == 64,
{
    sha256::digest(data.as_slice())
}

/// The remote directory uploads land in.
pub fn temp_dir_path() -> (r: String)
    ensures
        r@ == "/media/developer/temp"@,
{
    String::from_str("/media/developer/temp")
}

/// The remote path an uploaded package lands at: a fixed prefix, the first
/// ten hex characters of the package's SHA-256, and the package suffix.
pub fn install_upload_path(package: &Vec<u8>) -> (r: String)
    ensures
        r@ == "/media/developer/temp/ares_install_"@ + sha256_hex_of(package@).take(10)
            + ".ipk"@,
{
    let digest = sha256_hex(package);
    let short = digest.as_str().substring_char(0, 10);
    let mut path = String::from_str("/media/developer/temp/ares_install_");
    path.append(short);
    path.append(".ipk");
    path
}

/// Where the install flow stands.
pub enum InstallPhase {
    Start,
    EnsuringDir,
    Uploading,
    Subscribing,
    Waiting,
    CleaningUp,
    Finished,
}

/// What the driver must do next.
pub enum InstallAction {
    /// Ensure the remote temp directory exists with this mode.
    EnsureDir { path: String, mode: u32 },
    /// Upload the package bytes to this remote path.
    Upload { target: String },
    /// Open the installer subscription with this URI and payload.
    Subscribe { uri: String, payload: String },
    /// Read the next subscription message.
    Await,
    /// Delete the uploaded package.
    Remove { path: String },
    /// The flow is over; take the outcome.
    Finish,
}

/// What happened to the step the driver just performed.
pub enum InstallEvent {
    DirEnsured(Result<(), TransferError>),
    Uploaded(Result<(), TransferError>),
    Subscribed(Result<(), LunaError>),
    /// One subscription item, already projected.
    Message(InstallerStep),
    /// The subscription ended without a terminal message.
    ChannelEnded,
    /// The uploaded package was deleted, or deleting it failed; either way
    /// the outcome already decided stands.
    Removed(Result<(), TransferError>),
}

/// The install flow: upload, subscribe, watch for the first terminal event,
/// and always delete the uploaded package once it is up, whether the
/// install succeeded or failed. Cleanup failure does not mask the outcome.
pub struct InstallFlow {
    pub phase: InstallPhase,
    pub ipk_path: String,
    pub outcome: Option<Result<String, InstallError>>,
}

/// Whether the flow's outcome is a transfer error equal to `e`.
pub open spec fn outcome_is_transfer(f: InstallFlow, e: TransferError) -> bool {
    match f.outcome {
        Some(Err(InstallError::Transfer(t))) => t == e,
        _ => false,
    }
}

/// Whether the flow's outcome is a Luna error equal to `e`.
pub open spec fn outcome_is_luna(f: InstallFlow, e: LunaError) -> bool {
    match f.outcome {
        Some(Err(InstallError::Luna(l))) => l == e,
        _ => false,
    }
}

/// Whether the flow's outcome is success with an empty package id.
pub open spec fn outcome_is_empty_ok(f: InstallFlow) -> bool {
    match f.outcome {
        Some(Ok(id)) => id@ == Seq::<char>::empty(),
        _ => false,
    }
}

impl InstallFlow {
    /// Starts a flow for this package body.
    pub fn new(package: &Vec<u8>) -> (r: InstallFlow)
        ensures
            r.phase is Start,
            r.ipk_path@ == "/media/developer/temp/ares_install_"@ + sha256_hex_of(
                package@,
            ).take(10) + ".ipk"@,
            r.outcome is None,
    {
        InstallFlow { phase: InstallPhase::Start, ipk_path: install_upload_path(package), outcome: None }
    }

    /// The first action: ensure the remote temp directory, mode `0777`.
    pub fn begin(&mut self) -> (r: InstallAction)
        requires
            old(self).phase is Start,
        ensures
            final(self).phase is EnsuringDir,
            final(self).ipk_path == old(self).ipk_path,
            final(self).outcome == old(self).outcome,
            r matches InstallAction::EnsureDir { path, mode } && path@ == "/media/developer/temp"@
                && mode == 0o777u32,
    {
        self.phase = InstallPhase::EnsuringDir;
        InstallAction::EnsureDir { path: temp_dir_path(), mode: 0o777 }
    }

    /// Advances the flow by one event and says what to do next.
    pub fn step(&mut self, event: InstallEvent) -> (r: InstallAction)
        requires
            match old(self).phase {
                InstallPhase::EnsuringDir => event is DirEnsured,
                InstallPhase::Uploading => event is Uploaded,
                InstallPhase::Subscribing => event is Subscribed,
                InstallPhase::Waiting => event is Message || event is ChannelEnded,
                InstallPhase::CleaningUp => event is Removed,
                _ => false,
            },
        ensures
            final(self).ipk_path == old(self).ipk_path,
            match event {
                InstallEvent::DirEnsured(res) => match res {
                    Ok(_) => final(self).phase is Uploading && (
                    r matches InstallAction::Upload { target } && target@ == old(self).ipk_path@)
                        && final(self).outcome == old(self).outcome,
                    Err(e) => final(self).phase is Finished && r is Finish && outcome_is_transfer(
                        *final(self),
                        e,
                    ),
                },
                InstallEvent::Uploaded(res) => match res {
                    Ok(_) => final(self).phase is Subscribing && (
                    r matches InstallAction::Subscribe { uri, payload } && uri@
                        == "luna://com.webos.appInstallService/dev/install"@ && payload@
                        == "{\"id\":\"com.ares.defaultName\",\"ipkUrl\":"@ + json_string(
                        old(self).ipk_path@,
                    ) + ",\"subscribe\":true}"@) && final(self).outcome == old(self).outcome,
                    Err(e) => final(self).phase is Finished && r is Finish && outcome_is_transfer(
                        *final(self),
                        e,
                    ),
                },
                InstallEvent::Subscribed(res) => match res {
                    Ok(_) => final(self).phase is Waiting && r is Await && final(self).outcome
                        == old(self).outcome,
                    Err(e) => final(self).phase is CleaningUp && (
                    r matches InstallAction::Remove { path } && path@ == old(self).ipk_path@)
                        && outcome_is_luna(*final(self), e),
                },
                InstallEvent::Message(step) => match step {
                    InstallerStep::Done(res) => final(self).phase is CleaningUp && (
                    r matches InstallAction::Remove { path } && path@ == old(self).ipk_path@)
                        && final(self).outcome == Some(res),
                    InstallerStep::Progress(_) => final(self).phase is Waiting && r is Await
                        && final(self).outcome == old(self).outcome,
                    InstallerStep::Ignore => final(self).phase is Waiting && r is Await && final(self).outcome == old(self).outcome,
                },
                InstallEvent::ChannelEnded => final(self).phase is CleaningUp && (
                r matches InstallAction::Remove { path } && path@ == old(self).ipk_path@)
                    && outcome_is_empty_ok(*final(self)),
                InstallEvent::Removed(_) => final(self).phase is Finished && r is Finish && final(self).outcome == old(self).outcome,
            },
    {
        match event {
            InstallEvent::DirEnsured(res) => match res {
                Ok(_) => {
                    self.phase = InstallPhase::Uploading;
                    InstallAction::Upload { target: self.ipk_path.clone() }
                },
                Err(e) => {
                    self.phase = InstallPhase::Finished;
                    self.outcome = Some(Err(InstallError::Transfer(e)));
                    InstallAction::Finish
                },
            },
            InstallEvent::Uploaded(res) => match res {
                Ok(_) => {
                    self.phase = InstallPhase::Subscribing;
                    let payload = install_payload(self.ipk_path.as_str());
                    InstallAction::Subscribe {
                        uri: String::from_str("luna://com.webos.appInstallService/dev/install"),
                        payload,
                    }
                },
                Err(e) => {
                    self.phase = InstallPhase::Finished;
                    self.outcome = Some(Err(InstallError::Transfer(e)));
                    InstallAction::Finish
                },
            },
            InstallEvent::Subscribed(res) => match res {
                Ok(_) => {
                    self.phase = InstallPhase::Waiting;
                    InstallAction::Await
                },
                Err(e) => {
                    self.phase = InstallPhase::CleaningUp;
                    self.outcome = Some(Err(InstallError::Luna(e)));
                    InstallAction::Remove { path: self.ipk_path.clone() }
                },
            },
            InstallEvent::Message(step) => match step {
                InstallerStep::Done(res) => {
                    self.phase = InstallPhase::CleaningUp;
                    self.outcome = Some(res);
                    InstallAction::Remove { path: self.ipk_path.clone() }
                },
                InstallerStep::Progress(_) => {
                    self.phase = InstallPhase::Waiting;
                    InstallAction::Await
                },
                InstallerStep::Ignore => {
                    self.phase = InstallPhase::Waiting;
                    InstallAction::Await
                },
            },
            InstallEvent::ChannelEnded => {
                self.phase = InstallPhase::CleaningUp;
                self.outcome = Some(Ok(String::new()));
                InstallAction::Remove { path: self.ipk_path.clone() }
            },
            InstallEvent::Removed(_) => {
                self.phase = InstallPhase::Finished;
                InstallAction::Finish
            },
        }
    }

    /// The decided outcome, once the flow is finished.
    pub fn into_outcome(self) -> (r: Result<String, InstallError>)
        requires
            self.outcome is Some,
        ensures
            self.outcome matches Some(o) && r == o,
    {
        match self.outcome {
            Some(o) => o,
            None => Err(InstallError::Io(String::new())),
        }
    }
}

} // verus!
