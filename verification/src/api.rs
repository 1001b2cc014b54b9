//! Data types of the external printer interface: results, errors, status
//! reports, and the request parameter shapes of the service surface.

use vstd::prelude::*;

verus! {

/// Error category observable at the instance boundary.
#[derive(Debug, Clone, Copy, PartialEq, Eq)]
pub enum PrinterErrorCode {
    /// No error at all.
    NoError,
    /// Any error.
    GenericError,
    /// The printer is in an error state; the request is ignored.
    ErrorState,
    /// The printer has been shut down; the request is ignored.
    ShutdownState,
    /// The printer is starting up; the request is ignored.
    StartupState,
    /// Authentication failed.
    AuthFailed,
    /// Unauthorised access.
    AuthRequired,
    /// The token is invalid.
    AuthTokenInvalid,
    /// The token timed out; authorise again.
    AuthTokenTimeout,
    /// The refresh token is invalid.
    RefreshTokenInvalid,
    /// The printer configuration did not parse.
    PrinterConfigParseError,
    /// The G-code did not parse.
    GcodeParseError,
    /// A print job is already running.
    PrintJobRunning,
    /// No print job is running.
    PrintJobNotRunning,
    FileNotFound,
    /// The file could not be read.
    FileReadError,
    /// The file system is full.
    FileCapacityFull,
}

/// An error with its category and a human-readable message.
#[derive(Debug, Clone)]
pub struct PrinterError {
    pub code: PrinterErrorCode,
    pub message: String,
}

impl PrinterError {
    /// The absence of an error.
    pub fn none() -> (e: PrinterError)
        ensures
            e.code == PrinterErrorCode::NoError,
            e.message@ == Seq::<char>::empty(),
    {
        let e = PrinterError { code: PrinterErrorCode::NoError, message: String::new() };
        proof {
            assert(e.message@ =~= Seq::<char>::empty());
        }
        e
    }
}

/// Every externally visible result: an error slot and an optional payload.
#[derive(Debug, Clone)]
pub struct PrinterResult<T> {
    pub error: PrinterError,
    pub result: Option<T>,
}

impl<T> PrinterResult<T> {
    /// A successful result carrying its payload and no error.
    pub fn ok(result: T) -> (r: PrinterResult<T>)
        ensures
            r.error.code == PrinterErrorCode::NoError,
            r.result == Some(result),
    {
        PrinterResult { error: PrinterError::none(), result: Some(result) }
    }

    /// A failed result carrying the error and no payload.
    pub fn err(error: PrinterError) -> (r: PrinterResult<T>)
        ensures
            r.error == error,
            r.result is None,
    {
        PrinterResult { error, result: None }
    }
}

#[derive(Debug, Clone)]
pub struct LoginParams {
    pub password: String,
}

/// The token pair a successful login yields.
#[derive(Debug, Clone)]
pub struct PrinterLogin {
    /// The temporary token.
    pub token: String,
    /// The refresh token.
    pub refresh_token: String,
}

#[derive(Debug, Clone)]
pub struct ResetPasswordParams {
    pub new_password: String,
}

#[derive(Debug, Clone)]
pub struct RefreshTokenParams {
    pub refresh_token: String,
}

/// Lifecycle state reported to clients.
#[derive(Debug, Clone, Copy, PartialEq, Eq)]
pub enum PrinterState {
    /// Up and running.
    Ready,
    /// Starting up.
    Startup,
    /// In an error state.
    Error,
    /// Shut down.
    Shutdown,
}

/// General printer information.
#[derive(Debug, Clone)]
pub struct PrinterInfo {
    pub state: PrinterState,
    /// Meaningful only in the error state.
    pub error_state_code: PrinterErrorCode,
    /// Meaningful only in the error state.
    pub error_state_message: String,
    /// Where the printer's data lives.
    pub printer_path: String,
}

#[derive(Debug, Clone)]
pub struct PrinterExtension {
    pub name: String,
    pub repo: String,
    pub version: String,
}

#[derive(Debug, Clone, Copy, PartialEq, Eq)]
pub struct PrinterEndstopStatus {
    pub x_triggered: bool,
    pub y_triggered: bool,
    pub z_triggered: bool,
}

#[derive(Debug, Clone)]
pub struct PrinterGcodeFile {
    pub path: String,
    pub modified: u64,
    pub size: u64,
    pub permissions: String,
}

#[derive(Debug, Clone)]
pub struct PrinterGcodeThumbnail {
    pub width: u32,
    pub height: u32,
    pub size: u32,
    pub relative_path: String,
}

#[derive(Debug, Clone, Copy, PartialEq, Eq)]
pub struct PrinterQueuePrintJob {
    pub id: u64,
}

/// The identifier of a job accepted by `start_print_job`.
#[derive(Debug, Clone)]
pub struct StartPrintJobResult {
    pub job_id: String,
}

/// The `name` query of a request addressed to one printer.
#[derive(Debug, Clone)]
pub struct PrinterNameQuery {
    pub name: String,
}

#[derive(Debug, Clone)]
pub struct InstallExtensionParams {
    pub repo: String,
}

#[derive(Debug, Clone)]
pub struct RemoveExtensionParams {
    pub name: String,
}

#[derive(Debug, Clone)]
pub struct DownloadExtensionConfigParams {
    pub name: String,
}

#[derive(Debug, Clone)]
pub struct UploadExtensionConfigParams {
    pub name: String,
    pub config: String,
}

#[derive(Debug, Clone)]
pub struct RunGcodeParams {
    pub script: String,
}

#[derive(Debug, Clone)]
pub struct StartPrintJobParams {
    pub filename: String,
}

#[derive(Debug, Clone)]
pub struct QueuePrintJobParams {
    pub filename: String,
}

#[derive(Debug, Clone)]
pub struct DeleteQueuePrintJobParams {
    pub id: String,
}

#[derive(Debug, Clone)]
pub struct GetFileMetaParams {
    pub filename: String,
}

#[derive(Debug, Clone)]
pub struct ScanFileParams {
    pub filename: String,
}

#[derive(Debug, Clone)]
pub struct UploadFileParams {
    pub filename: String,
    pub data: String,
}

#[derive(Debug, Clone)]
pub struct DownloadFileParams {
    pub filename: String,
}

#[derive(Debug, Clone)]
pub struct UploadPrinterConfigParams {
    pub config: String,
}

/// Root of the query surface.
#[derive(Debug, Clone, Copy)]
pub struct Query;

/// The server half of the query surface.
#[derive(Debug, Clone, Copy)]
pub struct Server;

/// Information about the running server.
#[derive(Debug, Clone, Copy)]
pub struct ServerInfo;

/// Root of the subscription surface.
#[derive(Debug, Clone)]
pub struct Subscription;

/// What happened to a watched file.
#[derive(Debug, Clone, Copy, PartialEq, Eq)]
pub enum FileChangeEventKind {
    /// The file was modified.
    Modified,
    /// The file was created.
    Create,
    /// The file was removed.
    Removed,
}

/// A change to a watched file.
#[derive(Debug, Clone)]
pub struct FileChangeEvent {
    pub kind: FileChangeEventKind,
    /// The file's path.
    pub path: String,
}

} // verus!
