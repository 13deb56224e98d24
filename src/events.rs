use vstd::prelude::*;

verus! {

/// The code of the open-failure event sent when a connection cannot be established.
pub const OPEN_FAILURE_CODE: u8 = 255;

/// A protocol message of the interactive channel, field for field.
#[derive(Debug, PartialEq, Eq)]
pub enum SshChannelEvent {
    Open { id: u32, max_packet_size: u32, window_size: u32 },
    Data { data: Vec<u8> },
    ExtendedData { data: Vec<u8>, ext: u32 },
    Eof,
    Close,
    RequestPty {
        want_reply: bool,
        term: String,
        col_width: u32,
        row_height: u32,
        pix_width: u32,
        pix_height: u32,
    },
    RequestShell { want_reply: bool },
    Exec { want_reply: bool, command: Vec<u8> },
    Signal { signal: String },
    RequestSubsystem { want_reply: bool, name: String },
    RequestX11 {
        want_reply: bool,
        single_connection: bool,
        x11_authentication_protocol: String,
        x11_authentication_cookie: String,
        x11_screen_number: u32,
    },
    SetEnv { want_reply: bool, variable_name: String, variable_value: String },
    WindowChange { col_width: u32, row_height: u32, pix_width: u32, pix_height: u32 },
    AgentForward { want_reply: bool },
    OpenFailure { code: u8 },
    ExitStatus { exit_status: u32 },
    ExitSignal { signal_name: String, core_dumped: bool, error_message: String, lang_tag: String },
    WindowAdjusted { new_size: u32 },
}

/// The notification broadcast to every observer when a session's remote
/// process exits.
#[derive(Debug, PartialEq, Eq)]
pub struct SshClosePayload {
    pub message: String,
    pub session_id: String,
    pub exit_status: u32,
}

/// A request to forward a local endpoint to a remote one.
#[derive(Debug, PartialEq, Eq)]
pub struct PortForwardConfig {
    pub local_host: String,
    pub local_port: u16,
    pub remote_host: String,
    pub remote_port: u16,
}

/// A forward that was opened: its channel id and the local endpoint.
#[derive(Debug, PartialEq, Eq)]
pub struct PortForwardResult {
    pub channel_id: u32,
    pub local_host: String,
    pub local_port: u16,
}

/// One entry of a remote directory listing.
#[derive(Debug, PartialEq, Eq)]
pub struct SftpFileEntry {
    pub filename: String,
    pub is_dir: bool,
    pub size: u64,
}

/// What a download reports to its consumer.
#[derive(Debug, PartialEq, Eq)]
pub enum SftpDownloadEvent {
    /// Progress in percent of the size seen when the download started.
    Process { val: u32 },
    /// Raw bytes of the file, in order.
    Chunk { data: Vec<u8> },
    Finished,
    Cancelled,
}

/// The event sent to the consumer when a connection attempt fails.
pub fn open_failure_event() -> (r: SshChannelEvent)
    ensures
        r == (SshChannelEvent::OpenFailure { code: OPEN_FAILURE_CODE }),
{
    SshChannelEvent::OpenFailure { code: OPEN_FAILURE_CODE }
}

/// The broadcast notification that `event` calls for: one for an exit
/// status, none for any other event.
pub fn close_notice(session_id: &String, event: &SshChannelEvent) -> (r: Option<SshClosePayload>)
    ensures
        r is Some <==> event is ExitStatus,
        r is Some ==> r->0.exit_status == event->exit_status && r->0.session_id@ == session_id@
            && r->0.message@ == "success"@,
{
    match event {
        SshChannelEvent::ExitStatus { exit_status } => Some(
            SshClosePayload {
                message: "success".to_owned(),
                session_id: session_id.clone(),
                exit_status: *exit_status,
            },
        ),
        _ => None,
    }
}

} // verus!
