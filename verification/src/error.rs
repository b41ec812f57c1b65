//! The errors of the program, their messages, and the HTTP answer to each.
//! Errors of other libraries are carried as their message text.

use vstd::prelude::*;

use crate::text::{digits, push_digits, push_str};

verus! {

/// Why setting up a printer failed.
#[derive(Debug)]
pub enum SetupError {
    VerificationFailed(String),
    InvalidPincode,
}

/// Why the settings could not be stored or accepted.
#[derive(Debug)]
pub enum ConfigError {
    /// A storage error, by its message.
    Db(String),
    InvalidPincode,
}

/// Why a request to the printer failed.
#[derive(Debug)]
pub enum PrinterError {
    /// An error of the MQTT connection, by its message.
    Mqtt(String),
    WebSocket(String),
    Registration(String),
    NotConnected,
    /// The printer answered a command with a nonzero error code.
    CommandFailed { method: u16, error_code: u16 },
    DiscoveryTimeout(u64),
    RpcTimeout,
    /// A JSON error, by its message.
    Json(String),
    /// An HTTP error, by its message.
    Http(String),
}

/// Why a failure detection failed.
#[derive(Debug)]
pub enum DetectionError {
    ObicoFailed(String),
    NotRunning,
}

/// Why a notification could not be sent.
#[derive(Debug)]
pub enum NotificationError {
    NtfyFailed(String),
    DiscordFailed(String),
    WebhookFailed(String),
}

/// An error as the web interface answers it.
#[derive(Debug)]
pub enum AppError {
    Config(ConfigError),
    Printer(PrinterError),
    Detection(DetectionError),
    Notification(NotificationError),
    /// An I/O error, by its message.
    Io(String),
    Setup(SetupError),
    Validation(String),
}

pub open spec fn setup_text(e: SetupError) -> Seq<char> {
    match e {
        SetupError::VerificationFailed(s) => "connection verification failed: "@ + s@,
        SetupError::InvalidPincode => "invalid pincode: must be 6 uppercase alphanumeric characters"@,
    }
}

pub open spec fn config_text(e: ConfigError) -> Seq<char> {
    match e {
        ConfigError::Db(s) => "database error: "@ + s@,
        ConfigError::InvalidPincode => "invalid pincode: must be 6 uppercase characters"@,
    }
}

pub open spec fn printer_text(e: PrinterError) -> Seq<char> {
    match e {
        PrinterError::Mqtt(s) => "MQTT error: "@ + s@,
        PrinterError::WebSocket(s) => "WebSocket error: "@ + s@,
        PrinterError::Registration(s) => "registration failed: "@ + s@,
        PrinterError::NotConnected => "printer not connected"@,
        PrinterError::CommandFailed { method, error_code } => "command failed: method "@ + digits(
            method as nat,
            10,
        ) + ", error_code "@ + digits(error_code as nat, 10),
        PrinterError::DiscoveryTimeout(secs) => "discovery timed out after "@ + digits(
            secs as nat,
            10,
        ) + "s"@,
        PrinterError::RpcTimeout => "printer RPC timed out"@,
        PrinterError::Json(s) => "JSON error: "@ + s@,
        PrinterError::Http(s) => "HTTP error: "@ + s@,
    }
}

pub open spec fn detection_text(e: DetectionError) -> Seq<char> {
    match e {
        DetectionError::ObicoFailed(s) => "Obico ML request failed: "@ + s@,
        DetectionError::NotRunning => "detection engine not running"@,
    }
}

pub open spec fn notification_text(e: NotificationError) -> Seq<char> {
    match e {
        NotificationError::NtfyFailed(s) => "ntfy notification failed: "@ + s@,
        NotificationError::DiscordFailed(s) => "discord notification failed: "@ + s@,
        NotificationError::WebhookFailed(s) => "webhook notification failed: "@ + s@,
    }
}

pub open spec fn app_text(e: AppError) -> Seq<char> {
    match e {
        AppError::Config(c) => "config error: "@ + config_text(c),
        AppError::Printer(p) => "printer error: "@ + printer_text(p),
        AppError::Detection(d) => "detection error: "@ + detection_text(d),
        AppError::Notification(n) => "notification error: "@ + notification_text(n),
        AppError::Io(s) => "io error: "@ + s@,
        AppError::Setup(s) => "setup error: "@ + setup_text(s),
        AppError::Validation(s) => "validation error: "@ + s@,
    }
}

/// The HTTP status of the answer to an error.
pub open spec fn status_of(e: AppError) -> u16 {
    match e {
        AppError::Printer(PrinterError::CommandFailed { error_code, .. }) => if error_code == 1009
            || error_code == 1010 {
            409
        } else {
            400
        },
        AppError::Printer(PrinterError::NotConnected) => 503,
        AppError::Printer(PrinterError::RpcTimeout) => 504,
        AppError::Config(_) => 400,
        AppError::Validation(_) => 400,
        AppError::Setup(_) => 400,
        _ => 500,
    }
}

/// The `error` text of the answer to an error: a plain sentence for a
/// command the printer refused, else the error's message.
pub open spec fn answer_text(e: AppError) -> Seq<char> {
    match e {
        AppError::Printer(PrinterError::CommandFailed { error_code, .. }) => if error_code == 1009 {
            "Printer Busy"@
        } else if error_code == 1010 {
            "Cannot perform this action while the printer is busy"@
        } else {
            "Command was rejected by the printer"@
        },
        _ => app_text(e),
    }
}

fn push_with(s: &mut String, prefix: &str, tail: &str)
    ensures
        final(s)@ == old(s)@ + prefix@ + tail@,
{
    push_str(s, prefix);
    push_str(s, tail);
}

impl SetupError {
    /// The error's message.
    pub fn message(&self) -> (m: String)
        ensures
            m@ == setup_text(*self),
    {
        let mut s = String::new();
        match self {
            SetupError::VerificationFailed(t) => push_with(&mut s, "connection verification failed: ", t),
            SetupError::InvalidPincode => push_str(
                &mut s,
                "invalid pincode: must be 6 uppercase alphanumeric characters",
            ),
        }
        assert(s@ =~= setup_text(*self));
        s
    }
}

impl ConfigError {
    /// The error's message.
    pub fn message(&self) -> (m: String)
        ensures
            m@ == config_text(*self),
    {
        let mut s = String::new();
        match self {
            ConfigError::Db(t) => push_with(&mut s, "database error: ", t),
            ConfigError::InvalidPincode => push_str(
                &mut s,
                "invalid pincode: must be 6 uppercase characters",
            ),
        }
        assert(s@ =~= config_text(*self));
        s
    }
}

impl PrinterError {
    /// The error's message.
    pub fn message(&self) -> (m: String)
        ensures
            m@ == printer_text(*self),
    {
        let mut s = String::new();
        match self {
            PrinterError::Mqtt(t) => push_with(&mut s, "MQTT error: ", t),
            PrinterError::WebSocket(t) => push_with(&mut s, "WebSocket error: ", t),
            PrinterError::Registration(t) => push_with(&mut s, "registration failed: ", t),
            PrinterError::NotConnected => push_str(&mut s, "printer not connected"),
            PrinterError::CommandFailed { method, error_code } => {
                push_str(&mut s, "command failed: method ");
                push_digits(&mut s, *method as u64, 10);
                push_str(&mut s, ", error_code ");
                push_digits(&mut s, *error_code as u64, 10);
            },
            PrinterError::DiscoveryTimeout(secs) => {
                push_str(&mut s, "discovery timed out after ");
                push_digits(&mut s, *secs, 10);
                push_str(&mut s, "s");
            },
            PrinterError::RpcTimeout => push_str(&mut s, "printer RPC timed out"),
            PrinterError::Json(t) => push_with(&mut s, "JSON error: ", t),
            PrinterError::Http(t) => push_with(&mut s, "HTTP error: ", t),
        }
        assert(s@ =~= printer_text(*self));
        s
    }
}

impl DetectionError {
    /// The error's message.
    pub fn message(&self) -> (m: String)
        ensures
            m@ == detection_text(*self),
    {
        let mut s = String::new();
        match self {
            DetectionError::ObicoFailed(t) => push_with(&mut s, "Obico ML request failed: ", t),
            DetectionError::NotRunning => push_str(&mut s, "detection engine not running"),
        }
        assert(s@ =~= detection_text(*self));
        s
    }
}

impl NotificationError {
    /// The error's message.
    pub fn message(&self) -> (m: String)
        ensures
            m@ == notification_text(*self),
    {
        let mut s = String::new();
        match self {
            NotificationError::NtfyFailed(t) => push_with(&mut s, "ntfy notification failed: ", t),
            NotificationError::DiscordFailed(t) => push_with(
                &mut s,
                "discord notification failed: ",
                t,
            ),
            NotificationError::WebhookFailed(t) => push_with(
                &mut s,
                "webhook notification failed: ",
                t,
            ),
        }
        assert(s@ =~= notification_text(*self));
        s
    }
}

impl AppError {
    /// The error's message.
    pub fn message(&self) -> (m: String)
        ensures
            m@ == app_text(*self),
    {
        let mut s = String::new();
        match self {
            AppError::Config(c) => push_with(&mut s, "config error: ", c.message().as_str()),
            AppError::Printer(p) => push_with(&mut s, "printer error: ", p.message().as_str()),
            AppError::Detection(d) => push_with(&mut s, "detection error: ", d.message().as_str()),
            AppError::Notification(n) => push_with(
                &mut s,
                "notification error: ",
                n.message().as_str(),
            ),
            AppError::Io(t) => push_with(&mut s, "io error: ", t),
            AppError::Setup(e) => push_with(&mut s, "setup error: ", e.message().as_str()),
            AppError::Validation(t) => push_with(&mut s, "validation error: ", t),
        }
        assert(s@ =~= app_text(*self));
        s
    }

    /// The HTTP status of the answer to this error.
    pub fn status_code(&self) -> (c: u16)
        ensures
            c == status_of(*self),
    {
        match self {
            AppError::Printer(PrinterError::CommandFailed { error_code, .. }) => if *error_code
                == 1009 || *error_code == 1010 {
                409
            } else {
                400
            },
            AppError::Printer(PrinterError::NotConnected) => 503,
            AppError::Printer(PrinterError::RpcTimeout) => 504,
            AppError::Config(_) => 400,
            AppError::Validation(_) => 400,
            AppError::Setup(_) => 400,
            _ => 500,
        }
    }

    /// The `error` text of the answer to this error.
    pub fn answer_message(&self) -> (m: String)
        ensures
            m@ == answer_text(*self),
    {
        match self {
            AppError::Printer(PrinterError::CommandFailed { error_code, .. }) => if *error_code
                == 1009 {
                "Printer Busy".to_owned()
            } else if *error_code == 1010 {
                "Cannot perform this action while the printer is busy".to_owned()
            } else {
                "Command was rejected by the printer".to_owned()
            },
            _ => self.message(),
        }
    }
}

} // verus!
