//! Errors of manager operations, with the messages that are shown for them.

use vstd::prelude::*;
use crate::text::{decimal, push_decimal, push_str, join, views, join_strings};

verus! {

/// Why a manager operation was refused.
#[derive(Debug)]
pub enum ManagerError {
    NotInitialized,
    DataFileExists { path: String },
    InvalidSubnet { subnet: String },
    NetworkTooSmall { subnet: String },
    ServerStartTooSmall { start: u32 },
    ServerEndTooLarge { max: u32, end: u32 },
    ServerRangeInverted { start: u32, end: u32 },
    NoClientSpace { end: u32 },
    ServerCountOverflow,
    ClientCountOverflow,
    SubnetChangeWithDevices,
    ServersOutOfRange { devices: Vec<String> },
    ClientsConflict { devices: Vec<String> },
    NoChanges,
    NameExists { name: String },
    ServerIpExhausted { max: u32 },
    ClientIpExhausted,
    ServerNotFound { name: String },
    ClientNotFound { name: String },
    DeviceNotFound { name: String },
    InvalidRangeFormat { raw: String },
    RangeValueCount { count: usize },
    InvalidStartValue,
    InvalidEndValue,
}

/// The message shown for an error.
pub open spec fn error_text(e: ManagerError) -> Seq<char> {
    match e {
        ManagerError::NotInitialized => "No configuration found. Please run 'init' first."@,
        ManagerError::DataFileExists { path } => "Data file '"@ + path@
            + "' already exists.\nUse --force to reinitialize (WARNING: This will delete all existing data!)"@,
        ManagerError::InvalidSubnet { subnet } => "Invalid subnet '"@ + subnet@ + "'"@,
        ManagerError::NetworkTooSmall { subnet } => "Network '"@ + subnet@
            + "' is too small (no usable host addresses)"@,
        ManagerError::ServerStartTooSmall { start } => "Server start offset must be >= 1, got "@
            + decimal(start as nat),
        ManagerError::ServerEndTooLarge { max, end } => "Server end offset must be <= "@
            + decimal(max as nat) + " for this network, got "@ + decimal(end as nat),
        ManagerError::ServerRangeInverted { start, end } => "Server start ("@ + decimal(start as nat)
            + ") must be <= server end ("@ + decimal(end as nat) + ")"@,
        ManagerError::NoClientSpace { end } => "No IP addresses left for clients (server range ends at offset "@
            + decimal(end as nat) + ")"@,
        ManagerError::ServerCountOverflow => "Server count exceeds u32 range"@,
        ManagerError::ClientCountOverflow => "Client count exceeds u32 range"@,
        ManagerError::SubnetChangeWithDevices => "Cannot change subnet when devices exist.\nPlease delete all servers and clients first, or use 'init --force' to reinitialize."@,
        ManagerError::ServersOutOfRange { devices } => "Cannot change server range: the following servers would be out of range:\n  "@
            + join(views(devices@), ", "@)
            + "\nPlease delete these servers first or choose a range that includes them."@,
        ManagerError::ClientsConflict { devices } => "Cannot change server range: the following clients would conflict with server range:\n  "@
            + join(views(devices@), ", "@)
            + "\nPlease delete these clients first or choose a smaller server range."@,
        ManagerError::NoChanges => "No changes specified."@,
        ManagerError::NameExists { name } => "Name '"@ + name@ + "' already exists"@,
        ManagerError::ServerIpExhausted { max } => "Server IP exhausted (max "@ + decimal(max as nat) + ")"@,
        ManagerError::ClientIpExhausted => "Client IP exhausted"@,
        ManagerError::ServerNotFound { name } => "Server '"@ + name@ + "' not found"@,
        ManagerError::ClientNotFound { name } => "Client '"@ + name@ + "' not found"@,
        ManagerError::DeviceNotFound { name } => "Device '"@ + name@ + "' not found"@,
        ManagerError::InvalidRangeFormat { raw } => "Invalid format: "@ + raw@ + ". Expected [START,END]"@,
        ManagerError::RangeValueCount { count } => "Expected exactly 2 values, got "@ + decimal(count as nat),
        ManagerError::InvalidStartValue => "Invalid start value"@,
        ManagerError::InvalidEndValue => "Invalid end value"@,
    }
}

fn quoted(prefix: &str, middle: &String, suffix: &str) -> (r: String)
    ensures
        r@ == prefix@ + middle@ + suffix@,
{
    let mut s = String::new();
    push_str(&mut s, prefix);
    push_str(&mut s, middle.as_str());
    push_str(&mut s, suffix);
    proof {
        assert(s@ =~= prefix@ + middle@ + suffix@);
    }
    s
}

fn prefixed_number(prefix: &str, n: u64) -> (r: String)
    ensures
        r@ == prefix@ + decimal(n as nat),
{
    let mut s = String::new();
    push_str(&mut s, prefix);
    push_decimal(&mut s, n);
    proof {
        assert(s@ =~= prefix@ + decimal(n as nat));
    }
    s
}

fn number_text(prefix: &str, n: u64, suffix: &str) -> (r: String)
    ensures
        r@ == prefix@ + decimal(n as nat) + suffix@,
{
    let mut s = String::new();
    push_str(&mut s, prefix);
    push_decimal(&mut s, n);
    push_str(&mut s, suffix);
    proof {
        assert(s@ =~= prefix@ + decimal(n as nat) + suffix@);
    }
    s
}

impl ManagerError {
    /// The message shown for this error.
    pub fn message(&self) -> (r: String)
        ensures
            r@ == error_text(*self),
    {
        match self {
            ManagerError::NotInitialized => "No configuration found. Please run 'init' first.".to_owned(),
            ManagerError::DataFileExists { path } => quoted(
                "Data file '",
                path,
                "' already exists.\nUse --force to reinitialize (WARNING: This will delete all existing data!)",
            ),
            ManagerError::InvalidSubnet { subnet } => quoted("Invalid subnet '", subnet, "'"),
            ManagerError::NetworkTooSmall { subnet } => quoted(
                "Network '",
                subnet,
                "' is too small (no usable host addresses)",
            ),
            ManagerError::ServerStartTooSmall { start } => prefixed_number("Server start offset must be >= 1, got ", *start as u64),
            ManagerError::ServerEndTooLarge { max, end } => {
                let mut s = number_text("Server end offset must be <= ", *max as u64, " for this network, got ");
                push_decimal(&mut s, *end as u64);
                proof {
                    assert(s@ =~= error_text(*self));
                }
                s
            },
            ManagerError::ServerRangeInverted { start, end } => {
                let mut s = number_text("Server start (", *start as u64, ") must be <= server end (");
                push_decimal(&mut s, *end as u64);
                push_str(&mut s, ")");
                proof {
                    assert(s@ =~= error_text(*self));
                }
                s
            },
            ManagerError::NoClientSpace { end } => number_text(
                "No IP addresses left for clients (server range ends at offset ",
                *end as u64,
                ")",
            ),
            ManagerError::ServerCountOverflow => "Server count exceeds u32 range".to_owned(),
            ManagerError::ClientCountOverflow => "Client count exceeds u32 range".to_owned(),
            ManagerError::SubnetChangeWithDevices => "Cannot change subnet when devices exist.\nPlease delete all servers and clients first, or use 'init --force' to reinitialize.".to_owned(),
            ManagerError::ServersOutOfRange { devices } => {
                let listed = join_strings(devices, ", ");
                quoted(
                    "Cannot change server range: the following servers would be out of range:\n  ",
                    &listed,
                    "\nPlease delete these servers first or choose a range that includes them.",
                )
            },
            ManagerError::ClientsConflict { devices } => {
                let listed = join_strings(devices, ", ");
                quoted(
                    "Cannot change server range: the following clients would conflict with server range:\n  ",
                    &listed,
                    "\nPlease delete these clients first or choose a smaller server range.",
                )
            },
            ManagerError::NoChanges => "No changes specified.".to_owned(),
            ManagerError::NameExists { name } => quoted("Name '", name, "' already exists"),
            ManagerError::ServerIpExhausted { max } => number_text("Server IP exhausted (max ", *max as u64, ")"),
            ManagerError::ClientIpExhausted => "Client IP exhausted".to_owned(),
            ManagerError::ServerNotFound { name } => quoted("Server '", name, "' not found"),
            ManagerError::ClientNotFound { name } => quoted("Client '", name, "' not found"),
            ManagerError::DeviceNotFound { name } => quoted("Device '", name, "' not found"),
            ManagerError::InvalidRangeFormat { raw } => quoted("Invalid format: ", raw, ". Expected [START,END]"),
            ManagerError::RangeValueCount { count } => prefixed_number("Expected exactly 2 values, got ", *count as u64),
            ManagerError::InvalidStartValue => "Invalid start value".to_owned(),
            ManagerError::InvalidEndValue => "Invalid end value".to_owned(),
        }
    }
}

} // verus!
