//! The outcome taxonomy: classifying a VM invocation's result.
//!
//! A failed invocation surfaces as a numeric major status code plus a
//! message.  A fixed table maps the codes the harness distinguishes to their
//! own variants; every other code becomes `Unknown`, which keeps the raw
//! numeric status for forensic use.  The numeric values follow the VM's
//! status-code numbering.

use vstd::prelude::*;

use crate::render::{dec_of, dec_u64};

verus! {

/// The VM's major status code for an explicit abort in the target.
pub const STATUS_ABORTED: u64 = 4016;

/// The VM's major status code for an arithmetic fault (overflow, division
/// by zero).
pub const STATUS_ARITHMETIC_ERROR: u64 = 4017;

/// The VM's major status code for exceeding the memory limit.
pub const STATUS_MEMORY_LIMIT_EXCEEDED: u64 = 4038;

/// The VM's major status code for running out of gas.
pub const STATUS_OUT_OF_GAS: u64 = 4002;

/// The VM's major status code for a module whose dependency cannot be
/// resolved.
pub const STATUS_MISSING_DEPENDENCY: u64 = 1021;

/// How an invocation failed, in the harness's own taxonomy.  Every variant
/// carries the VM's message; `Unknown` additionally carries the raw status.
#[derive(Debug, Clone, PartialEq, Eq)]
pub enum Error {
    Abort { message: String },
    ArithmeticError { message: String },
    MemoryLimitExceeded { message: String },
    OutOfGas { message: String },
    MissingDependency { message: String },
    AccountAddressParseError { message: String },
    Unknown { status: u64, message: String },
}

/// Map a VM major status code and message to the harness's taxonomy: the
/// five tabulated codes map to their own variants, everything else to
/// `Unknown` with the raw code kept.
pub fn classify_status(status: u64, message: String) -> (e: Error)
    ensures
        status == STATUS_ABORTED ==> (e matches Error::Abort { message: m } && m == message),
        status == STATUS_ARITHMETIC_ERROR ==> (e matches Error::ArithmeticError { message: m }
            && m == message),
        status == STATUS_MEMORY_LIMIT_EXCEEDED ==> (e matches Error::MemoryLimitExceeded {
            message: m,
        } && m == message),
        status == STATUS_OUT_OF_GAS ==> (e matches Error::OutOfGas { message: m } && m
            == message),
        status == STATUS_MISSING_DEPENDENCY ==> (e matches Error::MissingDependency {
            message: m,
        } && m == message),
        (status != STATUS_ABORTED && status != STATUS_ARITHMETIC_ERROR && status
            != STATUS_MEMORY_LIMIT_EXCEEDED && status != STATUS_OUT_OF_GAS && status
            != STATUS_MISSING_DEPENDENCY) ==> (e matches Error::Unknown { status: s, message: m }
            && s == status && m == message),
{
    if status == STATUS_ABORTED {
        Error::Abort { message }
    } else if status == STATUS_ARITHMETIC_ERROR {
        Error::ArithmeticError { message }
    } else if status == STATUS_MEMORY_LIMIT_EXCEEDED {
        Error::MemoryLimitExceeded { message }
    } else if status == STATUS_OUT_OF_GAS {
        Error::OutOfGas { message }
    } else if status == STATUS_MISSING_DEPENDENCY {
        Error::MissingDependency { message }
    } else {
        Error::Unknown { status, message }
    }
}

impl Error {
    /// The error's message.
    pub fn message(&self) -> (m: &String)
        ensures
            m == match self {
                Error::Abort { message } => message,
                Error::ArithmeticError { message } => message,
                Error::MemoryLimitExceeded { message } => message,
                Error::OutOfGas { message } => message,
                Error::MissingDependency { message } => message,
                Error::AccountAddressParseError { message } => message,
                Error::Unknown { message, .. } => message,
            },
    {
        match self {
            Error::Abort { message } => message,
            Error::ArithmeticError { message } => message,
            Error::MemoryLimitExceeded { message } => message,
            Error::OutOfGas { message } => message,
            Error::MissingDependency { message } => message,
            Error::AccountAddressParseError { message } => message,
            Error::Unknown { message, .. } => message,
        }
    }

    /// The diagnostic line for an error: the variant's name, with the
    /// message after it where the message distinguishes cases — aborts,
    /// address-parse failures — and with the raw status code for an
    /// unknown status.
    pub fn render(&self) -> (r: String)
        ensures
            r@ == self.render_spec(),
    {
        match self {
            Error::Abort { message } => {
                let mut s = String::from_str("Abort - ");
                s.append(message.as_str());
                s
            },
            Error::ArithmeticError { .. } => String::from_str("ArithmeticError"),
            Error::MemoryLimitExceeded { .. } => String::from_str("MemoryLimitExceeded"),
            Error::OutOfGas { .. } => String::from_str("OutOfGas"),
            Error::MissingDependency { .. } => String::from_str("MissingDependency"),
            Error::AccountAddressParseError { message } => {
                let mut s = String::from_str("AccountAddressParseError - ");
                s.append(message.as_str());
                s
            },
            Error::Unknown { status, message } => {
                let mut s = String::from_str("Unknown - status code ");
                let d = dec_u64(*status);
                s.append(d.as_str());
                s.append(", ");
                s.append(message.as_str());
                proof {
                    assert(s@ =~= self.render_spec());
                }
                s
            },
        }
    }

    /// What `render` yields for each variant.
    pub open spec fn render_spec(&self) -> Seq<char> {
        match self {
            Error::Abort { message } => "Abort - "@ + message@,
            Error::ArithmeticError { .. } => "ArithmeticError"@,
            Error::MemoryLimitExceeded { .. } => "MemoryLimitExceeded"@,
            Error::OutOfGas { .. } => "OutOfGas"@,
            Error::MissingDependency { .. } => "MissingDependency"@,
            Error::AccountAddressParseError { message } => "AccountAddressParseError - "@
                + message@,
            Error::Unknown { status, message } => "Unknown - status code "@ + dec_of(
                *status as nat,
            ) + ", "@ + message@,
        }
    }
}

} // verus!
