use vstd::prelude::*;

verus! {

/// Failures of one console interaction.
#[derive(Debug, PartialEq, Eq)]
pub enum ConsoleError {
    /// The sync marker was not seen before the timeout.
    SyncTimeout,
    /// Neither response marker was seen before the timeout.
    Timeout,
    /// The CRC field does not match the payload.
    CrcMismatch,
    /// The caller supplied fewer frames than the payload needs.
    InsufficientFrameCapacity { needed: usize, available: usize },
    /// The device answered with a failure marker; this is its payload.
    RemoteRejected(Vec<u8>),
}

} // verus!

verus! {

/// Failures of a strapped hardware sequence (SRAM load, life-cycle
/// transition).
#[derive(Clone, Copy, Debug, PartialEq, Eq, Structural)]
pub enum HwError {
    /// The request was refused before any hardware was touched.
    ConfigurationError,
    /// The target life-cycle state needs a token and none was given.
    MissingToken,
    /// A strap, reset or JTAG operation failed.
    TransportError,
    /// After a transition the device reports another state than the target.
    VerificationFailure { expected: u32, actual: u32 },
    /// The loaded program reported a failure.
    ExecutionFault,
    /// The loaded program did not finish in time.
    Timeout,
}

} // verus!

verus! {

/// Failures of the boot check.
#[derive(Clone, Copy, Debug, PartialEq, Eq, Structural)]
pub enum BootError {
    /// The caller's boot marker is not a valid pattern.
    InvalidPattern,
    /// The ROM_EXT boot marker was not seen before the timeout.
    RomExtTimeout,
    /// ROM_EXT reported that the UDS certificate is not valid.
    InvalidUdsCertificate,
    /// A boot fault was reported.
    BootFault,
    /// The caller's boot marker was not seen before the timeout.
    Timeout,
}

} // verus!
