use vstd::prelude::*;

verus! {

/// The algorithm family in which negotiation failed.
#[derive(Clone, Copy, Debug, PartialEq, Eq, Structural)]
pub enum AlgFamily {
    KeyExchange,
    HostKey,
    EncryptionClientToServer,
    EncryptionServerToClient,
    MacClientToServer,
    MacServerToClient,
    CompressionClientToServer,
    CompressionServerToClient,
}

/// Every way a session can fail. A protocol-layer error aborts the
/// session; there is no in-band recovery.
#[derive(Clone, Copy, Debug, PartialEq, Eq, Structural)]
pub enum SshError {
    /// Fewer bytes remained than a reader required.
    Truncated,
    /// A packet length field exceeded the protocol maximum.
    OversizedPacket,
    /// A message authentication code did not match.
    BadMac,
    /// A padding length inconsistent with the packet length.
    BadPadding,
    /// The peer's version line did not begin with `SSH-2.0-`.
    BannerInvalid,
    /// Client and server shared no algorithm in the given family.
    NoCommonAlgorithm(AlgFamily),
    /// The host key blob could not be used.
    BadHostKey,
    /// The host-key signature over the exchange hash did not verify.
    SignatureMismatch,
    /// A message that does not belong to the current phase.
    ProtocolViolation(u8, u8),
    /// The server refused the channel open, with its reason code.
    ChannelOpenRefused(u32),
    /// The server reported a channel request failure.
    ChannelFailure,
    /// A peer overran the window it had been granted.
    WindowOverflow,
    /// A blocking operation ran out of input.
    Timeout,
    /// The underlying byte transport is gone.
    TransportClosed,
}

} // verus!
