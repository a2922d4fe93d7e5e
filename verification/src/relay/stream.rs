//! Relaying bytes both ways between two streams.

use vstd::prelude::*;
use crate::addr::{RouteAddr, SocketAddr};
use crate::crypto::EncryptionDirection;
use crate::io::{ErrorKind, IoError};
use crate::relay::udp::Timing;
use crate::time::{Instant, SystemTime};

verus! {

/// How far one direction is. The number counts the bytes that it carried.
#[derive(Debug, Clone, Copy, PartialEq, Eq, Structural)]
pub enum TransferState {
    Running(u64),
    ShuttingDown(u64),
    Done(u64),
}

/// What a direction does next.
#[derive(Debug)]
pub enum TransferStep {
    /// Write what was read: this many bytes.
    Write(usize),
    /// Nothing more comes: shut down the writer.
    Shutdown,
    /// Give up.
    Fail(IoError),
}

/// Whether an error says that the peer went away. For a direction that reads
/// or shuts down this is as good as a clean end.
pub open spec fn is_peer_gone(kind: ErrorKind) -> bool {
    ||| kind == ErrorKind::NotConnected
    ||| kind == ErrorKind::ConnectionReset
    ||| kind == ErrorKind::BrokenPipe
}

pub fn peer_gone(kind: ErrorKind) -> (r: bool)
    ensures
        r == is_peer_gone(kind),
{
    matches!(kind, ErrorKind::NotConnected | ErrorKind::ConnectionReset | ErrorKind::BrokenPipe)
}

impl TransferState {
    pub fn new() -> (r: Self)
        ensures
            r == TransferState::Running(0),
    {
        TransferState::Running(0)
    }

    /// The bytes carried so far.
    pub open spec fn spec_amount(self) -> u64 {
        match self {
            TransferState::Running(amount) => amount,
            TransferState::ShuttingDown(amount) => amount,
            TransferState::Done(amount) => amount,
        }
    }

    pub fn amount(&self) -> (r: u64)
        ensures
            r == self.spec_amount(),
    {
        match self {
            TransferState::Running(amount) => *amount,
            TransferState::ShuttingDown(amount) => *amount,
            TransferState::Done(amount) => *amount,
        }
    }

    /// Takes in a read. No bytes, or a peer that went away, end the reading.
    pub fn on_read(&mut self, outcome: Result<usize, IoError>) -> (r: TransferStep)
        requires
            *old(self) is Running,
        ensures
            match outcome {
                Ok(n) => if n == 0 {
                    r is Shutdown && *final(self) == TransferState::ShuttingDown(
                        old(self).spec_amount(),
                    )
                } else {
                    r == TransferStep::Write(n) && *final(self) == *old(self)
                },
                Err(e) => if is_peer_gone(e.kind) {
                    r is Shutdown && *final(self) == TransferState::ShuttingDown(
                        old(self).spec_amount(),
                    )
                } else {
                    r == TransferStep::Fail(e) && *final(self) == *old(self)
                },
            },
    {
        match outcome {
            Ok(n) => if n == 0 {
                *self = TransferState::ShuttingDown(self.amount());
                TransferStep::Shutdown
            } else {
                TransferStep::Write(n)
            },
            Err(e) => if peer_gone(e.kind) {
                *self = TransferState::ShuttingDown(self.amount());
                TransferStep::Shutdown
            } else {
                TransferStep::Fail(e)
            },
        }
    }

    /// Takes in a write of `n` bytes.
    pub fn on_written(&mut self, n: usize)
        requires
            *old(self) is Running,
            old(self).spec_amount() + n <= u64::MAX,
        ensures
            *final(self) == TransferState::Running((old(self).spec_amount() + n) as u64),
    {
        *self = TransferState::Running(self.amount() + n as u64);
    }

    /// Takes in the shutdown of the writer. That the peer went away before is
    /// no error.
    pub fn on_shutdown(&mut self, outcome: Result<(), IoError>) -> (r: Result<u64, IoError>)
        requires
            *old(self) is ShuttingDown,
        ensures
            match outcome {
                Err(e) => if is_peer_gone(e.kind) {
                    r == Ok::<u64, IoError>(old(self).spec_amount()) && *final(self)
                        == TransferState::Done(old(self).spec_amount())
                } else {
                    r == Err::<u64, IoError>(e) && *final(self) == *old(self)
                },
                Ok(()) => r == Ok::<u64, IoError>(old(self).spec_amount()) && *final(self)
                    == TransferState::Done(old(self).spec_amount()),
            },
    {
        match outcome {
            Err(e) => {
                if !peer_gone(e.kind) {
                    return Err(e);
                }
            },
            Ok(()) => {},
        }
        let amount: u64 = self.amount();
        *self = TransferState::Done(amount);
        Ok(amount)
    }
}

/// Bytes carried each way.
#[derive(Debug, Clone, Copy, PartialEq, Eq, Structural)]
pub struct BytesCopied {
    pub a_to_b: u64,
    pub b_to_a: u64,
}

/// Which direction failed.
#[derive(Debug)]
pub enum CopyBiError {
    FromAToB(IoError),
    FromBToA(IoError),
}

/// Both directions between two streams.
#[derive(Debug, Clone, Copy)]
pub struct CopyBidirectional {
    pub a_to_b: TransferState,
    pub b_to_a: TransferState,
}

impl CopyBidirectional {
    pub fn new() -> (r: Self)
        ensures
            r.a_to_b == TransferState::Running(0),
            r.b_to_a == TransferState::Running(0),
    {
        CopyBidirectional { a_to_b: TransferState::new(), b_to_a: TransferState::new() }
    }

    pub open spec fn spec_amounts(self) -> BytesCopied {
        BytesCopied { a_to_b: self.a_to_b.spec_amount(), b_to_a: self.b_to_a.spec_amount() }
    }

    pub fn amounts(&self) -> (r: BytesCopied)
        ensures
            r == self.spec_amounts(),
    {
        BytesCopied { a_to_b: self.a_to_b.amount(), b_to_a: self.b_to_a.amount() }
    }

    /// How the whole stands, given what the two directions came to so far:
    /// `None` for one that still runs. An error ends the whole at once, with
    /// what was carried until then; otherwise both must be done. Should both
    /// fail, the direction from A counts.
    pub fn poll(
        &self,
        a_to_b: Option<Result<u64, IoError>>,
        b_to_a: Option<Result<u64, IoError>>,
    ) -> (r: Option<(Result<(), CopyBiError>, BytesCopied)>)
        ensures
            match (a_to_b, b_to_a) {
                (Some(Err(e)), _) => r == Some(
                    (Err::<(), _>(CopyBiError::FromAToB(e)), self.spec_amounts()),
                ),
                (_, Some(Err(e))) => r == Some(
                    (Err::<(), _>(CopyBiError::FromBToA(e)), self.spec_amounts()),
                ),
                (Some(Ok(a_to_b)), Some(Ok(b_to_a))) => r == Some(
                    (Ok::<(), CopyBiError>(()), BytesCopied { a_to_b, b_to_a }),
                ),
                _ => r is None,
            },
    {
        match (a_to_b, b_to_a) {
            (Some(Err(e)), _) => Some((Err(CopyBiError::FromAToB(e)), self.amounts())),
            (_, Some(Err(e))) => Some((Err(CopyBiError::FromBToA(e)), self.amounts())),
            (Some(Ok(a_to_b)), Some(Ok(b_to_a))) => Some((Ok(()), BytesCopied { a_to_b, b_to_a })),
            _ => None,
        }
    }
}

/// The side of a relay that speaks ciphertext.
#[derive(Debug, Clone, Copy, PartialEq, Eq, Structural)]
pub enum CipherSide {
    Upstream,
    Downstream,
    Neither,
}

/// Which side to wrap in the payload cipher: an access server encrypts towards
/// its upstream, a proxy server decrypts what comes from its downstream.
pub fn cipher_side(has_payload_crypto: bool, en_dir: EncryptionDirection) -> (r: CipherSide)
    ensures
        r == (if !has_payload_crypto {
            CipherSide::Neither
        } else if en_dir == EncryptionDirection::Encrypt {
            CipherSide::Upstream
        } else {
            CipherSide::Downstream
        }),
{
    if !has_payload_crypto {
        return CipherSide::Neither;
    }
    match en_dir {
        EncryptionDirection::Encrypt => CipherSide::Upstream,
        EncryptionDirection::Decrypt => CipherSide::Downstream,
    }
}

/// What is known of a relayed connection when it starts.
#[derive(Debug)]
pub struct ConnContext {
    pub start: (Instant, SystemTime),
    pub upstream_remote: RouteAddr,
    pub upstream_remote_sock: SocketAddr,
    pub downstream_remote: Option<SocketAddr>,
    pub downstream_local: String,
    pub upstream_local: Option<SocketAddr>,
    pub destination: Option<RouteAddr>,
}

/// The record of one connection.
#[derive(Debug)]
pub struct StreamLog {
    pub timing: Timing,
    pub bytes_uplink: u64,
    pub bytes_downlink: u64,
    pub upstream_addr: RouteAddr,
    pub upstream_sock_addr: SocketAddr,
    pub downstream_addr: Option<SocketAddr>,
}

/// The record of a relayed connection. The downstream is stream A: what went
/// from A to B went up.
pub fn get_log_from_copy_result(
    conn_context: ConnContext,
    amounts: BytesCopied,
    end: Instant,
) -> (log: StreamLog)
    ensures
        log.timing == (Timing { start: conn_context.start, end }),
        log.bytes_uplink == amounts.a_to_b,
        log.bytes_downlink == amounts.b_to_a,
        log.upstream_addr == conn_context.upstream_remote,
        log.upstream_sock_addr == conn_context.upstream_remote_sock,
        log.downstream_addr == conn_context.downstream_remote,
{
    StreamLog {
        timing: Timing { start: conn_context.start, end },
        bytes_uplink: amounts.a_to_b,
        bytes_downlink: amounts.b_to_a,
        upstream_addr: conn_context.upstream_remote,
        upstream_sock_addr: conn_context.upstream_remote_sock,
        downstream_addr: conn_context.downstream_remote,
    }
}

/// A peer is gone if the connection to it is, or was reset, or is a broken pipe;
/// no other error says so.
pub proof fn three_errors_say_that_the_peer_is_gone(kind: ErrorKind)
    ensures
        is_peer_gone(kind) <==> (kind is NotConnected || kind is ConnectionReset
            || kind is BrokenPipe),
{
}

/// The bytes that a direction carried are kept through all its states, and the
/// two directions are told apart.
pub proof fn amounts_are_kept_through_all_states(amount: u64, both: CopyBidirectional)
    ensures
        TransferState::Running(amount).spec_amount() == amount,
        TransferState::ShuttingDown(amount).spec_amount() == amount,
        TransferState::Done(amount).spec_amount() == amount,
        both.a_to_b matches TransferState::Running(n) ==> both.spec_amounts().a_to_b == n,
        both.b_to_a matches TransferState::Running(n) ==> both.spec_amounts().b_to_a == n,
        both.spec_amounts().a_to_b == both.a_to_b.spec_amount(),
        both.spec_amounts().b_to_a == both.b_to_a.spec_amount(),
{
}

} // verus!
