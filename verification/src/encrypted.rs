//! The encrypted stream: packages on the wire, and the plaintext queues of
//! its read half and its write half. The stream decides what to do next; the
//! caller encrypts, decrypts and moves bytes, and reports back.

use crate::buffer::{held, queue_len, queue_new, queue_put, queue_take};
use crate::error::{Error, ProtocolFault};
use crate::wire::{be_bytes, be_value, u32_from_be, u32_to_be};
use crate::wire::{lemma_be_bytes_len, lemma_be_value_of_bytes, lemma_byte_range_words};
use vstd::prelude::*;
use vstd::slice::slice_subrange;

verus! {

/// The most plaintext that one package carries.
pub const WRITE_BUF_SIZE: usize = 1024;

/// The bytes of a package on the wire: the length of the ciphertext as a
/// big-endian `u32`, then the ciphertext.
pub open spec fn package_bytes(ciphertext: Seq<u8>) -> Seq<u8> {
    be_bytes(ciphertext.len(), 4) + ciphertext
}

/// The ciphertext of the package that `bytes` starts with and the number of
/// bytes it takes, `None` where the package is not all there.
pub open spec fn package_parts(bytes: Seq<u8>) -> Option<(Seq<u8>, nat)> {
    if bytes.len() < 4 {
        None
    } else {
        let n = be_value(bytes.subrange(0, 4));
        if bytes.len() < 4 + n {
            None
        } else {
            Some((bytes.subrange(4, 4 + n as int), 4 + n))
        }
    }
}

/// A package, followed by anything, is read back as it was written.
pub proof fn lemma_package_round_trip(ciphertext: Seq<u8>, rest: Seq<u8>)
    requires
        ciphertext.len() <= u32::MAX,
    ensures
        package_parts(package_bytes(ciphertext) + rest) == Some(
            (ciphertext, package_bytes(ciphertext).len()),
        ),
{
    let wire = package_bytes(ciphertext) + rest;
    lemma_byte_range_words();
    lemma_be_bytes_len(ciphertext.len(), 4);
    lemma_be_value_of_bytes(ciphertext.len(), 4);
    assert(wire.subrange(0, 4) =~= be_bytes(ciphertext.len(), 4));
    assert(wire.subrange(4, 4 + ciphertext.len() as int) =~= ciphertext);
}

/// One ciphertext frame of the encrypted stream.
#[derive(Debug, PartialEq, Eq)]
pub struct EncryptedPackage {
    bytes: Vec<u8>,
}

impl View for EncryptedPackage {
    type V = Seq<u8>;

    closed spec fn view(&self) -> Seq<u8> {
        self.bytes@
    }
}

impl EncryptedPackage {
    /// Wraps a ciphertext.
    pub fn new(bytes: Vec<u8>) -> (r: Self)
        ensures
            r@ == bytes@,
    {
        Self { bytes }
    }

    /// Returns the ciphertext.
    pub fn into_inner(self) -> (r: Vec<u8>)
        ensures
            r@ == self@,
    {
        self.bytes
    }

    /// The package as it goes on the wire. A ciphertext whose length does not
    /// fit the prefix is refused.
    pub fn into_bytes(self) -> (r: Result<Vec<u8>, Error>)
        ensures
            match r {
                Ok(wire) => self@.len() <= u32::MAX && wire@ == package_bytes(self@),
                Err(e) => self@.len() > u32::MAX && e == Error::Protocol(
                    ProtocolFault::PackageTooLarge,
                ),
            },
    {
        let mut bytes = self.bytes;
        let ghost ciphertext = bytes@;
        if bytes.len() > 0xffff_ffff {
            return Err(Error::Protocol(ProtocolFault::PackageTooLarge));
        }
        let mut wire = u32_to_be(bytes.len() as u32);
        wire.append(&mut bytes);
        assert(wire@ =~= package_bytes(ciphertext));
        Ok(wire)
    }

    /// The number of ciphertext bytes that a length prefix announces.
    pub fn announced_len(prefix: &[u8]) -> (r: Option<u32>)
        ensures
            r is Some <==> prefix@.len() >= 4,
            r matches Some(n) ==> n as nat == be_value(prefix@.subrange(0, 4)),
    {
        u32_from_be(prefix, 0)
    }

    /// Reads the package that `bytes` starts with, and says how many bytes it
    /// took. `None` where the package is not all there yet.
    pub fn from_bytes(bytes: &[u8]) -> (r: Option<(EncryptedPackage, usize)>)
        ensures
            match r {
                Some((package, used)) => package_parts(bytes@) == Some((package@, used as nat)),
                None => package_parts(bytes@) is None,
            },
    {
        let n = match u32_from_be(bytes, 0) {
            Some(n) => n,
            None => {
                return None;
            },
        };
        if n as u64 > (bytes.len() - 4) as u64 {
            return None;
        }
        let n = n as usize;
        let body = slice_subrange(bytes, 4, 4 + n);
        let mut ciphertext: Vec<u8> = Vec::new();
        ciphertext.extend_from_slice(body);
        Some((EncryptedPackage { bytes: ciphertext }, 4 + n))
    }
}

/// The first `n` bytes of `s`, or all of it where it holds fewer.
pub open spec fn front(s: Seq<u8>, n: nat) -> Seq<u8> {
    if n <= s.len() {
        s.subrange(0, n as int)
    } else {
        s
    }
}

/// What is left of `s` behind its first `n` bytes.
pub open spec fn behind(s: Seq<u8>, n: nat) -> Seq<u8> {
    if n <= s.len() {
        s.subrange(n as int, s.len() as int)
    } else {
        Seq::empty()
    }
}

/// What the read half asks of its caller.
#[derive(Debug, PartialEq, Eq)]
pub enum ReadAction {
    /// Hand these bytes to the reader: the read is complete.
    Deliver(Vec<u8>),
    /// Read one package from the transport, decrypt it and report the
    /// plaintext with `package_arrived`, or the failure with `fetch_failed`.
    Fetch,
    /// A package is being fetched: the read stays pending.
    Wait,
}

/// The read half of the encrypted stream: plaintext that was decrypted and
/// not yet delivered.
pub struct EncryptedReadStream {
    remaining: bytes::BytesMut,
    fetching: bool,
    arrived: Ghost<Seq<u8>>,
    delivered: Ghost<Seq<u8>>,
}

impl EncryptedReadStream {
    /// The plaintext that waits to be delivered.
    pub closed spec fn remaining(&self) -> Seq<u8> {
        held(self.remaining)
    }

    /// Whether a package is being fetched.
    pub closed spec fn fetching(&self) -> bool {
        self.fetching
    }

    /// All the plaintext that has come in packages, in the order of coming.
    pub closed spec fn arrived(&self) -> Seq<u8> {
        self.arrived@
    }

    /// All the plaintext that was handed to the reader, in the order of
    /// handing.
    pub closed spec fn delivered(&self) -> Seq<u8> {
        self.delivered@
    }

    /// What holds of a read half at all times: what has arrived is what was
    /// delivered followed by what is held.
    pub open spec fn wf(&self) -> bool {
        self.arrived() == self.delivered() + self.remaining()
    }

    /// A read half that holds no plaintext and waits for nothing.
    pub fn new() -> (r: Self)
        ensures
            r.remaining() == Seq::<u8>::empty(),
            r.arrived() == Seq::<u8>::empty(),
            r.delivered() == Seq::<u8>::empty(),
            !r.fetching(),
            r.wf(),
    {
        let r = Self {
            remaining: queue_new(),
            fetching: false,
            arrived: Ghost(Seq::empty()),
            delivered: Ghost(Seq::empty()),
        };
        assert(r.arrived() =~= r.delivered() + r.remaining());
        r
    }

    /// Whether a package is being fetched.
    pub fn is_fetching(&self) -> (r: bool)
        ensures
            r == self.fetching(),
    {
        self.fetching
    }

    /// The number of plaintext bytes that wait to be delivered.
    pub fn buffered_len(&self) -> (r: usize)
        ensures
            r == self.remaining().len(),
    {
        queue_len(&self.remaining)
    }

    /// A read of up to `want` bytes. While a package is being fetched the
    /// read waits. Otherwise plaintext that is held is delivered from the
    /// front, as much as is wanted and there; what is not delivered stays.
    /// Where bytes are wanted and none is held, a package is asked for.
    pub fn poll_read(&mut self, want: usize) -> (action: ReadAction)
        ensures
            old(self).fetching() ==> action is Wait && *final(self) == *old(self),
            !old(self).fetching() && (want == 0 || old(self).remaining().len() > 0) ==> {
                &&& action matches ReadAction::Deliver(bytes)
                &&& bytes@ == front(old(self).remaining(), want as nat)
                &&& final(self).remaining() == behind(old(self).remaining(), want as nat)
                &&& final(self).delivered() == old(self).delivered() + bytes@
                &&& final(self).arrived() == old(self).arrived()
                &&& !final(self).fetching()
            },
            !old(self).fetching() && want > 0 && old(self).remaining().len() == 0 ==> {
                &&& action is Fetch
                &&& final(self).remaining() == old(self).remaining()
                &&& final(self).delivered() == old(self).delivered()
                &&& final(self).arrived() == old(self).arrived()
                &&& final(self).fetching()
            },
            old(self).wf() ==> final(self).wf(),
    {
        if self.fetching {
            return ReadAction::Wait;
        }
        let have = queue_len(&self.remaining);
        if want > 0 && have == 0 {
            self.fetching = true;
            return ReadAction::Fetch;
        }
        let count = if want < have {
            want
        } else {
            have
        };
        let bytes = queue_take(&mut self.remaining, count);
        self.delivered = Ghost(self.delivered@ + bytes@);
        proof {
            let held_before = old(self).remaining();
            assert(held_before =~= bytes@ + self.remaining());
            if old(self).wf() {
                assert(self.arrived() =~= self.delivered() + self.remaining());
            }
        }
        ReadAction::Deliver(bytes)
    }

    /// The plaintext of the package that was asked for has come: it is put
    /// behind what is held, and the next read delivers from the front. Where
    /// the queue cannot hold it, nothing changes and the package is refused.
    pub fn package_arrived(&mut self, plaintext: &[u8]) -> (r: Result<(), Error>)
        ensures
            match r {
                Ok(_) => {
                    &&& old(self).remaining().len() + plaintext@.len() <= usize::MAX
                    &&& final(self).remaining() == old(self).remaining() + plaintext@
                    &&& final(self).arrived() == old(self).arrived() + plaintext@
                    &&& final(self).delivered() == old(self).delivered()
                    &&& !final(self).fetching()
                },
                Err(e) => {
                    &&& old(self).remaining().len() + plaintext@.len() > usize::MAX
                    &&& e == Error::Protocol(ProtocolFault::PackageTooLarge)
                    &&& *final(self) == *old(self)
                },
            },
            old(self).wf() ==> final(self).wf(),
    {
        let have = queue_len(&self.remaining);
        if plaintext.len() > usize::MAX - have {
            return Err(Error::Protocol(ProtocolFault::PackageTooLarge));
        }
        queue_put(&mut self.remaining, plaintext);
        self.fetching = false;
        self.arrived = Ghost(self.arrived@ + plaintext@);
        proof {
            if old(self).wf() {
                assert(self.arrived() =~= self.delivered() + self.remaining());
            }
        }
        Ok(())
    }

    /// The package that was asked for could not be read or did not
    /// authenticate: the read half waits for nothing any more. What it holds
    /// stays.
    pub fn fetch_failed(&mut self)
        ensures
            final(self).remaining() == old(self).remaining(),
            final(self).arrived() == old(self).arrived(),
            final(self).delivered() == old(self).delivered(),
            !final(self).fetching(),
    {
        self.fetching = false;
    }
}

/// What the write half is in the middle of.
#[derive(Debug, Clone, Copy, PartialEq, Eq, Structural)]
pub enum WritePhase {
    /// No package is on its way.
    Idle,
    /// A package that a write filled is on its way.
    Writing,
    /// A flush is sending what is held.
    Flushing,
    /// A shutdown is sending what is held.
    ShuttingDown,
}

/// What the write half asks of its caller.
#[derive(Debug, PartialEq, Eq)]
pub enum WriteAction {
    /// Nothing is left to do: the operation is complete.
    Done,
    /// Encrypt this plaintext, write the package to the transport and report
    /// with `package_sent`, or the failure with `send_failed`.
    Send(Vec<u8>),
    /// Flush the transport: the flush is then complete.
    FlushInner,
    /// Flush the transport and shut it down: the shutdown is then complete.
    ShutdownInner,
    /// A package is on its way: the operation stays pending.
    Wait,
}

/// The plaintext of the next package: at most `WRITE_BUF_SIZE` bytes from
/// the front of what is held.
pub open spec fn next_package(buffered: Seq<u8>) -> Seq<u8> {
    front(buffered, WRITE_BUF_SIZE as nat)
}

/// What is held once the next package has been taken.
pub open spec fn after_package(buffered: Seq<u8>) -> Seq<u8> {
    behind(buffered, WRITE_BUF_SIZE as nat)
}

/// The write half of the encrypted stream: plaintext that was written and
/// has not left in a package yet.
pub struct EncryptedWriteStream {
    buffer: bytes::BytesMut,
    phase: WritePhase,
    shut: bool,
    accepted: Ghost<Seq<u8>>,
    sent: Ghost<Seq<u8>>,
}

impl EncryptedWriteStream {
    /// The plaintext that has not left yet.
    pub closed spec fn buffered(&self) -> Seq<u8> {
        held(self.buffer)
    }

    /// What the write half is in the middle of.
    pub closed spec fn phase(&self) -> WritePhase {
        self.phase
    }

    /// Whether the write half was shut down, or failed.
    pub closed spec fn shut(&self) -> bool {
        self.shut
    }

    /// All the bytes that writes have taken, in the order of taking.
    pub closed spec fn accepted(&self) -> Seq<u8> {
        self.accepted@
    }

    /// The plaintext of all the packages that were handed out to be sent,
    /// one behind the other.
    pub closed spec fn sent(&self) -> Seq<u8> {
        self.sent@
    }

    /// What holds of a write half at all times: what was taken is what was
    /// handed out in packages followed by what is held.
    pub open spec fn wf(&self) -> bool {
        self.accepted() == self.sent() + self.buffered()
    }

    /// A write half that holds nothing.
    pub fn new() -> (r: Self)
        ensures
            r.buffered() == Seq::<u8>::empty(),
            r.accepted() == Seq::<u8>::empty(),
            r.sent() == Seq::<u8>::empty(),
            r.phase() == WritePhase::Idle,
            !r.shut(),
            r.wf(),
    {
        let r = Self {
            buffer: queue_new(),
            phase: WritePhase::Idle,
            shut: false,
            accepted: Ghost(Seq::empty()),
            sent: Ghost(Seq::empty()),
        };
        assert(r.accepted() =~= r.sent() + r.buffered());
        r
    }

    /// What the write half is in the middle of.
    pub fn current_phase(&self) -> (r: WritePhase)
        ensures
            r == self.phase(),
    {
        self.phase
    }

    /// Whether the write half was shut down, or failed.
    pub fn is_shut(&self) -> (r: bool)
        ensures
            r == self.shut(),
    {
        self.shut
    }

    /// The number of plaintext bytes that have not left yet.
    pub fn buffered_len(&self) -> (r: usize)
        ensures
            r == self.buffered().len(),
    {
        queue_len(&self.buffer)
    }

    /// Takes the next package out of the queue.
    fn take_package(&mut self) -> (package: Vec<u8>)
        ensures
            package@ == next_package(old(self).buffered()),
            final(self).buffered() == after_package(old(self).buffered()),
            final(self).phase() == old(self).phase(),
            final(self).shut() == old(self).shut(),
            final(self).accepted() == old(self).accepted(),
            final(self).sent() == old(self).sent() + package@,
            old(self).wf() ==> final(self).wf(),
    {
        let have = queue_len(&self.buffer);
        let count = if have < WRITE_BUF_SIZE {
            have
        } else {
            WRITE_BUF_SIZE
        };
        let package = queue_take(&mut self.buffer, count);
        self.sent = Ghost(self.sent@ + package@);
        proof {
            let b = held(old(self).buffer);
            assert(b.subrange(0, b.len() as int) =~= b);
            assert(b.subrange(b.len() as int, b.len() as int) =~= Seq::<u8>::empty());
            assert(b =~= package@ + self.buffered());
            if old(self).wf() {
                assert(self.accepted() =~= self.sent() + self.buffered());
            }
        }
        package
    }

    /// A write of `data`. After a shutdown or a failure it is refused. While
    /// a package is on its way nothing is taken and the write waits.
    /// Otherwise the bytes are put behind what is held (all of them, unless
    /// the queue cannot hold so many) and the number taken is returned. Where
    /// the queue then holds a full package, that package leaves it and is to
    /// be sent; else the write is complete.
    pub fn poll_write(&mut self, data: &[u8]) -> (r: Result<(usize, WriteAction), Error>)
        ensures
            old(self).shut() ==> r == Err::<(usize, WriteAction), _>(Error::Closed) && *final(self)
                == *old(self),
            !old(self).shut() && old(self).phase() != WritePhase::Idle ==> {
                &&& r matches Ok((taken, action))
                &&& taken == 0
                &&& action is Wait
                &&& *final(self) == *old(self)
            },
            !old(self).shut() && old(self).phase() == WritePhase::Idle ==> {
                &&& r matches Ok((taken, action))
                &&& taken as int == vstd::math::min(
                    data@.len() as int,
                    usize::MAX - old(self).buffered().len(),
                )
                &&& !final(self).shut()
                &&& final(self).accepted() == old(self).accepted() + data@.subrange(
                    0,
                    taken as int,
                )
                &&& {
                    let all = old(self).buffered() + data@.subrange(0, taken as int);
                    if all.len() >= WRITE_BUF_SIZE {
                        &&& action matches WriteAction::Send(package)
                        &&& package@ == next_package(all)
                        &&& final(self).buffered() == after_package(all)
                        &&& final(self).sent() == old(self).sent() + package@
                        &&& final(self).phase() == WritePhase::Writing
                    } else {
                        &&& action is Done
                        &&& final(self).buffered() == all
                        &&& final(self).sent() == old(self).sent()
                        &&& final(self).phase() == WritePhase::Idle
                    }
                }
            },
            old(self).wf() ==> final(self).wf(),
    {
        if self.shut {
            return Err(Error::Closed);
        }
        match self.phase {
            WritePhase::Idle => {},
            _ => {
                return Ok((0, WriteAction::Wait));
            },
        }
        let have = queue_len(&self.buffer);
        let room = usize::MAX - have;
        let taken = if data.len() < room {
            data.len()
        } else {
            room
        };
        queue_put(&mut self.buffer, slice_subrange(data, 0, taken));
        self.accepted = Ghost(self.accepted@ + data@.subrange(0, taken as int));
        proof {
            if old(self).wf() {
                assert(self.accepted() =~= self.sent() + self.buffered());
            }
        }
        if have + taken >= WRITE_BUF_SIZE {
            let package = self.take_package();
            self.phase = WritePhase::Writing;
            Ok((taken, WriteAction::Send(package)))
        } else {
            Ok((taken, WriteAction::Done))
        }
    }

    /// A flush. After a shutdown or a failure it is refused. While a package
    /// is on its way the flush waits. Otherwise, where plaintext is held, its
    /// next package leaves the queue and is to be sent; where none is held,
    /// the transport is to be flushed.
    pub fn poll_flush(&mut self) -> (r: Result<WriteAction, Error>)
        ensures
            old(self).shut() ==> r == Err::<WriteAction, _>(Error::Closed) && *final(self) == *old(self),
            !old(self).shut() && old(self).phase() != WritePhase::Idle ==> {
                &&& r matches Ok(action)
                &&& action is Wait
                &&& *final(self) == *old(self)
            },
            !old(self).shut() && old(self).phase() == WritePhase::Idle ==> {
                &&& r matches Ok(action)
                &&& !final(self).shut()
                &&& if old(self).buffered().len() > 0 {
                    &&& action matches WriteAction::Send(package)
                    &&& package@ == next_package(old(self).buffered())
                    &&& final(self).buffered() == after_package(old(self).buffered())
                    &&& final(self).sent() == old(self).sent() + package@
                    &&& final(self).accepted() == old(self).accepted()
                    &&& final(self).phase() == WritePhase::Flushing
                } else {
                    &&& action is FlushInner
                    &&& *final(self) == *old(self)
                }
            },
            old(self).wf() ==> final(self).wf(),
    {
        if self.shut {
            return Err(Error::Closed);
        }
        match self.phase {
            WritePhase::Idle => {},
            _ => {
                return Ok(WriteAction::Wait);
            },
        }
        if queue_len(&self.buffer) > 0 {
            let package = self.take_package();
            self.phase = WritePhase::Flushing;
            Ok(WriteAction::Send(package))
        } else {
            Ok(WriteAction::FlushInner)
        }
    }

    /// A shutdown. Where the write half is shut already, nothing is left to
    /// do. While a package is on its way the shutdown waits. Otherwise, where
    /// plaintext is held, its next package leaves the queue and is to be
    /// sent; where none is held, the write half is shut and the transport is
    /// to be shut down.
    pub fn poll_shutdown(&mut self) -> (action: WriteAction)
        ensures
            old(self).shut() ==> action is Done && *final(self) == *old(self),
            !old(self).shut() && old(self).phase() != WritePhase::Idle ==> {
                &&& action is Wait
                &&& *final(self) == *old(self)
            },
            !old(self).shut() && old(self).phase() == WritePhase::Idle ==> {
                if old(self).buffered().len() > 0 {
                    &&& action matches WriteAction::Send(package)
                    &&& package@ == next_package(old(self).buffered())
                    &&& final(self).buffered() == after_package(old(self).buffered())
                    &&& final(self).sent() == old(self).sent() + package@
                    &&& final(self).accepted() == old(self).accepted()
                    &&& final(self).phase() == WritePhase::ShuttingDown
                    &&& !final(self).shut()
                } else {
                    &&& action is ShutdownInner
                    &&& final(self).buffered() == old(self).buffered()
                    &&& final(self).sent() == old(self).sent()
                    &&& final(self).accepted() == old(self).accepted()
                    &&& final(self).phase() == WritePhase::Idle
                    &&& final(self).shut()
                }
            },
            old(self).wf() ==> final(self).wf(),
    {
        if self.shut {
            return WriteAction::Done;
        }
        match self.phase {
            WritePhase::Idle => {},
            _ => {
                return WriteAction::Wait;
            },
        }
        if queue_len(&self.buffer) > 0 {
            let package = self.take_package();
            self.phase = WritePhase::ShuttingDown;
            WriteAction::Send(package)
        } else {
            self.shut = true;
            WriteAction::ShutdownInner
        }
    }

    /// The package that was to be sent is on the transport. A write goes on
    /// while a full package is held, a flush or a shutdown while anything is
    /// held: the next package leaves the queue and is to be sent. Else the
    /// operation ends: a write is complete, a flush has the transport
    /// flushed, a shutdown shuts the write half and has the transport shut
    /// down. Where no package was on its way, nothing is left to do.
    pub fn package_sent(&mut self) -> (action: WriteAction)
        ensures
            old(self).wf() ==> final(self).wf(),
            final(self).accepted() == old(self).accepted(),
            final(self).sent() + final(self).buffered() == old(self).sent() + old(self).buffered(),
            final(self).shut() == (old(self).shut() || (old(self).phase()
                == WritePhase::ShuttingDown && old(self).buffered().len() == 0)),
            old(self).phase() == WritePhase::Idle ==> action is Done && *final(self) == *old(self),
            old(self).phase() != WritePhase::Idle && old(self).buffered().len() >= (if old(
                self,
            ).phase() == WritePhase::Writing {
                WRITE_BUF_SIZE as nat
            } else {
                1nat
            }) ==> {
                &&& action matches WriteAction::Send(package)
                &&& package@ == next_package(old(self).buffered())
                &&& final(self).buffered() == after_package(old(self).buffered())
                &&& final(self).sent() == old(self).sent() + package@
                &&& final(self).phase() == old(self).phase()
            },
            old(self).phase() != WritePhase::Idle && old(self).buffered().len() < (if old(
                self,
            ).phase() == WritePhase::Writing {
                WRITE_BUF_SIZE as nat
            } else {
                1nat
            }) ==> {
                &&& final(self).buffered() == old(self).buffered()
                &&& final(self).sent() == old(self).sent()
                &&& final(self).phase() == WritePhase::Idle
                &&& match old(self).phase() {
                    WritePhase::Writing => action is Done,
                    WritePhase::Flushing => action is FlushInner,
                    _ => action is ShutdownInner,
                }
            },
    {
        let have = queue_len(&self.buffer);
        match self.phase {
            WritePhase::Idle => WriteAction::Done,
            WritePhase::Writing => {
                if have >= WRITE_BUF_SIZE {
                    WriteAction::Send(self.take_package())
                } else {
                    self.phase = WritePhase::Idle;
                    WriteAction::Done
                }
            },
            WritePhase::Flushing => {
                if have > 0 {
                    WriteAction::Send(self.take_package())
                } else {
                    self.phase = WritePhase::Idle;
                    WriteAction::FlushInner
                }
            },
            WritePhase::ShuttingDown => {
                if have > 0 {
                    WriteAction::Send(self.take_package())
                } else {
                    self.phase = WritePhase::Idle;
                    self.shut = true;
                    WriteAction::ShutdownInner
                }
            },
        }
    }

    /// The package that was to be sent could not be encrypted or written:
    /// the write half is shut, and takes no more.
    pub fn send_failed(&mut self)
        ensures
            final(self).buffered() == old(self).buffered(),
            final(self).accepted() == old(self).accepted(),
            final(self).sent() == old(self).sent(),
            final(self).phase() == WritePhase::Idle,
            final(self).shut(),
    {
        self.phase = WritePhase::Idle;
        self.shut = true;
    }
}

/// What is written to the encrypted stream is what is read from it, byte
/// for byte and in order, once the writer has flushed. The two halves are
/// those of one stream: the plaintext that arrived at the read half is the
/// plaintext that the write half handed out in packages. Then what was
/// delivered, followed by what the read half still holds, is what the
/// writes took; and where the read half holds nothing more, what was
/// delivered is exactly what was written.
pub proof fn lemma_stream_round_trip(writer: &EncryptedWriteStream, reader: &EncryptedReadStream)
    requires
        writer.wf(),
        reader.wf(),
        writer.buffered().len() == 0,
        reader.arrived() == writer.sent(),
    ensures
        reader.delivered() + reader.remaining() == writer.accepted(),
        reader.remaining().len() == 0 ==> reader.delivered() == writer.accepted(),
{
    assert(writer.sent() + writer.buffered() =~= writer.sent());
    if reader.remaining().len() == 0 {
        assert(reader.delivered() + reader.remaining() =~= reader.delivered());
    }
}

/// A package carries at most `WRITE_BUF_SIZE` bytes of plaintext and, where
/// anything is held, at least one; the package and what stays behind it make
/// up what was held.
pub proof fn lemma_next_package(buffered: Seq<u8>)
    ensures
        next_package(buffered).len() <= WRITE_BUF_SIZE,
        buffered.len() > 0 ==> next_package(buffered).len() > 0,
        next_package(buffered) + after_package(buffered) == buffered,
{
    assert(next_package(buffered) + after_package(buffered) =~= buffered);
}

} // verus!
