//! The log's destination: standard output or a shared in-memory buffer,
//! locked for the length of one log entry.

use std::io::{Stdout, StdoutLock};
use std::sync::{Arc, Mutex, MutexGuard};
use vstd::prelude::*;

verus! {

#[verifier::external_type_specification]
#[verifier::external_body]
pub struct ExStdout(Stdout);

#[verifier::external_type_specification]
#[verifier::external_body]
pub struct ExStdoutLock<'a>(StdoutLock<'a>);

#[verifier::external_type_specification]
#[verifier::external_body]
#[verifier::reject_recursive_types(T)]
pub struct ExMutex<T: ?Sized>(Mutex<T>);

#[verifier::external_type_specification]
#[verifier::external_body]
#[verifier::reject_recursive_types(T)]
pub struct ExMutexGuard<'a, T: ?Sized + 'a>(MutexGuard<'a, T>);

#[verifier::external_type_specification]
#[verifier::external_body]
pub struct ExIoError(std::io::Error);

/// Where log text goes.
#[derive(Debug)]
pub enum LockableWriter {
    Stdout(Stdout),
    BufWriter(Arc<Mutex<Vec<u8>>>),
}

/// A locked [`LockableWriter`]: holding it keeps other writers out until it drops.
#[derive(Debug)]
pub enum LockableWriterGuard<'w> {
    Stdout(StdoutLock<'w>),
    BufWriter(MutexGuard<'w, Vec<u8>>),
}

/// The bytes that the in-memory buffer behind a held lock holds.
pub uninterp spec fn guarded_bytes(guard: MutexGuard<Vec<u8>>) -> Seq<u8>;

/// The bytes handed to standard output through a held lock of it.
pub uninterp spec fn stdout_sent(lock: StdoutLock) -> Seq<u8>;

/// Locks standard output (std's `Stdout::lock`), which blocks until the
/// lock is free and does not fail.
#[verifier::external_body]
fn lock_stdout<'w>(stdout: &'w Stdout) -> StdoutLock<'w> {
    stdout.lock()
}

/// Locks the buffer's mutex (std's `Mutex::lock`); a poisoned mutex comes
/// back as an `io::Error` that says so.
#[verifier::external_body]
fn lock_buffer<'w>(buffer: &'w Arc<Mutex<Vec<u8>>>) -> std::io::Result<MutexGuard<'w, Vec<u8>>> {
    match buffer.lock() {
        Ok(guard) => Ok(guard),
        Err(e) => Err(std::io::Error::other(format!("Failed to lock writer: {e}"))),
    }
}

/// One `write` to locked standard output (std's `Write::write`): on success
/// it took the first `n` bytes of `buf`, at most all of them; on an error
/// it took none (as std documents for `write`).
#[verifier::external_body]
fn stdout_write(lock: &mut StdoutLock<'_>, buf: &[u8]) -> (res: std::io::Result<usize>)
    ensures
        res matches Ok(n) ==> n <= buf@.len() && stdout_sent(*final(lock)) == stdout_sent(*old(lock))
            + buf@.take(n as int),
        res is Err ==> stdout_sent(*final(lock)) == stdout_sent(*old(lock)),
{
    std::io::Write::write(lock, buf)
}

/// One `write` to the locked buffer (std's `Write::write` for `Vec<u8>`).
/// std documents that `Write` for `Vec<u8>` appends to the vector, which
/// grows as needed; so the write takes all of `buf` and reports so.
#[verifier::external_body]
fn buffer_write(guard: &mut MutexGuard<'_, Vec<u8>>, buf: &[u8]) -> (res: std::io::Result<usize>)
    ensures
        res is Ok,
        res matches Ok(n) ==> n == buf@.len(),
        guarded_bytes(*final(guard)) == guarded_bytes(*old(guard)) + buf@,
{
    std::io::Write::write(&mut **guard, buf)
}

/// Writes all of `buf` to locked standard output (std's `Write::write_all`):
/// on success all of `buf` was handed over; on an error, std's repeated
/// `write`s have handed over some first part of it.
#[verifier::external_body]
fn stdout_write_all(lock: &mut StdoutLock<'_>, buf: &[u8]) -> (res: std::io::Result<()>)
    ensures
        res is Ok ==> stdout_sent(*final(lock)) == stdout_sent(*old(lock)) + buf@,
        res is Err ==> exists|k: int|
            0 <= k <= buf@.len() && stdout_sent(*final(lock)) == stdout_sent(*old(lock)) + buf@.take(k),
{
    std::io::Write::write_all(lock, buf)
}

/// Writes all of `buf` to the locked buffer (std's `Write::write_all` for
/// `Vec<u8>`). std documents that `Write` for `Vec<u8>` appends to the
/// vector, which grows as needed; so it succeeds and the vector ends with
/// `buf` appended.
#[verifier::external_body]
fn buffer_write_all(guard: &mut MutexGuard<'_, Vec<u8>>, buf: &[u8]) -> (res: std::io::Result<()>)
    ensures
        res is Ok,
        guarded_bytes(*final(guard)) == guarded_bytes(*old(guard)) + buf@,
{
    std::io::Write::write_all(&mut **guard, buf)
}

/// Flushes locked standard output (std's `Write::flush`); it hands over no
/// bytes of its own.
#[verifier::external_body]
fn stdout_flush(lock: &mut StdoutLock<'_>) -> (res: std::io::Result<()>)
    ensures
        stdout_sent(*final(lock)) == stdout_sent(*old(lock)),
{
    std::io::Write::flush(lock)
}

/// Flushes the locked buffer (std's `Write::flush` for `Vec<u8>`): a vector
/// holds no pending output, so this succeeds and leaves its bytes as they are.
#[verifier::external_body]
fn buffer_flush(guard: &mut MutexGuard<'_, Vec<u8>>) -> (res: std::io::Result<()>)
    ensures
        res is Ok,
        guarded_bytes(*final(guard)) == guarded_bytes(*old(guard)),
{
    std::io::Write::flush(&mut **guard)
}

impl LockableWriter {
    /// Locks the writer for exclusive use.
    pub fn lock<'w>(&'w mut self) -> (res: std::io::Result<LockableWriterGuard<'w>>)
        ensures
            *old(self) is Stdout ==> (res matches Ok(g) && g is Stdout),
            *old(self) is BufWriter ==> (res matches Ok(g) ==> g is BufWriter),
            *final(self) == *old(self),
    {
        match self {
            LockableWriter::Stdout(stdout) => Ok(LockableWriterGuard::Stdout(lock_stdout(stdout))),
            LockableWriter::BufWriter(buffer) => match lock_buffer(buffer) {
                Ok(guard) => Ok(LockableWriterGuard::BufWriter(guard)),
                Err(e) => Err(e),
            },
        }
    }
}

impl<'w> LockableWriterGuard<'w> {
    /// The bytes written through this lock: those handed to standard output,
    /// or those the in-memory buffer holds.
    pub open spec fn written(&self) -> Seq<u8> {
        match self {
            LockableWriterGuard::Stdout(l) => stdout_sent(*l),
            LockableWriterGuard::BufWriter(g) => guarded_bytes(*g),
        }
    }

    /// One write to the locked destination: on success it took the first `n`
    /// bytes of `buf`, on an error none; the in-memory buffer always takes
    /// all of them.
    pub fn write(&mut self, buf: &[u8]) -> (res: std::io::Result<usize>)
        ensures
            res matches Ok(n) ==> n <= buf@.len() && final(self).written() == old(self).written()
                + buf@.take(n as int),
            res is Err ==> final(self).written() == old(self).written(),
            *old(self) is BufWriter ==> (res matches Ok(n) && n == buf@.len()),
            (*final(self) is Stdout) <==> (*old(self) is Stdout),
    {
        match self {
            LockableWriterGuard::Stdout(lock) => stdout_write(lock, buf),
            LockableWriterGuard::BufWriter(guard) => {
                let r = buffer_write(guard, buf);
                proof {
                    assert(buf@.take(buf@.len() as int) =~= buf@);
                }
                r
            },
        }
    }

    /// Writes all of `buf` to the locked destination: on success all of it,
    /// on an error some first part of it; the in-memory buffer always takes
    /// all of it.
    pub fn write_all(&mut self, buf: &[u8]) -> (res: std::io::Result<()>)
        ensures
            res is Ok ==> final(self).written() == old(self).written() + buf@,
            res is Err ==> exists|k: int|
                0 <= k <= buf@.len() && final(self).written() == old(self).written() + buf@.take(k),
            *old(self) is BufWriter ==> res is Ok,
            (*final(self) is Stdout) <==> (*old(self) is Stdout),
    {
        match self {
            LockableWriterGuard::Stdout(lock) => stdout_write_all(lock, buf),
            LockableWriterGuard::BufWriter(guard) => buffer_write_all(guard, buf),
        }
    }

    /// Flushes the locked destination; it writes no bytes of its own, and
    /// the in-memory buffer, having nothing pending, always succeeds.
    pub fn flush(&mut self) -> (res: std::io::Result<()>)
        ensures
            final(self).written() == old(self).written(),
            *old(self) is BufWriter ==> res is Ok,
            (*final(self) is Stdout) <==> (*old(self) is Stdout),
    {
        match self {
            LockableWriterGuard::Stdout(lock) => stdout_flush(lock),
            LockableWriterGuard::BufWriter(guard) => buffer_flush(guard),
        }
    }
}

/// A record of the bytes written, in order, through the locks of one
/// destination, and of whether they have all been flushed since. Its only
/// changes are real writes and flushes through a lock, so it grows exactly
/// as the destination receives bytes.
pub struct WriteLog {
    bytes: Ghost<Seq<u8>>,
    flushed: Ghost<bool>,
}

impl WriteLog {
    /// The bytes written so far, in order.
    pub closed spec fn bytes(&self) -> Seq<u8> {
        self.bytes@
    }

    /// No byte has been written since the last successful flush.
    pub closed spec fn flushed(&self) -> bool {
        self.flushed@
    }

    /// A record of nothing written.
    pub fn new() -> (res: Self)
        ensures
            res.bytes() == Seq::<u8>::empty(),
            res.flushed(),
    {
        WriteLog { bytes: Ghost(Seq::empty()), flushed: Ghost(true) }
    }

    /// Writes all of `buf` through `guard` (its `write_all`) and records what
    /// the destination received: on success all of `buf`, on an error some
    /// first part of it; the in-memory buffer always takes all of it.
    pub fn write_all(&mut self, guard: &mut LockableWriterGuard, buf: &[u8]) -> (res: std::io::Result<()>)
        ensures
            (*final(guard) is Stdout) <==> (*old(guard) is Stdout),
            res is Ok ==> final(guard).written() == old(guard).written() + buf@
                && final(self).bytes() == old(self).bytes() + buf@,
            res is Err ==> exists|k: int|
                0 <= k <= buf@.len() && final(guard).written() == old(guard).written() + buf@.take(k)
                    && final(self).bytes() == old(self).bytes() + buf@.take(k),
            *old(guard) is BufWriter ==> res is Ok,
            final(self).flushed() == (old(self).flushed() && buf@.len() == 0),
    {
        let ghost before = guard.written();
        let res = guard.write_all(buf);
        let ghost after = guard.written();
        proof {
            if res is Ok {
                assert(after.skip(before.len() as int) =~= buf@);
            } else {
                let k = choose|k: int| 0 <= k <= buf@.len() && after == before + buf@.take(k);
                assert(after.skip(before.len() as int) =~= buf@.take(k));
            }
        }
        let ghost bytes = self.bytes@ + after.skip(before.len() as int);
        let ghost flushed = self.flushed@ && buf@.len() == 0;
        self.bytes = Ghost(bytes);
        self.flushed = Ghost(flushed);
        res
    }

    /// Flushes the destination through `guard` (its `flush`); it writes no
    /// bytes, and afterwards everything is flushed exactly when it succeeded.
    pub fn flush(&mut self, guard: &mut LockableWriterGuard) -> (res: std::io::Result<()>)
        ensures
            (*final(guard) is Stdout) <==> (*old(guard) is Stdout),
            final(guard).written() == old(guard).written(),
            final(self).bytes() == old(self).bytes(),
            final(self).flushed() == (res is Ok),
            *old(guard) is BufWriter ==> res is Ok,
    {
        let res = guard.flush();
        let ghost flushed = res is Ok;
        self.flushed = Ghost(flushed);
        res
    }
}

} // verus!
