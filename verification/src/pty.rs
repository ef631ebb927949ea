//! Trusted boundary to the operating system: pseudo-terminal allocation and
//! I/O through `portable_pty`, the delivery channel through `std::sync::mpsc`,
//! identifier generation through `uuid`, and the clock.
//!
//! Every function here is an `external_body` wrapper around one outside call;
//! its contract states only what the called crate's source or documentation
//! shows.  The verified session manager is built on these contracts alone.

use vstd::prelude::*;

use portable_pty::PtySystem;

verus! {

#[verifier::external_type_specification]
#[verifier::external_body]
pub struct ExPtyPair(portable_pty::PtyPair);

#[verifier::external_type_specification]
#[verifier::external_body]
pub struct ExCommandBuilder(portable_pty::CommandBuilder);

#[verifier::external_type_specification]
#[verifier::external_body]
#[verifier::reject_recursive_types(T)]
pub struct ExSender<T>(std::sync::mpsc::Sender<T>);

#[verifier::external_type_specification]
#[verifier::external_body]
#[verifier::reject_recursive_types(T)]
pub struct ExReceiver<T>(std::sync::mpsc::Receiver<T>);

/// The read side of a pty master.  The stream is a trait object, which can
/// not be declared to the verifier, so it is hidden in an opaque struct.
#[verifier::external_body]
pub(crate) struct PtyReader {
    inner: Box<dyn std::io::Read + Send>,
}

/// The write side of a pty master; same treatment as [`PtyReader`].
#[verifier::external_body]
pub(crate) struct PtyWriter {
    inner: Box<dyn std::io::Write + Send>,
}

/// The master end of a pty whose slave end has been closed.  A trait
/// object, which can not be declared to the verifier, so it is hidden in
/// an opaque struct.
#[verifier::external_body]
pub(crate) struct PtyMaster {
    inner: Box<dyn portable_pty::MasterPty + Send>,
}

/// The argument vector a command builder holds, program name first.
pub uninterp spec fn cb_argv(cmd: portable_pty::CommandBuilder) -> Seq<Seq<char>>;

/// Relies on `CommandBuilder::new`: the new builder's argv holds exactly the
/// given program.
#[verifier::external_body]
pub(crate) fn cmd_new(program: &str) -> (cmd: portable_pty::CommandBuilder)
    ensures
        cb_argv(cmd) == seq![program@],
{
    portable_pty::CommandBuilder::new(program)
}

/// Relies on `CommandBuilder::arg`: appends one argument to the argv.  It
/// panics on a builder with an empty argv, which `requires` rules out.
#[verifier::external_body]
pub(crate) fn cmd_arg(cmd: &mut portable_pty::CommandBuilder, arg: &str)
    requires
        cb_argv(*old(cmd)).len() >= 1,
    ensures
        cb_argv(*final(cmd)) == cb_argv(*old(cmd)).push(arg@),
{
    cmd.arg(arg);
}

/// Relies on `CommandBuilder::env`: overrides one environment variable for
/// the future child and leaves the argv untouched.
#[verifier::external_body]
pub(crate) fn cmd_env(cmd: &mut portable_pty::CommandBuilder, key: &str, value: &str)
    ensures
        cb_argv(*final(cmd)) == cb_argv(*old(cmd)),
{
    cmd.env(key, value);
}

/// Relies on `NativePtySystem::openpty`: allocates a master/slave pty pair
/// with the given visible size; the kernel resources are released when the
/// pair is dropped.
#[verifier::external_body]
pub(crate) fn open_pty(rows: u16, cols: u16) -> Result<portable_pty::PtyPair, String> {
    let sys = portable_pty::NativePtySystem::default();
    let size = portable_pty::PtySize { rows, cols, pixel_width: 0, pixel_height: 0 };
    match sys.openpty(size) {
        Ok(pair) => Ok(pair),
        Err(e) => Err(format!("{}", e)),
    }
}

/// Relies on `SlavePty::spawn_command`: starts the builder's argv as a child
/// of the slave side.  The child handle is dropped here, which does not
/// terminate the child; the slave end is dropped too, so that once the
/// child exits the master read reports end of stream.  On error the whole
/// pair is dropped and the kernel resources are released.
#[verifier::external_body]
pub(crate) fn spawn_in_pty(
    pair: portable_pty::PtyPair,
    cmd: portable_pty::CommandBuilder,
) -> Result<PtyMaster, String> {
    let portable_pty::PtyPair { slave, master } = pair;
    match slave.spawn_command(cmd) {
        Ok(_child) => Ok(PtyMaster { inner: master }),
        Err(e) => Err(format!("{}", e)),
    }
}

/// Relies on `MasterPty::try_clone_reader`: a stream carrying the bytes the
/// child writes to the slave side.
#[verifier::external_body]
pub(crate) fn clone_reader(master: &PtyMaster) -> Result<PtyReader, String> {
    match master.inner.try_clone_reader() {
        Ok(inner) => Ok(PtyReader { inner }),
        Err(e) => Err(format!("{}", e)),
    }
}

/// Relies on `MasterPty::take_writer`: the stream feeding the slave side;
/// the source allows taking it only once per pty.
#[verifier::external_body]
pub(crate) fn take_writer(master: &PtyMaster) -> Result<PtyWriter, String> {
    match master.inner.take_writer() {
        Ok(inner) => Ok(PtyWriter { inner }),
        Err(e) => Err(format!("{}", e)),
    }
}

/// Relies on `MasterPty::resize`: updates the window size the kernel reports
/// for the pty and signals the child.
#[verifier::external_body]
pub(crate) fn resize_master(master: &PtyMaster, rows: u16, cols: u16) -> Result<(), String> {
    let size = portable_pty::PtySize { rows, cols, pixel_width: 0, pixel_height: 0 };
    match master.inner.resize(size) {
        Ok(()) => Ok(()),
        Err(e) => Err(format!("{}", e)),
    }
}

/// What one blocking read of the pty produced.
pub(crate) enum ReadOutcome {
    /// The stream ended: the child exited or the slave side closed.
    Eof,
    /// A chunk of output, in producer order.
    Data(Vec<u8>),
    /// The read failed.
    ReadError,
}

/// Relies on `std::io::Read::read` through the pty reader: 0 bytes read
/// means end of stream; otherwise the first `n` bytes of the buffer were
/// filled, and `n` is at most the buffer's length.
#[verifier::external_body]
pub(crate) fn read_chunk(r: &mut PtyReader) -> (out: ReadOutcome)
    ensures
        out matches ReadOutcome::Data(d) ==> 0 < d@.len() <= 4096,
{
    let mut buf = vec![0u8; 4096];
    match r.inner.read(&mut buf) {
        Ok(0) => ReadOutcome::Eof,
        Ok(n) => {
            buf.truncate(n);
            ReadOutcome::Data(buf)
        },
        Err(_) => ReadOutcome::ReadError,
    }
}

/// Relies on `std::io::Write::write_all` through the pty writer: on `Ok`
/// every byte of `data` was handed to the kernel, in order.
#[verifier::external_body]
pub(crate) fn write_all_bytes(w: &mut PtyWriter, data: &[u8]) -> Result<(), String> {
    match w.inner.write_all(data) {
        Ok(()) => Ok(()),
        Err(e) => Err(format!("{}", e)),
    }
}

/// Relies on `std::io::Write::flush` through the pty writer.
#[verifier::external_body]
pub(crate) fn flush_writer(w: &mut PtyWriter) -> Result<(), String> {
    match w.inner.flush() {
        Ok(()) => Ok(()),
        Err(e) => Err(format!("{}", e)),
    }
}

/// Relies on `std::sync::mpsc::channel`: an unbounded queue whose sender and
/// receiver report disconnection once the other side is dropped.
#[verifier::external_body]
pub(crate) fn output_channel() -> (std::sync::mpsc::Sender<Vec<u8>>, std::sync::mpsc::Receiver<
    Vec<u8>,
>) {
    std::sync::mpsc::channel()
}

/// Relies on `Sender::send`: true when the receiver still existed and the
/// message was queued, false when the channel is disconnected.
#[verifier::external_body]
pub(crate) fn send_chunk(tx: &std::sync::mpsc::Sender<Vec<u8>>, data: Vec<u8>) -> bool {
    tx.send(data).is_ok()
}

/// What one non-blocking poll of the delivery channel produced.
pub(crate) enum RecvOutcome {
    /// The oldest queued chunk.
    Data(Vec<u8>),
    /// Nothing queued right now; the producer may still be alive.
    Empty,
    /// The producer is gone and the queue is empty.
    Disconnected,
}

/// Relies on `Receiver::try_recv`: returns a queued message without ever
/// blocking, or reports the channel empty or disconnected.
#[verifier::external_body]
pub(crate) fn try_recv_chunk(rx: &std::sync::mpsc::Receiver<Vec<u8>>) -> RecvOutcome {
    match rx.try_recv() {
        Ok(d) => RecvOutcome::Data(d),
        Err(std::sync::mpsc::TryRecvError::Empty) => RecvOutcome::Empty,
        Err(std::sync::mpsc::TryRecvError::Disconnected) => RecvOutcome::Disconnected,
    }
}

/// Relies on `uuid::Uuid::new_v4` and its `Display` form: a fresh random
/// identifier rendered as 36 hyphenated hexadecimal characters.
#[verifier::external_body]
pub(crate) fn new_session_id() -> (id: String)
    ensures
        id@.len() == 36,
{
    uuid::Uuid::new_v4().to_string()
}

/// Relies on `std::time::SystemTime::now`: whole seconds since the Unix
/// epoch, 0 if the clock reads before it.
#[verifier::external_body]
pub(crate) fn now_epoch_secs() -> u64 {
    match std::time::SystemTime::now().duration_since(std::time::UNIX_EPOCH) {
        Ok(d) => d.as_secs(),
        Err(_) => 0,
    }
}

/// The output pump: one of these loops runs per session on a dedicated
/// thread, moving every chunk the pty produces into the delivery channel in
/// producer order.  It stops at end of stream, on a read error, or when the
/// consumer is gone — dropping the receiver is the only shutdown signal.
pub(crate) fn pump_output(reader: PtyReader, tx: std::sync::mpsc::Sender<Vec<u8>>) {
    let mut reader = reader;
    // The verifier asks every loop for a bound; a pump has none by design,
    // so it carries one that no real stream reaches (2^64 chunks).
    let mut budget: u64 = 0xFFFF_FFFF_FFFF_FFFF;
    loop
        decreases budget,
    {
        if budget == 0 {
            return ;
        }
        budget = budget - 1;
        match read_chunk(&mut reader) {
            ReadOutcome::Eof => {
                return ;
            },
            ReadOutcome::ReadError => {
                return ;
            },
            ReadOutcome::Data(d) => {
                if !send_chunk(&tx, d) {
                    return ;
                }
            },
        }
    }
}

} // verus!
