//! The steps of the task that reads a session's output: what it delivers
//! after each read, and when it stops.

use vstd::prelude::*;
use vstd::string::StringExecFns;
use vstd::utf8::decode_utf8;
use vstd::utf8::valid_utf8;

verus! {

/// The number of bytes that the reading task asks for at a time.
pub const READ_CHUNK_BYTES: usize = 8192;

/// The name under which output events are delivered.
pub const OUTPUT_EVENT: &'static str = "terminal-output";

/// The text delivered once when the child process has exited.
pub const EXIT_NOTICE: &'static str = "\r\n[Process exited]\r\n";

/// The text that `String::from_utf8_lossy` makes of a byte string.
pub uninterp spec fn lossy_text(bytes: Seq<u8>) -> Seq<char>;

/// Calls `String::from_utf8_lossy` and takes the text as a `String`. The
/// contract names the result, a function of the bytes alone, and says what
/// the documentation says of well-formed input: it is decoded as it stands.
/// Ill-formed sequences become replacement characters, also where a
/// character was cut in two by the end of the chunk.
#[verifier::external_body]
fn decode_lossy(bytes: &[u8]) -> (r: String)
    ensures
        r@ == lossy_text(bytes@),
        valid_utf8(bytes@) ==> r@ == decode_utf8(bytes@),
{
    String::from_utf8_lossy(bytes).into_owned()
}

/// A piece of a session's output on its way to the consumer.
pub struct OutputEvent {
    pub session_id: String,
    pub data: String,
}

/// What the reading task does after a read.
pub enum ReaderStep {
    /// Deliver the event and read on.
    Deliver(OutputEvent),
    /// Deliver the event, which tells that the process has exited, and stop.
    DeliverAndStop(OutputEvent),
    /// Stop without delivering anything.
    Stop,
}

/// The step that delivers `text` as output of the session and reads on.
pub fn deliver(session_id: &str, text: String) -> (r: ReaderStep)
    ensures
        r matches ReaderStep::Deliver(ev) && ev.session_id@ == session_id@ && ev.data == text,
{
    ReaderStep::Deliver(OutputEvent { session_id: String::from_str(session_id), data: text })
}

/// The step after a read. `chunk` holds the bytes that the read returned,
/// or nothing if it failed.
///
/// - Bytes are decoded leniently and delivered; the task reads on.
/// - No bytes mean that the process has exited: the exit notice is delivered
///   once and the task stops.
/// - A failed read stops the task without a further event.
pub fn after_read(session_id: &str, chunk: Option<&[u8]>) -> (r: ReaderStep)
    ensures
        match chunk {
            None => r is Stop,
            Some(bytes) => if bytes@.len() == 0 {
                r matches ReaderStep::DeliverAndStop(ev) && ev.session_id@ == session_id@
                    && ev.data@ == EXIT_NOTICE@
            } else {
                r matches ReaderStep::Deliver(ev) && ev.session_id@ == session_id@ && ev.data@
                    == lossy_text(bytes@) && (valid_utf8(bytes@) ==> ev.data@ == decode_utf8(
                    bytes@,
                ))
            },
        },
{
    match chunk {
        None => ReaderStep::Stop,
        Some(bytes) => {
            if bytes.len() == 0 {
                ReaderStep::DeliverAndStop(
                    OutputEvent {
                        session_id: String::from_str(session_id),
                        data: String::from_str(EXIT_NOTICE),
                    },
                )
            } else {
                deliver(session_id, decode_lossy(bytes))
            }
        },
    }
}

} // verus!
