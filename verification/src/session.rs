//! The per-connection session rules: the registration handshake, and the
//! decision taken on each decoder event. The surrounding program owns the
//! socket and the loop; it reads bytes, drives the decoder, calls
//! `handle_event` under the registry lock, and performs the returned
//! action.

use vstd::prelude::*;
use vstd::utf8::{encode_utf8, valid_utf8};

use crate::decoder::Event;
use crate::registry::Registry;
use crate::router::deliver;
use crate::text::{copy_range, is_valid_utf8, spec_trim, trim_bytes};

verus! {

/// A registered session: the identifier under which this connection stands
/// in the registry.
pub struct Session {
    id: Vec<u8>,
}

impl Session {
    /// The identifier this session registered.
    pub closed spec fn id_text(&self) -> Seq<u8> {
        self.id@
    }
}

/// The identifier a handshake line carries: the line without surrounding
/// whitespace, accepted only when the line is valid UTF-8. A line that is
/// not valid UTF-8 cannot be read as text, and the session never registers.
pub fn parse_identifier(line: &Vec<u8>) -> (r: Option<Vec<u8>>)
    ensures
        match r {
            Some(id) => valid_utf8(line@) && id@ == spec_trim(line@),
            None => !valid_utf8(line@),
        },
{
    if is_valid_utf8(line) {
        Some(trim_bytes(line))
    } else {
        None
    }
}

/// The registration handshake: reads the handshake line's bytes, trims
/// them, and registers the identifier, replacing any earlier entry for it.
/// When the line is not valid UTF-8 the registry is untouched and no
/// session exists.
pub fn start_session(reg: &mut Registry, line: &Vec<u8>, conn: u64) -> (r: Option<Session>)
    requires
        old(reg).wf(),
    ensures
        final(reg).wf(),
        match r {
            Some(s) => valid_utf8(line@) && s.id_text() == spec_trim(line@) && final(reg)@ == old(
                reg,
            )@.insert(spec_trim(line@), conn),
            None => !valid_utf8(line@) && final(reg)@ == old(reg)@,
        },
{
    match parse_identifier(line) {
        Some(id) => {
            let id_kept = copy_range(&id, 0, id.len());
            proof {
                assert(id@.subrange(0, id@.len() as int) =~= id@);
            }
            reg.register(id, conn);
            Some(Session { id: id_kept })
        },
        None => None,
    }
}

/// The fixed stream-header response, as a sequence of bytes.
pub open spec fn spec_stream_header() -> Seq<u8> {
    encode_utf8(
        "<?xml version='1.0'?><stream:stream from='localhost' xmlns='jabber:client' xmlns:stream='http://etherx.jabber.org/streams' version='1.0'>"@,
    )
}

/// The fixed stream-header response the relay writes back when a client
/// opens its stream.
pub fn stream_header() -> (r: Vec<u8>)
    ensures
        r@ == spec_stream_header(),
{
    let s: &str =
        "<?xml version='1.0'?><stream:stream from='localhost' xmlns='jabber:client' xmlns:stream='http://etherx.jabber.org/streams' version='1.0'>";
    vstd::slice::slice_to_vec(s.as_bytes())
}

/// What the surrounding program must do after one decoder event.
pub enum Action {
    /// Read more bytes from this session's connection and feed them to the
    /// decoder; at end-of-stream, close the decoder instead.
    ReadMore,
    /// Nothing to do; take the next event.
    Continue,
    /// Write `payload` to this session's own connection.
    Reply { payload: Vec<u8> },
    /// Write `payload` to the connection known by `conn`. A failed write
    /// is abandoned: not retried, not surfaced to the sender.
    Forward { conn: u64, payload: Vec<u8> },
    /// The stream is over and this session's identifier has just been
    /// unregistered; leave the loop.
    HangUp,
}

/// Decides what one decoder event means for this session: a stream-open is
/// answered with the fixed header; a message is routed through the
/// registry, and silently dropped when its target is not registered; the
/// end of the stream, normal or failed, unregisters this session's
/// identifier and ends the loop.
pub fn handle_event(sess: &Session, reg: &mut Registry, ev: Event) -> (act: Action)
    requires
        old(reg).wf(),
    ensures
        final(reg).wf(),
        (ev is Ended || ev is Failed) ==> final(reg)@ == old(reg)@.remove(sess.id_text())
            && act is HangUp,
        !(ev is Ended || ev is Failed) ==> final(reg)@ == old(reg)@,
        ev is StreamOpened ==> (act matches Action::Reply { payload } && payload@
            == spec_stream_header()),
        (ev matches Event::Message { to, body } ==> {
            &&& old(reg)@.contains_key(to@) ==> (act matches Action::Forward { conn, payload }
                && conn == old(reg)@[to@] && payload@ == body@)
            &&& !old(reg)@.contains_key(to@) ==> act is Continue
        }),
        ev is NeedInput ==> act is ReadMore,
        ev is Handled ==> act is Continue,
{
    match ev {
        Event::NeedInput => Action::ReadMore,
        Event::Handled => Action::Continue,
        Event::StreamOpened => Action::Reply { payload: stream_header() },
        Event::Message { to, body } => {
            match deliver(reg, &to, &body) {
                Some(d) => Action::Forward { conn: d.conn, payload: d.payload },
                None => Action::Continue,
            }
        },
        Event::Ended => {
            reg.unregister(&sess.id);
            Action::HangUp
        },
        Event::Failed => {
            reg.unregister(&sess.id);
            Action::HangUp
        },
    }
}

} // verus!
