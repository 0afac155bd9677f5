//! Routing: a completed message against the registry. The router decides;
//! the surrounding program performs the socket write and may fail at it
//! without the failure being retried or surfaced to the sender.

use vstd::prelude::*;

use crate::registry::Registry;
use crate::text::copy_range;

verus! {

/// A delivery the surrounding program owes: write `payload` verbatim, with
/// no wrapping and no framing, to the connection known by `conn`.
pub struct Delivery {
    pub conn: u64,
    pub payload: Vec<u8>,
}

/// Looks the target up and hands back the delivery to perform, or nothing
/// when the target is not registered: such a message is silently dropped,
/// neither queued nor reported to the sender.
pub fn deliver(reg: &Registry, to: &Vec<u8>, body: &Vec<u8>) -> (r: Option<Delivery>)
    requires
        reg.wf(),
    ensures
        match r {
            Some(d) => reg@.contains_key(to@) && d.conn == reg@[to@] && d.payload@ == body@,
            None => !reg@.contains_key(to@),
        },
{
    match reg.lookup(to) {
        Some(conn) => {
            let payload = copy_range(body, 0, body.len());
            proof {
                assert(body@.subrange(0, body@.len() as int) =~= body@);
            }
            Some(Delivery { conn, payload })
        },
        None => None,
    }
}

} // verus!
