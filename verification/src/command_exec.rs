//! Assembly of an order dispatch command line.
//!
//! A dispatch command starts from a raw payload and is enriched, in order,
//! with an execution context (working directory, user), order metadata
//! (order id, timestamp, status) and an audit trail (request id, system
//! info). The segments carry whatever the environment supplied for these;
//! assembling them is the library's part, and running the assembled command
//! is the caller's.

use vstd::prelude::*;

verus! {

/// Assemble a dispatch command: the raw payload followed by the context,
/// metadata and audit segments, in that order.
pub fn dispatch_order_command(
    raw_payload: Vec<u8>,
    context: Vec<u8>,
    metadata: Vec<u8>,
    audit: Vec<u8>,
) -> (cmd: Vec<u8>)
    ensures
        cmd@ == raw_payload@ + context@ + metadata@ + audit@,
{
    let mut cmd = raw_payload;
    let mut context = context;
    let mut metadata = metadata;
    let mut audit = audit;
    cmd.append(&mut context);
    cmd.append(&mut metadata);
    cmd.append(&mut audit);
    cmd
}

} // verus!
