//! Restoring a persisted session: which document to start from and which operations follow.
use vstd::prelude::*;

verus! {

/// What a persisted session restores from: the document to start from (the latest
/// snapshot, else the uploaded one), the operations to apply again, and the last sequence
/// number used.
#[derive(Debug)]
pub struct PersistedSession {
    pub format: String,
    pub base_blob: Vec<u8>,
    pub ops: Vec<(i64, String)>,
    pub last_seq: i64,
}

/// A stashed operation: its sequence number, its JSON, and the document before it.
#[derive(Debug)]
pub struct OpStashRow {
    pub seq: i64,
    pub op_json: String,
    pub before_blob: Vec<u8>,
}

/// The sequence number a restore starts after: the latest snapshot's, else 0.
pub open spec fn base_seq_of(snapshot: Option<(i64, Vec<u8>)>) -> i64 {
    match snapshot {
        Some((seq, _)) => seq,
        None => 0,
    }
}

/// The sequence number a restore starts after (see `base_seq_of`); the operations to apply
/// again are those after it.
pub fn restore_point(snapshot: &Option<(i64, Vec<u8>)>) -> (seq: i64)
    ensures
        seq == base_seq_of(*snapshot),
{
    match snapshot {
        Some((seq, _)) => *seq,
        None => 0,
    }
}

/// The last sequence number used: the greater of the base's and the last operation's.
pub open spec fn last_seq_of(base_seq: i64, ops: Seq<(i64, String)>) -> i64 {
    let last_op = if ops.len() > 0 { ops.last().0 } else { base_seq };
    if base_seq >= last_op { base_seq } else { last_op }
}

/// A session to restore from its stored parts: the latest snapshot (if any) replaces the
/// uploaded document, and `ops` (those after the snapshot, in order) follow it.
pub fn assemble_session(
    format: String,
    base_blob: Vec<u8>,
    snapshot: Option<(i64, Vec<u8>)>,
    ops: Vec<(i64, String)>,
) -> (s: PersistedSession)
    ensures
        s.format == format,
        s.base_blob@ == match snapshot {
            Some((_, blob)) => blob@,
            None => base_blob@,
        },
        s.ops@ == ops@,
        s.last_seq == last_seq_of(base_seq_of(snapshot), ops@),
{
    let base_seq = restore_point(&snapshot);
    let base = match snapshot {
        Some((_, blob)) => blob,
        None => base_blob,
    };
    let last_op_seq = if ops.len() > 0 {
        ops[ops.len() - 1].0
    } else {
        base_seq
    };
    let last_seq = if base_seq >= last_op_seq {
        base_seq
    } else {
        last_op_seq
    };
    PersistedSession { format, base_blob: base, ops, last_seq }
}

} // verus!
