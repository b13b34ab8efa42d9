use vstd::prelude::*;
use crate::features::PacketFeatures;

verus! {

/// Unflagged feature rows gathered before the model is retrained.
pub const RETRAIN_EVERY: usize = 1000;
/// Packets between two clean-ups of the flow table and source history.
pub const CLEANUP_EVERY: u64 = 10000;
/// Columns of a feature row.
pub const N_FEATURES: usize = 8;

/// The capture loop's own state: the retraining batch and the packet count.
pub struct MonitorState {
    pub batch: Vec<Vec<i64>>,
    pub seen: u64,
}

/// What the capture loop must do after a packet.
#[derive(Clone, Copy, Debug, PartialEq, Eq, Structural)]
pub struct MonitorAction {
    pub retrain: bool,
    pub cleanup: bool,
}

/// `x` as a signed 64-bit value, cut at `i64::MAX`.
pub open spec fn clamp_i64(x: u128) -> i64 {
    if x > i64::MAX as u128 { i64::MAX } else { x as i64 }
}

fn to_i64(x: u128) -> (r: i64)
    ensures
        r == clamp_i64(x),
{
    if x > i64::MAX as u128 { i64::MAX } else { x as i64 }
}

/// The row a packet contributes to the anomaly model.
pub open spec fn row_of(f: PacketFeatures) -> Seq<i64> {
    seq![
        f.packet_size as i64,
        f.payload_size as i64,
        f.dest_port as i64,
        clamp_i64(f.packets_per_second),
        clamp_i64(f.bytes_per_second),
        clamp_i64(f.avg_packet_size),
        f.payload_entropy_milli as i64,
        f.connection_attempts as i64,
    ]
}

/// The model's feature row for a packet: sizes, destination port, window
/// rates, entropy and connection attempts.
pub fn feature_row(f: &PacketFeatures) -> (r: Vec<i64>)
    ensures
        r@ == row_of(*f),
        r@.len() == N_FEATURES,
{
    let r = vec![
        f.packet_size as i64,
        f.payload_size as i64,
        f.dest_port as i64,
        to_i64(f.packets_per_second),
        to_i64(f.bytes_per_second),
        to_i64(f.avg_packet_size),
        f.payload_entropy_milli as i64,
        f.connection_attempts as i64,
    ];
    assert(r@ =~= row_of(*f));
    r
}

impl MonitorState {
    pub fn new() -> (r: Self)
        ensures
            r.batch@.len() == 0,
            r.seen == 0,
    {
        MonitorState { batch: Vec::new(), seen: 0 }
    }

    /// Hands out the gathered batch and starts a new one.
    pub fn take_batch(&mut self) -> (r: Vec<Vec<i64>>)
        ensures
            r@ == old(self).batch@,
            final(self).batch@.len() == 0,
            final(self).seen == old(self).seen,
    {
        let mut out: Vec<Vec<i64>> = Vec::new();
        std::mem::swap(&mut out, &mut self.batch);
        out
    }
}

/// One packet's bookkeeping: an unflagged packet's row joins the batch; the
/// batch asks for retraining once it holds `RETRAIN_EVERY` rows; every
/// `CLEANUP_EVERY`-th packet asks for a clean-up.
pub fn monitor_step(st: &mut MonitorState, flagged: bool, row: Vec<i64>) -> (r: MonitorAction)
    ensures
        flagged ==> final(st).batch == old(st).batch,
        !flagged ==> final(st).batch@ == old(st).batch@.push(row),
        final(st).seen == if old(st).seen < u64::MAX { (old(st).seen + 1) as u64 } else { u64::MAX },
        r.retrain == (final(st).batch@.len() >= RETRAIN_EVERY),
        r.cleanup == (final(st).seen % CLEANUP_EVERY == 0),
{
    if !flagged {
        st.batch.push(row);
    }
    if st.seen < u64::MAX {
        st.seen = st.seen + 1;
    }
    MonitorAction { retrain: st.batch.len() >= RETRAIN_EVERY, cleanup: st.seen % CLEANUP_EVERY == 0 }
}

} // verus!
