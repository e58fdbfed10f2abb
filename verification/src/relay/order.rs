//! The order of the writes of a relay loop.

use vstd::prelude::*;
use crate::packet::{LazyView, PacketDestination};
use crate::relay::delivery::DeliveryView;

verus! {

/// One write of a relay loop: the place, in the order of reading, of the
/// packet that was written, the writer, and what was written.
pub struct WriteRecord {
    pub packet: int,
    pub target: PacketDestination,
    pub written: LazyView,
}

/// The writes of a relay loop that delivered these packets, in the order
/// in which it read them.
pub open spec fn write_log(deliveries: Seq<DeliveryView>) -> Seq<WriteRecord>
    decreases deliveries.len(),
{
    if deliveries.len() == 0 {
        Seq::empty()
    } else {
        let before = write_log(deliveries.drop_last());
        let at = deliveries.len() - 1;
        match deliveries.last() {
            DeliveryView::ToClient(packet) => before.push(
                WriteRecord { packet: at, target: PacketDestination::Client, written: packet },
            ),
            DeliveryView::ToServer(id, packet) => before.push(
                WriteRecord { packet: at, target: PacketDestination::Server(id), written: packet },
            ),
            _ => before,
        }
    }
}

/// Every write of the log is the delivery of a packet that was read, to the
/// writer and in the form that the delivery gives.
pub proof fn lemma_write_log_sound(deliveries: Seq<DeliveryView>, w: int)
    requires
        0 <= w < write_log(deliveries).len(),
    ensures
        0 <= write_log(deliveries)[w].packet < deliveries.len(),
        deliveries[write_log(deliveries)[w].packet].writes() == 1,
        deliveries[write_log(deliveries)[w].packet].target() == write_log(deliveries)[w].target,
        deliveries[write_log(deliveries)[w].packet] == (match write_log(deliveries)[w].target {
            PacketDestination::Server(id) => DeliveryView::ToServer(id, write_log(deliveries)[w].written),
            _ => DeliveryView::ToClient(write_log(deliveries)[w].written),
        }),
        write_log(deliveries).len() <= deliveries.len(),
    decreases deliveries.len(),
{
    if deliveries.len() > 0 {
        let front = deliveries.drop_last();
        lemma_write_log_len(front);
        if w < write_log(front).len() {
            lemma_write_log_sound(front, w);
            assert(front[write_log(front)[w].packet] == deliveries[write_log(front)[w].packet]);
        }
    }
}

/// A loop writes no more often than it reads.
pub proof fn lemma_write_log_len(deliveries: Seq<DeliveryView>)
    ensures
        write_log(deliveries).len() <= deliveries.len(),
    decreases deliveries.len(),
{
    if deliveries.len() > 0 {
        lemma_write_log_len(deliveries.drop_last());
    }
}

/// Order preservation: the packets that one reader read are written in the
/// order in which they were read. Of any two writes of the log, the earlier
/// one is of the packet that was read earlier; so the writes to each writer
/// are in reading order, with the dropped packets left out.
pub proof fn lemma_order_preserved(deliveries: Seq<DeliveryView>, a: int, b: int)
    requires
        0 <= a < b < write_log(deliveries).len(),
    ensures
        write_log(deliveries)[a].packet < write_log(deliveries)[b].packet,
    decreases deliveries.len(),
{
    if deliveries.len() > 0 {
        let front = deliveries.drop_last();
        if b < write_log(front).len() {
            lemma_order_preserved(front, a, b);
        } else {
            lemma_write_log_sound(front, a);
        }
    }
}

/// Exactly-one destination: a packet causes one write or none, never two.
/// A delivery that writes stands in the log once, and one that does not
/// write stands in it nowhere.
pub proof fn lemma_at_most_one_write(deliveries: Seq<DeliveryView>, p: int, a: int, b: int)
    requires
        0 <= a < write_log(deliveries).len(),
        0 <= b < write_log(deliveries).len(),
        write_log(deliveries)[a].packet == p,
        write_log(deliveries)[b].packet == p,
    ensures
        a == b,
        0 <= p < deliveries.len(),
        deliveries[p].writes() == 1,
{
    if a < b {
        lemma_order_preserved(deliveries, a, b);
    } else if b < a {
        lemma_order_preserved(deliveries, b, a);
    }
    lemma_write_log_sound(deliveries, a);
}

/// No write is lost: every delivery that writes stands in the log.
pub proof fn lemma_every_write_logged(deliveries: Seq<DeliveryView>, p: int)
    requires
        0 <= p < deliveries.len(),
        deliveries[p].writes() == 1,
    ensures
        exists|w: int| 0 <= w < write_log(deliveries).len() && (#[trigger] write_log(deliveries)[w]).packet == p,
    decreases deliveries.len(),
{
    let front = deliveries.drop_last();
    let log = write_log(deliveries);
    if p == deliveries.len() - 1 {
        let w = write_log(front).len() as int;
        assert(log[w].packet == p);
    } else {
        lemma_every_write_logged(front, p);
        let w = choose|w: int| 0 <= w < write_log(front).len() && (#[trigger] write_log(front)[w]).packet == p;
        assert(log[w] == write_log(front)[w]);
    }
}

} // verus!
