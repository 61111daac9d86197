//! Mixnet dispatcher: constant-cadence batching with cover traffic.
//!
//! The dispatcher owns a bounded inbound queue of packets. Once per tick
//! (the timer and jitter live with the host), it drains up to a batch of
//! packets, pads the batch with indistinguishable cover traffic when
//! paranoia mode is on, advances every packet one simulated hop through
//! the Sphinx codec, and hands real packets to the relay-forwarding
//! boundary with a disposition. Cover packets never cross that boundary.

use vstd::prelude::*;

use crate::bytes::zero_vec;
use crate::sphinx::{opened_of, repadded_body, SphinxPacket, BODY_SIZE, HEADER_SIZE};
use rand::Rng;

verus! {

/// How a packet travels: directly onion-routed, or through the padded
/// mixnet batch path (cover traffic is always tagged `MixnetParanoia`).
#[derive(Debug, Clone, Copy, PartialEq, Eq, Structural)]
pub enum TransportMode {
    DirectOnion,
    MixnetParanoia,
}

/// A packet moving through the engine: opaque payload bytes, a transport
/// mode, and the number of simulated relay hops still ahead of it.
#[derive(Clone)]
pub struct Packet {
    pub payload: Vec<u8>,
    pub mode: TransportMode,
    pub hops: usize,
}

/// The mathematical value of a [`Packet`].
#[verifier::ext_equal]
pub ghost struct PacketView {
    pub payload: Seq<u8>,
    pub mode: TransportMode,
    pub hops: nat,
}

impl View for Packet {
    type V = PacketView;

    open spec fn view(&self) -> PacketView {
        PacketView { payload: self.payload@, mode: self.mode, hops: self.hops as nat }
    }
}

/// The packet values of a sequence of packets.
pub open spec fn views_of(s: Seq<Packet>) -> Seq<PacketView> {
    s.map_values(|p: Packet| p@)
}

/// What the relay-forwarding boundary should do with a processed packet:
/// send it onward (hops remain) or deliver it (no hops left).
#[derive(Debug, Clone, Copy, PartialEq, Eq, Structural)]
pub enum Disposition {
    Forward,
    Deliver,
}

/// The values of a sequence of boundary handoffs.
pub open spec fn handoff_views(s: Seq<(Packet, Disposition)>) -> Seq<(PacketView, Disposition)> {
    s.map_values(|pr: (Packet, Disposition)| (pr.0@, pr.1))
}

/// Submission was rejected because the bounded inbound queue is full; the
/// caller must retry or drop. The queue itself is left untouched.
#[derive(Debug, Clone, Copy, PartialEq, Eq, Structural)]
pub struct QueueFull;

/// The body after one peel attempt with `key`: the decrypted plaintext
/// padded back to the fixed width when the key opens it, the body
/// unchanged when it does not (a failed peel is not fatal).
pub open spec fn peeled_payload(key: Seq<u8>, body: Seq<u8>) -> Seq<u8> {
    match opened_of(key, body) {
        Option::Some(p) => repadded_body(p),
        Option::None => body,
    }
}

/// One dispatch cycle's effect on a single packet: a packet with hops
/// ahead of it has one layer peeled and its hop count decremented; a
/// terminal packet is left as it is.
pub open spec fn advanced_view(key: Seq<u8>, p: PacketView) -> PacketView {
    if p.hops > 0 {
        PacketView {
            payload: peeled_payload(key, p.payload),
            mode: p.mode,
            hops: (p.hops - 1) as nat,
        }
    } else {
        p
    }
}

/// The disposition reported for a processed packet.
pub open spec fn disposition_view(p: PacketView) -> Disposition {
    if p.hops == 0 {
        Disposition::Deliver
    } else {
        Disposition::Forward
    }
}

/// What one processed batch hands to the relay-forwarding boundary, in
/// batch order: every packet advanced one hop, with its disposition —
/// except packets on the paranoia path (cover traffic), which are
/// discarded and never cross the boundary.
pub open spec fn sink_handoffs(key: Seq<u8>, batch: Seq<PacketView>) -> Seq<(
    PacketView,
    Disposition,
)>
    decreases batch.len(),
{
    if batch.len() == 0 {
        Seq::empty()
    } else {
        let rest = sink_handoffs(key, batch.drop_last());
        let q = advanced_view(key, batch.last());
        if q.mode is MixnetParanoia {
            rest
        } else {
            rest.push((q, disposition_view(q)))
        }
    }
}

/// How many packets one tick drains from a queue of the given length.
pub open spec fn drain_count(batch_size: int, queue_len: int) -> int {
    if queue_len < batch_size {
        queue_len
    } else {
        batch_size
    }
}

/// `p` advanced through `n` dispatch cycles.
pub open spec fn advanced_n(key: Seq<u8>, p: PacketView, n: nat) -> PacketView
    decreases n,
{
    if n == 0 {
        p
    } else {
        advanced_view(key, advanced_n(key, p, (n - 1) as nat))
    }
}

/// Hop-countdown law: a packet with `hops == h` is reported `Forward` by
/// each of the first `h - 1` dispatch cycles that process it, and
/// `Deliver` by exactly the `h`-th.
pub proof fn lemma_hop_countdown(key: Seq<u8>, p: PacketView, k: nat)
    requires
        1 <= k <= p.hops,
    ensures
        advanced_n(key, p, k).hops == p.hops - k,
        disposition_view(advanced_n(key, p, k)) == if k == p.hops {
            Disposition::Deliver
        } else {
            Disposition::Forward
        },
    decreases k,
{
    if k == 1 {
        assert(advanced_n(key, p, 1) == advanced_view(key, advanced_n(key, p, 0)));
    } else {
        lemma_hop_countdown(key, p, (k - 1) as nat);
    }
}

/// Cover-indifference law: packets on the paranoia path are invisible to
/// the relay-forwarding boundary, so appending any stretch of them to a
/// batch leaves the batch's handoffs unchanged.
pub proof fn lemma_handoffs_ignore_cover(key: Seq<u8>, batch: Seq<PacketView>, pad: Seq<PacketView>)
    requires
        forall|i: int| 0 <= i < pad.len() ==> (#[trigger] pad[i]).mode is MixnetParanoia,
    ensures
        sink_handoffs(key, batch + pad) == sink_handoffs(key, batch),
    decreases pad.len(),
{
    if pad.len() == 0 {
        assert(batch + pad =~= batch);
    } else {
        lemma_handoffs_ignore_cover(key, batch, pad.drop_last());
        assert((batch + pad).drop_last() =~= batch + pad.drop_last());
        assert((batch + pad).last() == pad.last());
        assert(advanced_view(key, pad.last()).mode is MixnetParanoia);
    }
}

/// The scheduling engine: owns the bounded inbound queue and all
/// configuration, and advances packets batch by batch.
pub struct MixnetDispatcher {
    queue: Vec<Packet>,
    capacity: usize,
    interval_ms: u64,
    batch_size: usize,
    paranoia_enabled: bool,
    hop_key: [u8; 32],
}

/// The immutable configuration of a dispatcher, fixed at construction.
#[verifier::ext_equal]
pub ghost struct MixnetConfig {
    pub capacity: usize,
    pub interval_ms: u64,
    pub batch_size: usize,
    pub paranoia_enabled: bool,
    pub hop_key: Seq<u8>,
}

impl MixnetDispatcher {
    /// The queued inbound packets, oldest first.
    pub closed spec fn spec_queue(&self) -> Seq<PacketView> {
        views_of(self.queue@)
    }

    /// The configuration this dispatcher was constructed with.
    pub closed spec fn cfg(&self) -> MixnetConfig {
        MixnetConfig {
            capacity: self.capacity,
            interval_ms: self.interval_ms,
            batch_size: self.batch_size,
            paranoia_enabled: self.paranoia_enabled,
            hop_key: self.hop_key@,
        }
    }

    /// The inbound queue never grows beyond its capacity.
    pub open spec fn wf(&self) -> bool {
        self.spec_queue().len() <= self.cfg().capacity
    }

    /// A fresh dispatcher with an empty queue. The timer interval and the
    /// jitter are the host loop's business; the dispatcher records the
    /// interval only as configuration.
    pub fn new(
        capacity: usize,
        interval_ms: u64,
        batch_size: usize,
        paranoia_enabled: bool,
        hop_key: [u8; 32],
    ) -> (d: Self)
        ensures
            d.wf(),
            d.spec_queue() == Seq::<PacketView>::empty(),
            d.cfg() == (MixnetConfig {
                capacity,
                interval_ms,
                batch_size,
                paranoia_enabled,
                hop_key: hop_key@,
            }),
    {
        let d = Self {
            queue: Vec::new(),
            capacity,
            interval_ms,
            batch_size,
            paranoia_enabled,
            hop_key,
        };
        proof {
            assert(d.spec_queue() =~= Seq::<PacketView>::empty());
        }
        d
    }

    /// Enqueues a real packet for some future tick. Fails immediately
    /// with [`QueueFull`] when the bounded queue is at capacity, leaving
    /// every already-queued packet untouched; never blocks.
    pub fn submit(&mut self, payload: Vec<u8>, mode: TransportMode, hops: usize) -> (r: Result<
        (),
        QueueFull,
    >)
        requires
            old(self).wf(),
        ensures
            final(self).wf(),
            final(self).cfg() == old(self).cfg(),
            old(self).spec_queue().len() < old(self).cfg().capacity ==> r is Ok
                && final(self).spec_queue() == old(self).spec_queue().push(
                PacketView { payload: payload@, mode, hops: hops as nat },
            ),
            old(self).spec_queue().len() >= old(self).cfg().capacity ==> r is Err
                && final(self).spec_queue() == old(self).spec_queue(),
    {
        proof {
            assert(self.spec_queue().len() == self.queue@.len());
        }
        if self.queue.len() < self.capacity {
            self.queue.push(Packet { payload, mode, hops });
            proof {
                assert(self.spec_queue() =~= old(self).spec_queue().push(
                    PacketView { payload: payload@, mode, hops: hops as nat },
                ));
            }
            Result::Ok(())
        } else {
            Result::Err(QueueFull)
        }
    }

    /// One synthetic cover packet: a full-width cryptographically random
    /// body that is indistinguishable from layered ciphertext, a small
    /// randomised hop count so cover lifetimes form no fingerprint, and
    /// the paranoia tag.
    pub fn generate_dummy_packet() -> (p: Packet)
        ensures
            p@.mode is MixnetParanoia,
            p@.payload.len() == BODY_SIZE,
            3 <= p@.hops <= 6,
    {
        let mut payload = zero_vec(BODY_SIZE);
        random_fill(&mut payload);
        let hops = random_in_range(3, 7);
        Packet { payload, mode: TransportMode::MixnetParanoia, hops }
    }

    /// Assembles one tick's batch: drains up to a batch of queued packets
    /// in arrival order, then, when paranoia mode is on, pads to exactly
    /// the configured batch size with fresh cover packets. With paranoia
    /// off a short batch — possibly empty — is returned as it stands.
    pub fn assemble_batch(&mut self) -> (batch: Vec<Packet>)
        requires
            old(self).wf(),
        ensures
            final(self).wf(),
            final(self).cfg() == old(self).cfg(),
            final(self).spec_queue() == old(self).spec_queue().skip(
                drain_count(old(self).cfg().batch_size as int, old(self).spec_queue().len() as int),
            ),
            views_of(batch@).take(
                drain_count(old(self).cfg().batch_size as int, old(self).spec_queue().len() as int),
            ) == old(self).spec_queue().take(
                drain_count(old(self).cfg().batch_size as int, old(self).spec_queue().len() as int),
            ),
            batch@.len() == if old(self).cfg().paranoia_enabled {
                old(self).cfg().batch_size as int
            } else {
                drain_count(old(self).cfg().batch_size as int, old(self).spec_queue().len() as int)
            },
            forall|i: int|
                drain_count(old(self).cfg().batch_size as int, old(self).spec_queue().len() as int)
                    <= i < batch@.len() ==> {
                    let p = (#[trigger] batch@[i])@;
                    &&& p.mode is MixnetParanoia
                    &&& p.payload.len() == BODY_SIZE
                    &&& 3 <= p.hops <= 6
                },
    {
        let ghost q0 = self.spec_queue();
        let ghost c0 = self.cfg();
        let ghost d = drain_count(c0.batch_size as int, q0.len() as int);
        let mut batch: Vec<Packet> = Vec::new();
        proof {
            assert(views_of(batch@) =~= q0.take(0));
            assert(self.spec_queue() =~= q0.skip(0));
        }
        while batch.len() < self.batch_size && self.queue.len() > 0
            invariant
                self.cfg() == c0,
                batch@.len() <= c0.batch_size,
                batch@.len() <= q0.len(),
                views_of(batch@) == q0.take(batch@.len() as int),
                self.spec_queue() == q0.skip(batch@.len() as int),
            decreases self.queue@.len(),
        {
            let ghost bv0 = batch@;
            let ghost qv0 = self.queue@;
            let ghost n0 = batch@.len() as int;
            proof {
                assert(qv0.len() > 0);
                assert(views_of(qv0).len() == qv0.len());
                assert(q0.skip(n0).len() == q0.len() - n0);
                assert(n0 < q0.len());
            }
            let x = self.queue.remove(0);
            batch.push(x);
            proof {
                let n = batch@.len() as int;
                assert(x == qv0[0]);
                assert(x@ == views_of(qv0)[0]);
                assert(x@ == q0.skip(n0)[0]);
                assert(x@ == q0[n0]);
                assert(batch@ == bv0.push(x));
                assert(self.queue@ == qv0.remove(0));
                assert(self.queue@ =~= qv0.skip(1));
                assert(views_of(batch@) =~= q0.take(n));
                assert forall|j: int| 0 <= j < self.queue@.len() implies views_of(self.queue@)[j]
                    == q0.skip(n)[j] by {
                    assert(self.queue@[j] == qv0[j + 1]);
                    assert(views_of(qv0)[j + 1] == qv0[j + 1]@);
                    assert(views_of(qv0)[j + 1] == q0.skip(n0)[j + 1]);
                    assert(q0.skip(n0)[j + 1] == q0[n0 + j + 1]);
                    assert(q0.skip(n)[j] == q0[n + j]);
                }
                assert(views_of(self.queue@) =~= q0.skip(n));
            }
        }
        proof {
            assert(views_of(batch@).len() == batch@.len());
            assert(self.spec_queue().len() == q0.len() - batch@.len());
            assert(batch@.len() == d);
            assert(views_of(batch@).take(d) =~= views_of(batch@));
        }
        if self.paranoia_enabled {
            while batch.len() < self.batch_size
                invariant
                    self.cfg() == c0,
                    0 <= d,
                    d <= batch@.len() <= c0.batch_size,
                    self.spec_queue() == q0.skip(d),
                    views_of(batch@).take(d) == q0.take(d),
                    forall|i: int|
                        d <= i < batch@.len() ==> {
                            let p = (#[trigger] batch@[i])@;
                            &&& p.mode is MixnetParanoia
                            &&& p.payload.len() == BODY_SIZE
                            &&& 3 <= p.hops <= 6
                        },
                decreases c0.batch_size - batch@.len(),
            {
                let dummy = Self::generate_dummy_packet();
                let ghost bv0 = batch@;
                batch.push(dummy);
                proof {
                    assert(batch@ == bv0.push(dummy));
                    assert(views_of(batch@).len() == batch@.len());
                    assert(views_of(bv0).len() == bv0.len());
                    assert forall|j: int| 0 <= j < d implies views_of(batch@).take(d)[j] == q0.take(
                        d,
                    )[j] by {
                        assert(bv0.push(dummy)[j] == bv0[j]);
                        assert(batch@[j] == bv0[j]);
                        assert(views_of(batch@)[j] == batch@[j]@);
                        assert(views_of(bv0)[j] == bv0[j]@);
                        assert(views_of(bv0).take(d)[j] == views_of(bv0)[j]);
                        assert(views_of(batch@).take(d)[j] == views_of(batch@)[j]);
                    }
                    assert(views_of(batch@).take(d) =~= q0.take(d));
                    assert forall|i: int|
                        d <= i < batch@.len() implies {
                            let p = (#[trigger] batch@[i])@;
                            &&& p.mode is MixnetParanoia
                            &&& p.payload.len() == BODY_SIZE
                            &&& 3 <= p.hops <= 6
                        } by {
                        if i < bv0.len() {
                            assert(bv0.push(dummy)[i] == bv0[i]);
                            assert(batch@[i] == bv0[i]);
                        } else {
                            assert(bv0.push(dummy)[i] == dummy);
                            assert(batch@[i] == dummy);
                        }
                    }
                }
            }
        }
        batch
    }

    /// Advances one packet a single simulated hop: a packet with hops
    /// remaining has one onion layer peeled with this node's hop key (a
    /// failed peel leaves the body as it was — by design it must not
    /// disturb the cadence) and its hop count decremented; a terminal
    /// packet is left untouched. Reports `Deliver` exactly when the
    /// packet has now reached its final hop.
    pub fn advance_packet(&self, packet: &mut Packet) -> (d: Disposition)
        ensures
            final(packet)@ == advanced_view(self.cfg().hop_key, old(packet)@),
            d == disposition_view(final(packet)@),
    {
        if packet.hops > 0 {
            packet.hops = packet.hops - 1;
            let mut sphinx = SphinxPacket { header: zero_vec(HEADER_SIZE), payload: Vec::new() };
            core::mem::swap(&mut sphinx.payload, &mut packet.payload);
            sphinx.peel(&self.hop_key);
            core::mem::swap(&mut sphinx.payload, &mut packet.payload);
            proof {
                assert(packet@ =~= advanced_view(self.cfg().hop_key, old(packet)@));
            }
        }
        if packet.hops == 0 {
            Disposition::Deliver
        } else {
            Disposition::Forward
        }
    }

    /// Processes an assembled batch in order: every packet is advanced
    /// one hop, and every packet that is not cover traffic is handed to
    /// the relay-forwarding boundary with its disposition. Cover traffic
    /// is discarded here, whatever its remaining hop count.
    pub fn process_batch(&self, batch: Vec<Packet>) -> (out: Vec<(Packet, Disposition)>)
        ensures
            handoff_views(out@) == sink_handoffs(self.cfg().hop_key, views_of(batch@)),
    {
        let ghost orig = views_of(batch@);
        let ghost key = self.cfg().hop_key;
        let mut rest = batch;
        let mut out: Vec<(Packet, Disposition)> = Vec::new();
        let mut i: usize = 0;
        proof {
            assert(rest.len() == rest@.len());
            assert(views_of(rest@).len() == rest@.len());
            assert(orig.len() <= usize::MAX);
            assert(handoff_views(out@) =~= sink_handoffs(key, orig.take(0)));
            assert(views_of(rest@) =~= orig.skip(0));
        }
        while rest.len() > 0
            invariant
                i + rest@.len() == orig.len(),
                orig.len() <= usize::MAX,
                key == self.cfg().hop_key,
                views_of(rest@) == orig.skip(i as int),
                handoff_views(out@) == sink_handoffs(key, orig.take(i as int)),
            decreases rest@.len(),
        {
            let ghost rv0 = rest@;
            proof {
                assert(views_of(rv0).len() == rv0.len());
                assert(orig.skip(i as int).len() == orig.len() - i);
            }
            let mut p = rest.remove(0);
            proof {
                assert(p == rv0[0]);
                assert(p@ == views_of(rv0)[0]);
                assert(p@ == orig.skip(i as int)[0]);
                assert(p@ == orig[i as int]);
                assert(rest@ == rv0.remove(0));
                assert(rest@ =~= rv0.skip(1));
                assert forall|j: int| 0 <= j < rest@.len() implies views_of(rest@)[j] == orig.skip(
                    i + 1,
                )[j] by {
                    assert(rest@[j] == rv0[j + 1]);
                    assert(views_of(rv0)[j + 1] == rv0[j + 1]@);
                    assert(views_of(rv0)[j + 1] == orig.skip(i as int)[j + 1]);
                    assert(orig.skip(i as int)[j + 1] == orig[i + j + 1]);
                    assert(orig.skip(i + 1)[j] == orig[i + 1 + j]);
                }
                assert(views_of(rest@) =~= orig.skip(i + 1));
            }
            let ghost pv0 = p@;
            let disp = self.advance_packet(&mut p);
            let ghost q = advanced_view(key, pv0);
            proof {
                assert(p@ == q);
                assert(orig.take(i + 1).drop_last() =~= orig.take(i as int));
                assert(orig.take(i + 1).last() == orig[i as int]);
                assert(sink_handoffs(key, orig.take(i + 1)) == if q.mode is MixnetParanoia {
                    sink_handoffs(key, orig.take(i as int))
                } else {
                    sink_handoffs(key, orig.take(i as int)).push((q, disposition_view(q)))
                });
            }
            match p.mode {
                TransportMode::MixnetParanoia => {
                    proof {
                        assert(q.mode is MixnetParanoia);
                    }
                },
                TransportMode::DirectOnion => {
                    let ghost ov0 = out@;
                    out.push((p, disp));
                    proof {
                        assert(!(q.mode is MixnetParanoia));
                        assert(out@ == ov0.push((p, disp)));
                        assert forall|j: int| 0 <= j < out@.len() implies handoff_views(out@)[j]
                            == sink_handoffs(key, orig.take(i + 1))[j] by {
                            if j < ov0.len() {
                                assert(out@[j] == ov0[j]);
                                assert(handoff_views(ov0)[j] == (ov0[j].0@, ov0[j].1));
                            } else {
                                assert(out@[j] == (p, disp));
                            }
                        }
                        assert(handoff_views(out@) =~= sink_handoffs(key, orig.take(i + 1)));
                    }
                },
            }
            i = i + 1;
        }
        proof {
            assert(orig.take(i as int) =~= orig);
        }
        out
    }

    /// One full dispatch cycle, run by the host once per (jittered) tick:
    /// drain, pad, process, hand off. An empty batch — nothing queued and
    /// paranoia off — dispatches nothing at all. Whatever cover packets
    /// padded the batch, the boundary sees exactly the drained real
    /// packets, advanced one hop, in arrival order.
    pub fn run_cycle(&mut self) -> (out: Vec<(Packet, Disposition)>)
        requires
            old(self).wf(),
        ensures
            final(self).wf(),
            final(self).cfg() == old(self).cfg(),
            final(self).spec_queue() == old(self).spec_queue().skip(
                drain_count(old(self).cfg().batch_size as int, old(self).spec_queue().len() as int),
            ),
            handoff_views(out@) == sink_handoffs(
                old(self).cfg().hop_key,
                old(self).spec_queue().take(
                    drain_count(
                        old(self).cfg().batch_size as int,
                        old(self).spec_queue().len() as int,
                    ),
                ),
            ),
    {
        let ghost q0 = self.spec_queue();
        let ghost key = self.cfg().hop_key;
        let ghost d = drain_count(self.cfg().batch_size as int, q0.len() as int);
        let batch = self.assemble_batch();
        let ghost batch_views = views_of(batch@);
        proof {
            assert forall|i: int| 0 <= i < batch_views.skip(d).len() implies (#[trigger]
            batch_views.skip(d)[i]).mode is MixnetParanoia by {
                assert(batch_views.skip(d)[i] == batch_views[d + i]);
                assert(batch_views[d + i] == batch@[d + i]@);
            }
            lemma_handoffs_ignore_cover(key, batch_views.take(d), batch_views.skip(d));
            assert(batch_views.take(d) + batch_views.skip(d) =~= batch_views);
            assert(batch_views.take(d) == q0.take(d));
        }
        if batch.len() == 0 {
            let out: Vec<(Packet, Disposition)> = Vec::new();
            proof {
                assert(batch_views.take(d) =~= batch_views);
                assert(handoff_views(out@) =~= sink_handoffs(key, q0.take(d)));
            }
            out
        } else {
            let out = self.process_batch(batch);
            proof {
                assert(handoff_views(out@) == sink_handoffs(key, batch_views));
            }
            out
        }
    }
}

/// Relies on rand's `Rng::fill` through `thread_rng`: the slice is filled
/// in place with random bytes, so only the length survives; nothing can
/// be promised of the contents.
#[verifier::external_body]
fn random_fill(buf: &mut Vec<u8>)
    ensures
        final(buf)@.len() == old(buf)@.len(),
{
    rand::thread_rng().fill(&mut buf[..]);
}

/// Relies on rand's `Rng::gen_range` through `thread_rng`: the result is
/// drawn from the given half-open range; nothing more can be promised of
/// a random draw.
#[verifier::external_body]
fn random_in_range(lo: usize, hi: usize) -> (r: usize)
    requires
        lo < hi,
    ensures
        lo <= r < hi,
{
    rand::thread_rng().gen_range(lo..hi)
}

} // verus!
