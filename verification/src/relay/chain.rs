//! The chain of relay passes: the passes of a list, run in order.

use vstd::prelude::*;
use crate::dictionary::Dictionaries;
use crate::keyed::{first_at, place_of};
use crate::packet::{
    LazyDeserializedPacket,
    LazyView,
    PacketDestination,
    PacketKind,
    PacketSender,
    PacketView,
};
use crate::proxy::SplinterProxy;
use crate::relay::model::{
    lemma_pass_leaves_uninspected,
    pass_effect,
    pass_inspects,
    relay_env,
    relay_view,
    view_uuids,
    RelayEnv,
    RelayPass,
    RelayView,
};

verus! {

/// Whether some pass of a chain looks into packets of a kind from a sender.
pub open spec fn chain_inspects(passes: Seq<RelayPass>, sender: PacketSender, kind: PacketKind) -> bool {
    exists|i: int| 0 <= i < passes.len() && pass_inspects(#[trigger] passes[i], sender, kind)
}

/// What a chain of passes does: each pass in order, on what the passes
/// before it left.
pub open spec fn chain_effect(passes: Seq<RelayPass>, env: RelayEnv, sender: PacketSender, s: RelayView) -> RelayView
    decreases passes.len(),
{
    if passes.len() == 0 {
        s
    } else {
        pass_effect(passes.last(), env, sender, chain_effect(passes.drop_last(), env, sender, s))
    }
}

/// How often a pass stands in a chain.
pub open spec fn occurrences(passes: Seq<RelayPass>, pass: RelayPass) -> nat
    decreases passes.len(),
{
    if passes.len() == 0 {
        0
    } else {
        occurrences(passes.drop_last(), pass) + if passes.last() == pass {
            1nat
        } else {
            0nat
        }
    }
}

/// A pass put at the end of a chain stands in it once more, and every other
/// pass as often as before.
pub proof fn lemma_occurrences_push(passes: Seq<RelayPass>, last: RelayPass, pass: RelayPass)
    ensures
        occurrences(passes.push(last), pass) == occurrences(passes, pass) + if last == pass {
            1nat
        } else {
            0nat
        },
{
    assert(passes.push(last).drop_last() =~= passes);
}

/// Lazy decoding is sound: a chain in which no pass looks into packets of
/// the packet's kind, and any chain on a packet that is not decoded, leaves
/// everything as it is. So a packet needs decoding only if `chain_inspects`
/// holds of its kind.
pub proof fn lemma_chain_leaves_uninspected(
    passes: Seq<RelayPass>,
    env: RelayEnv,
    sender: PacketSender,
    s: RelayView,
)
    requires
        s.packet is Raw || !chain_inspects(passes, sender, s.packet.kind()),
    ensures
        chain_effect(passes, env, sender, s) == s,
    decreases passes.len(),
{
    if passes.len() > 0 {
        let front = passes.drop_last();
        if !(s.packet is Raw) {
            assert forall|i: int| 0 <= i < front.len() implies !pass_inspects(
                #[trigger] front[i],
                sender,
                s.packet.kind(),
            ) by {
                assert(front[i] == passes[i]);
            }
            assert(!pass_inspects(passes[passes.len() - 1], sender, s.packet.kind()));
        }
        lemma_chain_leaves_uninspected(front, env, sender, s);
        lemma_pass_leaves_uninspected(passes.last(), env, sender, s);
    }
}

/// The chain of passes that a proxy runs unless it is given another: tags,
/// entity ids, UUIDs, keep-alives, zoning. Each pass stands in it once.
pub fn default_passes() -> (passes: Vec<RelayPass>)
    ensures
        passes@ == seq![
            RelayPass::Tags,
            RelayPass::EntityIds,
            RelayPass::Uuids,
            RelayPass::KeepAlive,
            RelayPass::Zoning,
        ],
        forall|pass: RelayPass| #[trigger] occurrences(passes@, pass) == 1,
{
    let mut passes: Vec<RelayPass> = Vec::new();
    passes.push(RelayPass::Tags);
    passes.push(RelayPass::EntityIds);
    passes.push(RelayPass::Uuids);
    passes.push(RelayPass::KeepAlive);
    passes.push(RelayPass::Zoning);
    proof {
        let none = Seq::<RelayPass>::empty();
        let one = none.push(RelayPass::Tags);
        let two = one.push(RelayPass::EntityIds);
        let three = two.push(RelayPass::Uuids);
        let four = three.push(RelayPass::KeepAlive);
        assert(passes@ =~= four.push(RelayPass::Zoning));
        assert forall|pass: RelayPass| #[trigger] occurrences(passes@, pass) == 1 by {
            lemma_occurrences_push(none, RelayPass::Tags, pass);
            lemma_occurrences_push(one, RelayPass::EntityIds, pass);
            lemma_occurrences_push(two, RelayPass::Uuids, pass);
            lemma_occurrences_push(three, RelayPass::KeepAlive, pass);
            lemma_occurrences_push(four, RelayPass::Zoning, pass);
        }
    }
    passes
}

/// Whether a packet of a kind from a sender has to be decoded before it
/// runs through a chain: whether some pass of the chain looks into it.
pub fn needs_decoding(passes: &Vec<RelayPass>, sender: PacketSender, kind: PacketKind) -> (b: bool)
    ensures
        b == chain_inspects(passes@, sender, kind),
{
    let mut i: usize = 0;
    while i < passes.len()
        invariant
            i <= passes.len(),
            forall|j: int| 0 <= j < i ==> !pass_inspects(#[trigger] passes@[j], sender, kind),
        decreases passes.len() - i,
    {
        if passes[i].inspects(sender, kind) {
            return true;
        }
        i = i + 1;
    }
    false
}

/// Runs a packet through a chain of passes, in order. Returns the packet and
/// the destination that the passes left, and the connections that the caller
/// is asked to open before it writes the packet.
pub fn run_relay_passes(
    passes: &Vec<RelayPass>,
    proxy: &mut SplinterProxy,
    dictionaries: &Dictionaries,
    sender: PacketSender,
    packet: LazyDeserializedPacket,
    destination: PacketDestination,
) -> (out: (LazyDeserializedPacket, PacketDestination, Vec<(u128, u64)>))
    requires
        old(proxy).wf(),
        dictionaries.wf(),
    ensures
        final(proxy).wf(),
        final(proxy).alive == old(proxy).alive,
        final(proxy).config == old(proxy).config,
        final(proxy).servers == old(proxy).servers,
        final(proxy).zoner == old(proxy).zoner,
        final(proxy).player_data == old(proxy).player_data,
        relay_view(final(proxy), out.0@, out.1, out.2@) == chain_effect(
            passes@,
            relay_env(old(proxy), dictionaries),
            sender,
            relay_view(old(proxy), packet@, destination, Seq::empty()),
        ),
{
    let ghost env = relay_env(proxy, dictionaries);
    let ghost start = relay_view(proxy, packet@, destination, Seq::empty());
    let mut packet = packet;
    let mut destination = destination;
    let mut connects: Vec<(u128, u64)> = Vec::new();
    let mut i: usize = 0;
    assert(passes@.take(0) =~= Seq::empty());
    while i < passes.len()
        invariant
            i <= passes.len(),
            proxy.wf(),
            dictionaries.wf(),
            proxy.alive == old(proxy).alive,
            proxy.config == old(proxy).config,
            proxy.servers == old(proxy).servers,
            proxy.zoner == old(proxy).zoner,
            proxy.player_data == old(proxy).player_data,
            env == relay_env(proxy, dictionaries),
            relay_view(proxy, packet@, destination, connects@) == chain_effect(
                passes@.take(i as int),
                env,
                sender,
                start,
            ),
        decreases passes.len() - i,
    {
        proof {
            let next = passes@.take(i + 1);
            assert(next.drop_last() =~= passes@.take(i as int));
            assert(next.last() == passes@[i as int]);
        }
        let out = passes[i].apply(proxy, dictionaries, sender, packet, destination, &mut connects);
        packet = out.0;
        destination = out.1;
        i = i + 1;
    }
    assert(passes@.take(passes.len() as int) =~= passes@);
    (packet, destination, connects)
}

/// The passes keep the clients in their places: after a chain, the
/// registry holds the same clients, by UUID, in the same order.
pub proof fn lemma_chain_keeps_clients(passes: Seq<RelayPass>, env: RelayEnv, sender: PacketSender, s: RelayView)
    ensures
        view_uuids(chain_effect(passes, env, sender, s).players) == view_uuids(s.players),
    decreases passes.len(),
{
    if passes.len() > 0 {
        let front = passes.drop_last();
        lemma_chain_keeps_clients(front, env, sender, s);
        let mid = chain_effect(front, env, sender, s);
        let after = pass_effect(passes.last(), env, sender, mid);
        assert(view_uuids(after.players) =~= view_uuids(mid.players)) by {
            if passes.last() is KeepAlive {
                match place_of(view_uuids(mid.players), sender.client()) {
                    Some(i) => {
                        assert(first_at(view_uuids(mid.players), i, sender.client()));
                    },
                    None => {},
                }
            }
            if passes.last() is Zoning {
                match (sender, mid.packet) {
                    (PacketSender::Proxy(uuid), LazyView::Decoded(PacketView::PlayPosition { x, y, z })) => {
                        match place_of(view_uuids(mid.players), uuid) {
                            Some(i) => {
                                assert(first_at(view_uuids(mid.players), i, uuid));
                            },
                            None => {},
                        }
                    },
                    _ => {},
                }
            }
        }
    }
}

} // verus!
