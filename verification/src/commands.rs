//! The commands that an operator gives the proxy.

use vstd::prelude::*;
use vstd::string::StringExecFns;
use crate::client::SplinterClient;
use crate::error::SplinterError;
use crate::keyed::{lemma_place_of_present, place_of};
use crate::kick::{kick_text, ClientKickReason, KickReasonView};
use crate::packet::{write_op_view, LazyView, PacketView};
use crate::playersave::{put_record, record_of};
use crate::proxy::{client_names, client_uuids, KickOrder, SplinterProxy};
use crate::tags::name_views;

verus! {

/// The words of a list, put together without anything between them.
pub open spec fn joined(words: Seq<Seq<char>>) -> Seq<char>
    decreases words.len(),
{
    if words.len() == 0 {
        Seq::empty()
    } else {
        joined(words.drop_last()) + words.last()
    }
}

/// The reason that a kick command states: none if the command has only the
/// player's name; else the words after the name, put together.
pub open spec fn stated_reason(args: Seq<Seq<char>>) -> Option<Seq<char>> {
    if args.len() > 1 {
        Some(joined(args.skip(1)))
    } else {
        None
    }
}

/// Puts the words of a list together, from the second word on.
fn join_after_first(args: &Vec<String>) -> (text: String)
    requires
        args@.len() >= 1,
    ensures
        text@ == joined(name_views(args@).skip(1)),
{
    let ghost words = name_views(args@).skip(1);
    let mut text = String::from_str("");
    let mut i: usize = 1;
    proof {
        reveal_strlit("");
        assert(words.take(0) =~= Seq::empty());
        assert(text@ =~= Seq::empty());
    }
    while i < args.len()
        invariant
            1 <= i <= args.len(),
            words == name_views(args@).skip(1),
            text@ == joined(words.take(i - 1)),
        decreases args.len() - i,
    {
        proof {
            let next = words.take(i as int);
            assert(next.drop_last() =~= words.take(i - 1));
            assert(next.last() == args@[i as int]@);
        }
        text.append(args[i].as_str());
        i = i + 1;
    }
    assert(words.take(args.len() - 1) =~= words);
    text
}

/// The kick command. Its first argument names the player to kick; the
/// arguments after it, put together, are the reason. The first live client
/// of that name is kicked, in the sender's name.
///
/// Fails with `MissingArgument` if there is no argument, and with
/// `UnknownPlayer`, which carries the name, if no live client has the name.
/// A command that fails changes nothing.
pub fn kick_command(proxy: &mut SplinterProxy, args: &Vec<String>, sender: &str) -> (res: Result<
    KickOrder,
    SplinterError,
>)
    requires
        old(proxy).wf(),
    ensures
        final(proxy).wf(),
        final(proxy).same_setup(old(proxy)),
        final(proxy).alive == old(proxy).alive,
        args@.len() == 0 ==> res == Err::<KickOrder, SplinterError>(SplinterError::MissingArgument)
            && final(proxy).players@ == old(proxy).players@ && final(proxy).player_data == old(
            proxy,
        ).player_data,
        args@.len() > 0 ==> match place_of(client_names(old(proxy).players@), args@[0]@) {
            Some(i) => {
                &&& res is Ok
                &&& final(proxy).players@ == old(proxy).players@.remove(i)
                &&& final(proxy).player_data@ == put_record(
                    old(proxy).player_data@,
                    record_of(old(proxy).players@[i]),
                )
                &&& res->Ok_0.client == (SplinterClient { alive: false, ..old(proxy).players@[i] })
                &&& write_op_view(res->Ok_0.packet) == LazyView::Decoded(
                    PacketView::PlayDisconnect {
                        reason: kick_text(
                            KickReasonView::Kicked(sender@, stated_reason(name_views(args@))),
                        ),
                    },
                )
            },
            None => {
                &&& res matches Err(SplinterError::UnknownPlayer(name))
                &&& name@ == args@[0]@
                &&& final(proxy).players@ == old(proxy).players@
                &&& final(proxy).player_data == old(proxy).player_data
            },
        },
{
    if args.len() == 0 {
        return Err(SplinterError::MissingArgument);
    }
    let uuid = match proxy.find_client_by_name(args[0].as_str()) {
        Some(client) => client.uuid,
        None => {
            return Err(SplinterError::UnknownPlayer(args[0].clone()));
        },
    };
    proof {
        let i = place_of(client_names(proxy.players@), args@[0]@)->0;
        let uuids = client_uuids(proxy.players@);
        assert(uuids[i] == uuid);
        lemma_place_of_present(uuids, i, uuid);
    }
    let message = if args.len() > 1 {
        Some(join_after_first(args))
    } else {
        None
    };
    let reason = ClientKickReason::Kicked(String::from_str(sender), message);
    proxy.kick_client(uuid, &reason)
}

} // verus!
