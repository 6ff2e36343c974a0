//! Exchanging known peers with other nodes.

use crate::mirror::ids_of;
use crate::outside::{is_public_key, public_key_is_valid};
use crate::status::Code;
use crate::text::{bytes_copy, bytes_eq};
use vstd::prelude::*;

verus! {

/// PEER_EXCHANGE_COOLDOWN_SECS limits how often one peer exchange runs per peer.
pub const PEER_EXCHANGE_COOLDOWN_SECS: i64 = 300;

/// The keys that are public keys of other nodes, in order.
pub open spec fn foreign_keys(keys: Seq<Seq<u8>>, own: Seq<u8>) -> Seq<Seq<u8>>
    decreases keys.len(),
{
    if keys.len() == 0 {
        Seq::<Seq<u8>>::empty()
    } else {
        let rest = foreign_keys(keys.drop_last(), own);
        if is_public_key(keys.last()) && keys.last() != own {
            rest.push(keys.last())
        } else {
            rest
        }
    }
}

/// Pick the peers to track out of a list that another node sent: every public
/// key other than our own.
pub fn merge_peer_exchange_response(peers: &[Vec<u8>], own_public_key: &[u8]) -> (discovered: Vec<
    Vec<u8>,
>)
    ensures
        ids_of(discovered@) == foreign_keys(ids_of(peers@), own_public_key@),
{
    let ghost views = ids_of(peers@);
    let mut discovered: Vec<Vec<u8>> = Vec::new();
    let mut i: usize = 0;
    assert(ids_of(discovered@) =~= foreign_keys(views.take(0), own_public_key@));
    while i < peers.len()
        invariant
            i <= peers.len(),
            views == ids_of(peers@),
            ids_of(discovered@) == foreign_keys(views.take(i as int), own_public_key@),
        decreases peers.len() - i,
    {
        let key = peers[i].as_slice();
        let ghost listed = discovered@;
        proof {
            assert(views[i as int] == key@);
            assert(views.take(i + 1).drop_last() =~= views.take(i as int));
        }
        if public_key_is_valid(key) && !bytes_eq(key, own_public_key) {
            discovered.push(bytes_copy(key));
            assert(ids_of(discovered@) =~= ids_of(listed).push(key@));
        }
        i += 1;
    }
    assert(views.take(i as int) =~= views);
    discovered
}

/// The keys that hostnames encode, leaving out hostnames that encode none.
pub open spec fn encoded_keys(keys: Seq<Option<Vec<u8>>>) -> Seq<Seq<u8>>
    decreases keys.len(),
{
    if keys.len() == 0 {
        Seq::<Seq<u8>>::empty()
    } else {
        match keys.last() {
            Some(key) => encoded_keys(keys.drop_last()).push(key@),
            None => encoded_keys(keys.drop_last()),
        }
    }
}

/// Build the list of peers to send from what the known hostnames encode.
pub fn peer_exchange_request(keys: &[Option<Vec<u8>>]) -> (peers: Vec<Vec<u8>>)
    ensures
        ids_of(peers@) == encoded_keys(keys@),
{
    let mut peers: Vec<Vec<u8>> = Vec::new();
    let mut i: usize = 0;
    assert(ids_of(peers@) =~= encoded_keys(keys@.take(0)));
    while i < keys.len()
        invariant
            i <= keys.len(),
            ids_of(peers@) == encoded_keys(keys@.take(i as int)),
        decreases keys.len() - i,
    {
        let ghost listed = peers@;
        assert(keys@.take(i + 1).drop_last() =~= keys@.take(i as int));
        if let Some(key) = &keys[i] {
            peers.push(bytes_copy(key.as_slice()));
            assert(ids_of(peers@) =~= ids_of(listed).push(key@));
        }
        i += 1;
    }
    assert(keys@.take(i as int) =~= keys@);
    peers
}

/// ExchangeAnswer is how a peer exchange ended.
#[derive(Debug)]
pub enum ExchangeAnswer {
    /// Answered means that the peer sent its peers.
    Answered,
    /// Failed means that the exchange failed.
    Failed {
        /// code classifies the failure.
        code: Code,
        /// retryable reports whether it may be tried again soon.
        retryable: bool,
    },
}

/// Whether an exchange counts as an attempt: all do but those that failed in a
/// way that may be tried again soon.
pub open spec fn counts_as_attempt(answer: ExchangeAnswer) -> bool {
    match answer {
        ExchangeAnswer::Answered => true,
        ExchangeAnswer::Failed { code, retryable } => code == Code::Unimplemented || !retryable,
    }
}

/// Report whether a peer exchange counts as an attempt.
pub fn exchange_counts_as_attempt(answer: &ExchangeAnswer) -> (counts: bool)
    ensures
        counts == counts_as_attempt(*answer),
{
    match answer {
        ExchangeAnswer::Answered => true,
        ExchangeAnswer::Failed { code, retryable } => *code == Code::Unimplemented || !*retryable,
    }
}

/// Another node can make us track neither ourselves nor anything that is not a
/// public key.
pub proof fn law_exchange_never_discovers_ourselves(keys: Seq<Seq<u8>>, own: Seq<u8>, i: int)
    requires
        0 <= i < foreign_keys(keys, own).len(),
    ensures
        is_public_key(foreign_keys(keys, own)[i]),
        foreign_keys(keys, own)[i] != own,
        keys.contains(foreign_keys(keys, own)[i]),
    decreases keys.len(),
{
    let rest = foreign_keys(keys.drop_last(), own);
    if i < rest.len() {
        law_exchange_never_discovers_ourselves(keys.drop_last(), own, i);
        let k = choose|k: int| 0 <= k < keys.len() - 1 && keys.drop_last()[k] == rest[i];
        assert(keys[k] == rest[i]);
    } else {
        assert(keys[keys.len() - 1] == foreign_keys(keys, own)[i]);
    }
}

/// Picks the public keys of other nodes.
pub open spec fn is_foreign(own: Seq<u8>) -> spec_fn(Seq<u8>) -> bool {
    |key: Seq<u8>| is_public_key(key) && key != own
}

/// What is discovered is every listed key that is a public key and not our own,
/// in the order of the list.
pub proof fn law_every_foreign_key_is_discovered(
    peers: &[Vec<u8>],
    own: &[u8],
    discovered: Vec<Vec<u8>>,
)
    requires
        call_ensures(merge_peer_exchange_response, (peers, own), discovered),
    ensures
        discovered@.map_values(|key: Vec<u8>| key@) == peers@.map_values(
            |key: Vec<u8>| key@,
        ).filter(is_foreign(own@)),
{
    let keys = ids_of(peers@);
    lemma_foreign_keys(keys, own@);
    assert(discovered@.map_values(|key: Vec<u8>| key@) =~= ids_of(discovered@));
    assert(peers@.map_values(|key: Vec<u8>| key@) =~= keys);
}

/// Foreign keys are picked one by one.
pub proof fn lemma_foreign_keys(keys: Seq<Seq<u8>>, own: Seq<u8>)
    ensures
        foreign_keys(keys, own) == keys.filter(is_foreign(own)),
    decreases keys.len(),
{
    reveal(Seq::filter);
    if keys.len() > 0 {
        lemma_foreign_keys(keys.drop_last(), own);
    }
}

/// What is sent is the key of every hostname that encodes one, in order.
pub proof fn law_every_encoded_key_is_sent(keys: &[Option<Vec<u8>>], sent: Vec<Vec<u8>>)
    requires
        call_ensures(peer_exchange_request, (keys,), sent),
    ensures
        sent@.map_values(|key: Vec<u8>| key@) == keys@.filter(
            |key: Option<Vec<u8>>| key is Some,
        ).map_values(|key: Option<Vec<u8>>| key->0@),
{
    lemma_encoded_keys(keys@);
    assert(sent@.map_values(|key: Vec<u8>| key@) =~= ids_of(sent@));
}

/// Encoded keys are picked one by one.
proof fn lemma_encoded_keys(keys: Seq<Option<Vec<u8>>>)
    ensures
        encoded_keys(keys) == keys.filter(|key: Option<Vec<u8>>| key is Some).map_values(
            |key: Option<Vec<u8>>| key->0@,
        ),
    decreases keys.len(),
{
    reveal(Seq::filter);
    let picks = |key: Option<Vec<u8>>| key is Some;
    let view = |key: Option<Vec<u8>>| key->0@;
    if keys.len() > 0 {
        let rest = keys.drop_last();
        lemma_encoded_keys(rest);
        if keys.last() is Some {
            assert(keys.filter(picks).map_values(view) =~= rest.filter(picks).map_values(view).push(
                view(keys.last()),
            ));
        }
    }
    assert(encoded_keys(keys) =~= keys.filter(picks).map_values(view));
}

/// An exchange waits for the next round unless it failed in a way that may be
/// tried again soon; a peer that does not know how to exchange is not asked
/// again soon in any case.
pub proof fn law_only_retryable_failures_are_no_attempt(answer: &ExchangeAnswer, counts: bool)
    requires
        call_ensures(exchange_counts_as_attempt, (answer,), counts),
    ensures
        *answer is Answered ==> counts,
        *answer matches ExchangeAnswer::Failed { code, retryable } ==> {
            &&& code == Code::Unimplemented ==> counts
            &&& !retryable ==> counts
            &&& retryable && code != Code::Unimplemented ==> !counts
        },
        PEER_EXCHANGE_COOLDOWN_SECS == 300,
{
}

} // verus!
