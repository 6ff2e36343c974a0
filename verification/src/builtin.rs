//! The compiled bootstrap peers and their export as source text.

use crate::collections::{strictly_ascending, texts, TextSet};
use vstd::prelude::*;

verus! {

/// The compiled bootstrap peers. A node is built without any.
pub open spec fn built_in_texts() -> Seq<Seq<char>> {
    Seq::<Seq<char>>::empty()
}

/// Return the compiled built-in peer list as owned strings.
pub fn built_in_peers() -> (peers: Vec<String>)
    ensures
        texts(peers@) == built_in_texts(),
{
    let peers: Vec<String> = Vec::new();
    assert(texts(peers@) =~= built_in_texts());
    peers
}

/// Add every one of `items` to `set`.
pub fn insert_all(set: &mut TextSet, items: &[String])
    requires
        old(set).wf(),
    ensures
        final(set).wf(),
        final(set)@ == old(set)@.union(texts(items@).to_set()),
{
    let mut i: usize = 0;
    let ghost before = set@;
    let ghost views = texts(items@);
    assert(views.take(0).to_set() =~= Set::<Seq<char>>::empty());
    assert(set@ =~= before.union(views.take(0).to_set()));
    while i < items.len()
        invariant
            i <= items.len(),
            views == texts(items@),
            set.wf(),
            set@ == before.union(views.take(i as int).to_set()),
        decreases items.len() - i,
    {
        set.insert(items[i].clone());
        proof {
            let seen = views.take(i as int);
            let next = views.take(i + 1);
            assert(next =~= seen.push(views[i as int]));
            assert forall|t: Seq<char>| next.to_set().contains(t) <==> seen.to_set().insert(
                views[i as int],
            ).contains(t) by {
                if seen.contains(t) {
                    let k = choose|k: int| 0 <= k < seen.len() && seen[k] == t;
                    assert(next[k] == t);
                }
                assert(next[i as int] == views[i as int]);
                if next.contains(t) {
                    let k = choose|k: int| 0 <= k < next.len() && next[k] == t;
                    if k < i {
                        assert(seen[k] == t);
                    }
                }
            }
            assert(set@ =~= before.union(next.to_set()));
        }
        i += 1;
    }
    assert(views.take(i as int) =~= views);
}

/// Merge built-in peers with additional live peers for source export.
pub fn merged_export_peers(additional_peers: &[String]) -> (peers: Vec<String>)
    ensures
        strictly_ascending(texts(peers@)),
        texts(peers@).to_set() == built_in_texts().to_set().union(texts(additional_peers@).to_set()),
{
    let mut merged = TextSet::new();
    let built_in = built_in_peers();
    insert_all(&mut merged, built_in.as_slice());
    insert_all(&mut merged, additional_peers);
    proof {
        assert(merged@ =~= built_in_texts().to_set().union(texts(additional_peers@).to_set()));
    }
    merged.to_vec()
}

/// The first lines of the rendered source file.
pub open spec fn source_header() -> Seq<char> {
    "//! Built-in bootstrap peers compiled into the binary.\n//!\n//! Operators can regenerate this file from a live node with the hidden\n//! `bbcli export-built-in-peers` command.\n\n/// BUILTIN_PEERS is the compiled bootstrap peer list.\npub const BUILTIN_PEERS: &[&str] = &[\n"@
}

/// One line of the rendered list.
pub open spec fn source_line(peer: Seq<char>) -> Seq<char> {
    "    \""@ + peer + "\",\n"@
}

/// The lines for all of `peers`.
pub open spec fn source_lines(peers: Seq<Seq<char>>) -> Seq<char>
    decreases peers.len(),
{
    if peers.len() == 0 {
        Seq::<char>::empty()
    } else {
        source_lines(peers.drop_last()) + source_line(peers.last())
    }
}

/// Render the full Rust source file that defines the built-in peer list.
pub fn render_built_in_peer_source(peers: &[String]) -> (source: String)
    ensures
        source@ == source_header() + source_lines(texts(peers@)) + "];\n"@,
{
    let mut source = "//! Built-in bootstrap peers compiled into the binary.\n//!\n//! Operators can regenerate this file from a live node with the hidden\n//! `bbcli export-built-in-peers` command.\n\n/// BUILTIN_PEERS is the compiled bootstrap peer list.\npub const BUILTIN_PEERS: &[&str] = &[\n".to_owned();
    let ghost views = texts(peers@);
    let mut i: usize = 0;
    assert(source@ =~= source_header() + source_lines(views.take(0)));
    while i < peers.len()
        invariant
            i <= peers.len(),
            views == texts(peers@),
            source@ == source_header() + source_lines(views.take(i as int)),
        decreases peers.len() - i,
    {
        let ghost before = source@;
        source.append("    \"");
        source.append(peers[i].as_str());
        source.append("\",\n");
        proof {
            assert(views.take(i + 1).drop_last() =~= views.take(i as int));
            assert(source@ =~= before + source_line(views[i as int]));
            assert(source@ =~= source_header() + source_lines(views.take(i + 1)));
        }
        i += 1;
    }
    assert(views.take(i as int) =~= views);
    source.append("];\n");
    source
}

/// A node is built without bootstrap peers, so that exactly the live peers are
/// exported, each once and in order.
pub proof fn law_live_peers_are_exported_once(
    built_in: Vec<String>,
    live: &[String],
    peers: Vec<String>,
    name: Seq<char>,
)
    requires
        call_ensures(built_in_peers, (), built_in),
        call_ensures(merged_export_peers, (live,), peers),
    ensures
        built_in@.len() == 0,
        (exists|i: int| 0 <= i < peers@.len() && (#[trigger] peers@[i])@ == name) <==> (exists|j: int|
            0 <= j < live@.len() && (#[trigger] live@[j])@ == name),
        forall|i: int, j: int|
            0 <= i < j < peers@.len() ==> crate::text::text_before(
                (#[trigger] peers@[i])@,
                (#[trigger] peers@[j])@,
            ),
{
    let listed = texts(peers@);
    let given = texts(live@);
    assert(texts(built_in@).len() == 0);
    assert(listed.to_set().contains(name) <==> given.to_set().contains(name));
    if exists|i: int| 0 <= i < peers@.len() && (#[trigger] peers@[i])@ == name {
        let i = choose|i: int| 0 <= i < peers@.len() && (#[trigger] peers@[i])@ == name;
        assert(listed[i] == name);
        assert(listed.contains(name));
        assert(given.contains(name));
        let j = choose|j: int| 0 <= j < given.len() && given[j] == name;
        assert(live@[j]@ == name);
    }
    if exists|j: int| 0 <= j < live@.len() && (#[trigger] live@[j])@ == name {
        let j = choose|j: int| 0 <= j < live@.len() && (#[trigger] live@[j])@ == name;
        assert(given[j] == name);
        assert(given.contains(name));
        assert(listed.contains(name));
        let i = choose|i: int| 0 <= i < listed.len() && listed[i] == name;
        assert(peers@[i]@ == name);
    }
    assert forall|i: int, j: int| 0 <= i < j < peers@.len() implies crate::text::text_before(
        (#[trigger] peers@[i])@,
        (#[trigger] peers@[j])@,
    ) by {
        assert(crate::text::text_before(listed[i], listed[j]));
    }
}

/// One more peer adds one more quoted line before the closing bracket.
pub proof fn law_each_peer_has_a_line(
    peers: &[String],
    source: String,
    longer: &[String],
    longer_source: String,
)
    requires
        call_ensures(render_built_in_peer_source, (peers,), source),
        call_ensures(render_built_in_peer_source, (longer,), longer_source),
        longer@.len() == peers@.len() + 1,
        longer@.drop_last() == peers@,
    ensures
        source@.len() >= 3,
        longer_source@ == source@.take(source@.len() - 3) + "    \""@ + longer@.last()@
            + "\",\n"@ + "];\n"@,
        "];\n"@.is_suffix_of(source@),
        source_header().is_prefix_of(source@),
{
    reveal_strlit("];\n");
    assert(texts(longer@).drop_last() =~= texts(peers@));
    assert(texts(longer@).last() == longer@.last()@);
    let body = source_header() + source_lines(texts(peers@));
    assert(source@ == body + "];\n"@);
    assert(source@.take(source@.len() - 3) =~= body);
    assert(longer_source@ =~= body + source_line(longer@.last()@) + "];\n"@);
}

} // verus!
