//! Transcript assembly: a channel's history, fetched newest first, turned
//! into a chronological archive with message groups marked.

use vstd::prelude::*;

use crate::model::{Category, Channel, ChannelArchive, HarvestedResource, Message, MessageArchive};

verus! {

/// The gap, in milliseconds, from which consecutive messages of one author
/// no longer share a group: one hour.
pub const GROUP_GAP_MS: i64 = 3_600_000;

/// Whether `cur`, coming right after `prev`, starts a new group: the author
/// changes, or an hour or more has passed.
pub open spec fn group_boundary(prev: Message, cur: Message) -> bool {
    prev.author_id != cur.author_id || cur.created_at - prev.created_at >= GROUP_GAP_MS
}

/// Whether `cur`, coming right after `prev`, starts a new group.
pub fn starts_new_group(prev: &Message, cur: &Message) -> (r: bool)
    ensures
        r == group_boundary(*prev, *cur),
{
    prev.author_id != cur.author_id || (cur.created_at as i128) - (prev.created_at as i128)
        >= GROUP_GAP_MS as i128
}

/// `m` archives the message `src` with its resources.
pub open spec fn archives(m: MessageArchive, src: Message, resources: Vec<HarvestedResource>) -> bool {
    &&& m.id == src.id
    &&& m.author_id == src.author_id
    &&& m.author_name == src.author_name
    &&& m.content == src.body_text
    &&& m.created_at == src.created_at
    &&& m.resources == resources
}

/// `msgs` is the transcript of `history` (newest first): the same messages
/// in reverse, each starting a group when it is the first or
/// [`group_boundary`] holds with the one before it.
pub open spec fn transcript_of(
    msgs: Seq<MessageArchive>,
    history: Seq<(Message, Vec<HarvestedResource>)>,
) -> bool {
    let n = history.len();
    &&& msgs.len() == n
    &&& forall|j: int|
        0 <= j < n ==> {
            &&& archives(#[trigger] msgs[j], history[n - 1 - j].0, history[n - 1 - j].1)
            &&& msgs[j].starts_group == (j == 0 || group_boundary(history[n - j].0, history[n - 1 - j].0))
        }
}

/// Builds a channel's archive from its history, given newest first with the
/// resources harvested from each message, and its category.
pub fn assemble(
    channel: &Channel,
    category: Option<Category>,
    history: Vec<(Message, Vec<HarvestedResource>)>,
) -> (r: ChannelArchive)
    ensures
        r.id == channel.id,
        r.name == channel.name,
        r.category == category,
        transcript_of(r.messages@, history@),
{
    let ghost h = history@;
    let ghost n = history@.len() as int;
    let mut rest = history;
    let mut messages: Vec<MessageArchive> = Vec::new();
    let mut prev: Option<Message> = None;
    while rest.len() > 0
        invariant
            n == h.len(),
            rest@ == h.take(n - messages@.len()),
            messages@.len() <= n,
            prev is Some <==> messages@.len() > 0,
            prev matches Some(p) ==> p == h[n - messages@.len()].0,
            forall|j: int|
                0 <= j < messages@.len() ==> {
                    &&& archives(#[trigger] messages@[j], h[n - 1 - j].0, h[n - 1 - j].1)
                    &&& messages@[j].starts_group == (j == 0 || group_boundary(h[n - j].0, h[n - 1 - j].0))
                },
        decreases rest.len(),
    {
        let ghost k = messages@.len() as int;
        let (m, resources) = rest.pop().unwrap();
        proof {
            assert(rest@ =~= h.take(n - k - 1));
        }
        let starts_group = match &prev {
            Some(p) => starts_new_group(p, &m),
            None => true,
        };
        messages.push(
            MessageArchive {
                id: m.id,
                author_id: m.author_id,
                author_name: m.author_name.clone(),
                content: m.body_text.clone(),
                created_at: m.created_at,
                resources,
                starts_group,
            },
        );
        prev = Some(m);
    }
    ChannelArchive {
        id: channel.id,
        name: channel.name.clone(),
        category,
        messages,
    }
}

/// Assembling a history whose timestamps do not increase (newest first)
/// yields a transcript whose timestamps do not decrease.
pub proof fn lemma_transcript_chronological(
    msgs: Seq<MessageArchive>,
    history: Seq<(Message, Vec<HarvestedResource>)>,
)
    requires
        transcript_of(msgs, history),
        forall|i: int, j: int|
            0 <= i < j < history.len() ==> history[i].0.created_at >= history[j].0.created_at,
    ensures
        forall|i: int, j: int| 0 <= i < j < msgs.len() ==> msgs[i].created_at <= msgs[j].created_at,
{
    let n = history.len() as int;
    assert forall|i: int, j: int| 0 <= i < j < msgs.len() implies msgs[i].created_at
        <= msgs[j].created_at by {
        assert(archives(msgs[i], history[n - 1 - i].0, history[n - 1 - i].1));
        assert(archives(msgs[j], history[n - 1 - j].0, history[n - 1 - j].1));
    }
}

} // verus!
