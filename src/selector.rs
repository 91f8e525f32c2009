//! Channel selection: which of a community's channels are archived.

use vstd::prelude::*;

use crate::model::{Channel, ChannelKind, IgnoreLists};

verus! {

/// Text channels and public threads hold messages worth archiving.
pub open spec fn text_capable(kind: ChannelKind) -> bool {
    kind == ChannelKind::Text || kind == ChannelKind::PublicThread
}

/// A channel is archived when it holds text and neither it nor its category
/// is ignored.
pub open spec fn archivable(c: Channel, channel_ids: Seq<u64>, category_ids: Seq<u64>) -> bool {
    &&& text_capable(c.kind)
    &&& !channel_ids.contains(c.id)
    &&& match c.parent_category_id {
        Some(p) => !category_ids.contains(p),
        None => true,
    }
}

/// Whether `v` holds `x`.
pub fn contains_id(v: &Vec<u64>, x: u64) -> (r: bool)
    ensures
        r == v@.contains(x),
{
    let mut i: usize = 0;
    while i < v.len()
        invariant
            i <= v.len(),
            forall|j: int| 0 <= j < i ==> v@[j] != x,
        decreases v.len() - i,
    {
        if v[i] == x {
            return true;
        }
        i += 1;
    }
    false
}

/// Whether the channel is kept by [`list_archivable_channels`].
pub fn is_archivable(c: &Channel, ignore: &IgnoreLists) -> (r: bool)
    ensures
        r == archivable(*c, ignore.channel_ids@, ignore.category_ids@),
{
    let kind_ok = match c.kind {
        ChannelKind::Text => true,
        ChannelKind::PublicThread => true,
        ChannelKind::Other => false,
    };
    if !kind_ok || contains_id(&ignore.channel_ids, c.id) {
        return false;
    }
    match c.parent_category_id {
        Some(p) => !contains_id(&ignore.category_ids, p),
        None => true,
    }
}

/// The archivable channels of a listing, in the order the platform reported.
pub fn list_archivable_channels(channels: &Vec<Channel>, ignore: &IgnoreLists) -> (r: Vec<Channel>)
    ensures
        r@ == channels@.filter(|c: Channel| archivable(c, ignore.channel_ids@, ignore.category_ids@)),
{
    let ghost keep = |c: Channel| archivable(c, ignore.channel_ids@, ignore.category_ids@);
    let mut r: Vec<Channel> = Vec::new();
    let mut i: usize = 0;
    while i < channels.len()
        invariant
            i <= channels.len(),
            keep == (|c: Channel| archivable(c, ignore.channel_ids@, ignore.category_ids@)),
            r@ == channels@.take(i as int).filter(keep),
        decreases channels.len() - i,
    {
        if is_archivable(&channels[i], ignore) {
            r.push(channels[i].clone());
        }
        proof {
            reveal(Seq::filter);
            assert(channels@.take(i + 1).drop_last() =~= channels@.take(i as int));
            assert(channels@.take(i + 1).last() == channels@[i as int]);
        }
        i += 1;
    }
    assert(channels@.take(channels.len() as int) =~= channels@);
    r
}

/// A channel whose ID is on the ignore-list is never selected, whatever its
/// kind or category.
pub proof fn lemma_ignored_channel_never_listed(channels: Seq<Channel>, ignore: IgnoreLists, c: Channel)
    requires
        ignore.channel_ids@.contains(c.id),
    ensures
        !channels.filter(|x: Channel| archivable(x, ignore.channel_ids@, ignore.category_ids@)).contains(c),
{
    let keep = |x: Channel| archivable(x, ignore.channel_ids@, ignore.category_ids@);
    if channels.filter(keep).contains(c) {
        let k = choose|k: int| 0 <= k < channels.filter(keep).len() && channels.filter(keep)[k] == c;
        broadcast use vstd::seq_lib::group_filter_ensures;
    }
}

} // verus!
