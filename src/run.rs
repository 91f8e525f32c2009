//! The bookkeeping of an archive run across channels: channels are recorded
//! as archived or skipped one after another, a skipped channel leaves the
//! others untouched, and the run ends with its result.

use vstd::prelude::*;

use crate::model::{ChannelArchive, Community, HarvestedResource, MessageArchive, ServerArchive};

verus! {

/// Why a run failed.
#[derive(Clone, Copy, Debug, PartialEq, Eq, Structural)]
pub enum RunFailure {
    /// The community's channels could not be listed.
    Discovery,
    /// The archive could not be written.
    Write,
}

/// How a run ended.
#[derive(Debug, PartialEq, Eq)]
pub enum RunResult {
    /// Every selected channel was archived.
    Completed,
    /// The run finished, but some channels were skipped, or were archived
    /// with some of their files missing; each listed by ID.
    CompletedWithWarnings { skipped_channels: Vec<u64>, incomplete_channels: Vec<u64> },
    Failed(RunFailure),
}

/// The percentage of the work done after `done` of `total` channels, rounded
/// down.
pub open spec fn progress_percent(done: nat, total: nat) -> nat {
    if total == 0 {
        100
    } else {
        100 * done / total
    }
}

/// Some resource among `resources` has no stored file.
pub open spec fn unstored(resources: Seq<HarvestedResource>) -> bool {
    exists|j: int| 0 <= j < resources.len() && (#[trigger] resources[j]).stored_as is None
}

/// Some message among `msgs` has a resource without a stored file.
pub open spec fn missing_file(msgs: Seq<MessageArchive>) -> bool {
    exists|i: int| 0 <= i < msgs.len() && unstored((#[trigger] msgs[i]).resources@)
}

fn has_unstored(resources: &Vec<HarvestedResource>) -> (r: bool)
    ensures
        r == unstored(resources@),
{
    let mut j: usize = 0;
    while j < resources.len()
        invariant
            j <= resources@.len(),
            forall|k: int| 0 <= k < j ==> (#[trigger] resources@[k]).stored_as is Some,
        decreases resources.len() - j,
    {
        if resources[j].stored_as.is_none() {
            return true;
        }
        j += 1;
    }
    false
}

/// Whether some message has a resource without a stored file.
pub fn has_missing_file(msgs: &Vec<MessageArchive>) -> (r: bool)
    ensures
        r == missing_file(msgs@),
{
    let mut i: usize = 0;
    while i < msgs.len()
        invariant
            i <= msgs@.len(),
            forall|k: int| 0 <= k < i ==> !unstored((#[trigger] msgs@[k]).resources@),
        decreases msgs.len() - i,
    {
        if has_unstored(&msgs[i].resources) {
            return true;
        }
        i += 1;
    }
    false
}

/// A run in progress.
#[derive(Debug)]
pub struct ArchiveRun {
    pub archive: ServerArchive,
    /// The number of channels selected for the run.
    pub total: usize,
    /// The number of channels recorded so far.
    pub processed: usize,
    /// The IDs of the channels skipped so far, in order.
    pub skipped: Vec<u64>,
    /// The IDs of the channels archived so far with a file missing, in
    /// order.
    pub incomplete: Vec<u64>,
    /// Whether files are downloaded, so that each resource should have one.
    pub download_attachments: bool,
    /// Whether a channel without messages still gets an entry.
    pub keep_empty_channels: bool,
}

impl ArchiveRun {
    /// A run over `total` channels of a community, nothing recorded yet.
    pub fn new(community: &Community, total: usize, keep_empty_channels: bool, download_attachments: bool) -> (r:
        ArchiveRun)
        ensures
            r.incomplete@ == Seq::<u64>::empty(),
            r.download_attachments == download_attachments,
            r.archive.id == community.id,
            r.archive.name == community.display_name,
            r.archive.channels@ == Seq::<ChannelArchive>::empty(),
            r.total == total,
            r.processed == 0,
            r.skipped@ == Seq::<u64>::empty(),
            r.keep_empty_channels == keep_empty_channels,
    {
        ArchiveRun {
            archive: ServerArchive {
                id: community.id,
                name: community.display_name.clone(),
                channels: Vec::new(),
            },
            total,
            processed: 0,
            skipped: Vec::new(),
            incomplete: Vec::new(),
            download_attachments,
            keep_empty_channels,
        }
    }

    /// The percentage of the run done.
    pub fn progress(&self) -> (r: u8)
        requires
            self.processed <= self.total,
        ensures
            r as nat == progress_percent(self.processed as nat, self.total as nat),
            r <= 100,
    {
        if self.total == 0 {
            100
        } else {
            let p = (100 * (self.processed as u128)) / (self.total as u128);
            proof {
                assert(100 * (self.processed as nat) / (self.total as nat) <= 100) by (nonlinear_arith)
                    requires
                        self.processed <= self.total,
                        self.total > 0,
                ;
            }
            p as u8
        }
    }

    /// Records an archived channel and returns the progress. A channel
    /// without messages is left out unless empty channels are kept. When
    /// files are downloaded, a channel with a resource whose file is missing
    /// is listed as incomplete.
    pub fn add_channel(&mut self, channel: ChannelArchive) -> (r: u8)
        requires
            old(self).processed < old(self).total,
        ensures
            final(self).processed == old(self).processed + 1,
            final(self).total == old(self).total,
            final(self).keep_empty_channels == old(self).keep_empty_channels,
            final(self).skipped == old(self).skipped,
            final(self).download_attachments == old(self).download_attachments,
            final(self).incomplete@ == if old(self).download_attachments && missing_file(channel.messages@) {
                old(self).incomplete@.push(channel.id)
            } else {
                old(self).incomplete@
            },
            final(self).archive.id == old(self).archive.id,
            final(self).archive.name == old(self).archive.name,
            final(self).archive.channels@ == if channel.messages@.len() == 0
                && !old(self).keep_empty_channels {
                old(self).archive.channels@
            } else {
                old(self).archive.channels@.push(channel)
            },
            r as nat == progress_percent(final(self).processed as nat, final(self).total as nat),
    {
        if self.download_attachments && has_missing_file(&channel.messages) {
            self.incomplete.push(channel.id);
        }
        if channel.messages.len() > 0 || self.keep_empty_channels {
            self.archive.channels.push(channel);
        }
        self.processed = self.processed + 1;
        self.progress()
    }

    /// Records a channel skipped after a timeout or a failed fetch, and
    /// returns the progress. The archived channels are untouched.
    pub fn skip_channel(&mut self, channel_id: u64) -> (r: u8)
        requires
            old(self).processed < old(self).total,
        ensures
            final(self).processed == old(self).processed + 1,
            final(self).total == old(self).total,
            final(self).keep_empty_channels == old(self).keep_empty_channels,
            final(self).skipped@ == old(self).skipped@.push(channel_id),
            final(self).incomplete == old(self).incomplete,
            final(self).download_attachments == old(self).download_attachments,
            final(self).archive == old(self).archive,
            r as nat == progress_percent(final(self).processed as nat, final(self).total as nat),
    {
        self.skipped.push(channel_id);
        self.processed = self.processed + 1;
        self.progress()
    }

    /// Ends the run: the archive, and `Completed` when no channel was
    /// skipped and none is incomplete, else `CompletedWithWarnings` with the
    /// skipped and the incomplete channels.
    pub fn finish(self) -> (r: (ServerArchive, RunResult))
        ensures
            r.0 == self.archive,
            if self.skipped@.len() == 0 && self.incomplete@.len() == 0 {
                r.1 == RunResult::Completed
            } else {
                r.1 == (RunResult::CompletedWithWarnings {
                    skipped_channels: self.skipped,
                    incomplete_channels: self.incomplete,
                })
            },
    {
        let result = if self.skipped.len() == 0 && self.incomplete.len() == 0 {
            RunResult::Completed
        } else {
            RunResult::CompletedWithWarnings { skipped_channels: self.skipped, incomplete_channels: self.incomplete }
        };
        (self.archive, result)
    }
}

} // verus!
