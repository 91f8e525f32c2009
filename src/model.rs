//! The data of an archive run: what the platform reports and what is kept.

use vstd::prelude::*;

verus! {

/// The community being archived.
#[derive(Debug, PartialEq, Eq)]
pub struct Community {
    pub id: u64,
    pub display_name: String,
}

/// The kinds of channel that the platform reports.
#[derive(Clone, Copy, Debug, PartialEq, Eq, Structural)]
pub enum ChannelKind {
    Text,
    PublicThread,
    Other,
}

/// A channel as discovered at archive time.
#[derive(Debug, PartialEq, Eq)]
pub struct Channel {
    pub id: u64,
    pub name: String,
    pub kind: ChannelKind,
    pub parent_category_id: Option<u64>,
}

impl Clone for Channel {
    fn clone(&self) -> (r: Self)
        ensures
            r == *self,
    {
        Channel {
            id: self.id,
            name: self.name.clone(),
            kind: self.kind,
            parent_category_id: self.parent_category_id,
        }
    }
}

/// A grouping container of channels.
#[derive(Debug, PartialEq, Eq)]
pub struct Category {
    pub id: u64,
    pub name: String,
}

impl Clone for Category {
    fn clone(&self) -> (r: Self)
        ensures
            r == *self,
    {
        Category { id: self.id, name: self.name.clone() }
    }
}

/// A platform-hosted file attached to a message.
#[derive(Debug, PartialEq, Eq)]
pub struct PlatformAttachment {
    pub id: u64,
    pub filename: String,
    pub source_url: String,
}

impl Clone for PlatformAttachment {
    fn clone(&self) -> (r: Self)
        ensures
            r == *self,
    {
        PlatformAttachment {
            id: self.id,
            filename: self.filename.clone(),
            source_url: self.source_url.clone(),
        }
    }
}

/// A message as fetched from the platform. `created_at` counts milliseconds
/// since the Unix epoch, in UTC.
#[derive(Debug, PartialEq, Eq)]
pub struct Message {
    pub id: u64,
    pub author_id: u64,
    pub author_name: String,
    pub body_text: String,
    pub created_at: i64,
    pub attachments: Vec<PlatformAttachment>,
}

impl Clone for Message {
    fn clone(&self) -> (r: Self)
        ensures
            r.id == self.id,
            r.author_id == self.author_id,
            r.author_name == self.author_name,
            r.body_text == self.body_text,
            r.created_at == self.created_at,
            r.attachments@ == self.attachments@,
    {
        let attachments = self.attachments.clone();
        assert(attachments@ =~= self.attachments@);
        Message {
            id: self.id,
            author_id: self.author_id,
            author_name: self.author_name.clone(),
            body_text: self.body_text.clone(),
            created_at: self.created_at,
            attachments,
        }
    }
}

/// Where a harvested resource came from.
#[derive(Clone, Copy, Debug, PartialEq, Eq, Structural)]
pub enum ResourceOrigin {
    Attachment,
    Link,
}

/// A platform attachment or a link-derived document, after harvesting.
/// `stored_as` is the file's name in the channel's resource directory, absent
/// when the bytes were not downloaded.
#[derive(Debug, PartialEq, Eq)]
pub struct HarvestedResource {
    pub filename: String,
    pub source_url: String,
    pub origin: ResourceOrigin,
    pub stored_as: Option<String>,
}

/// A message of the archive, with its resources. `starts_group` marks the
/// first message of a run of messages shown together in a transcript.
#[derive(Debug, PartialEq, Eq)]
pub struct MessageArchive {
    pub id: u64,
    pub author_id: u64,
    pub author_name: String,
    pub content: String,
    pub created_at: i64,
    pub resources: Vec<HarvestedResource>,
    pub starts_group: bool,
}

/// One channel of the archive, messages in chronological order.
#[derive(Debug, PartialEq, Eq)]
pub struct ChannelArchive {
    pub id: u64,
    pub name: String,
    pub category: Option<Category>,
    pub messages: Vec<MessageArchive>,
}

/// The archive of a community.
#[derive(Debug, PartialEq, Eq)]
pub struct ServerArchive {
    pub id: u64,
    pub name: String,
    pub channels: Vec<ChannelArchive>,
}

/// The settings as requested for a run: each may be left unset.
#[derive(Debug, PartialEq, Eq)]
pub struct BackupOptions {
    pub download_attachments: Option<bool>,
    pub backup_name: Option<String>,
}

/// The settings of one archive run.
#[derive(Debug, PartialEq, Eq)]
pub struct PipelineOptions {
    pub download_attachments: bool,
    pub archive_name: String,
    pub keep_empty_channels: bool,
}

/// Deployment configuration: what is never archived or fetched.
#[derive(Debug, PartialEq, Eq)]
pub struct IgnoreLists {
    pub channel_ids: Vec<u64>,
    pub category_ids: Vec<u64>,
    pub domains: Vec<String>,
}

} // verus!
