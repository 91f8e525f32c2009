//! Harvesting: the records kept of a message's attachments and accepted
//! links, and the names under which their files are stored, unique within a
//! channel.

use vstd::prelude::*;
use vstd::string::*;

use crate::links::LinkTarget;
use crate::model::{HarvestedResource, Message, PlatformAttachment, ResourceOrigin};
use crate::layout::{file_name_of, safe_file_name};
use crate::text::{contains_text, decimal, decimal_text, opt_view, plain_component, texts};

verus! {

/// The index of the first '.' of `s` from `i` on, or the length of `s`.
pub open spec fn dot_from(s: Seq<char>, i: int) -> int
    decreases s.len() - i,
{
    if 0 <= i < s.len() && s[i] != '.' {
        dot_from(s, i + 1)
    } else {
        i
    }
}

/// The text after the first '.' of a file name, when it is there and not
/// empty.
pub open spec fn extension_of(filename: Seq<char>) -> Option<Seq<char>> {
    let d = dot_from(filename, 0);
    if d + 1 < filename.len() {
        Some(filename.subrange(d + 1, filename.len() as int))
    } else {
        None
    }
}

proof fn lemma_dot_from_bounds(s: Seq<char>, i: int)
    requires
        0 <= i <= s.len(),
    ensures
        i <= dot_from(s, i) <= s.len(),
    decreases s.len() - i,
{
    if i < s.len() && s[i] != '.' {
        lemma_dot_from_bounds(s, i + 1);
    }
}

/// The extension of a file name: what follows its first '.'.
pub fn extension(filename: &str) -> (r: Option<String>)
    ensures
        opt_view(r) == extension_of(filename@),
{
    let n = filename.unicode_len();
    proof {
        lemma_dot_from_bounds(filename@, 0);
    }
    let mut i: usize = 0;
    while i < n && filename.get_char(i) != '.'
        invariant
            n == filename@.len(),
            i <= n,
            dot_from(filename@, i as int) == dot_from(filename@, 0),
        decreases n - i,
    {
        i += 1;
    }
    if n > 0 && i < n - 1 {
        Some(filename.substring_char(i + 1, n).to_string())
    } else {
        None
    }
}

/// The name under which an attachment's file is stored: its ID with the
/// extension of its declared name, else the declared name itself, else (when
/// that is taken) its bare ID.
pub open spec fn attachment_names(id: u64, filename: Seq<char>) -> Seq<Seq<char>> {
    match extension_of(filename) {
        Some(e) => seq![decimal(id as nat) + seq!['.'] + e],
        None => seq![filename, decimal(id as nat)],
    }
}

/// The label that the archive gives an attachment: its ID, a dash and its
/// declared name.
pub open spec fn attachment_label(id: u64, filename: Seq<char>) -> Seq<char> {
    decimal(id as nat) + seq![' ', '-', ' '] + filename
}

/// The sanitized form of the first candidate that can stand as a path
/// component and is not yet used.
pub open spec fn first_free(used: Seq<Seq<char>>, candidates: Seq<Seq<char>>) -> Option<Seq<char>>
    decreases candidates.len(),
{
    if candidates.len() == 0 {
        None
    } else if plain_component(file_name_of(candidates[0])) && !used.contains(file_name_of(candidates[0])) {
        Some(file_name_of(candidates[0]))
    } else {
        first_free(used, candidates.drop_first())
    }
}

/// The names already given to files in one channel's resource directory.
#[derive(Debug)]
pub struct ResourceNames {
    pub used: Vec<String>,
}

impl ResourceNames {
    /// No name is given twice, and each can stand as a path component.
    pub open spec fn well_formed(&self) -> bool {
        &&& texts(self.used@).no_duplicates()
        &&& forall|i: int| 0 <= i < self.used@.len() ==> plain_component(#[trigger] self.used@[i]@)
    }

    /// A directory with no file yet.
    pub fn new() -> (r: ResourceNames)
        ensures
            r.well_formed(),
            r.used@ == Seq::<String>::empty(),
    {
        let r = ResourceNames { used: Vec::new() };
        assert(texts(r.used@) =~= Seq::empty());
        r
    }

    /// Gives out the sanitized form of the first candidate that can stand as
    /// a path component and is not taken yet, and records it as taken.
    pub fn claim(&mut self, candidates: &Vec<String>) -> (r: Option<String>)
        requires
            old(self).well_formed(),
        ensures
            final(self).well_formed(),
            opt_view(r) == first_free(texts(old(self).used@), texts(candidates@)),
            match r {
                Some(name) => final(self).used@ == old(self).used@.push(name),
                None => final(self).used@ == old(self).used@,
            },
    {
        let mut i: usize = 0;
        assert(texts(candidates@).skip(0) =~= texts(candidates@));
        while i < candidates.len()
            invariant
                i <= candidates.len(),
                self.used@ == old(self).used@,
                self.well_formed(),
                first_free(texts(self.used@), texts(candidates@))
                    == first_free(texts(self.used@), texts(candidates@).skip(i as int)),
            decreases candidates.len() - i,
        {
            let c = &candidates[i];
            proof {
                let rest = texts(candidates@).skip(i as int);
                assert(rest[0] == c@);
                assert(rest.drop_first() =~= texts(candidates@).skip(i + 1));
            }
            let safe = safe_file_name(c.as_str());
            if safe.is_some() && !contains_text(&self.used, safe.as_ref().unwrap().as_str()) {
                let name = safe.unwrap();
                proof {
                    let t = texts(self.used@);
                    assert(texts(self.used@.push(name)) =~= t.push(name@));
                    assert forall|a: int, b: int| 0 <= a < b < t.len() + 1 implies t.push(name@)[a] != t.push(name@)[b] by {
                        if b == t.len() {
                            assert(t.push(name@)[a] == t[a]);
                        }
                    }
                }
                self.used.push(name.clone());
                return Some(name);
            }
            i += 1;
        }
        assert(texts(candidates@).skip(i as int) =~= Seq::empty());
        None
    }
}

/// The names to try for an attachment's file.
fn attachment_candidates(att: &PlatformAttachment) -> (r: Vec<String>)
    ensures
        texts(r@) == attachment_names(att.id, att.filename@),
{
    let mut r: Vec<String> = Vec::new();
    match extension(att.filename.as_str()) {
        Some(e) => {
            proof {
                reveal_strlit(".");
            }
            let mut name = decimal_text(att.id);
            name.append(".");
            name.append(e.as_str());
            assert(name@ =~= decimal(att.id as nat) + seq!['.'] + e@);
            r.push(name);
        },
        None => {
            r.push(att.filename.clone());
            r.push(decimal_text(att.id));
        },
    }
    assert(texts(r@) =~= attachment_names(att.id, att.filename@));
    r
}

/// What the archive records of an attachment. When `download` is set, a name
/// is claimed for its file.
pub fn attachment_resource(att: &PlatformAttachment, download: bool, names: &mut ResourceNames) -> (r:
    HarvestedResource)
    requires
        old(names).well_formed(),
    ensures
        final(names).well_formed(),
        r.filename@ == attachment_label(att.id, att.filename@),
        r.source_url == att.source_url,
        r.origin == ResourceOrigin::Attachment,
        download ==> opt_view(r.stored_as) == first_free(
            texts(old(names).used@),
            attachment_names(att.id, att.filename@),
        ),
        !download ==> r.stored_as is None && final(names).used@ == old(names).used@,
        r.stored_as matches Some(n) ==> final(names).used@ == old(names).used@.push(n),
        r.stored_as is None ==> final(names).used@ == old(names).used@,
{
    let mut label = decimal_text(att.id);
    label.append(" - ");
    label.append(att.filename.as_str());
    proof {
        reveal_strlit(" - ");
        assert(label@ =~= attachment_label(att.id, att.filename@));
    }
    let stored_as = if download {
        names.claim(&attachment_candidates(att))
    } else {
        None
    };
    HarvestedResource {
        filename: label,
        source_url: att.source_url.clone(),
        origin: ResourceOrigin::Attachment,
        stored_as,
    }
}

/// The names given out when each list of candidates claims one in turn,
/// starting from the names in `used`; and the names used afterwards.
pub open spec fn claims(used: Seq<Seq<char>>, lists: Seq<Seq<Seq<char>>>) -> (
    Seq<Option<Seq<char>>>,
    Seq<Seq<char>>,
)
    decreases lists.len(),
{
    if lists.len() == 0 {
        (Seq::empty(), used)
    } else {
        let (given, now_used) = claims(used, lists.drop_last());
        let c = first_free(now_used, lists.last());
        (
            given.push(c),
            match c {
                Some(n) => now_used.push(n),
                None => now_used,
            },
        )
    }
}

/// The names stored resources were given.
pub open spec fn stored_names(v: Seq<HarvestedResource>) -> Seq<Option<Seq<char>>> {
    v.map_values(|h: HarvestedResource| opt_view(h.stored_as))
}

/// The candidate names of each attachment.
pub open spec fn attachment_name_lists(atts: Seq<PlatformAttachment>) -> Seq<Seq<Seq<char>>> {
    atts.map_values(|a: PlatformAttachment| attachment_names(a.id, a.filename@))
}

/// What the archive records of each attachment of a message, in order. When
/// `download` is set, each claims a name for its file in turn.
pub fn attachment_resources(message: &Message, download: bool, names: &mut ResourceNames) -> (r: Vec<
    HarvestedResource,
>)
    requires
        old(names).well_formed(),
    ensures
        final(names).well_formed(),
        r@.len() == message.attachments@.len(),
        forall|i: int|
            0 <= i < r@.len() ==> {
                let a = message.attachments@[i];
                &&& (#[trigger] r@[i]).filename@ == attachment_label(a.id, a.filename@)
                &&& r@[i].source_url == a.source_url
                &&& r@[i].origin == ResourceOrigin::Attachment
            },
        download ==> claims(texts(old(names).used@), attachment_name_lists(message.attachments@)) == (
            stored_names(r@),
            texts(final(names).used@),
        ),
        !download ==> final(names).used@ == old(names).used@ && forall|i: int|
            0 <= i < r@.len() ==> (#[trigger] r@[i]).stored_as is None,
{
    let ghost used0 = texts(names.used@);
    let ghost lists = attachment_name_lists(message.attachments@);
    let mut r: Vec<HarvestedResource> = Vec::new();
    let mut i: usize = 0;
    while i < message.attachments.len()
        invariant
            i <= message.attachments@.len(),
            names.well_formed(),
            used0 == texts(old(names).used@),
            lists == attachment_name_lists(message.attachments@),
            r@.len() == i,
            forall|j: int|
                0 <= j < i ==> {
                    let a = message.attachments@[j];
                    &&& (#[trigger] r@[j]).filename@ == attachment_label(a.id, a.filename@)
                    &&& r@[j].source_url == a.source_url
                    &&& r@[j].origin == ResourceOrigin::Attachment
                },
            download ==> claims(used0, lists.take(i as int)) == (stored_names(r@), texts(names.used@)),
            !download ==> names.used@ == old(names).used@ && forall|j: int|
                0 <= j < i ==> (#[trigger] r@[j]).stored_as is None,
        decreases message.attachments.len() - i,
    {
        let ghost before = texts(names.used@);
        let ghost before_used = names.used@;
        let res = attachment_resource(&message.attachments[i], download, names);
        proof {
            assert(lists.take(i + 1).drop_last() =~= lists.take(i as int));
            assert(lists.take(i + 1).last() == lists[i as int]);
            assert(stored_names(r@.push(res)) =~= stored_names(r@).push(opt_view(res.stored_as)));
            if res.stored_as is Some {
                let n = res.stored_as->Some_0;
                assert(texts(before_used.push(n)) =~= before.push(n@));
            }
        }
        r.push(res);
        i += 1;
    }
    assert(lists.take(i as int) =~= lists);
    r
}

/// The names to try for a linked document's file: the last segment of its
/// path, then its domain.
pub open spec fn link_names(segment: Seq<char>, domain: Seq<char>) -> Seq<Seq<char>> {
    seq![segment, domain]
}

/// What the archive records of a link accepted at `url` (where the probe
/// ended), with a name claimed for its file.
pub fn link_resource(target: &LinkTarget, url: String, names: &mut ResourceNames) -> (r: HarvestedResource)
    requires
        old(names).well_formed(),
    ensures
        final(names).well_formed(),
        r.filename == target.segment,
        r.source_url == url,
        r.origin == ResourceOrigin::Link,
        opt_view(r.stored_as) == first_free(texts(old(names).used@), link_names(target.segment@, target.domain@)),
        r.stored_as matches Some(n) ==> final(names).used@ == old(names).used@.push(n),
        r.stored_as is None ==> final(names).used@ == old(names).used@,
{
    let mut candidates: Vec<String> = Vec::new();
    candidates.push(target.segment.clone());
    candidates.push(target.domain.clone());
    assert(texts(candidates@) =~= link_names(target.segment@, target.domain@));
    let stored_as = names.claim(&candidates);
    HarvestedResource {
        filename: target.segment.clone(),
        source_url: url,
        origin: ResourceOrigin::Link,
        stored_as,
    }
}

impl HarvestedResource {
    /// Records that the resource's file could not be written or fetched.
    pub fn mark_not_stored(&mut self)
        ensures
            final(self).filename == old(self).filename,
            final(self).source_url == old(self).source_url,
            final(self).origin == old(self).origin,
            final(self).stored_as is None,
    {
        self.stored_as = None;
    }
}

} // verus!
