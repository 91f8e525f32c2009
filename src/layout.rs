//! The archive on disk: its name, and the file-system operations that lay it
//! out, first of which is the removal of any earlier archive of that name.
//!
//! ```text
//! <archive>/<archive>.json
//! <archive>/attachments/<channel id>/<file>
//! ```

use vstd::prelude::*;
use vstd::string::*;

use crate::model::{BackupOptions, PipelineOptions};
use crate::text::{decimal, decimal_text, is_plain_component, lemma_decimal_plain, opt_view, plain_component, texts};

verus! {

/// What `filenamify::filenamify` makes of a text: a file name in which the
/// characters that file systems reserve are replaced.
pub uninterp spec fn file_name_of(s: Seq<char>) -> Seq<char>;

/// Relies on `filenamify::filenamify` to turn a text into a safe file name.
#[verifier::external_body]
fn sanitize_file_name(s: &str) -> (r: String)
    ensures
        r@ == file_name_of(s@),
{
    filenamify::filenamify(s)
}

/// The sanitized form of a text, when it can stand as one path component.
pub fn safe_file_name(s: &str) -> (r: Option<String>)
    ensures
        opt_view(r) == if plain_component(file_name_of(s@)) {
            Some(file_name_of(s@))
        } else {
            None
        },
{
    let name = sanitize_file_name(s);
    if is_plain_component(name.as_str()) {
        Some(name)
    } else {
        None
    }
}

/// The name an archive falls back to when the requested one cannot name a
/// directory.
pub open spec fn default_archive_name() -> Seq<char> {
    seq!['a', 'r', 'c', 'h', 'i', 'v', 'e']
}

/// The name of an archive asked for under the text `wanted`.
pub open spec fn archive_name_for(wanted: Seq<char>) -> Seq<char> {
    if plain_component(file_name_of(wanted)) {
        file_name_of(wanted)
    } else {
        default_archive_name()
    }
}

/// The name of the archive: the requested one, else the community's display
/// name, made safe as a file name; a fixed default when that leaves no
/// usable name.
pub fn archive_name(requested: Option<String>, community_name: &str) -> (r: String)
    ensures
        r@ == archive_name_for(
            match requested {
                Some(n) => n@,
                None => community_name@,
            },
        ),
        plain_component(r@),
{
    let safe = match requested {
        Some(n) => safe_file_name(n.as_str()),
        None => safe_file_name(community_name),
    };
    match safe {
        Some(n) => n,
        None => {
            proof {
                reveal_strlit("archive");
            }
            let r = String::from_str("archive");
            assert(r@ =~= default_archive_name());
            assert(plain_component(r@));
            r
        },
    }
}

impl BackupOptions {
    /// The settings of a run: attachments are not downloaded unless asked
    /// for, and the archive is named as [`archive_name`] says.
    pub fn into_pipeline_options(self, community_name: &str, keep_empty_channels: bool) -> (r:
        PipelineOptions)
        ensures
            r.download_attachments == (self.download_attachments == Some(true)),
            r.archive_name@ == archive_name_for(
                match self.backup_name {
                    Some(n) => n@,
                    None => community_name@,
                },
            ),
            plain_component(r.archive_name@),
            r.keep_empty_channels == keep_empty_channels,
    {
        let download_attachments = match self.download_attachments {
            Some(d) => d,
            None => false,
        };
        PipelineOptions {
            download_attachments,
            archive_name: archive_name(self.backup_name, community_name),
            keep_empty_channels,
        }
    }
}

/// An operation on the file system, on a path given as its components below
/// the destination root.
#[derive(Debug, PartialEq, Eq)]
pub enum FsOp {
    /// Remove the directory and all it holds, if it is there.
    RemoveTree(Vec<String>),
    CreateDir(Vec<String>),
    /// Create or overwrite a file with the bytes.
    WriteFile(Vec<String>, Vec<u8>),
}

/// The path an operation acts on.
pub open spec fn op_path(op: FsOp) -> Seq<Seq<char>> {
    match op {
        FsOp::RemoveTree(p) => texts(p@),
        FsOp::CreateDir(p) => texts(p@),
        FsOp::WriteFile(p, _) => texts(p@),
    }
}

/// Whether the path `q` lies at or below `p`.
pub open spec fn below(p: Seq<Seq<char>>, q: Seq<Seq<char>>) -> bool {
    p.len() <= q.len() && q.take(p.len() as int) == p
}

/// The file system after an operation. A file system maps each path that
/// exists to `None` for a directory, or to a file's bytes.
pub open spec fn apply_op(fs: Map<Seq<Seq<char>>, Option<Seq<u8>>>, op: FsOp) -> Map<
    Seq<Seq<char>>,
    Option<Seq<u8>>,
> {
    match op {
        FsOp::RemoveTree(p) => fs.restrict(fs.dom().filter(|q: Seq<Seq<char>>| !below(texts(p@), q))),
        FsOp::CreateDir(p) => fs.insert(texts(p@), None),
        FsOp::WriteFile(p, b) => fs.insert(texts(p@), Some(b@)),
    }
}

/// The file system after the operations, in order.
pub open spec fn apply_ops(fs: Map<Seq<Seq<char>>, Option<Seq<u8>>>, ops: Seq<FsOp>) -> Map<
    Seq<Seq<char>>,
    Option<Seq<u8>>,
>
    decreases ops.len(),
{
    if ops.len() == 0 {
        fs
    } else {
        apply_ops(apply_op(fs, ops[0]), ops.drop_first())
    }
}

/// The part of a file system at or below `root` (when `inside`), or the
/// rest.
pub open spec fn part(fs: Map<Seq<Seq<char>>, Option<Seq<u8>>>, root: Seq<Seq<char>>, inside: bool) -> Map<
    Seq<Seq<char>>,
    Option<Seq<u8>>,
> {
    fs.restrict(fs.dom().filter(|q: Seq<Seq<char>>| below(root, q) == inside))
}

/// Every component of the path can stand as one.
pub open spec fn plain_path(p: Seq<Seq<char>>) -> bool {
    forall|i: int| 0 <= i < p.len() ==> plain_component(#[trigger] p[i])
}

/// An operation that writes inside the archive named `name`, on a path of
/// plain components, and removes nothing.
pub open spec fn writes_within(op: FsOp, name: Seq<char>) -> bool {
    !(op is RemoveTree) && below(seq![name], op_path(op)) && plain_path(op_path(op))
}

/// The operations of one archive run: the removal of the archive's
/// directory, then writes inside it.
pub open spec fn archive_run_ops(ops: Seq<FsOp>, name: Seq<char>) -> bool {
    &&& ops.len() > 0
    &&& ops[0] is RemoveTree
    &&& op_path(ops[0]) == seq![name]
    &&& plain_component(name)
    &&& forall|i: int| 1 <= i < ops.len() ==> writes_within(#[trigger] ops[i], name)
}

/// The directory below an archive that holds the channels' files.
pub open spec fn attachments_dir() -> Seq<char> {
    seq!['a', 't', 't', 'a', 'c', 'h', 'm', 'e', 'n', 't', 's']
}

/// The extension of the archive's document.
pub open spec fn document_ext() -> Seq<char> {
    seq!['.', 'j', 's', 'o', 'n']
}

fn attachments_dir_text() -> (r: String)
    ensures
        r@ == attachments_dir(),
{
    proof {
        reveal_strlit("attachments");
    }
    let r = String::from_str("attachments");
    assert(r@ =~= attachments_dir());
    r
}

fn path_of(components: Vec<&str>) -> (r: Vec<String>)
    ensures
        r@.len() == components@.len(),
        forall|i: int| 0 <= i < r@.len() ==> #[trigger] r@[i]@ == components@[i]@,
{
    let mut r: Vec<String> = Vec::new();
    let mut i: usize = 0;
    while i < components.len()
        invariant
            i <= components@.len(),
            r@.len() == i,
            forall|j: int| 0 <= j < i ==> #[trigger] r@[j]@ == components@[j]@,
        decreases components.len() - i,
    {
        r.push(String::from_str(components[i]));
        i += 1;
    }
    r
}

proof fn lemma_below_archive(name: Seq<char>, p: Seq<Seq<char>>)
    requires
        p.len() >= 1,
        p[0] == name,
    ensures
        below(seq![name], p),
{
    assert(p.take(1) =~= seq![name]);
}

/// The operations that open a run: remove any archive of the name, create
/// its directory and, when files are downloaded, its attachments directory.
pub fn begin_ops(name: &str, download_attachments: bool) -> (r: Vec<FsOp>)
    requires
        plain_component(name@),
    ensures
        archive_run_ops(r@, name@),
        r@.len() == if download_attachments { 3int } else { 2int },
        r@[1] is CreateDir && op_path(r@[1]) == seq![name@],
        download_attachments ==> r@[2] is CreateDir && op_path(r@[2]) == seq![name@, attachments_dir()],
{
    proof {
        lemma_attachments_dir_plain();
    }
    let mut ops: Vec<FsOp> = Vec::new();
    let dir = path_of(vec![name]);
    assert(texts(dir@) =~= seq![name@]);
    ops.push(FsOp::RemoveTree(dir));
    let dir = path_of(vec![name]);
    assert(texts(dir@) =~= seq![name@]);
    ops.push(FsOp::CreateDir(dir));
    proof {
        lemma_below_archive(name@, seq![name@]);
    }
    if download_attachments {
        let mut dir = path_of(vec![name]);
        dir.push(attachments_dir_text());
        assert(texts(dir@) =~= seq![name@, attachments_dir()]);
        ops.push(FsOp::CreateDir(dir));
        proof {
            lemma_below_archive(name@, seq![name@, attachments_dir()]);
        }
    }
    ops
}

proof fn lemma_attachments_dir_plain()
    ensures
        plain_component(attachments_dir()),
{
    let a = attachments_dir();
    assert(a.len() != seq!['.'].len());
    assert(a.len() != seq!['.', '.'].len());
}

/// The operation that creates a channel's directory of files, named by the
/// channel's ID.
pub fn channel_dir_op(name: &str, channel_id: u64) -> (r: FsOp)
    requires
        plain_component(name@),
    ensures
        writes_within(r, name@),
        r is CreateDir,
        op_path(r) == seq![name@, attachments_dir(), decimal(channel_id as nat)],
{
    proof {
        lemma_attachments_dir_plain();
        lemma_decimal_plain(channel_id as nat);
    }
    let mut dir = path_of(vec![name]);
    dir.push(attachments_dir_text());
    dir.push(decimal_text(channel_id));
    assert(texts(dir@) =~= seq![name@, attachments_dir(), decimal(channel_id as nat)]);
    proof {
        lemma_below_archive(name@, texts(dir@));
    }
    FsOp::CreateDir(dir)
}

/// The operation that stores a harvested file in its channel's directory.
pub fn resource_file_op(name: &str, channel_id: u64, file: &str, bytes: Vec<u8>) -> (r: FsOp)
    requires
        plain_component(name@),
        plain_component(file@),
    ensures
        writes_within(r, name@),
        r matches FsOp::WriteFile(_, b) && b == bytes,
        op_path(r) == seq![name@, attachments_dir(), decimal(channel_id as nat), file@],
{
    proof {
        lemma_attachments_dir_plain();
        lemma_decimal_plain(channel_id as nat);
    }
    let mut path = path_of(vec![name]);
    path.push(attachments_dir_text());
    path.push(decimal_text(channel_id));
    path.push(String::from_str(file));
    assert(texts(path@) =~= seq![name@, attachments_dir(), decimal(channel_id as nat), file@]);
    proof {
        lemma_below_archive(name@, texts(path@));
    }
    FsOp::WriteFile(path, bytes)
}

/// The operation that writes the archive's document, named after the
/// archive.
pub fn document_op(name: &str, bytes: Vec<u8>) -> (r: FsOp)
    requires
        plain_component(name@),
    ensures
        writes_within(r, name@),
        r matches FsOp::WriteFile(_, b) && b == bytes,
        op_path(r) == seq![name@, name@ + document_ext()],
{
    proof {
        reveal_strlit(".json");
    }
    let mut file = String::from_str(name);
    file.append(".json");
    assert(".json"@ =~= document_ext());
    assert(file@ =~= name@ + document_ext());
    proof {
        let f = file@;
        assert(f.len() != seq!['.'].len());
        assert(f.len() != seq!['.', '.'].len());
        assert forall|i: int| 0 <= i < f.len() implies #[trigger] f[i] != '/' && f[i] != '\\' && f[i]
            != '\0' by {
            if i >= name@.len() {
                assert(f[i] == document_ext()[i - name@.len()]);
            } else {
                assert(f[i] == name@[i]);
            }
        }
    }
    let mut path = path_of(vec![name]);
    path.push(file);
    assert(texts(path@) =~= seq![name@, name@ + document_ext()]);
    proof {
        lemma_below_archive(name@, texts(path@));
    }
    FsOp::WriteFile(path, bytes)
}

proof fn lemma_write_keeps_outside(
    fs: Map<Seq<Seq<char>>, Option<Seq<u8>>>,
    ops: Seq<FsOp>,
    name: Seq<char>,
)
    requires
        forall|i: int| 0 <= i < ops.len() ==> writes_within(#[trigger] ops[i], name),
    ensures
        part(apply_ops(fs, ops), seq![name], false) =~= part(fs, seq![name], false),
    decreases ops.len(),
{
    if ops.len() > 0 {
        let next = apply_op(fs, ops[0]);
        assert(writes_within(ops[0], name));
        assert(part(next, seq![name], false) =~= part(fs, seq![name], false));
        assert forall|i: int| 0 <= i < ops.drop_first().len() implies writes_within(
            #[trigger] ops.drop_first()[i],
            name,
        ) by {
            assert(writes_within(ops[i + 1], name));
        }
        lemma_write_keeps_outside(next, ops.drop_first(), name);
    }
}

proof fn lemma_write_inside_depends_on_inside(
    fs1: Map<Seq<Seq<char>>, Option<Seq<u8>>>,
    fs2: Map<Seq<Seq<char>>, Option<Seq<u8>>>,
    ops: Seq<FsOp>,
    name: Seq<char>,
)
    requires
        forall|i: int| 0 <= i < ops.len() ==> writes_within(#[trigger] ops[i], name),
        part(fs1, seq![name], true) == part(fs2, seq![name], true),
    ensures
        part(apply_ops(fs1, ops), seq![name], true) == part(apply_ops(fs2, ops), seq![name], true),
    decreases ops.len(),
{
    if ops.len() > 0 {
        let n1 = apply_op(fs1, ops[0]);
        let n2 = apply_op(fs2, ops[0]);
        assert(writes_within(ops[0], name));
        let p = op_path(ops[0]);
        let v = match ops[0] {
            FsOp::WriteFile(_, b) => Some(b@),
            _ => None,
        };
        assert(n1 == fs1.insert(p, v));
        assert(n2 == fs2.insert(p, v));
        assert(part(n1, seq![name], true) =~= part(fs1, seq![name], true).insert(p, v));
        assert(part(n2, seq![name], true) =~= part(fs2, seq![name], true).insert(p, v));
        assert forall|i: int| 0 <= i < ops.drop_first().len() implies writes_within(
            #[trigger] ops.drop_first()[i],
            name,
        ) by {
            assert(writes_within(ops[i + 1], name));
        }
        lemma_write_inside_depends_on_inside(n1, n2, ops.drop_first(), name);
    }
}

proof fn lemma_remove_archive(fs: Map<Seq<Seq<char>>, Option<Seq<u8>>>, op: FsOp, name: Seq<char>)
    requires
        op is RemoveTree,
        op_path(op) == seq![name],
    ensures
        part(apply_op(fs, op), seq![name], true) =~= Map::<Seq<Seq<char>>, Option<Seq<u8>>>::empty(),
        part(apply_op(fs, op), seq![name], false) =~= part(fs, seq![name], false),
{
}

/// Running the archive twice under one name leaves a single archive
/// directory that holds only what the second run wrote, whatever the first
/// left there; everything outside that directory is as it was before both.
pub proof fn lemma_second_run_replaces(
    fs: Map<Seq<Seq<char>>, Option<Seq<u8>>>,
    first: Seq<FsOp>,
    second: Seq<FsOp>,
    name: Seq<char>,
)
    requires
        archive_run_ops(first, name),
        archive_run_ops(second, name),
    ensures
        part(apply_ops(apply_ops(fs, first), second), seq![name], true) == part(
            apply_ops(Map::empty(), second),
            seq![name],
            true,
        ),
        part(apply_ops(apply_ops(fs, first), second), seq![name], false) == part(fs, seq![name], false),
{
    let root = seq![name];
    let empty = Map::<Seq<Seq<char>>, Option<Seq<u8>>>::empty();
    let after_first = apply_ops(fs, first);
    assert forall|i: int| 0 <= i < first.drop_first().len() implies writes_within(
        #[trigger] first.drop_first()[i],
        name,
    ) by {
        assert(writes_within(first[i + 1], name));
    }
    assert forall|i: int| 0 <= i < second.drop_first().len() implies writes_within(
        #[trigger] second.drop_first()[i],
        name,
    ) by {
        assert(writes_within(second[i + 1], name));
    }
    lemma_remove_archive(fs, first[0], name);
    lemma_write_keeps_outside(apply_op(fs, first[0]), first.drop_first(), name);
    let cleared = apply_op(after_first, second[0]);
    let cleared_empty = apply_op(empty, second[0]);
    lemma_remove_archive(after_first, second[0], name);
    lemma_remove_archive(empty, second[0], name);
    lemma_write_inside_depends_on_inside(cleared, cleared_empty, second.drop_first(), name);
    lemma_write_keeps_outside(cleared, second.drop_first(), name);
}

} // verus!
