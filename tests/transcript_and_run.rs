use std::collections::BTreeMap;

use guild_archive::assemble::{assemble, starts_new_group, GROUP_GAP_MS};
use guild_archive::harvest::{attachment_resources, ResourceNames};
use guild_archive::history::{FetchEvent, HistoryReader, ReaderStep};
use guild_archive::layout::{archive_name, begin_ops, channel_dir_op, document_op, resource_file_op, FsOp};
use guild_archive::model::{
    BackupOptions, Category, Channel, ChannelArchive, ChannelKind, Community, HarvestedResource, Message,
    PlatformAttachment, ResourceOrigin,
};
use guild_archive::run::{ArchiveRun, RunFailure, RunResult};

const MINUTE: i64 = 60_000;

fn msg(id: u64, author: u64, at: i64) -> Message {
    Message {
        id,
        author_id: author,
        author_name: format!("user{}", author),
        body_text: format!("text {}", id),
        created_at: at,
        attachments: vec![],
    }
}

fn chan(id: u64) -> Channel {
    Channel { id, name: format!("chan{}", id), kind: ChannelKind::Text, parent_category_id: None }
}

fn resource(name: &str) -> HarvestedResource {
    HarvestedResource {
        filename: name.to_string(),
        source_url: format!("https://x/{}", name),
        origin: ResourceOrigin::Attachment,
        stored_as: None,
    }
}

#[test]
fn same_author_fifty_nine_minutes_share_a_group() {
    assert!(!starts_new_group(&msg(1, 7, 0), &msg(2, 7, 59 * MINUTE)));
}

#[test]
fn same_author_sixty_one_minutes_start_a_group() {
    assert!(starts_new_group(&msg(1, 7, 0), &msg(2, 7, 61 * MINUTE)));
    assert!(starts_new_group(&msg(1, 7, 0), &msg(2, 7, GROUP_GAP_MS)));
}

#[test]
fn different_authors_one_second_apart_start_a_group() {
    assert!(starts_new_group(&msg(1, 7, 0), &msg(2, 8, 1000)));
}

#[test]
fn assemble_reverses_history_and_marks_groups() {
    let history = vec![
        (msg(4, 2, 130 * MINUTE), vec![]),
        (msg(3, 1, 129 * MINUTE), vec![resource("r3")]),
        (msg(2, 1, 61 * MINUTE), vec![]),
        (msg(1, 1, 2 * MINUTE), vec![]),
    ];
    let category = Some(Category { id: 9, name: "cat".to_string() });
    let archive = assemble(&chan(5), category.clone(), history);
    assert_eq!(archive.id, 5);
    assert_eq!(archive.name, "chan5");
    assert_eq!(archive.category, category);
    let ids: Vec<u64> = archive.messages.iter().map(|m| m.id).collect();
    assert_eq!(ids, vec![1, 2, 3, 4]);
    let groups: Vec<bool> = archive.messages.iter().map(|m| m.starts_group).collect();
    assert_eq!(groups, vec![true, false, true, true]);
    assert_eq!(archive.messages[2].resources, vec![resource("r3")]);
    assert_eq!(archive.messages[2].content, "text 3");
    assert_eq!(archive.messages[2].author_name, "user1");
    let times: Vec<i64> = archive.messages.iter().map(|m| m.created_at).collect();
    assert!(times.windows(2).all(|w| w[0] <= w[1]));
}

#[test]
fn assemble_of_empty_history_is_an_empty_channel() {
    let archive = assemble(&chan(1), None, vec![]);
    assert!(archive.messages.is_empty());
    assert_eq!(archive.category, None);
}

fn archived(id: u64, n: u64) -> ChannelArchive {
    let history: Vec<(Message, Vec<HarvestedResource>)> =
        (1..=n).rev().map(|i| (msg(i, 1, i as i64 * MINUTE), vec![])).collect();
    assemble(&chan(id), None, history)
}

#[test]
fn timeout_on_second_of_three_channels_is_isolated() {
    let community = Community { id: 77, display_name: "Guild".to_string() };
    let mut run = ArchiveRun::new(&community, 3, false, false);
    assert_eq!(run.add_channel(archived(1, 3)), 33);
    let reader = match HistoryReader::new().step(FetchEvent::Page(vec![msg(9, 1, 0)])) {
        ReaderStep::Continue(r) => r,
        other => panic!("unexpected step {:?}", other),
    };
    let outcome = match reader.step(FetchEvent::TimedOut) {
        ReaderStep::Done(o) => o,
        other => panic!("unexpected step {:?}", other),
    };
    assert!(outcome.into_complete().is_none());
    assert_eq!(run.skip_channel(2), 66);
    assert_eq!(run.add_channel(archived(3, 2)), 100);
    let (archive, result) = run.finish();
    assert_eq!(archive.id, 77);
    assert_eq!(archive.name, "Guild");
    let ids: Vec<u64> = archive.channels.iter().map(|c| c.id).collect();
    assert_eq!(ids, vec![1, 3]);
    assert_eq!(archive.channels[0].messages.len(), 3);
    assert_eq!(archive.channels[1].messages.len(), 2);
    assert_eq!(result, RunResult::CompletedWithWarnings { skipped_channels: vec![2], incomplete_channels: vec![] });
    assert_ne!(result, RunResult::Failed(RunFailure::Discovery));
}

#[test]
fn run_without_skips_completes() {
    let community = Community { id: 1, display_name: "G".to_string() };
    let mut run = ArchiveRun::new(&community, 2, false, false);
    assert_eq!(run.progress(), 0);
    run.add_channel(archived(1, 1));
    run.add_channel(archived(2, 0));
    let (archive, result) = run.finish();
    assert_eq!(result, RunResult::Completed);
    assert_eq!(archive.channels.len(), 1);
}

#[test]
fn empty_channels_are_kept_when_asked() {
    let community = Community { id: 1, display_name: "G".to_string() };
    let mut run = ArchiveRun::new(&community, 1, true, false);
    run.add_channel(archived(2, 0));
    let (archive, _) = run.finish();
    assert_eq!(archive.channels.len(), 1);
    assert!(archive.channels[0].messages.is_empty());
    let empty = ArchiveRun::new(&community, 0, true, false);
    assert_eq!(empty.progress(), 100);
}

#[test]
fn archive_name_is_sanitized() {
    assert_eq!(archive_name(Some("foo/bar".to_string()), "Guild"), "foo_bar");
    assert_eq!(archive_name(None, "My:Guild"), "My_Guild");
    assert_eq!(archive_name(Some(String::new()), "Guild"), "archive");
    assert_eq!(archive_name(None, ""), "archive");
    let options = BackupOptions { download_attachments: None, backup_name: None }.into_pipeline_options("a<b", false);
    assert_eq!(options.archive_name, "a_b");
    assert!(!options.download_attachments);
    let options =
        BackupOptions { download_attachments: Some(true), backup_name: Some("x".to_string()) }.into_pipeline_options("y", true);
    assert!(options.download_attachments);
    assert_eq!(options.archive_name, "x");
    assert!(options.keep_empty_channels);
}

type Fs = BTreeMap<Vec<String>, Option<Vec<u8>>>;

fn apply(fs: &mut Fs, ops: Vec<FsOp>) {
    for op in ops {
        match op {
            FsOp::RemoveTree(p) => fs.retain(|q, _| !q.starts_with(&p)),
            FsOp::CreateDir(p) => {
                fs.insert(p, None);
            }
            FsOp::WriteFile(p, b) => {
                fs.insert(p, Some(b));
            }
        }
    }
}

fn run_ops(name: &str, channel: u64, file: &str, doc: &[u8]) -> Vec<FsOp> {
    let mut ops = begin_ops(name, true);
    ops.push(channel_dir_op(name, channel));
    ops.push(resource_file_op(name, channel, file, vec![1, 2, 3]));
    ops.push(document_op(name, doc.to_vec()));
    ops
}

#[test]
fn second_run_replaces_the_first() {
    let mut fs = Fs::new();
    fs.insert(vec!["other".to_string()], Some(vec![9]));
    apply(&mut fs, run_ops("arch", 11, "old.pdf", b"first"));
    apply(&mut fs, run_ops("arch", 12, "new.pdf", b"second"));
    let mut fresh = Fs::new();
    apply(&mut fresh, run_ops("arch", 12, "new.pdf", b"second"));
    let inside: Fs = fs.iter().filter(|(k, _)| k[0] == "arch").map(|(k, v)| (k.clone(), v.clone())).collect();
    assert_eq!(inside, fresh);
    assert_eq!(fs.get(&vec!["other".to_string()]), Some(&Some(vec![9])));
    assert!(fs.keys().all(|k| k[0] == "arch" || k[0] == "other"));
    assert_eq!(
        fs.get(&vec!["arch".to_string(), "arch.json".to_string()]),
        Some(&Some(b"second".to_vec()))
    );
    assert!(!fs.contains_key(&vec![
        "arch".to_string(),
        "attachments".to_string(),
        "11".to_string(),
        "old.pdf".to_string()
    ]));
}

#[test]
fn layout_paths() {
    let ops = begin_ops("arch", false);
    assert_eq!(ops, vec![FsOp::RemoveTree(vec!["arch".to_string()]), FsOp::CreateDir(vec!["arch".to_string()])]);
    assert_eq!(
        channel_dir_op("arch", 905),
        FsOp::CreateDir(vec!["arch".to_string(), "attachments".to_string(), "905".to_string()])
    );
    assert_eq!(
        resource_file_op("arch", 905, "f.pdf", vec![2]),
        FsOp::WriteFile(
            vec!["arch".to_string(), "attachments".to_string(), "905".to_string(), "f.pdf".to_string()],
            vec![2]
        )
    );
    assert_eq!(
        document_op("arch", vec![1]),
        FsOp::WriteFile(vec!["arch".to_string(), "arch.json".to_string()], vec![1])
    );
}

#[test]
fn failed_attachment_download_completes_with_warnings() {
    let community = Community { id: 3, display_name: "G".to_string() };
    let mut run = ArchiveRun::new(&community, 1, false, true);
    let mut message = msg(1, 1, 0);
    message.attachments = vec![
        PlatformAttachment { id: 10, filename: "a.png".to_string(), source_url: "https://cdn/10".to_string() },
        PlatformAttachment { id: 11, filename: "b.png".to_string(), source_url: "https://cdn/11".to_string() },
    ];
    let mut names = ResourceNames::new();
    let mut resources = attachment_resources(&message, true, &mut names);
    resources[0].mark_not_stored();
    let archive = assemble(&chan(4), None, vec![(message, resources)]);
    assert_eq!(run.add_channel(archive), 100);
    let (archive, result) = run.finish();
    assert_eq!(archive.channels.len(), 1);
    let kept = &archive.channels[0].messages[0].resources;
    assert_eq!(kept[0].filename, "10 - a.png");
    assert_eq!(kept[0].stored_as, None);
    assert_eq!(kept[1].stored_as, Some("11.png".to_string()));
    assert_eq!(result, RunResult::CompletedWithWarnings { skipped_channels: vec![], incomplete_channels: vec![4] });
}

#[test]
fn downloaded_run_with_every_file_completes() {
    let community = Community { id: 3, display_name: "G".to_string() };
    let mut run = ArchiveRun::new(&community, 1, false, true);
    let mut message = msg(1, 1, 0);
    message.attachments =
        vec![PlatformAttachment { id: 10, filename: "a.png".to_string(), source_url: "https://cdn/10".to_string() }];
    let mut names = ResourceNames::new();
    let resources = attachment_resources(&message, true, &mut names);
    run.add_channel(assemble(&chan(4), None, vec![(message, resources)]));
    assert_eq!(run.finish().1, RunResult::Completed);
}
