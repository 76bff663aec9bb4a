//! What a download batch fetches, where it writes, and what its outcomes
//! come to.

use vstd::prelude::*;
use vstd::string::*;

use crate::error::Error;
use crate::manifest::{ContentFile, ContentFileView};
use crate::plan::unique_paths;
use crate::select::{pick, pick_files};
use crate::text::{dir_prefix, dir_prefix_of};

verus! {

/// Where the manifest is fetched from.
pub const UPDATE_URL: &'static str = "https://update.ets2mp.com/files.json";

/// The base that every file is fetched from.
pub const DOWNLOAD_URL: &'static str = "https://download-new.ets2mp.com/files/";

/// How many fetches or checks run at a time unless the caller says otherwise.
pub const DEFAULT_CONCURRENCY: usize = 8;

/// One fetch: the remote resource and the local file it is written to.
#[derive(Debug)]
pub struct DownloadTask {
    pub source_locator: String,
    pub destination_path: String,
}

pub ghost struct DownloadTaskView {
    pub source_locator: Seq<char>,
    pub destination_path: Seq<char>,
}

impl View for DownloadTask {
    type V = DownloadTaskView;

    open spec fn view(&self) -> DownloadTaskView {
        DownloadTaskView {
            source_locator: self.source_locator@,
            destination_path: self.destination_path@,
        }
    }
}

impl DeepView for DownloadTask {
    type V = DownloadTaskView;

    open spec fn deep_view(&self) -> DownloadTaskView {
        self@
    }
}

/// How one fetch ended.
#[derive(Debug, Clone, Copy, PartialEq, Eq, Structural)]
pub enum FetchOutcome {
    /// The resource was fetched and written in full.
    Fetched,
    /// The request or the transfer failed.
    TransportFailed,
    /// The directory or the file could not be written.
    WriteFailed,
    /// The admission gate gave the fetch no permit.
    NoPermit,
}

/// The fetch that brings one entry below the content root.
pub open spec fn task_of(content_root: Seq<char>, file: ContentFileView) -> DownloadTaskView {
    DownloadTaskView {
        source_locator: DOWNLOAD_URL@ + file.file_path,
        destination_path: dir_prefix(content_root) + file.file_path,
    }
}

pub open spec fn tasks_of(content_root: Seq<char>, files: Seq<ContentFileView>) -> Seq<
    DownloadTaskView,
> {
    Seq::new(files.len(), |i: int| task_of(content_root, files[i]))
}

/// What a batch as a whole came to: it succeeds only if every fetch did. A
/// fetch without a permit makes it an admission failure, any other failed
/// fetch a transport failure.
pub open spec fn batch_result(outcomes: Seq<FetchOutcome>) -> Result<(), Error> {
    if exists|i: int| 0 <= i < outcomes.len() && #[trigger] outcomes[i] == FetchOutcome::NoPermit {
        Err(Error::ConcurrencyAdmissionFailure)
    } else if exists|i: int|
        0 <= i < outcomes.len() && #[trigger] outcomes[i] != FetchOutcome::Fetched {
        Err(Error::TransportError)
    } else {
        Ok(())
    }
}

/// The entries whose fetch did not succeed, in their order.
pub open spec fn failed_of(files: Seq<ContentFileView>, outcomes: Seq<FetchOutcome>) -> Seq<
    ContentFileView,
> {
    pick(files, |i: int| 0 <= i < outcomes.len() && outcomes[i] != FetchOutcome::Fetched)
}

/// Appending a path to the same prefix gives the same text only for the
/// same path.
pub proof fn lemma_append_injective(prefix: Seq<char>, a: Seq<char>, b: Seq<char>)
    requires
        prefix + a == prefix + b,
    ensures
        a == b,
{
    assert((prefix + a).subrange(prefix.len() as int, (prefix + a).len() as int) =~= a);
    assert((prefix + b).subrange(prefix.len() as int, (prefix + b).len() as int) =~= b);
}

/// No two fetches of a batch write to the same file or ask for the same
/// resource, as long as no two entries name the same path.
pub proof fn lemma_tasks_distinct(content_root: Seq<char>, files: Seq<ContentFileView>)
    requires
        unique_paths(files),
    ensures
        forall|i: int, j: int|
            0 <= i < j < files.len() ==> (#[trigger] tasks_of(content_root, files)[i]).destination_path
                != (#[trigger] tasks_of(content_root, files)[j]).destination_path,
        forall|i: int, j: int|
            0 <= i < j < files.len() ==> (#[trigger] tasks_of(content_root, files)[i]).source_locator
                != (#[trigger] tasks_of(content_root, files)[j]).source_locator,
{
    let tasks = tasks_of(content_root, files);
    assert forall|i: int, j: int| 0 <= i < j < files.len() implies (#[trigger] tasks[i]).destination_path
        != (#[trigger] tasks[j]).destination_path by {
        assert(files[i].file_path != files[j].file_path);
        if tasks[i].destination_path == tasks[j].destination_path {
            lemma_append_injective(
                dir_prefix(content_root),
                files[i].file_path,
                files[j].file_path,
            );
        }
    }
    assert forall|i: int, j: int| 0 <= i < j < files.len() implies (#[trigger] tasks[i]).source_locator
        != (#[trigger] tasks[j]).source_locator by {
        assert(files[i].file_path != files[j].file_path);
        if tasks[i].source_locator == tasks[j].source_locator {
            lemma_append_injective(DOWNLOAD_URL@, files[i].file_path, files[j].file_path);
        }
    }
}

/// The fetches that bring the files below the content root, one per file and
/// in the order of the files: each asks for the download base followed by
/// the file's path and writes to the content root followed by that path.
pub fn tasks_for(files: &Vec<ContentFile>, content_root: &str) -> (tasks: Vec<DownloadTask>)
    ensures
        tasks.deep_view() == tasks_of(content_root@, files.deep_view()),
{
    let prefix = dir_prefix_of(content_root);
    let mut tasks: Vec<DownloadTask> = Vec::new();
    for i in 0..files.len()
        invariant
            prefix@ == dir_prefix(content_root@),
            tasks.deep_view() == tasks_of(content_root@, files.deep_view()).take(i as int),
    {
        let path = files[i].file_path();
        let task = DownloadTask {
            source_locator: String::from_str(DOWNLOAD_URL).concat(path),
            destination_path: prefix.clone().concat(path),
        };
        let ghost before = tasks.deep_view();
        tasks.push(task);
        assert(tasks.deep_view() =~= before.push(task@));
        assert(tasks.deep_view() =~= tasks_of(content_root@, files.deep_view()).take(i + 1));
    }
    assert(tasks.deep_view() =~= tasks_of(content_root@, files.deep_view()));
    tasks
}

/// Sums up a batch once every fetch has ended.
pub fn download_result(outcomes: &Vec<FetchOutcome>) -> (result: Result<(), Error>)
    ensures
        result == batch_result(outcomes@),
{
    let mut failed: bool = false;
    for i in 0..outcomes.len()
        invariant
            forall|k: int| 0 <= k < i ==> #[trigger] outcomes@[k] != FetchOutcome::NoPermit,
            failed <==> exists|k: int|
                0 <= k < i && #[trigger] outcomes@[k] != FetchOutcome::Fetched,
    {
        match outcomes[i] {
            FetchOutcome::NoPermit => {
                return Err(Error::ConcurrencyAdmissionFailure);
            },
            FetchOutcome::Fetched => {},
            _ => {
                failed = true;
            },
        }
    }
    if failed {
        Err(Error::TransportError)
    } else {
        Ok(())
    }
}

/// The files of a batch whose fetch did not succeed; a file without an
/// outcome is not among them.
pub fn failed_files(files: &Vec<ContentFile>, outcomes: &Vec<FetchOutcome>) -> (failed: Vec<
    ContentFile,
>)
    ensures
        failed.deep_view() == failed_of(files.deep_view(), outcomes@),
{
    let mut marks: Vec<bool> = Vec::new();
    for i in 0..outcomes.len()
        invariant
            marks@.len() == i,
            forall|k: int|
                0 <= k < i ==> #[trigger] marks@[k] == (outcomes@[k] != FetchOutcome::Fetched),
    {
        marks.push(!matches!(outcomes[i], FetchOutcome::Fetched));
    }
    let failed = pick_files(files, &marks);
    proof {
        let by_marks = |i: int| 0 <= i < marks@.len() && marks@[i];
        let by_outcomes = |i: int|
            0 <= i < outcomes@.len() && outcomes@[i] != FetchOutcome::Fetched;
        assert(by_marks =~= by_outcomes);
    }
    failed
}

} // verus!
