use truckersmp::download::{
    download_result, failed_files, tasks_for, FetchOutcome, DEFAULT_CONCURRENCY, DOWNLOAD_URL,
    UPDATE_URL,
};
use truckersmp::error::Error;
use truckersmp::manifest::{ContentFile, RawContentFile};
use truckersmp::select::pick_files;

fn wanted(path: &str) -> ContentFile {
    ContentFile::parse(&RawContentFile {
        md5: "00".to_string(),
        ctype: "system".to_string(),
        file_path: path.to_string(),
    })
    .unwrap()
}

fn names(files: &Vec<ContentFile>) -> Vec<String> {
    files.iter().map(|f| f.file_path().to_string()).collect()
}

#[test]
fn locations_are_the_known_ones() {
    assert_eq!(UPDATE_URL, "https://update.ets2mp.com/files.json");
    assert_eq!(DOWNLOAD_URL, "https://download-new.ets2mp.com/files/");
    assert_eq!(DEFAULT_CONCURRENCY, 8);
}

#[test]
fn task_joins_base_and_root_with_the_path() {
    let files = vec![wanted("/bin/win_x64/core_ets2mp.dll"), wanted("data/ui.scs")];
    let tasks = tasks_for(&files, "/home/user/content");
    assert_eq!(tasks.len(), 2);
    assert_eq!(
        tasks[0].source_locator,
        "https://download-new.ets2mp.com/files/bin/win_x64/core_ets2mp.dll"
    );
    assert_eq!(tasks[0].destination_path, "/home/user/content/bin/win_x64/core_ets2mp.dll");
    assert_eq!(tasks[1].source_locator, "https://download-new.ets2mp.com/files/data/ui.scs");
    assert_eq!(tasks[1].destination_path, "/home/user/content/data/ui.scs");
}

#[test]
fn root_with_separator_at_its_end_gets_no_second_one() {
    let files = vec![wanted("a/b")];
    assert_eq!(tasks_for(&files, "content/")[0].destination_path, "content/a/b");
    assert_eq!(tasks_for(&files, "C:\\content\\")[0].destination_path, "C:\\content\\a/b");
    assert_eq!(tasks_for(&files, "content")[0].destination_path, "content/a/b");
    assert_eq!(tasks_for(&files, "")[0].destination_path, "a/b");
    assert_eq!(tasks_for(&files, "/")[0].destination_path, "/a/b");
}

#[test]
fn no_files_give_no_tasks() {
    assert!(tasks_for(&vec![], "content").is_empty());
}

#[test]
fn batch_succeeds_only_if_every_fetch_did() {
    assert_eq!(download_result(&vec![]), Ok(()));
    assert_eq!(download_result(&vec![FetchOutcome::Fetched; 3]), Ok(()));
    assert_eq!(
        download_result(&vec![FetchOutcome::Fetched, FetchOutcome::TransportFailed]),
        Err(Error::TransportError)
    );
    assert_eq!(
        download_result(&vec![FetchOutcome::WriteFailed, FetchOutcome::Fetched]),
        Err(Error::TransportError)
    );
}

#[test]
fn missing_permit_makes_the_batch_an_admission_failure() {
    assert_eq!(
        download_result(&vec![
            FetchOutcome::TransportFailed,
            FetchOutcome::Fetched,
            FetchOutcome::NoPermit,
        ]),
        Err(Error::ConcurrencyAdmissionFailure)
    );
    assert_eq!(
        download_result(&vec![FetchOutcome::NoPermit, FetchOutcome::WriteFailed]),
        Err(Error::ConcurrencyAdmissionFailure)
    );
}

#[test]
fn failed_files_are_those_not_fetched() {
    let files = vec![wanted("a"), wanted("b"), wanted("c"), wanted("d")];
    let outcomes = vec![
        FetchOutcome::Fetched,
        FetchOutcome::TransportFailed,
        FetchOutcome::Fetched,
        FetchOutcome::WriteFailed,
    ];
    assert_eq!(names(&failed_files(&files, &outcomes)), vec!["b", "d"]);
    assert!(failed_files(&files, &vec![FetchOutcome::Fetched; 4]).is_empty());
    assert_eq!(names(&failed_files(&files, &vec![FetchOutcome::NoPermit; 4])), vec!["a", "b", "c", "d"]);
}

#[test]
fn file_without_outcome_is_not_among_the_failed() {
    let files = vec![wanted("a"), wanted("b"), wanted("c")];
    assert_eq!(names(&failed_files(&files, &vec![FetchOutcome::TransportFailed])), vec!["a"]);
    assert!(failed_files(&files, &vec![]).is_empty());
    assert_eq!(
        names(&failed_files(&files, &vec![FetchOutcome::WriteFailed; 5])),
        vec!["a", "b", "c"]
    );
}

#[test]
fn pick_files_copies_the_marked_files_in_order() {
    let files = vec![wanted("a"), wanted("b"), wanted("c")];
    assert_eq!(names(&pick_files(&files, &vec![true, false, true])), vec!["a", "c"]);
    assert_eq!(names(&pick_files(&files, &vec![false, true])), vec!["b"]);
    assert!(pick_files(&files, &vec![]).is_empty());
    assert!(pick_files(&vec![], &vec![true, true]).is_empty());
}
