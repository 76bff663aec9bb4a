use truckersmp::game::Game;
use truckersmp::manifest::{ContentFile, ContentFiles, RawContentFile, RawContentFiles};
use truckersmp::plan::plan;

fn plan_entry(md5: &str, ctype: &str, file_path: &str) -> RawContentFile {
    RawContentFile {
        md5: md5.to_string(),
        ctype: ctype.to_string(),
        file_path: file_path.to_string(),
    }
}

fn plan_manifest(entries: Vec<RawContentFile>) -> ContentFiles {
    ContentFiles::parse(&RawContentFiles { files: entries }).unwrap()
}

fn listing(files: &Vec<ContentFile>) -> Vec<(String, String)> {
    files.iter().map(|f| (f.file_path().to_string(), f.md5().to_string())).collect()
}

fn pair(path: &str, md5: &str) -> (String, String) {
    (path.to_string(), md5.to_string())
}

#[test]
fn plan_lists_shared_entries_first_then_the_profile() {
    let manifest = plan_manifest(vec![
        plan_entry("e1", "ets2", "/ets2/a"),
        plan_entry("s1", "system", "/shared/a"),
        plan_entry("a1", "ats", "/ats/a"),
        plan_entry("e2", "ets2", "/ets2/b"),
        plan_entry("s2", "system", "/shared/b"),
    ]);
    assert_eq!(
        listing(&plan(&manifest, Game::ETS2)),
        vec![pair("shared/a", "s1"), pair("shared/b", "s2"), pair("ets2/a", "e1"), pair("ets2/b", "e2")]
    );
    assert_eq!(
        listing(&plan(&manifest, Game::ATS)),
        vec![pair("shared/a", "s1"), pair("shared/b", "s2"), pair("ats/a", "a1")]
    );
}

#[test]
fn plan_is_deterministic() {
    let manifest = plan_manifest(vec![
        plan_entry("1", "system", "/a"),
        plan_entry("2", "ets2", "/b"),
        plan_entry("3", "ets2", "/a"),
        plan_entry("4", "ats", "/c"),
    ]);
    let first = plan(&manifest, Game::ETS2);
    let second = plan(&manifest, Game::ETS2);
    assert_eq!(listing(&first), listing(&second));
    assert_eq!(listing(&first), vec![pair("a", "1"), pair("b", "2")]);
}

#[test]
fn path_in_shared_and_profile_is_planned_once() {
    let manifest = plan_manifest(vec![
        plan_entry("from-profile", "ets2", "/bin/core.dll"),
        plan_entry("from-shared", "system", "/bin/core.dll"),
        plan_entry("other", "ets2", "/bin/other.dll"),
    ]);
    let files = plan(&manifest, Game::ETS2);
    let hits: Vec<&ContentFile> =
        files.iter().filter(|f| f.file_path() == "bin/core.dll").collect();
    assert_eq!(hits.len(), 1);
    assert_eq!(hits[0].md5(), "from-shared");
    assert_eq!(listing(&files), vec![pair("bin/core.dll", "from-shared"), pair("bin/other.dll", "other")]);
}

#[test]
fn repeated_path_within_a_bucket_keeps_the_first_entry() {
    let manifest = plan_manifest(vec![
        plan_entry("first", "system", "/x"),
        plan_entry("second", "system", "x"),
        plan_entry("third", "ats", "/x"),
        plan_entry("y1", "ats", "/y"),
        plan_entry("y2", "ats", "/y"),
    ]);
    assert_eq!(listing(&plan(&manifest, Game::ATS)), vec![pair("x", "first"), pair("y", "y1")]);
}

#[test]
fn plan_ignores_the_other_profile() {
    let manifest = plan_manifest(vec![
        plan_entry("a", "ats", "/only/ats"),
        plan_entry("e", "ets2", "/only/ets2"),
    ]);
    assert_eq!(listing(&plan(&manifest, Game::ETS2)), vec![pair("only/ets2", "e")]);
    assert_eq!(listing(&plan(&manifest, Game::ATS)), vec![pair("only/ats", "a")]);
}

#[test]
fn plan_of_empty_manifest_is_empty() {
    let manifest = plan_manifest(vec![]);
    assert!(plan(&manifest, Game::ETS2).is_empty());
    assert!(plan(&manifest, Game::ATS).is_empty());
}

#[test]
fn planned_paths_are_pairwise_distinct() {
    let mut entries = Vec::new();
    for i in 0..40 {
        entries.push(plan_entry("s", "system", &format!("/f{}", i % 7)));
        entries.push(plan_entry("e", "ets2", &format!("/f{}", i % 11)));
    }
    let files = plan(&plan_manifest(entries), Game::ETS2);
    assert_eq!(files.len(), 11);
    for i in 0..files.len() {
        for j in (i + 1)..files.len() {
            assert!(!files[i].same_path(&files[j]));
        }
    }
    for (i, file) in files.iter().enumerate() {
        assert_eq!(file.md5(), if i < 7 { "s" } else { "e" });
    }
}
