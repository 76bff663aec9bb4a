//! The manifest of expected files: its entries, their paths and the split
//! by category.

use vstd::prelude::*;
use vstd::string::*;

use crate::error::Error;
use crate::text::{chars_of, is_separator, same_text};

verus! {

/// The category tag of a manifest entry.
#[derive(Debug, Clone, Copy, PartialEq, Eq, Structural)]
pub enum ContentType {
    ETS2,
    ATS,
    System,
}

/// One manifest entry as the remote side wrote it.
#[derive(Debug)]
pub struct RawContentFile {
    pub md5: String,
    pub ctype: String,
    pub file_path: String,
}

/// The remote manifest as it was fetched.
#[derive(Debug)]
pub struct RawContentFiles {
    pub files: Vec<RawContentFile>,
}

/// One file that the manifest expects: its content hash, its category and
/// its path below the content root.
#[derive(Debug)]
pub struct ContentFile {
    md5: String,
    ctype: ContentType,
    file_path: String,
}

/// The manifest, split by category.
#[derive(Debug)]
pub struct ContentFiles {
    ets2: Vec<ContentFile>,
    ats: Vec<ContentFile>,
    shared: Vec<ContentFile>,
}

pub ghost struct RawContentFileView {
    pub md5: Seq<char>,
    pub ctype: Seq<char>,
    pub file_path: Seq<char>,
}

pub ghost struct ContentFileView {
    pub md5: Seq<char>,
    pub ctype: ContentType,
    pub file_path: Seq<char>,
}

pub ghost struct ContentFilesView {
    pub ets2: Seq<ContentFileView>,
    pub ats: Seq<ContentFileView>,
    pub shared: Seq<ContentFileView>,
}

impl View for RawContentFile {
    type V = RawContentFileView;

    open spec fn view(&self) -> RawContentFileView {
        RawContentFileView { md5: self.md5@, ctype: self.ctype@, file_path: self.file_path@ }
    }
}

impl DeepView for RawContentFile {
    type V = RawContentFileView;

    open spec fn deep_view(&self) -> RawContentFileView {
        self@
    }
}

impl View for RawContentFiles {
    type V = Seq<RawContentFileView>;

    open spec fn view(&self) -> Seq<RawContentFileView> {
        self.files.deep_view()
    }
}

impl View for ContentFile {
    type V = ContentFileView;

    closed spec fn view(&self) -> ContentFileView {
        ContentFileView { md5: self.md5@, ctype: self.ctype, file_path: self.file_path@ }
    }
}

impl DeepView for ContentFile {
    type V = ContentFileView;

    open spec fn deep_view(&self) -> ContentFileView {
        self@
    }
}

impl View for ContentFiles {
    type V = ContentFilesView;

    closed spec fn view(&self) -> ContentFilesView {
        ContentFilesView {
            ets2: self.ets2.deep_view(),
            ats: self.ats.deep_view(),
            shared: self.shared.deep_view(),
        }
    }
}

/// The category that a tag of the manifest stands for.
pub open spec fn content_type_of(tag: Seq<char>) -> Option<ContentType> {
    if tag == "ets2"@ {
        Some(ContentType::ETS2)
    } else if tag == "ats"@ {
        Some(ContentType::ATS)
    } else if tag == "system"@ {
        Some(ContentType::System)
    } else {
        None
    }
}

/// The path without its leading `/`, if it has one.
pub open spec fn strip_leading_separator(path: Seq<char>) -> Seq<char> {
    if path.len() > 0 && path[0] == '/' {
        path.subrange(1, path.len() as int)
    } else {
        path
    }
}

/// A segment `..` starts at position `at`.
pub open spec fn parent_segment_at(path: Seq<char>, at: int) -> bool {
    &&& 0 <= at
    &&& at + 2 <= path.len()
    &&& path[at] == '.'
    &&& path[at + 1] == '.'
    &&& (at == 0 || is_separator(path[at - 1]))
    &&& (at + 2 == path.len() || is_separator(path[at + 2]))
}

pub open spec fn has_parent_segment(path: Seq<char>) -> bool {
    exists|at: int| parent_segment_at(path, at)
}

/// The path begins with a drive designator such as `C:`.
pub open spec fn has_drive_prefix(path: Seq<char>) -> bool {
    path.len() >= 2 && path[1] == ':'
}

/// A path that stays below the directory it is joined to: not empty, not
/// absolute, and without a `..` segment.
pub open spec fn confined(path: Seq<char>) -> bool {
    &&& path.len() > 0
    &&& !is_separator(path[0])
    &&& !has_drive_prefix(path)
    &&& !has_parent_segment(path)
}

/// The entry that a raw entry stands for, if it is well formed.
pub open spec fn entry_of(raw: RawContentFileView) -> Option<ContentFileView> {
    match content_type_of(raw.ctype) {
        Some(ctype) => if confined(strip_leading_separator(raw.file_path)) {
            Some(
                ContentFileView {
                    md5: raw.md5,
                    ctype,
                    file_path: strip_leading_separator(raw.file_path),
                },
            )
        } else {
            None
        },
        None => None,
    }
}

pub open spec fn all_well_formed(raws: Seq<RawContentFileView>) -> bool {
    forall|i: int| 0 <= i < raws.len() ==> (#[trigger] entry_of(raws[i])) is Some
}

/// The entries of a manifest whose raw entries are all well formed.
pub open spec fn entries_of(raws: Seq<RawContentFileView>) -> Seq<ContentFileView> {
    Seq::new(raws.len(), |i: int| entry_of(raws[i]).unwrap())
}

/// The entries of one category, in the order of the manifest.
pub open spec fn bucket(entries: Seq<ContentFileView>, ctype: ContentType) -> Seq<
    ContentFileView,
> {
    entries.filter(|e: ContentFileView| e.ctype == ctype)
}

pub open spec fn partition(entries: Seq<ContentFileView>) -> ContentFilesView {
    ContentFilesView {
        ets2: bucket(entries, ContentType::ETS2),
        ats: bucket(entries, ContentType::ATS),
        shared: bucket(entries, ContentType::System),
    }
}

/// What parsing yields: the partitioned manifest, or nothing when any raw
/// entry is malformed.
pub open spec fn manifest_of(raws: Seq<RawContentFileView>) -> Option<ContentFilesView> {
    if all_well_formed(raws) {
        Some(partition(entries_of(raws)))
    } else {
        None
    }
}

pub open spec fn all_confined(entries: Seq<ContentFileView>) -> bool {
    forall|i: int| 0 <= i < entries.len() ==> confined((#[trigger] entries[i]).file_path)
}

pub open spec fn all_of_type(entries: Seq<ContentFileView>, ctype: ContentType) -> bool {
    forall|i: int| 0 <= i < entries.len() ==> (#[trigger] entries[i]).ctype == ctype
}

impl ContentFilesView {
    /// Every entry lies in the bucket of its own category and has a confined
    /// path.
    pub open spec fn wf(self) -> bool {
        &&& all_of_type(self.ets2, ContentType::ETS2)
        &&& all_of_type(self.ats, ContentType::ATS)
        &&& all_of_type(self.shared, ContentType::System)
        &&& all_confined(self.ets2)
        &&& all_confined(self.ats)
        &&& all_confined(self.shared)
    }
}

/// Reads a category tag.
pub fn parse_content_type(tag: &str) -> (ctype: Option<ContentType>)
    ensures
        ctype == content_type_of(tag@),
{
    if same_text(tag, "ets2") {
        Some(ContentType::ETS2)
    } else if same_text(tag, "ats") {
        Some(ContentType::ATS)
    } else if same_text(tag, "system") {
        Some(ContentType::System)
    } else {
        None
    }
}

/// Removes the leading `/` of a path, if it has one.
pub fn normalize_path(path: &str) -> (normal: String)
    ensures
        normal@ == strip_leading_separator(path@),
{
    let len: usize = path.unicode_len();
    if len > 0 && path.get_char(0) == '/' {
        String::from_str(path.substring_char(1, len))
    } else {
        String::from_str(path)
    }
}

fn separator(c: char) -> (yes: bool)
    ensures
        yes == is_separator(c),
{
    c == '/' || c == '\\'
}

/// Whether a path stays below the directory it is joined to.
pub fn is_confined(path: &str) -> (ok: bool)
    ensures
        ok == confined(path@),
{
    let p: Vec<char> = chars_of(path);
    let len: usize = p.len();
    if len == 0 || separator(p[0]) {
        return false;
    }
    if len >= 2 && p[1] == ':' {
        return false;
    }
    let mut at: usize = 0;
    while at + 1 < len
        invariant
            at < len,
            len == p@.len(),
            p@ == path@,
            forall|k: int| 0 <= k < at ==> !parent_segment_at(p@, k),
        decreases len - at,
    {
        if p[at] == '.' && p[at + 1] == '.' && (at == 0 || separator(p[at - 1])) && (at + 2 == len
            || separator(p[at + 2])) {
            assert(parent_segment_at(p@, at as int));
            return false;
        }
        at += 1;
    }
    true
}

impl ContentFile {
    #[verifier::type_invariant]
    spec fn inv(self) -> bool {
        confined(self.file_path@)
    }

    /// Reads one raw entry: the tag must name a category and the path, once
    /// its leading `/` is gone, must be confined.
    pub fn parse(raw: &RawContentFile) -> (file: Result<ContentFile, Error>)
        ensures
            match entry_of(raw@) {
                Some(entry) => file is Ok && file.unwrap()@ == entry,
                None => file == Err::<ContentFile, Error>(Error::MalformedManifest),
            },
    {
        let ctype = match parse_content_type(raw.ctype.as_str()) {
            Some(ctype) => ctype,
            None => { return Err(Error::MalformedManifest); },
        };
        let file_path = normalize_path(raw.file_path.as_str());
        if !is_confined(file_path.as_str()) {
            return Err(Error::MalformedManifest);
        }
        Ok(ContentFile { md5: raw.md5.clone(), ctype, file_path })
    }

    /// The expected content hash, in lower-case hexadecimal.
    pub fn md5(&self) -> (md5: &str)
        ensures
            md5@ == self@.md5,
    {
        self.md5.as_str()
    }

    pub fn ctype(&self) -> (ctype: ContentType)
        ensures
            ctype == self@.ctype,
    {
        self.ctype
    }

    /// The path below the content root; always confined.
    pub fn file_path(&self) -> (path: &str)
        ensures
            path@ == self@.file_path,
            confined(path@),
    {
        proof {
            use_type_invariant(self);
        }
        self.file_path.as_str()
    }

    /// Whether both entries name the same path.
    pub fn same_path(&self, other: &ContentFile) -> (same: bool)
        ensures
            same == (self@.file_path == other@.file_path),
    {
        self.file_path == other.file_path
    }
}

impl Clone for ContentFile {
    fn clone(&self) -> (copy: ContentFile)
        ensures
            copy@ == self@,
    {
        proof {
            use_type_invariant(self);
        }
        ContentFile {
            md5: self.md5.clone(),
            ctype: self.ctype,
            file_path: self.file_path.clone(),
        }
    }
}

/// Splitting by category loses nothing and adds nothing: the three buckets
/// together hold exactly the entries of the manifest, each as often as the
/// manifest lists it, and every bucket holds entries of its own category
/// only, so that no entry lies in two buckets.
pub proof fn lemma_partition_exact(entries: Seq<ContentFileView>)
    ensures
        all_of_type(partition(entries).ets2, ContentType::ETS2),
        all_of_type(partition(entries).ats, ContentType::ATS),
        all_of_type(partition(entries).shared, ContentType::System),
        partition(entries).ets2.to_multiset().add(partition(entries).ats.to_multiset()).add(
            partition(entries).shared.to_multiset(),
        ) == entries.to_multiset(),
    decreases entries.len(),
{
    broadcast use {vstd::seq_lib::group_to_multiset_ensures, vstd::seq_lib::group_filter_ensures};

    let ets2 = |e: ContentFileView| e.ctype == ContentType::ETS2;
    let ats = |e: ContentFileView| e.ctype == ContentType::ATS;
    let shared = |e: ContentFileView| e.ctype == ContentType::System;
    if entries.len() == 0 {
        reveal(Seq::filter);
        assert(partition(entries).ets2.to_multiset().add(
            partition(entries).ats.to_multiset(),
        ).add(partition(entries).shared.to_multiset()) =~= entries.to_multiset());
    } else {
        let front = entries.drop_last();
        let last = entries.last();
        lemma_partition_exact(front);
        assert(entries =~= front.push(last));
        front.lemma_filter_push(last, ets2);
        front.lemma_filter_push(last, ats);
        front.lemma_filter_push(last, shared);
        assert(partition(entries).ets2.to_multiset().add(
            partition(entries).ats.to_multiset(),
        ).add(partition(entries).shared.to_multiset()) =~= entries.to_multiset());
    }
}

/// Splitting keeps every entry's path confined.
pub proof fn lemma_partition_confined(entries: Seq<ContentFileView>)
    requires
        all_confined(entries),
    ensures
        partition(entries).wf(),
{
    lemma_partition_exact(entries);
    lemma_bucket_confined(entries, ContentType::ETS2);
    lemma_bucket_confined(entries, ContentType::ATS);
    lemma_bucket_confined(entries, ContentType::System);
}

proof fn lemma_bucket_confined(entries: Seq<ContentFileView>, ctype: ContentType)
    requires
        all_confined(entries),
    ensures
        all_confined(bucket(entries, ctype)),
{
    let pred = |e: ContentFileView| e.ctype == ctype;
    assert forall|i: int| 0 <= i < bucket(entries, ctype).len() implies confined(
        (#[trigger] bucket(entries, ctype)[i]).file_path,
    ) by {
        let e = bucket(entries, ctype)[i];
        assert(entries.filter(pred).contains(e));
        entries.lemma_filter_contains_rev(pred, e);
        let j = choose|j: int| 0 <= j < entries.len() && entries[j] == e;
        assert(confined(entries[j].file_path));
    }
}

/// Splits entries by category, keeping the order within each bucket.
pub fn partition_by_category(entries: &Vec<ContentFile>) -> (files: ContentFiles)
    ensures
        files@ == partition(entries.deep_view()),
        files@.wf(),
{
    let mut ets2: Vec<ContentFile> = Vec::new();
    let mut ats: Vec<ContentFile> = Vec::new();
    let mut shared: Vec<ContentFile> = Vec::new();
    let ghost all = entries.deep_view();
    proof {
        reveal(Seq::filter);
        assert(all.take(0) =~= Seq::<ContentFileView>::empty());
    }
    for i in 0..entries.len()
        invariant
            all == entries.deep_view(),
            ets2.deep_view() == bucket(all.take(i as int), ContentType::ETS2),
            ats.deep_view() == bucket(all.take(i as int), ContentType::ATS),
            shared.deep_view() == bucket(all.take(i as int), ContentType::System),
            all_confined(all.take(i as int)),
    {
        let file = entries[i].clone();
        proof {
            use_type_invariant(&file);
            let before = all.take(i as int);
            assert(all.take(i + 1) =~= before.push(file@));
            before.lemma_filter_push(file@, |e: ContentFileView| e.ctype == ContentType::ETS2);
            before.lemma_filter_push(file@, |e: ContentFileView| e.ctype == ContentType::ATS);
            before.lemma_filter_push(file@, |e: ContentFileView| e.ctype == ContentType::System);
        }
        let ghost old_ets2 = ets2.deep_view();
        let ghost old_ats = ats.deep_view();
        let ghost old_shared = shared.deep_view();
        match file.ctype {
            ContentType::ETS2 => {
                ets2.push(file);
                assert(ets2.deep_view() =~= old_ets2.push(file@));
            },
            ContentType::ATS => {
                ats.push(file);
                assert(ats.deep_view() =~= old_ats.push(file@));
            },
            ContentType::System => {
                shared.push(file);
                assert(shared.deep_view() =~= old_shared.push(file@));
            },
        }
    }
    proof {
        assert(all.take(entries.len() as int) =~= all);
        lemma_partition_confined(all);
    }
    ContentFiles { ets2, ats, shared }
}

impl ContentFiles {
    #[verifier::type_invariant]
    spec fn inv(self) -> bool {
        self@.wf()
    }

    /// Reads the fetched manifest. It is accepted only as a whole: one
    /// malformed entry makes the manifest malformed.
    pub fn parse(raw: &RawContentFiles) -> (files: Result<ContentFiles, Error>)
        ensures
            match manifest_of(raw@) {
                Some(manifest) => files is Ok && files.unwrap()@ == manifest && manifest.wf(),
                None => files == Err::<ContentFiles, Error>(Error::MalformedManifest),
            },
    {
        let mut entries: Vec<ContentFile> = Vec::new();
        for i in 0..raw.files.len()
            invariant
                entries@.len() == i,
                forall|k: int| 0 <= k < i ==> (#[trigger] entry_of(raw@[k])) == Some(entries@[k]@),
        {
            match ContentFile::parse(&raw.files[i]) {
                Ok(file) => {
                    entries.push(file);
                },
                Err(e) => {
                    assert(entry_of(raw@[i as int]) is None);
                    return Err(Error::MalformedManifest);
                },
            }
        }
        assert(entries.deep_view() =~= entries_of(raw@));
        Ok(partition_by_category(&entries))
    }

    /// The entries that only Euro Truck Simulator 2 needs.
    pub fn ets2(&self) -> (files: &Vec<ContentFile>)
        ensures
            files.deep_view() == self@.ets2,
            self@.wf(),
    {
        proof {
            use_type_invariant(self);
        }
        &self.ets2
    }

    /// The entries that only American Truck Simulator needs.
    pub fn ats(&self) -> (files: &Vec<ContentFile>)
        ensures
            files.deep_view() == self@.ats,
            self@.wf(),
    {
        proof {
            use_type_invariant(self);
        }
        &self.ats
    }

    /// The entries that both games need.
    pub fn shared(&self) -> (files: &Vec<ContentFile>)
        ensures
            files.deep_view() == self@.shared,
            self@.wf(),
    {
        proof {
            use_type_invariant(self);
        }
        &self.shared
    }
}

} // verus!
