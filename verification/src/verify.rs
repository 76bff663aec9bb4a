//! Verification of local files against the manifest.

use vstd::prelude::*;

use crate::digest::{
    consumed, content_hash, context_consume, context_finalize, context_new, hex_matches,
};
use crate::error::Error;
use crate::manifest::ContentFile;

verus! {

/// What a local file is, held against the manifest.
#[derive(Debug, Clone, Copy, PartialEq, Eq, Structural)]
pub enum VerificationResult {
    /// The file exists and has the expected content hash.
    Match,
    /// The file exists and has another content hash.
    Mismatch,
    /// No file exists at the path.
    Missing,
}

/// What reading a local file gave, as a mathematical value.
pub ghost enum LocalFileView {
    Absent,
    Unreadable,
    Read(Seq<u8>),
}

/// The verdict on a file with the given content, or on no file.
pub open spec fn verdict(content: Option<Seq<u8>>, expected: Seq<char>) -> VerificationResult {
    match content {
        None => VerificationResult::Missing,
        Some(bytes) => if content_hash(bytes) == expected {
            VerificationResult::Match
        } else {
            VerificationResult::Mismatch
        },
    }
}

/// The result of verifying an entry against what reading its file gave.
pub open spec fn verify_spec(local: LocalFileView, expected: Seq<char>) -> Result<
    VerificationResult,
    Error,
> {
    match local {
        LocalFileView::Absent => Ok(verdict(None, expected)),
        LocalFileView::Unreadable => Err(Error::VerificationIOError),
        LocalFileView::Read(bytes) => Ok(verdict(Some(bytes), expected)),
    }
}

/// Whether a verification result puts the file into the residual set.
pub open spec fn needs_download(result: VerificationResult) -> bool {
    result != VerificationResult::Match
}

/// The content of one file on its way through the hash, chunk by chunk.
pub struct FileCheck {
    context: md5::Context,
}

impl View for FileCheck {
    type V = Seq<u8>;

    /// The bytes taken in so far.
    closed spec fn view(&self) -> Seq<u8> {
        consumed(self.context)
    }
}

impl FileCheck {
    /// Begins with a file of which nothing has been read yet.
    pub fn new() -> (check: FileCheck)
        ensures
            check@ == Seq::<u8>::empty(),
    {
        FileCheck { context: context_new() }
    }

    /// Takes in the next chunk of the file.
    pub fn update(&mut self, chunk: &[u8])
        ensures
            final(self)@ == old(self)@ + chunk@,
    {
        context_consume(&mut self.context, chunk);
    }

    /// Gives the verdict once the whole file has been taken in: `Match` if its
    /// content hash is the entry's, character for character, `Mismatch` if
    /// not.
    pub fn finish(self, file: &ContentFile) -> (result: VerificationResult)
        ensures
            result == verdict(Some(self@), file@.md5),
    {
        let digest: [u8; 16] = context_finalize(self.context);
        if hex_matches(&digest, file.md5()) {
            VerificationResult::Match
        } else {
            VerificationResult::Mismatch
        }
    }
}

/// What reading a local file gave.
pub enum LocalFile {
    /// No file exists at the path; it was not opened.
    Absent,
    /// The file exists, but opening or reading it failed.
    Unreadable,
    /// The file was read to its end, every chunk passing through the hash.
    Read(FileCheck),
}

impl View for LocalFile {
    type V = LocalFileView;

    open spec fn view(&self) -> LocalFileView {
        match self {
            LocalFile::Absent => LocalFileView::Absent,
            LocalFile::Unreadable => LocalFileView::Unreadable,
            LocalFile::Read(check) => LocalFileView::Read(check@),
        }
    }
}

/// Verifies one entry against what reading its file gave: `Missing` if no
/// file exists, `Match` if the file's content hash is the entry's,
/// `Mismatch` otherwise. A file that could not be read is an error, never a
/// mismatch.
pub fn verify(file: &ContentFile, local: LocalFile) -> (result: Result<VerificationResult, Error>)
    ensures
        result == verify_spec(local@, file@.md5),
{
    match local {
        LocalFile::Absent => Ok(VerificationResult::Missing),
        LocalFile::Unreadable => Err(Error::VerificationIOError),
        LocalFile::Read(check) => Ok(check.finish(file)),
    }
}

/// Whether the local file has the content that the manifest expects.
pub fn check_file_hash(content_file: &ContentFile, local: LocalFile) -> (result: Result<
    bool,
    Error,
>)
    ensures
        match verify_spec(local@, content_file@.md5) {
            Ok(r) => result == Ok::<bool, Error>(r == VerificationResult::Match),
            Err(e) => result == Err::<bool, Error>(e),
        },
{
    match verify(content_file, local) {
        Ok(VerificationResult::Match) => Ok(true),
        Ok(_) => Ok(false),
        Err(e) => Err(e),
    }
}

/// Verification depends on nothing but the file's bytes and the expected
/// hash: the result is `Match` exactly when a file was read and its content
/// hash is the expected one, `Missing` exactly when no file exists,
/// `Mismatch` exactly when a file was read and its content hash is another,
/// and an error exactly when the file exists and could not be read.
pub proof fn lemma_verify_cases(local: LocalFileView, expected: Seq<char>)
    ensures
        verify_spec(local, expected) == Ok::<VerificationResult, Error>(VerificationResult::Match)
            <==> local is Read && content_hash(local->Read_0) == expected,
        verify_spec(local, expected) == Ok::<VerificationResult, Error>(
            VerificationResult::Missing,
        ) <==> local is Absent,
        verify_spec(local, expected) == Ok::<VerificationResult, Error>(
            VerificationResult::Mismatch,
        ) <==> local is Read && content_hash(local->Read_0) != expected,
        verify_spec(local, expected) is Err <==> local is Unreadable,
        verify_spec(local, expected) is Err ==> verify_spec(local, expected) == Err::<
            VerificationResult,
            Error,
        >(Error::VerificationIOError),
{
}

} // verus!
