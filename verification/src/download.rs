//! The protocol of fetching a revision: what to ask of the source, what to
//! make of its answer, and what a file holds once a transfer, fresh or
//! resumed, has ended. Sending and receiving are the caller's part.

use vstd::prelude::*;
use crate::digest::{content_digest, Transfer};
use crate::inference::OnnxVariant;
use crate::installer::{
    filter_model_files_for_variant, selected_files, text_views, InstallError, InstallErrorView,
};
use crate::paths::{path_with_extension, with_extension};
use crate::text::{decimal_text, push_decimal, text_eq};

verus! {

/// The user agent every request carries.
pub const USER_AGENT: &'static str = "unbg-installer/0.1";

/// Where the files of a revision are listed.
pub open spec fn listing_url_text(model_id: Seq<char>, revision: Seq<char>) -> Seq<char> {
    "https://huggingface.co/api/models/"@ + model_id + "/tree/"@ + revision + "?recursive=1"@
}

pub fn listing_url(model_id: &str, revision: &str) -> (url: String)
    ensures
        url@ == listing_url_text(model_id@, revision@),
{
    let mut url: String = "https://huggingface.co/api/models/".to_string();
    url.append(model_id);
    url.append("/tree/");
    url.append(revision);
    url.append("?recursive=1");
    url
}

/// Where one file of a revision is fetched from.
pub open spec fn resolve_url_text(
    model_id: Seq<char>,
    revision: Seq<char>,
    file_path: Seq<char>,
) -> Seq<char> {
    "https://huggingface.co/"@ + model_id + "/resolve/"@ + revision + "/"@ + file_path
}

pub fn resolve_url(model_id: &str, revision: &str, file_path: &str) -> (url: String)
    ensures
        url@ == resolve_url_text(model_id@, revision@, file_path@),
{
    let mut url: String = "https://huggingface.co/".to_string();
    url.append(model_id);
    url.append("/resolve/");
    url.append(revision);
    url.append("/");
    url.append(file_path);
    url
}

/// The value of the authorization header, where there is a credential.
pub fn authorization_header(token: Option<&str>) -> (header: Option<String>)
    ensures
        match token {
            Some(t) => header is Some && header->0@ == "Bearer "@ + t@,
            None => header is None,
        },
{
    match token {
        Some(t) => {
            let mut value: String = "Bearer ".to_string();
            value.append(t);
            Some(value)
        },
        None => None,
    }
}

/// Where a file is kept while it is being received: beside its destination,
/// under the extension `part`.
pub fn partial_path(destination: &str) -> (path: String)
    ensures
        path@ == path_with_extension(destination@, "part"@),
{
    proof {
        reveal_strlit("part");
        assert("part"@.len() == 4);
        assert("part"@[0] == 'p' && "part"@[1] == 'a' && "part"@[2] == 'r' && "part"@[3] == 't');
    }
    with_extension(destination, "part")
}

/// The value of the range header: the remainder from `resume_from` on, where
/// something has been received before; no header where nothing has.
pub fn range_header(resume_from: u64) -> (header: Option<String>)
    ensures
        match header {
            Some(h) => resume_from > 0 && h@ == "bytes="@ + decimal_text(resume_from as nat) + "-"@,
            None => resume_from == 0,
        },
{
    if resume_from > 0 {
        let mut value: String = "bytes=".to_string();
        push_decimal(&mut value, resume_from);
        value.append("-");
        Some(value)
    } else {
        None
    }
}

/// A status of the success class, 200 to 299.
pub open spec fn is_success_status(status: u16) -> bool {
    200 <= status < 300
}

pub fn is_success(status: u16) -> (r: bool)
    ensures
        r == is_success_status(status),
{
    200 <= status && status < 300
}

/// What to do once the source has answered a request for a file.
#[derive(Debug, Clone, Copy, PartialEq, Eq, Structural)]
pub enum ResponseStep {
    /// The source sent the whole file where the remainder was asked for:
    /// discard what was received before and ask again, for the whole.
    Restart,
    /// The source refused: the transfer fails with its status.
    Fail,
    /// Take the body in, behind what was received before or from nothing.
    Receive { keep_partial: bool },
}

/// The step after the first answer, given how much had been received before
/// the request.
pub open spec fn response_step(resume_from: u64, status: u16) -> ResponseStep {
    if resume_from > 0 && status == 200 {
        ResponseStep::Restart
    } else if !is_success_status(status) {
        ResponseStep::Fail
    } else {
        ResponseStep::Receive { keep_partial: resume_from > 0 }
    }
}

/// The step after the answer to the request that follows a restart.
pub open spec fn restart_step(status: u16) -> ResponseStep {
    if !is_success_status(status) {
        ResponseStep::Fail
    } else {
        ResponseStep::Receive { keep_partial: false }
    }
}

pub fn first_response(resume_from: u64, status: u16) -> (step: ResponseStep)
    ensures
        step == response_step(resume_from, status),
{
    if resume_from > 0 && status == 200 {
        ResponseStep::Restart
    } else if !is_success(status) {
        ResponseStep::Fail
    } else {
        ResponseStep::Receive { keep_partial: resume_from > 0 }
    }
}

pub fn restarted_response(status: u16) -> (step: ResponseStep)
    ensures
        step == restart_step(status),
{
    if !is_success(status) {
        ResponseStep::Fail
    } else {
        ResponseStep::Receive { keep_partial: false }
    }
}

/// Where a transfer stands.
#[derive(Debug, Clone, Copy, PartialEq, Eq, Structural)]
pub enum Phase {
    /// The file is to be asked for: the remainder, where something was
    /// received before.
    Asking,
    /// The source sent the whole where the remainder was asked for: what
    /// was received before is to be discarded and the whole asked for.
    Restarting,
    /// The partial file on disk is to be read back, to be hashed.
    TakingPartial,
    /// The body of the answer is to be taken in.
    TakingBody,
    /// The source refused, with this status.
    Refused(u16),
}

/// One file on its way from the source: what to ask, what to make of the
/// answer, and the hash and length of what the file will hold.
pub struct Download {
    resume_from: u64,
    phase: Phase,
    transfer: Transfer,
}

pub struct DownloadView {
    pub resume_from: u64,
    pub phase: Phase,
    pub content: Seq<u8>,
    pub received: int,
}

impl View for Download {
    type V = DownloadView;

    closed spec fn view(&self) -> DownloadView {
        DownloadView {
            resume_from: self.resume_from,
            phase: self.phase,
            content: self.transfer.content(),
            received: self.transfer.count(),
        }
    }
}

/// A byte string cut into chunks, put together again.
pub open spec fn concat(chunks: Seq<Seq<u8>>) -> Seq<u8>
    decreases chunks.len(),
{
    if chunks.len() == 0 {
        Seq::empty()
    } else {
        concat(chunks.drop_last()) + chunks.last()
    }
}

impl DownloadView {
    /// The transfer before the first request, with `resume_from` bytes of
    /// the file on disk from an earlier attempt.
    pub open spec fn begun(resume_from: u64) -> DownloadView {
        DownloadView { resume_from, phase: Phase::Asking, content: Seq::empty(), received: 0 }
    }

    /// The transfer after the source answered with `status`.
    pub open spec fn answered(self, status: u16) -> DownloadView {
        let step = if self.phase == Phase::Restarting {
            restart_step(status)
        } else {
            response_step(self.resume_from, status)
        };
        match step {
            ResponseStep::Restart => DownloadView { phase: Phase::Restarting, ..self },
            ResponseStep::Fail => DownloadView { phase: Phase::Refused(status), ..self },
            ResponseStep::Receive { keep_partial } => DownloadView {
                phase: if keep_partial {
                    Phase::TakingPartial
                } else {
                    Phase::TakingBody
                },
                ..self
            },
        }
    }

    /// The transfer after a chunk was taken in, from the partial file or
    /// from the body.
    pub open spec fn took(self, chunk: Seq<u8>) -> DownloadView {
        DownloadView {
            content: self.content + chunk,
            received: self.received + chunk.len(),
            ..self
        }
    }

    /// The transfer after chunk upon chunk was taken in.
    pub open spec fn took_all(self, chunks: Seq<Seq<u8>>) -> DownloadView
        decreases chunks.len(),
    {
        if chunks.len() == 0 {
            self
        } else {
            self.took_all(chunks.drop_last()).took(chunks.last())
        }
    }

    /// The transfer once the partial file has been read back.
    pub open spec fn partial_taken(self) -> DownloadView {
        DownloadView { phase: Phase::TakingBody, ..self }
    }
}

impl Download {
    /// The byte count kept beside the hash is the length of the content.
    pub open spec fn well_formed(self) -> bool {
        self@.received == self@.content.len()
    }

    /// Starts the transfer of a file of which `resume_from` bytes are on
    /// disk from an earlier attempt.
    pub fn begin(resume_from: u64) -> (download: Download)
        ensures
            download.well_formed(),
            download@ == DownloadView::begun(resume_from),
    {
        Download { resume_from, phase: Phase::Asking, transfer: Transfer::begin() }
    }

    /// Where the transfer stands.
    pub fn phase(&self) -> (phase: Phase)
        ensures
            phase == self@.phase,
    {
        self.phase
    }

    /// The range header of the request to send: for the remainder on the
    /// first request where something is on disk, and none otherwise.
    pub fn range(&self) -> (header: Option<String>)
        ensures
            match header {
                Some(h) => self@.phase == Phase::Asking && self@.resume_from > 0 && h@ == "bytes="@
                    + decimal_text(self@.resume_from as nat) + "-"@,
                None => self@.phase != Phase::Asking || self@.resume_from == 0,
            },
    {
        match self.phase {
            Phase::Asking => range_header(self.resume_from),
            _ => None,
        }
    }

    /// Takes in the status of the answer to the request.
    pub fn answered(&mut self, status: u16)
        requires
            old(self).well_formed(),
            old(self)@.phase == Phase::Asking || old(self)@.phase == Phase::Restarting,
        ensures
            final(self).well_formed(),
            final(self)@ == old(self)@.answered(status),
    {
        let step: ResponseStep = match self.phase {
            Phase::Restarting => restarted_response(status),
            _ => first_response(self.resume_from, status),
        };
        match step {
            ResponseStep::Restart => {
                self.phase = Phase::Restarting;
            },
            ResponseStep::Fail => {
                self.phase = Phase::Refused(status);
            },
            ResponseStep::Receive { keep_partial } => {
                if keep_partial {
                    self.phase = Phase::TakingPartial;
                } else {
                    self.phase = Phase::TakingBody;
                }
            },
        }
    }

    /// Takes in the next chunk, read back from the partial file or received
    /// in the body. Returns `false`, and changes nothing, where the length
    /// of the file would no longer fit.
    pub fn take(&mut self, chunk: &[u8]) -> (taken: bool)
        requires
            old(self).well_formed(),
            old(self)@.phase == Phase::TakingPartial || old(self)@.phase == Phase::TakingBody,
        ensures
            final(self).well_formed(),
            taken == (old(self)@.content.len() + chunk@.len() <= u64::MAX),
            final(self)@ == if taken {
                old(self)@.took(chunk@)
            } else {
                old(self)@
            },
    {
        self.transfer.absorb(chunk)
    }

    /// Takes in that the partial file has been read back to its end.
    pub fn partial_taken(&mut self)
        requires
            old(self).well_formed(),
            old(self)@.phase == Phase::TakingPartial,
        ensures
            final(self).well_formed(),
            final(self)@ == old(self)@.partial_taken(),
    {
        self.phase = Phase::TakingBody;
    }

    /// Ends the transfer once the body has been taken in to its end: the
    /// length of the file and its content hash.
    pub fn finish(self) -> (r: (u64, String))
        requires
            self.well_formed(),
            self@.phase == Phase::TakingBody,
        ensures
            r.0 == self@.content.len(),
            r.1@ == content_digest(self@.content),
    {
        self.transfer.finish()
    }
}

proof fn lemma_took_all(view: DownloadView, chunks: Seq<Seq<u8>>)
    ensures
        view.took_all(chunks) == (DownloadView {
            content: view.content + concat(chunks),
            received: view.received + concat(chunks).len(),
            ..view
        }),
    decreases chunks.len(),
{
    if chunks.len() == 0 {
        assert(view.content + concat(chunks) =~= view.content);
    } else {
        lemma_took_all(view, chunks.drop_last());
        assert(view.content + concat(chunks.drop_last()) + chunks.last() =~= view.content + concat(
            chunks,
        ));
    }
}

/// A resumed transfer ends with the file. Where the first `k` bytes of a
/// file are on disk and the source answers the request for the remainder
/// with partial content, the partial file is read back and the body taken
/// in behind it, each in any number of chunks, and what the transfer ends
/// with is the file: its length, and the content hash of the file fetched
/// in one go.
pub proof fn lemma_resumed_transfer_ends_with_the_file(
    file: Seq<u8>,
    k: int,
    partial_chunks: Seq<Seq<u8>>,
    body_chunks: Seq<Seq<u8>>,
)
    requires
        0 < k <= file.len(),
        k <= u64::MAX,
        concat(partial_chunks) == file.take(k),
        concat(body_chunks) == file.skip(k),
    ensures
        DownloadView::begun(k as u64).answered(206).phase == Phase::TakingPartial,
        DownloadView::begun(k as u64).answered(206).took_all(
            partial_chunks,
        ).partial_taken().took_all(body_chunks) == (DownloadView {
            resume_from: k as u64,
            phase: Phase::TakingBody,
            content: file,
            received: file.len() as int,
        }),
{
    let asked = DownloadView::begun(k as u64).answered(206);
    lemma_took_all(asked, partial_chunks);
    let read_back = asked.took_all(partial_chunks).partial_taken();
    lemma_took_all(read_back, body_chunks);
    assert(Seq::<u8>::empty() + file.take(k) + file.skip(k) =~= file);
}

/// A transfer that starts over ends with the file. Where the source
/// answers the request for the remainder with the whole file, what was on
/// disk is discarded and the whole asked for; with that answered, nothing is
/// read back, the body is taken in from nothing, and what the transfer ends
/// with is the file.
pub proof fn lemma_restarted_transfer_ends_with_the_file(
    file: Seq<u8>,
    k: int,
    body_chunks: Seq<Seq<u8>>,
)
    requires
        0 < k <= u64::MAX,
        concat(body_chunks) == file,
    ensures
        DownloadView::begun(k as u64).answered(200).phase == Phase::Restarting,
        DownloadView::begun(k as u64).answered(200).answered(200).took_all(body_chunks) == (
        DownloadView {
            resume_from: k as u64,
            phase: Phase::TakingBody,
            content: file,
            received: file.len() as int,
        }),
{
    let restarted = DownloadView::begun(k as u64).answered(200).answered(200);
    lemma_took_all(restarted, body_chunks);
    assert(Seq::<u8>::empty() + file =~= file);
}

/// The failure of a transfer that the source refused.
pub fn download_failure(file_path: &str, model_id: &str, revision: &str, status: &str) -> (e:
    InstallError)
    ensures
        e@ == (InstallErrorView::DownloadFailed {
            file_path: file_path@,
            model_id: model_id@,
            revision: revision@,
            status: status@,
        }),
{
    InstallError::DownloadFailed {
        file_path: file_path.to_string(),
        model_id: model_id.to_string(),
        revision: revision.to_string(),
        status: status.to_string(),
    }
}

/// One entry of the remote listing.
#[derive(Debug)]
pub struct RemoteEntry {
    pub path: String,
    pub kind: String,
}

/// The paths of the entries that are files, in the order of the listing.
pub open spec fn remote_file_paths(entries: Seq<RemoteEntry>) -> Seq<Seq<char>>
    decreases entries.len(),
{
    if entries.len() == 0 {
        Seq::empty()
    } else {
        let front = remote_file_paths(entries.drop_last());
        if entries.last().kind@ == "file"@ {
            front.push(entries.last().path@)
        } else {
            front
        }
    }
}

pub fn remote_files(entries: &Vec<RemoteEntry>) -> (files: Vec<String>)
    ensures
        text_views(files@) == remote_file_paths(entries@),
{
    let mut files: Vec<String> = Vec::new();
    let mut i: usize = 0;
    assert(text_views(files@) =~= remote_file_paths(entries@.take(0)));
    while i < entries.len()
        invariant
            i <= entries.len(),
            text_views(files@) == remote_file_paths(entries@.take(i as int)),
        decreases entries.len() - i,
    {
        let ghost before = text_views(files@);
        proof {
            let grown = entries@.take(i + 1);
            assert(grown.drop_last() =~= entries@.take(i as int));
            assert(grown.last() == entries@[i as int]);
        }
        if text_eq(entries[i].kind.as_str(), "file") {
            files.push(entries[i].path.clone());
            assert(text_views(files@) =~= before.push(entries@[i as int].path@));
        }
        i = i + 1;
    }
    assert(entries@.take(i as int) =~= entries@);
    files
}

/// The files to fetch for a revision, from the source's answer to the
/// listing request: the listing fails where the status is no success, and
/// the revision is refused where nothing of it is to be fetched.
pub fn files_to_fetch(
    model_id: &str,
    revision: &str,
    status: u16,
    status_text: &str,
    entries: &Vec<RemoteEntry>,
    onnx_variant: OnnxVariant,
) -> (r: Result<Vec<String>, InstallError>)
    ensures
        match r {
            Ok(files) => {
                &&& is_success_status(status)
                &&& files.len() > 0
                &&& text_views(files@) == selected_files(remote_file_paths(entries@), onnx_variant)
            },
            Err(e) => if !is_success_status(status) {
                e@ == (InstallErrorView::ListingFailed {
                    model_id: model_id@,
                    revision: revision@,
                    status: status_text@,
                })
            } else {
                &&& selected_files(remote_file_paths(entries@), onnx_variant).len() == 0
                &&& e@ == (InstallErrorView::NoFilesListed {
                    model_id: model_id@,
                    revision: revision@,
                })
            },
        },
{
    if !is_success(status) {
        return Err(
            InstallError::ListingFailed {
                model_id: model_id.to_string(),
                revision: revision.to_string(),
                status: status_text.to_string(),
            },
        );
    }
    let all_files: Vec<String> = remote_files(entries);
    let files: Vec<String> = filter_model_files_for_variant(&all_files, onnx_variant);
    if files.len() == 0 {
        return Err(
            InstallError::NoFilesListed {
                model_id: model_id.to_string(),
                revision: revision.to_string(),
            },
        );
    }
    Ok(files)
}

} // verus!
