//! What the download client's side of the pipeline decides without
//! talking to it.

use vstd::prelude::*;
use vstd::string::StringSliceAdditionalSpecFns;
use crate::encoding::{base64_encode, base64_text};
use crate::sizes::{format_bytes, si_size};
use crate::text::{chars_of, string_of, begins_with, same_text, push_str, push_signed, signed_decimal};

verus! {

/// The kind of a download, which decides how it is filed.
#[derive(Clone, Copy, Debug, PartialEq, Eq, Structural)]
pub enum Media {
    TV,
    Movie,
}

/// The kind of media a download directory holds, given the directories
/// configured for TV and for movies: TV where `path` begins with `tv_path`,
/// else Movie where it begins with `movie_path`, else neither.
pub open spec fn media_type_of(path: Seq<char>, tv_path: Seq<char>, movie_path: Seq<char>) -> Option<
    Media,
> {
    if tv_path.is_prefix_of(path) {
        Some(Media::TV)
    } else if movie_path.is_prefix_of(path) {
        Some(Media::Movie)
    } else {
        None
    }
}

/// Tells TV from movie downloads by the directory they were saved under.
pub fn get_media_type_from_path(path: &str, tv_path: &str, movie_path: &str) -> (r: Option<Media>)
    ensures
        r == media_type_of(path@, tv_path@, movie_path@),
{
    let p = chars_of(path);
    if begins_with(&p, &chars_of(tv_path)) {
        Some(Media::TV)
    } else if begins_with(&p, &chars_of(movie_path)) {
        Some(Media::Movie)
    } else {
        None
    }
}

/// The `Authorization` header for `credentials`, given their base64 text.
pub fn basic_authorization_with(encoded: &str) -> (out: String)
    ensures
        out@ == "Basic "@ + encoded@,
{
    let mut out = chars_of("Basic ");
    push_str(&mut out, encoded);
    string_of(&out)
}

/// The `Authorization` header for `credentials` (`user:password`): the word
/// `Basic` and the base64 text of their bytes.
pub fn basic_authorization(credentials: &str) -> (out: String)
    ensures
        out@ == "Basic "@ + base64_text(credentials.spec_bytes()),
{
    let encoded = base64_encode(credentials.as_bytes());
    basic_authorization_with(encoded.as_str())
}

/// The name of the setting that holds the download directory for a kind of media.
pub fn transmission_path_variable(media: Media) -> (out: String)
    ensures
        out@ == match media {
            Media::TV => "TRANSMISSION_TV_PATH"@,
            Media::Movie => "TRANSMISSION_MOVIE_PATH"@,
        },
{
    match media {
        Media::TV => string_of(&chars_of("TRANSMISSION_TV_PATH")),
        Media::Movie => string_of(&chars_of("TRANSMISSION_MOVIE_PATH")),
    }
}

/// What follows a response of the download client.
#[derive(Debug)]
pub enum RpcStep {
    /// The response is the answer.
    Accept,
    /// The request is to be sent again, with this session id.
    Retry(String),
    /// The call failed, with these words.
    Fail(String),
}

/// An `RpcStep` with its text as a character sequence.
pub enum RpcStepView {
    Accept,
    Retry(Seq<char>),
    Fail(Seq<char>),
}

impl View for RpcStep {
    type V = RpcStepView;

    open spec fn view(&self) -> RpcStepView {
        match *self {
            RpcStep::Accept => RpcStepView::Accept,
            RpcStep::Retry(id) => RpcStepView::Retry(id@),
            RpcStep::Fail(message) => RpcStepView::Fail(message@),
        }
    }
}

/// The status with which the client asks for a session id.
pub const SESSION_CONFLICT: u16 = 409;

/// A status of success: 200 to 299.
pub open spec fn is_success(status: u16) -> bool {
    200 <= status <= 299
}

/// What follows the first response to a call: a conflict hands out the
/// session id for a second try, success is the answer, anything else fails.
pub open spec fn first_response(status: u16, status_text: Seq<char>, session_id: Option<Seq<char>>) -> RpcStepView {
    if status == SESSION_CONFLICT {
        match session_id {
            Some(id) => RpcStepView::Retry(id),
            None => RpcStepView::Fail("First request to transmission didn't bring the token"@),
        }
    } else if is_success(status) {
        RpcStepView::Accept
    } else {
        RpcStepView::Fail("Error on transmission "@ + status_text)
    }
}

/// What follows the response to the second try: success is the answer,
/// anything else fails.
pub open spec fn retry_response(status: u16, status_text: Seq<char>) -> RpcStepView {
    if is_success(status) {
        RpcStepView::Accept
    } else {
        RpcStepView::Fail("Error on transmission "@ + status_text)
    }
}

/// What follows the first response to the call that adds a torrent: only a
/// conflict, which hands out the session id, leads on.
pub open spec fn first_add_response(
    status: u16,
    status_text: Seq<char>,
    session_id: Option<Seq<char>>,
) -> RpcStepView {
    if status == SESSION_CONFLICT {
        match session_id {
            Some(id) => RpcStepView::Retry(id),
            None => RpcStepView::Fail("First request to transmission didn't bring the token {}"@),
        }
    } else {
        RpcStepView::Fail("Error on transmission "@ + status_text)
    }
}

fn failure(status_text: &str) -> (step: RpcStep)
    ensures
        step@ == RpcStepView::Fail("Error on transmission "@ + status_text@),
{
    let mut text = chars_of("Error on transmission ");
    push_str(&mut text, status_text);
    RpcStep::Fail(string_of(&text))
}

/// What follows the first response to a call, given its status, the status
/// as the client words it, and the session id of its header, if any.
pub fn after_first_response(status: u16, status_text: &str, session_id: Option<String>) -> (step:
    RpcStep)
    ensures
        step@ == first_response(
            status,
            status_text@,
            match session_id {
                Some(id) => Some(id@),
                None => None,
            },
        ),
{
    if status == SESSION_CONFLICT {
        match session_id {
            Some(id) => RpcStep::Retry(id),
            None => RpcStep::Fail(
                string_of(&chars_of("First request to transmission didn't bring the token")),
            ),
        }
    } else if 200 <= status && status <= 299 {
        RpcStep::Accept
    } else {
        failure(status_text)
    }
}

/// What follows the response to the second try.
pub fn after_retry_response(status: u16, status_text: &str) -> (step: RpcStep)
    ensures
        step@ == retry_response(status, status_text@),
{
    if 200 <= status && status <= 299 {
        RpcStep::Accept
    } else {
        failure(status_text)
    }
}

/// What follows the first response to the call that adds a torrent.
pub fn after_first_add_response(status: u16, status_text: &str, session_id: Option<String>) -> (step:
    RpcStep)
    ensures
        step@ == first_add_response(
            status,
            status_text@,
            match session_id {
                Some(id) => Some(id@),
                None => None,
            },
        ),
{
    if status == SESSION_CONFLICT {
        match session_id {
            Some(id) => RpcStep::Retry(id),
            None => RpcStep::Fail(
                string_of(&chars_of("First request to transmission didn't bring the token {}")),
            ),
        }
    } else {
        failure(status_text)
    }
}

/// Whether the client reports the call as done: its `result` is `success`.
/// Otherwise the error names the result.
pub fn check_rpc_result(result: &str) -> (r: Result<(), String>)
    ensures
        result@ == "success"@ ==> r is Ok,
        result@ != "success"@ ==> r is Err && r->Err_0@ == "Transmission error: "@ + result@,
{
    if same_text(&chars_of(result), &chars_of("success")) {
        Ok(())
    } else {
        let mut text = chars_of("Transmission error: ");
        push_str(&mut text, result);
        Err(string_of(&text))
    }
}

/// One download of the client, with its progress in whole percent.
#[derive(Debug)]
pub struct Download {
    pub id: i64,
    pub name: String,
    pub status: i64,
    pub percent: i64,
    pub download_dir: String,
    pub total_size: i64,
    pub downloaded_ever: i64,
    pub uploaded_ever: i64,
}

/// A `Download` with its texts as character sequences.
pub struct DownloadView {
    pub id: i64,
    pub name: Seq<char>,
    pub status: i64,
    pub percent: i64,
    pub download_dir: Seq<char>,
    pub total_size: i64,
    pub downloaded_ever: i64,
    pub uploaded_ever: i64,
}

impl View for Download {
    type V = DownloadView;

    open spec fn view(&self) -> DownloadView {
        DownloadView {
            id: self.id,
            name: self.name@,
            status: self.status,
            percent: self.percent,
            download_dir: self.download_dir@,
            total_size: self.total_size,
            downloaded_ever: self.downloaded_ever,
            uploaded_ever: self.uploaded_ever,
        }
    }
}

/// The views of a list of downloads.
pub open spec fn download_views(downloads: Seq<Download>) -> Seq<DownloadView> {
    downloads.map_values(|d: Download| d@)
}

/// The sign shown for a status of the client.
pub open spec fn status_sign(status: i64) -> Seq<char> {
    if status == 0 {
        "⏸️"@
    } else if status == 1 || status == 3 || status == 5 {
        "⏳"@
    } else if status == 2 {
        "🔍"@
    } else if status == 4 {
        "⬇️"@
    } else if status == 6 {
        "⬆️"@
    } else {
        "❓"@
    }
}

/// A count of bytes as the client gives it, read as unsigned in 64 bits.
pub open spec fn as_size(n: i64) -> u64 {
    n as u64
}

/// The two lines on one download in the status report.
pub open spec fn status_lines(d: DownloadView) -> Seq<char> {
    status_sign(d.status) + " "@ + d.name + " ("@ + signed_decimal(d.percent as int) + "%)\n  Size: "@
        + si_size(as_size(d.total_size)) + ", Downloaded: "@ + si_size(as_size(d.downloaded_ever))
        + ", Uploaded: "@ + si_size(as_size(d.uploaded_ever)) + seq!['\n']
}

/// The lines on the first `n` downloads.
pub open spec fn status_body(downloads: Seq<DownloadView>, n: int) -> Seq<char>
    decreases n,
{
    if n <= 0 {
        Seq::empty()
    } else {
        status_body(downloads, n - 1) + status_lines(downloads[n - 1])
    }
}

/// The status report.
pub open spec fn status_report(downloads: Seq<DownloadView>) -> Seq<char> {
    if downloads.len() == 0 {
        "📊 No active downloads"@
    } else {
        "📊 Active Downloads:\n\n"@ + status_body(downloads, downloads.len() as int)
    }
}

fn unsigned(n: i64) -> (r: u64)
    ensures
        r == as_size(n),
{
    #[verifier::truncate]
    (n as u64)
}

/// Reports the progress of the downloads.
pub fn format_status(downloads: &Vec<Download>) -> (out: String)
    ensures
        out@ == status_report(download_views(downloads@)),
{
    if downloads.len() == 0 {
        return string_of(&chars_of("📊 No active downloads"));
    }
    let ghost views = download_views(downloads@);
    let mut out = chars_of("📊 Active Downloads:\n\n");
    let ghost head = out@;
    let mut i: usize = 0;
    assert(out@ =~= head + status_body(views, 0));
    while i < downloads.len()
        invariant
            i <= downloads.len(),
            views == download_views(downloads@),
            out@ == head + status_body(views, i as int),
        decreases downloads.len() - i,
    {
        let ghost before = out@;
        let d = &downloads[i];
        assert(views[i as int] == d@);
        let sign = if d.status == 0 {
            "⏸️"
        } else if d.status == 1 || d.status == 3 || d.status == 5 {
            "⏳"
        } else if d.status == 2 {
            "🔍"
        } else if d.status == 4 {
            "⬇️"
        } else if d.status == 6 {
            "⬆️"
        } else {
            "❓"
        };
        push_str(&mut out, sign);
        push_str(&mut out, " ");
        push_str(&mut out, d.name.as_str());
        push_str(&mut out, " (");
        push_signed(&mut out, d.percent);
        push_str(&mut out, "%)\n  Size: ");
        push_str(&mut out, format_bytes(unsigned(d.total_size)).as_str());
        push_str(&mut out, ", Downloaded: ");
        push_str(&mut out, format_bytes(unsigned(d.downloaded_ever)).as_str());
        push_str(&mut out, ", Uploaded: ");
        push_str(&mut out, format_bytes(unsigned(d.uploaded_ever)).as_str());
        out.push('\n');
        assert(out@ =~= before + status_lines(views[i as int]));
        i += 1;
    }
    string_of(&out)
}

} // verus!
