//! The file fetcher: what it decides before it asks the server, and what it
//! makes of the answer's status.

use crate::file_name::{file_name_from_path, name_for_path, parse_url_path, url_path};
use crate::text::texts;
use vstd::prelude::*;

verus! {

/// Why the fetcher gives up.
#[derive(Clone, Copy, Debug, PartialEq, Eq, Structural)]
pub enum FetchError {
    /// The command line did not hold exactly one URL.
    InvalidArguments,
    /// The argument is no URL, so no file name can be taken from it.
    NoFileName,
    /// The server answered with a status outside 200..=299.
    RequestUnsuccessful,
}

/// What to fetch and where to write it.
#[derive(Clone, Debug, PartialEq, Eq)]
pub struct Download {
    /// The URL, as it was given.
    pub url: String,
    /// The name of the file that the body is written to.
    pub file_name: String,
}

/// A download as a plain value.
pub struct DownloadView {
    pub url: Seq<char>,
    pub file_name: Seq<char>,
}

impl View for Download {
    type V = DownloadView;

    open spec fn view(&self) -> DownloadView {
        DownloadView { url: self.url@, file_name: self.file_name@ }
    }
}

/// The URL named by the command line `args`, whose first item is the
/// program's own name: the one argument. Any other number of arguments names
/// no URL.
pub open spec fn chosen_url(args: Seq<Seq<char>>) -> Option<Seq<char>> {
    if args.len() == 2 {
        Some(args[1])
    } else {
        None
    }
}

/// Whether a status code reports success.
pub open spec fn status_is_success(status: u16) -> bool {
    200 <= status < 300
}

/// What the fetcher does with a command line: the download it goes on to, or
/// the error it stops with before anything is asked of a server.
pub open spec fn planned(args: Seq<Seq<char>>) -> Result<DownloadView, FetchError> {
    match chosen_url(args) {
        None => Err(FetchError::InvalidArguments),
        Some(url) => match url_path(url) {
            None => Err(FetchError::NoFileName),
            Some(path) => Ok(DownloadView { url, file_name: name_for_path(path) }),
        },
    }
}

impl FetchError {
    /// The text of the diagnostic for this error.
    pub open spec fn message_text(self) -> Seq<char> {
        match self {
            FetchError::InvalidArguments => "Error: invalid number of arguments!"@,
            FetchError::NoFileName => "No file name"@,
            FetchError::RequestUnsuccessful => "Error: request unsuccessful"@,
        }
    }

    /// The diagnostic for this error.
    pub fn message(&self) -> (text: String)
        ensures
            text@ == self.message_text(),
    {
        match self {
            FetchError::InvalidArguments => "Error: invalid number of arguments!".to_owned(),
            FetchError::NoFileName => "No file name".to_owned(),
            FetchError::RequestUnsuccessful => "Error: request unsuccessful".to_owned(),
        }
    }
}

/// Picks the URL from the command line, whose first item is the program's
/// own name.
pub fn select_url(args: &Vec<String>) -> (url: Result<String, FetchError>)
    ensures
        match chosen_url(texts(args@)) {
            Some(chosen) => url matches Ok(u) && u@ == chosen,
            None => url == Err::<String, FetchError>(FetchError::InvalidArguments),
        },
        args.len() != 2 ==> url is Err,
{
    if args.len() == 2 {
        Ok(args[1].clone())
    } else {
        Err(FetchError::InvalidArguments)
    }
}

/// The name of the file that the body of `url` is written to: the last
/// segment of the URL's path, or `index.html` where the path has none. A
/// text that is no URL has no file name.
pub fn get_file_name(url: &str) -> (name: Result<String, FetchError>)
    ensures
        match url_path(url@) {
            Some(path) => name matches Ok(n) && n@ == name_for_path(path),
            None => name == Err::<String, FetchError>(FetchError::NoFileName),
        },
{
    match parse_url_path(url) {
        Some(path) => Ok(file_name_from_path(path.as_str())),
        None => Err(FetchError::NoFileName),
    }
}

/// Everything the fetcher settles before it asks the server: that there is
/// exactly one argument, and the file name that its URL gives.
pub fn plan_download(args: &Vec<String>) -> (plan: Result<Download, FetchError>)
    ensures
        match planned(texts(args@)) {
            Ok(download) => plan matches Ok(d) && d@ == download,
            Err(error) => plan == Err::<Download, FetchError>(error),
        },
        args.len() != 2 ==> plan == Err::<Download, FetchError>(FetchError::InvalidArguments),
{
    match select_url(args) {
        Err(error) => Err(error),
        Ok(url) => match get_file_name(url.as_str()) {
            Err(error) => Err(error),
            Ok(file_name) => Ok(Download { url, file_name }),
        },
    }
}

/// Whether a status code reports success: it lies in 200..=299.
pub fn is_success(status: u16) -> (yes: bool)
    ensures
        yes == status_is_success(status),
{
    200 <= status && status < 300
}

/// Accepts an answer by its status code: only a successful one lets the
/// download go on to its body.
pub fn check_status(status: u16) -> (checked: Result<(), FetchError>)
    ensures
        status_is_success(status) ==> checked == Ok::<(), FetchError>(()),
        !status_is_success(status) ==> checked == Err::<(), FetchError>(
            FetchError::RequestUnsuccessful,
        ),
{
    if is_success(status) {
        Ok(())
    } else {
        Err(FetchError::RequestUnsuccessful)
    }
}

/// The line that is printed once the file is written.
pub fn success_message() -> (line: String)
    ensures
        line@ == "Success!"@,
{
    "Success!".to_owned()
}

} // verus!
