//! The read of the media server's mount list: what is asked, and which
//! answers count.

use crate::config::{icecast_address, Icecast};
use vstd::prelude::*;

verus! {

/// Why a read of the media server gave no document.
#[derive(Debug, Clone, Copy, PartialEq, Eq)]
pub enum FetchError {
    /// The server could not be reached, or its answer did not arrive whole.
    Transport,
    /// The server answered with this status code, which is not 200.
    NonSuccess(u16),
}

/// One authenticated read: the address to get, and the name and password
/// that are sent along with it.
#[derive(Debug, Clone, PartialEq, Eq)]
pub struct FetchRequest<'a> {
    pub url: String,
    pub user: &'a str,
    pub password: &'a str,
}

/// A read as a mathematical value.
pub struct FetchRequestView {
    pub url: Seq<char>,
    pub user: Seq<char>,
    pub password: Seq<char>,
}

impl<'a> View for FetchRequest<'a> {
    type V = FetchRequestView;

    open spec fn view(&self) -> FetchRequestView {
        FetchRequestView { url: self.url@, user: self.user@, password: self.password@ }
    }
}

/// The status code of a successful read.
pub const STATUS_OK: u16 = 200;

/// The path of the mount list on the media server.
pub open spec fn list_mounts_path() -> Seq<char> {
    "admin/listmounts"@
}

/// The read of a resource of the configured server.
pub open spec fn request_for(config: Icecast, endpoint: Seq<char>) -> FetchRequestView {
    FetchRequestView {
        url: icecast_address(config.host@, config.port as int, endpoint),
        user: config.user@,
        password: config.password@,
    }
}

/// The read of a resource of the media server, signed with the configured
/// name and password.
pub fn fetch_request<'a>(config: &'a Icecast, endpoint: &str) -> (request: FetchRequest<'a>)
    ensures
        request@ == request_for(*config, endpoint@),
{
    FetchRequest {
        url: config.url(endpoint),
        user: config.user.as_str(),
        password: config.password.as_str(),
    }
}

/// The read of the mount list.
pub fn list_mounts_request<'a>(config: &'a Icecast) -> (request: FetchRequest<'a>)
    ensures
        request@ == request_for(*config, list_mounts_path()),
{
    fetch_request(config, "admin/listmounts")
}

/// Whether an answer with this status code is a document to go on with:
/// only 200 is.
pub fn check_status(status: u16) -> (result: Result<(), FetchError>)
    ensures
        status == STATUS_OK ==> result == Ok::<(), FetchError>(()),
        status != STATUS_OK ==> result == Err::<(), FetchError>(FetchError::NonSuccess(status)),
{
    if status == STATUS_OK {
        Ok(())
    } else {
        Err(FetchError::NonSuccess(status))
    }
}

} // verus!
