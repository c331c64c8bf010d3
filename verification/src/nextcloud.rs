//! Addresses and answers of a Nextcloud server.
use vstd::prelude::*;

use crate::error::{AppError, ErrorView};
use crate::text::{
    law_leading_is_ignored, law_trailing_is_ignored, law_without_trailing, occurs_at,
    trim_end_matches, trim_start_matches, without_leading, without_trailing,
};

verus! {

/// An account on a Nextcloud server.
#[derive(Debug)]
pub struct NextcloudClient {
    base_url: String,
    username: String,
    password: String,
}

/// What a `NextcloudClient` holds.
#[verifier::ext_equal]
pub struct AccountView {
    pub base_url: Seq<char>,
    pub username: Seq<char>,
    pub password: Seq<char>,
}

impl View for NextcloudClient {
    type V = AccountView;

    closed spec fn view(&self) -> AccountView {
        AccountView {
            base_url: self.base_url@,
            username: self.username@,
            password: self.password@,
        }
    }
}

/// The account `user` on the server at `url`, however many slashes the address
/// ends in.
pub open spec fn account(url: Seq<char>, user: Seq<char>, password: Seq<char>) -> AccountView {
    AccountView { base_url: without_trailing(url, '/'), username: user, password }
}

impl AccountView {
    /// The address under which all files of the account stand.
    pub open spec fn files_url(self) -> Seq<char> {
        self.base_url + "/remote.php/dav/files/"@ + self.username + "/"@
    }

    /// The address of a file or a folder of the account.
    pub open spec fn dav_url(self, remote_path: Seq<char>) -> Seq<char> {
        self.files_url() + without_leading(remote_path, '/')
    }
}

/// The statuses that report success.
pub open spec fn success(status: u16) -> bool {
    200 <= status <= 299
}

/// The statuses after which a folder that was asked for is there: the server
/// made it, or refused the method because the folder exists.
pub open spec fn folder_is_there(status: u16) -> bool {
    success(status) || status == 405
}

/// The server's refusal. A body that could not be read counts as empty.
pub open spec fn refusal(status: u16, body: Option<Seq<char>>) -> ErrorView {
    ErrorView::Nextcloud { status, body: body.unwrap_or(Seq::empty()) }
}

/// What a string that may be missing holds.
pub open spec fn opt_view(s: Option<String>) -> Option<Seq<char>> {
    match s {
        Some(s) => Some(s@),
        None => None,
    }
}

/// Whether a status reports success.
pub fn is_success(status: u16) -> (r: bool)
    ensures
        r == success(status),
{
    200 <= status && status < 300
}

/// Whether a folder is there after the server answered the request to make it.
pub fn folder_ready(status: u16) -> (r: bool)
    ensures
        r == folder_is_there(status),
{
    is_success(status) || status == 405
}

impl NextcloudClient {
    /// The account `username` on the server at `base_url`.
    pub fn new(base_url: &str, username: &str, password: &str) -> (r: NextcloudClient)
        ensures
            r@ == account(base_url@, username@, password@),
    {
        NextcloudClient {
            base_url: trim_end_matches(base_url, '/'),
            username: username.to_owned(),
            password: password.to_owned(),
        }
    }

    /// The name of the account.
    pub fn username(&self) -> (r: &str)
        ensures
            r@ == self@.username,
    {
        self.username.as_str()
    }

    /// The password of the account.
    pub fn password(&self) -> (r: &str)
        ensures
            r@ == self@.password,
    {
        self.password.as_str()
    }

    /// The address of a file or a folder of the account.
    pub fn build_dav_url(&self, remote_path: &str) -> (r: String)
        ensures
            r@ == self@.dav_url(remote_path@),
    {
        self.base_url.clone().concat("/remote.php/dav/files/").concat(
            self.username.as_str(),
        ).concat("/").concat(trim_start_matches(remote_path, '/').as_str())
    }

    /// What an answer of the server amounts to.
    pub fn check_response(status: u16, body: Option<String>) -> (r: Result<(), AppError>)
        ensures
            success(status) <==> r is Ok,
            r matches Err(e) ==> e@ == refusal(status, opt_view(body)),
    {
        if is_success(status) {
            Ok(())
        } else {
            let body = match body {
                Some(text) => text,
                None => String::new(),
            };
            Err(AppError::Nextcloud { status, body })
        }
    }
}

/// Slashes at the end of the server's address make no difference.
pub proof fn law_slashes_behind_the_server(
    url: Seq<char>,
    user: Seq<char>,
    password: Seq<char>,
)
    ensures
        account(url.push('/'), user, password) == account(url, user, password),
        account(url, user, password).base_url.len() > 0 ==> account(
            url,
            user,
            password,
        ).base_url.last() != '/',
{
    law_trailing_is_ignored(url, '/');
    law_without_trailing(url, '/');
}

/// Slashes in front of a remote path make no difference.
pub proof fn law_slashes_before_the_path(account: AccountView, path: Seq<char>)
    ensures
        account.dav_url(seq!['/'] + path) == account.dav_url(path),
{
    law_leading_is_ignored(path, '/');
}

/// Every address of the account stands among its files.
pub proof fn law_addresses_are_in_the_account(account: AccountView, path: Seq<char>)
    ensures
        occurs_at(account.dav_url(path), account.files_url(), 0),
{
    let files = account.files_url();
    assert(account.dav_url(path).subrange(0, files.len() as int) =~= files);
}

/// Two paths have the same address only if they are the same but for the
/// slashes in front of them.
pub proof fn law_addresses_differ(account: AccountView, a: Seq<char>, b: Seq<char>)
    ensures
        account.dav_url(a) == account.dav_url(b) <==> without_leading(a, '/') == without_leading(
            b,
            '/',
        ),
{
    let n = account.files_url().len() as int;
    assert(without_leading(a, '/') =~= account.dav_url(a).skip(n));
    assert(without_leading(b, '/') =~= account.dav_url(b).skip(n));
}

/// The address of a file of an account, from what the account was made with:
/// the server's address, the fixed path, the user name and the path of the file.
pub proof fn law_address_of_a_file(
    url: Seq<char>,
    user: Seq<char>,
    password: Seq<char>,
    path: Seq<char>,
)
    requires
        url.len() > 0 ==> url.last() != '/',
        path.len() > 0 ==> path[0] != '/',
    ensures
        account(url, user, password).dav_url(path) == url + "/remote.php/dav/files/"@ + user + "/"@
            + path,
        account(url, user, password).username == user,
        account(url, user, password).password == password,
{
}

/// A success is a status of the third hundred, and a folder is there after one
/// or where the method is not allowed.
pub proof fn law_statuses(status: u16)
    ensures
        success(status) <==> status as nat / 100 == 2,
        folder_is_there(status) <==> status as nat / 100 == 2 || status == 405,
{
}

/// A refusal keeps the status, and the body where it could be read.
pub proof fn law_refusals_are_kept(status: u16, body: Seq<char>)
    ensures
        refusal(status, Some(body)) == (ErrorView::Nextcloud { status, body }),
        refusal(status, None) == (ErrorView::Nextcloud { status, body: Seq::empty() }),
{
}

} // verus!
