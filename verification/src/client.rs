//! Client orchestration: the query parameters and form bodies of every forum
//! operation, the status-only success rule for login and reply submission,
//! the lenient decode rule for profile lookup, and the pagination protocol
//! for the bookmarked-threads listing.
//!
//! The transport that actually sends these requests is an external
//! collaborator: it receives plain name/value pairs from this module and
//! hands back plain status codes and page bodies.

use vstd::prelude::*;
use crate::error::{Error, ErrorV};
use crate::text::{dec_digits, kv, u64_to_string};
use crate::thread_list::Thread;
use vstd::string::StringExecFns;

verus! {

/// References a forum user.
pub enum User<'a> {
    /// References the current logged-in user.
    CurrentUser,
    /// References a user ID.
    UserID(&'a str),
    /// References a username.
    Username(&'a str),
}

/// References a page of posts within a thread.
pub enum ThreadPage {
    /// The first page of the thread.
    First,
    /// The last page of the thread.
    Last,
    /// The first unseen page of the thread.
    New,
    /// A specific page of the thread. This should be between 1 and the
    /// maximum page inclusive.
    Page(usize),
}

/// All data in a user's public profile. The post rate is carried as the
/// decimal text the transport decoded it from: it is a floating-point number
/// on the wire, which this library does not interpret.
#[derive(Debug, Clone, PartialEq, Eq)]
pub struct Profile {
    pub userid: i64,
    pub username: String,
    pub homepage: String,
    pub icq: String,
    pub aim: String,
    pub yahoo: String,
    pub gender: String,
    pub usertitle: String,
    pub joindate: i64,
    pub lastpost: i64,
    pub posts: i64,
    pub receivepm: i64,
    pub postsperday: String,
    pub role: String,
    pub biography: String,
    pub location: String,
    pub interests: String,
    pub occupation: String,
    pub picture: String,
    pub avpath: String,
}

/// What came back from a profile-lookup request, as the transport saw it:
/// a body that decoded as profile data (or as an explicit null), a body that
/// failed to decode, or no body at all.
pub enum ProfileFetch {
    /// The response body decoded as structured profile data.
    Decoded(Option<Profile>),
    /// The response body failed to decode as structured profile data. The
    /// server's only signal for "no such user" is an HTML error page in place
    /// of the expected data, so this is how absence presents itself.
    DecodeFailure,
    /// The request itself failed, with the transport's message.
    TransportFailure(String),
}

/// The form body of a login request.
pub fn login_form(username: &str, password: &str) -> (r: Vec<(String, String)>)
    ensures
        r@.len() == 4,
        kv(r@[0]) == ("action"@, "login"@),
        kv(r@[1]) == ("username"@, username@),
        kv(r@[2]) == ("password"@, password@),
        kv(r@[3]) == ("next"@, "/index.php?json=1"@),
{
    let mut r: Vec<(String, String)> = Vec::new();
    r.push((String::from_str("action"), String::from_str("login")));
    r.push((String::from_str("username"), username.to_owned()));
    r.push((String::from_str("password"), password.to_owned()));
    r.push((String::from_str("next"), String::from_str("/index.php?json=1")));
    r
}

/// The query parameters of a profile lookup for `user`.
pub fn profile_query(user: &User) -> (r: Vec<(String, String)>)
    ensures
        kv(r@[0]) == ("action"@, "getinfo"@),
        match *user {
            User::CurrentUser => r@.len() == 2 && kv(r@[1]) == ("json"@, "1"@),
            User::UserID(id) => r@.len() == 3 && kv(r@[1]) == ("userid"@, id@) && kv(r@[2]) == (
                "json"@,
                "1"@,
            ),
            User::Username(name) => r@.len() == 3 && kv(r@[1]) == ("username"@, name@) && kv(
                r@[2],
            ) == ("json"@, "1"@),
        },
{
    let mut r: Vec<(String, String)> = Vec::new();
    r.push((String::from_str("action"), String::from_str("getinfo")));
    match user {
        User::CurrentUser => {},
        User::UserID(id) => {
            r.push((String::from_str("userid"), (*id).to_owned()));
        },
        User::Username(name) => {
            r.push((String::from_str("username"), (*name).to_owned()));
        },
    }
    r.push((String::from_str("json"), String::from_str("1")));
    r
}

/// The query parameters of a request for one page of posts of a thread:
/// the thread id, the fixed page size of 40, and the page selector.
pub fn posts_query(thread_id: &str, page: &ThreadPage) -> (r: Vec<(String, String)>)
    ensures
        kv(r@[0]) == ("threadid"@, thread_id@),
        kv(r@[1]) == ("perpage"@, "40"@),
        match *page {
            ThreadPage::First => r@.len() == 2,
            ThreadPage::Last => r@.len() == 3 && kv(r@[2]) == ("goto"@, "lastpost"@),
            ThreadPage::New => r@.len() == 3 && kv(r@[2]) == ("goto"@, "newpost"@),
            ThreadPage::Page(n) => r@.len() == 3 && kv(r@[2]) == (
                "pagenumber"@,
                dec_digits(n as nat),
            ),
        },
{
    let mut r: Vec<(String, String)> = Vec::new();
    r.push((String::from_str("threadid"), thread_id.to_owned()));
    r.push((String::from_str("perpage"), String::from_str("40")));
    match page {
        ThreadPage::First => {},
        ThreadPage::Last => {
            r.push((String::from_str("goto"), String::from_str("lastpost")));
        },
        ThreadPage::New => {
            r.push((String::from_str("goto"), String::from_str("newpost")));
        },
        ThreadPage::Page(n) => {
            r.push((String::from_str("pagenumber"), u64_to_string(*n as u64)));
        },
    }
    r
}

/// The query parameters of a request for a thread's compose-reply page, from
/// which the reply tokens are scraped.
pub fn compose_query(thread_id: &str) -> (r: Vec<(String, String)>)
    ensures
        r@.len() == 2,
        kv(r@[0]) == ("action"@, "newreply"@),
        kv(r@[1]) == ("threadid"@, thread_id@),
{
    let mut r: Vec<(String, String)> = Vec::new();
    r.push((String::from_str("action"), String::from_str("newreply")));
    r.push((String::from_str("threadid"), thread_id.to_owned()));
    r
}

/// The query parameters of a request for page `page` of the
/// bookmarked-threads listing.
pub fn bookmarks_query(page: usize) -> (r: Vec<(String, String)>)
    ensures
        r@.len() == 3,
        kv(r@[0]) == ("action"@, "view"@),
        kv(r@[1]) == ("perpage"@, "40"@),
        kv(r@[2]) == ("pagenumber"@, dec_digits(page as nat)),
{
    let mut r: Vec<(String, String)> = Vec::new();
    r.push((String::from_str("action"), String::from_str("view")));
    r.push((String::from_str("perpage"), String::from_str("40")));
    r.push((String::from_str("pagenumber"), u64_to_string(page as u64)));
    r
}

/// Decides login and reply submission from the HTTP status alone: any
/// client-error or server-error status is a login-class failure, whatever its
/// actual cause, because the server returns no structured failure reason.
pub fn submission_outcome(status: u16) -> (r: Result<(), Error>)
    ensures
        400 <= status <= 599 ==> r == Err::<(), Error>(Error::LoginError),
        !(400 <= status <= 599) ==> r == Ok::<(), Error>(()),
{
    if 400 <= status && status <= 599 {
        Err(Error::LoginError)
    } else {
        Ok(())
    }
}

/// Decides a profile lookup from what the transport decoded. A body that
/// fails to decode as profile data is deliberately treated as "user not
/// found" rather than an error: the server's only not-found signal is a
/// malformed body. Transport failures still propagate.
pub fn profile_outcome(fetch: ProfileFetch) -> (r: Result<Option<Profile>, Error>)
    ensures
        match fetch {
            ProfileFetch::Decoded(d) => r == Ok::<_, Error>(d),
            ProfileFetch::DecodeFailure => r == Ok::<_, Error>(None::<Profile>),
            ProfileFetch::TransportFailure(m) => r matches Err(e) && e@ == ErrorV::TransportError(
                m@,
            ),
        },
{
    match fetch {
        ProfileFetch::Decoded(d) => Ok(d),
        ProfileFetch::DecodeFailure => Ok(None),
        ProfileFetch::TransportFailure(m) => Err(Error::TransportError(m)),
    }
}

/// The fixed page size of the bookmarked-threads listing. A page of exactly
/// this many rows means another page must be requested; a shorter page ends
/// pagination. This is a heuristic bound, not a count returned by the server.
pub const THREADS_PER_PAGE: usize = 40;

/// The mathematical state of a [`BookmarkPagination`].
pub struct BookmarkPaginationV {
    /// The rows aggregated so far, in document order.
    pub threads: Seq<Thread>,
    /// The next page to request, counted from 1.
    pub next_page: int,
    /// Whether a short page has ended the pagination.
    pub done: bool,
}

/// The state before any page was fetched: nothing aggregated, page 1 wanted.
pub open spec fn pagination_init() -> BookmarkPaginationV {
    BookmarkPaginationV { threads: Seq::empty(), next_page: 1, done: false }
}

/// One pagination step: append the page's rows in order; exactly a full page
/// asks for the next page, anything shorter (or longer) ends the run.
pub open spec fn pagination_step(s: BookmarkPaginationV, page: Seq<Thread>) -> BookmarkPaginationV {
    BookmarkPaginationV {
        threads: s.threads + page,
        next_page: if page.len() == THREADS_PER_PAGE { s.next_page + 1 } else { s.next_page },
        done: page.len() != THREADS_PER_PAGE,
    }
}

/// The state after feeding `pages` in order, starting from `s`.
pub open spec fn pagination_run(s: BookmarkPaginationV, pages: Seq<Seq<Thread>>) -> BookmarkPaginationV
    decreases pages.len(),
{
    if pages.len() == 0 {
        s
    } else {
        pagination_step(pagination_run(s, pages.drop_last()), pages.last())
    }
}

/// The pagination protocol of the bookmarked-threads listing, as a state
/// machine. The driver asks [`Self::current_page`] which page to fetch,
/// parses it, and hands the rows to [`Self::feed`], until [`Self::done`];
/// the aggregate keeps every row of every page in document order.
pub struct BookmarkPagination {
    threads: Vec<Thread>,
    next_page: usize,
    done: bool,
}

impl View for BookmarkPagination {
    type V = BookmarkPaginationV;

    closed spec fn view(&self) -> BookmarkPaginationV {
        BookmarkPaginationV {
            threads: self.threads@,
            next_page: self.next_page as int,
            done: self.done,
        }
    }
}

impl BookmarkPagination {
    /// Starts a pagination run at page 1.
    pub fn new() -> (r: Self)
        ensures
            r@ == pagination_init(),
    {
        let r = BookmarkPagination { threads: Vec::new(), next_page: 1, done: false };
        proof {
            assert(r@.threads =~= pagination_init().threads);
        }
        r
    }

    /// Whether a short page has ended the run.
    pub fn done(&self) -> (r: bool)
        ensures
            r == self@.done,
    {
        self.done
    }

    /// The number of the page to fetch next, counted from 1.
    pub fn current_page(&self) -> (r: usize)
        requires
            !self@.done,
        ensures
            r as int == self@.next_page,
    {
        self.next_page
    }

    /// Consumes one fetched page of rows. Exactly a full page of
    /// [`THREADS_PER_PAGE`] rows schedules the next page; a shorter page ends
    /// the run after aggregating its rows.
    pub fn feed(&mut self, page: Vec<Thread>)
        requires
            !old(self)@.done,
            old(self)@.next_page < usize::MAX,
        ensures
            final(self)@ == pagination_step(old(self)@, page@),
    {
        let full = page.len() == THREADS_PER_PAGE;
        let mut page = page;
        self.threads.append(&mut page);
        if full {
            self.next_page += 1;
        } else {
            self.done = true;
        }
    }

    /// Hands over every aggregated row, in document order.
    pub fn into_threads(self) -> (r: Vec<Thread>)
        ensures
            r@ == self@.threads,
    {
        self.threads
    }
}

/// A page shorter than the full page size ends pagination at once: feeding it
/// leaves the machine done, whatever came before.
pub proof fn lemma_short_page_terminates(s: BookmarkPaginationV, page: Seq<Thread>)
    requires
        page.len() < THREADS_PER_PAGE,
    ensures
        pagination_step(s, page).done,
{
}

/// After a run of only full pages, everything is aggregated in document
/// order, the run is still going, and the next request is for the page after
/// the ones fed.
proof fn lemma_pagination_full_run(pages: Seq<Seq<Thread>>)
    requires
        forall|i: int| 0 <= i < pages.len() ==> (#[trigger] pages[i]).len() == THREADS_PER_PAGE,
    ensures
        pagination_run(pagination_init(), pages).threads == pages.flatten(),
        pagination_run(pagination_init(), pages).next_page == 1 + pages.len(),
        !pagination_run(pagination_init(), pages).done,
    decreases pages.len(),
{
    pages.lemma_flatten_and_flatten_alt_are_equivalent();
    if pages.len() == 0 {
        assert(pages.flatten_alt() =~= Seq::<Thread>::empty());
        assert(pagination_init().threads =~= pages.flatten_alt());
    } else {
        lemma_pagination_full_run(pages.drop_last());
        pages.drop_last().lemma_flatten_and_flatten_alt_are_equivalent();
    }
}

/// The pagination protocol on any sequence of full pages followed by one
/// short page: the machine requests exactly pages 1 through N, in that
/// order, ends after the short page, and aggregates every row of every page
/// in document order — each row exactly once, with no duplication.
pub proof fn lemma_pagination_terminates(pages: Seq<Seq<Thread>>)
    requires
        pages.len() >= 1,
        forall|i: int| 0 <= i < pages.len() - 1 ==> (#[trigger] pages[i]).len()
            == THREADS_PER_PAGE,
        pages.last().len() < THREADS_PER_PAGE,
    ensures
        pagination_run(pagination_init(), pages).done,
        pagination_run(pagination_init(), pages).threads == pages.flatten(),
        forall|k: int| 0 <= k < pages.len() ==> !pagination_run(
            pagination_init(),
            #[trigger] pages.take(k),
        ).done && pagination_run(pagination_init(), pages.take(k)).next_page == k + 1,
{
    pages.lemma_flatten_and_flatten_alt_are_equivalent();
    lemma_pagination_full_run(pages.drop_last());
    pages.drop_last().lemma_flatten_and_flatten_alt_are_equivalent();
    assert(pagination_run(pagination_init(), pages).threads == pages.flatten_alt());
    assert forall|k: int| 0 <= k < pages.len() implies !pagination_run(
        pagination_init(),
        #[trigger] pages.take(k),
    ).done && pagination_run(pagination_init(), pages.take(k)).next_page == k + 1 by {
        let prefix = pages.take(k);
        assert(forall|i: int| 0 <= i < prefix.len() ==> (#[trigger] prefix[i]).len()
            == THREADS_PER_PAGE);
        lemma_pagination_full_run(prefix);
    }
}

} // verus!
