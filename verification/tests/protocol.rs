use something_awful::client::{
    bookmarks_query, login_form, posts_query, profile_outcome, profile_query, submission_outcome,
    BookmarkPagination, Profile, ProfileFetch, ThreadPage, User,
};
use something_awful::error::Error;
use something_awful::thread_list::Thread;

fn pairs(v: &[(String, String)]) -> Vec<(&str, &str)> {
    v.iter().map(|(k, val)| (k.as_str(), val.as_str())).collect()
}

#[test]
fn login_form_fields() {
    let form = login_form("alice", "hunter2");
    assert_eq!(
        pairs(&form),
        vec![
            ("action", "login"),
            ("username", "alice"),
            ("password", "hunter2"),
            ("next", "/index.php?json=1"),
        ]
    );
}

#[test]
fn profile_query_variants() {
    assert_eq!(
        pairs(&profile_query(&User::CurrentUser)),
        vec![("action", "getinfo"), ("json", "1")]
    );
    assert_eq!(
        pairs(&profile_query(&User::UserID("99"))),
        vec![("action", "getinfo"), ("userid", "99"), ("json", "1")]
    );
    assert_eq!(
        pairs(&profile_query(&User::Username("alice"))),
        vec![("action", "getinfo"), ("username", "alice"), ("json", "1")]
    );
}

#[test]
fn posts_query_variants() {
    assert_eq!(
        pairs(&posts_query("1234", &ThreadPage::First)),
        vec![("threadid", "1234"), ("perpage", "40")]
    );
    assert_eq!(
        pairs(&posts_query("1234", &ThreadPage::Last)),
        vec![("threadid", "1234"), ("perpage", "40"), ("goto", "lastpost")]
    );
    assert_eq!(
        pairs(&posts_query("1234", &ThreadPage::New)),
        vec![("threadid", "1234"), ("perpage", "40"), ("goto", "newpost")]
    );
    assert_eq!(
        pairs(&posts_query("1234", &ThreadPage::Page(7))),
        vec![("threadid", "1234"), ("perpage", "40"), ("pagenumber", "7")]
    );
}

#[test]
fn bookmarks_query_pages() {
    assert_eq!(
        pairs(&bookmarks_query(1)),
        vec![("action", "view"), ("perpage", "40"), ("pagenumber", "1")]
    );
    assert_eq!(
        pairs(&bookmarks_query(12)),
        vec![("action", "view"), ("perpage", "40"), ("pagenumber", "12")]
    );
}

#[test]
fn submission_fails_on_any_error_status() {
    // A non-success status is a login-class error, whatever its actual cause.
    assert_eq!(submission_outcome(400), Err(Error::LoginError));
    assert_eq!(submission_outcome(403), Err(Error::LoginError));
    assert_eq!(submission_outcome(500), Err(Error::LoginError));
    assert_eq!(submission_outcome(599), Err(Error::LoginError));
    assert_eq!(submission_outcome(200), Ok(()));
    assert_eq!(submission_outcome(302), Ok(()));
}

fn sample_profile() -> Profile {
    Profile {
        userid: 99,
        username: String::from("alice"),
        homepage: String::new(),
        icq: String::new(),
        aim: String::new(),
        yahoo: String::new(),
        gender: String::from("?"),
        usertitle: String::from("title"),
        joindate: 1_000_000,
        lastpost: 2_000_000,
        posts: 123,
        receivepm: 1,
        postsperday: String::from("0.5"),
        role: String::from("user"),
        biography: String::new(),
        location: String::new(),
        interests: String::new(),
        occupation: String::new(),
        picture: String::new(),
        avpath: String::new(),
    }
}

#[test]
fn profile_lookup_not_found_is_empty_not_error() {
    // The server's only not-found signal is a body that fails to decode.
    assert_eq!(profile_outcome(ProfileFetch::DecodeFailure), Ok(None));
}

#[test]
fn profile_lookup_passes_data_and_transport_errors_through() {
    let p = sample_profile();
    assert_eq!(
        profile_outcome(ProfileFetch::Decoded(Some(p.clone()))),
        Ok(Some(p))
    );
    assert_eq!(profile_outcome(ProfileFetch::Decoded(None)), Ok(None));
    assert_eq!(
        profile_outcome(ProfileFetch::TransportFailure(String::from("timed out"))),
        Err(Error::TransportError(String::from("timed out")))
    );
}

fn mk_thread(id: &str, unread: i64) -> Thread {
    Thread {
        id: String::from(id),
        title: String::from("t"),
        author_username: String::from("a"),
        replies: 1,
        views: 1,
        last_post_date: String::from("d"),
        last_post_username: String::from("u"),
        unread,
    }
}

#[test]
fn pagination_stops_after_short_page() {
    // Fewer than 40 rows: pagination ends after that page.
    let mut pagination = BookmarkPagination::new();
    assert!(!pagination.done());
    assert_eq!(pagination.current_page(), 1);
    let page: Vec<Thread> = (0..3).map(|i| mk_thread(&format!("s{}", i), 0)).collect();
    pagination.feed(page);
    assert!(pagination.done());
    assert_eq!(pagination.into_threads().len(), 3);
}

#[test]
fn pagination_requests_every_page_and_aggregates_in_order() {
    // Two full pages of 40 rows, then a short page: pages 1, 2, 3 are
    // requested, and all 83 rows come out in document order, none repeated.
    let mut pagination = BookmarkPagination::new();
    let mut expected: Vec<String> = Vec::new();
    for page_number in 1..=2 {
        assert!(!pagination.done());
        assert_eq!(pagination.current_page(), page_number);
        let page: Vec<Thread> = (0..40)
            .map(|i| mk_thread(&format!("p{}r{}", page_number, i), 0))
            .collect();
        expected.extend(page.iter().map(|t| t.id.clone()));
        pagination.feed(page);
    }
    assert!(!pagination.done());
    assert_eq!(pagination.current_page(), 3);
    let last: Vec<Thread> = (0..3).map(|i| mk_thread(&format!("p3r{}", i), 0)).collect();
    expected.extend(last.iter().map(|t| t.id.clone()));
    pagination.feed(last);
    assert!(pagination.done());
    let all: Vec<String> = pagination.into_threads().into_iter().map(|t| t.id).collect();
    assert_eq!(all, expected);
    assert_eq!(all.len(), 83);
}

#[test]
fn pagination_treats_empty_page_as_short() {
    let mut pagination = BookmarkPagination::new();
    pagination.feed(Vec::new());
    assert!(pagination.done());
    assert!(pagination.into_threads().is_empty());
}
