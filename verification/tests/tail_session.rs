use something_awful::post_list::Post;
use something_awful::session::{Cookie, SessionStore};
use something_awful::tail::{unread_threads, SeenState, TailConfig, TailEngine};
use something_awful::thread_list::Thread;

fn mk_post(id: &str, index: i64) -> Post {
    Post {
        id: String::from(id),
        index,
        author_username: String::from("author"),
        author_registration_date: String::from("reg"),
        post_date: String::from("date"),
        post_body: String::from("body"),
    }
}

fn mk_thread(id: &str, unread: i64) -> Thread {
    Thread {
        id: String::from(id),
        title: String::from("t"),
        author_username: String::from("a"),
        replies: 1,
        views: 1,
        last_post_date: String::from("d"),
        last_post_username: String::from("u"),
        unread,
    }
}

#[test]
fn first_cycle_emits_all_then_none() {
    // Empty history; thread "1234" has posts 5, 6, 7: the first cycle emits
    // all three in order and records 7; a second identical cycle emits none.
    let mut seen = SeenState::new();
    let posts = vec![mk_post("a", 5), mk_post("b", 6), mk_post("c", 7)];
    let emitted = seen.process_posts("1234", posts.clone());
    let indices: Vec<i64> = emitted.iter().map(|p| p.index).collect();
    assert_eq!(indices, vec![5, 6, 7]);
    let entries = seen.entries();
    assert_eq!(entries.len(), 1);
    assert_eq!(entries[0].0, "1234");
    assert_eq!(entries[0].1, 7);
    let again = seen.process_posts("1234", posts);
    assert!(again.is_empty());
}

#[test]
fn seen_posts_are_skipped_and_newer_ones_advance_the_mark() {
    // An entry at least as high as a post's index suppresses it; an index one
    // past the entry is emitted and becomes the new entry.
    let mut seen = SeenState::load(vec![(String::from("1234"), 6)]);
    let emitted = seen.process_posts("1234", vec![mk_post("a", 5), mk_post("b", 6)]);
    assert!(emitted.is_empty());
    assert_eq!(seen.get("1234"), Some(6));
    let emitted = seen.process_posts("1234", vec![mk_post("c", 7)]);
    assert_eq!(emitted.len(), 1);
    assert_eq!(emitted[0].index, 7);
    assert_eq!(seen.get("1234"), Some(7));
}

#[test]
fn marks_never_decrease() {
    let mut seen = SeenState::load(vec![(String::from("1234"), 10)]);
    let emitted = seen.process_posts("1234", vec![mk_post("a", 3), mk_post("b", 4)]);
    assert!(emitted.is_empty());
    assert_eq!(seen.get("1234"), Some(10));
}

#[test]
fn threads_are_tracked_independently() {
    let mut seen = SeenState::new();
    seen.process_posts("1", vec![mk_post("a", 5)]);
    seen.process_posts("2", vec![mk_post("b", 9)]);
    assert_eq!(seen.get("1"), Some(5));
    assert_eq!(seen.get("2"), Some(9));
    assert_eq!(seen.get("3"), None);
}

#[test]
fn load_keeps_the_last_entry_for_a_repeated_id() {
    let seen = SeenState::load(vec![
        (String::from("1"), 5),
        (String::from("2"), 8),
        (String::from("1"), 6),
    ]);
    assert_eq!(seen.get("1"), Some(6));
    assert_eq!(seen.get("2"), Some(8));
    let mut entries = seen.entries();
    entries.sort();
    assert_eq!(
        entries,
        vec![(String::from("1"), 6), (String::from("2"), 8)]
    );
}

#[test]
fn only_unread_threads_are_polled() {
    let threads = vec![
        mk_thread("1", 0),
        mk_thread("2", 3),
        mk_thread("3", 0),
        mk_thread("4", 1),
    ];
    let polled: Vec<String> = unread_threads(threads).into_iter().map(|t| t.id).collect();
    assert_eq!(polled, vec![String::from("2"), String::from("4")]);
}

#[test]
fn engine_runs_one_cycle() {
    let config = TailConfig {
        post_delay_millis: 1000,
        thread_delay_millis: 1000,
        cycle_delay_millis: 30000,
    };
    let mut engine = TailEngine::new(config, SeenState::new());
    assert_eq!(engine.config.cycle_delay_millis, 30000);
    engine.begin_cycle(vec![mk_thread("1234", 3), mk_thread("5", 0), mk_thread("6", 1)]);
    let first = engine.next_thread().unwrap();
    assert_eq!(first.id, "1234");
    let emitted = engine.process_posts(&first.id, vec![mk_post("a", 5), mk_post("b", 6)]);
    assert_eq!(emitted.len(), 2);
    let second = engine.next_thread().unwrap();
    assert_eq!(second.id, "6");
    let emitted = engine.process_posts(&second.id, vec![mk_post("c", 1)]);
    assert_eq!(emitted.len(), 1);
    assert!(engine.next_thread().is_none());
    let mut entries = engine.seen_entries();
    entries.sort();
    assert_eq!(
        entries,
        vec![(String::from("1234"), 6), (String::from("6"), 1)]
    );
}

fn mk_cookie(domain: &str, name: &str, value: &str, expires: Option<i64>) -> Cookie {
    Cookie {
        domain: String::from(domain),
        name: String::from(name),
        value: String::from(value),
        expires,
    }
}

#[test]
fn session_round_trip_keeps_only_live_matching_cookies() {
    // Export, then import into a fresh store: only the unexpired,
    // domain-matching cookies of the snapshot are reproduced.
    let now: i64 = 1_000_000;
    let host = "forums.example.com";
    let mut store = SessionStore::new();
    store.import(
        vec![
            mk_cookie("forums.example.com", "sessionid", "s1", Some(now + 3600)),
            mk_cookie("example.com", "account", "a1", Some(now + 3600)),
            mk_cookie("forums.example.com", "stale", "s2", Some(now - 1)),
            mk_cookie("elsewhere.org", "foreign", "f1", Some(now + 3600)),
            mk_cookie("forums.example.com", "transient", "t1", None),
        ],
        host,
        now,
    );
    let snapshot = store.export();
    let mut restored = SessionStore::new();
    restored.import(snapshot, host, now);
    let names: Vec<String> = restored.cookies().into_iter().map(|c| c.name).collect();
    assert_eq!(
        names,
        vec![
            String::from("sessionid"),
            String::from("account"),
            String::from("transient"),
        ]
    );
}

#[test]
fn import_drops_cookies_that_expired_meanwhile() {
    let host = "forums.example.com";
    let mut store = SessionStore::new();
    store.import(
        vec![mk_cookie("forums.example.com", "sessionid", "s1", Some(500))],
        host,
        100,
    );
    assert_eq!(store.cookies().len(), 1);
    let snapshot = store.export();
    let mut later = SessionStore::new();
    later.import(snapshot, host, 600);
    assert!(later.cookies().is_empty());
}

#[test]
fn import_checks_domain_as_exact_host_or_dotted_suffix() {
    let host = "forums.example.com";
    let mut store = SessionStore::new();
    store.import(
        vec![
            mk_cookie("forums.example.com", "exact", "v", None),
            mk_cookie("example.com", "parent", "v", None),
            mk_cookie("ample.com", "trick", "v", None),
            mk_cookie("other.example.com", "sibling", "v", None),
        ],
        host,
        0,
    );
    let names: Vec<String> = store.cookies().into_iter().map(|c| c.name).collect();
    assert_eq!(names, vec![String::from("exact"), String::from("parent")]);
}
