use something_awful::error::Error;
use something_awful::post_list::Post;
use something_awful::reply::{Reply, ReplyParams};
use something_awful::text::{parse_i64, u64_to_string};
use something_awful::thread_list::Thread;

fn thread_page() -> String {
    let mut page = String::from("<html><body><table><tbody>");
    page.push_str(
        r#"<tr class="thread" id="thread1234"><td class="title"><div class="title_inner"><div class="lastseen"><a class="count"><b>3</b></a></div><a class="thread_title">Hello world</a></div></td><td class="author"><a>alice</a></td><td class="replies"><a>12</a></td><td class="views">345</td><td class="lastpost"><div class="date">Jan 1, 2020</div><a class="author">bob</a></td></tr>"#,
    );
    page.push_str(
        r#"<tr class="thread" id="thread77"><td class="title"><div class="title_inner"><a class="thread_title">Quiet thread</a></div></td><td class="author"><a>carol</a></td><td class="replies"><a>0</a></td><td class="views">9</td><td class="lastpost"><div class="date">Feb 2, 2021</div><a class="author">dave</a></td></tr>"#,
    );
    page.push_str("</tbody></table></body></html>");
    page
}

fn good_row(id: &str, title: &str, author: &str, replies: &str) -> String {
    let mut row = String::new();
    row.push_str(r#"<tr class="thread" id=""#);
    row.push_str(id);
    row.push_str(r#""><td class="title"><div class="title_inner"><a class="thread_title">"#);
    row.push_str(title);
    row.push_str(r#"</a></div></td><td class="author"><a>"#);
    row.push_str(author);
    row.push_str(r#"</a></td><td class="replies"><a>"#);
    row.push_str(replies);
    row.push_str(
        r#"</a></td><td class="views">2</td><td class="lastpost"><div class="date">d</div><a class="author">bob</a></td></tr>"#,
    );
    row
}

#[test]
fn thread_list_two_rows() {
    let threads = Thread::parse_list(&thread_page()).unwrap();
    assert_eq!(threads.len(), 2);
    assert_eq!(threads[0].id, "1234");
    assert_eq!(threads[0].title, "Hello world");
    assert_eq!(threads[0].author_username, "alice");
    assert_eq!(threads[0].replies, 12);
    assert_eq!(threads[0].views, 345);
    assert_eq!(threads[0].last_post_date, "Jan 1, 2020");
    assert_eq!(threads[0].last_post_username, "bob");
    assert_eq!(threads[0].unread, 3);
    assert_eq!(threads[1].id, "77");
    assert_eq!(threads[1].title, "Quiet thread");
    assert_eq!(threads[1].unread, 0);
}

#[test]
fn thread_list_empty_page() {
    let threads = Thread::parse_list("<html><body><p>nothing here</p></body></html>").unwrap();
    assert!(threads.is_empty());
}

#[test]
fn thread_list_extraction_is_idempotent() {
    let page = thread_page();
    let first = Thread::parse_list(&page).unwrap();
    let second = Thread::parse_list(&page).unwrap();
    assert_eq!(first, second);
}

#[test]
fn thread_list_missing_field_fails_whole_page() {
    // The second row lacks its reply-count cell: the whole page must fail,
    // with the offending row's markup, and no partial result.
    let mut page = String::from("<html><body><table><tbody>");
    page.push_str(&good_row("thread1", "Fine", "alice", "1"));
    page.push_str(
        r#"<tr class="thread" id="thread2"><td class="title"><div class="title_inner"><a class="thread_title">Broken row marker</a></div></td><td class="author"><a>mallory</a></td><td class="views">2</td><td class="lastpost"><div class="date">d</div><a class="author">bob</a></td></tr>"#,
    );
    page.push_str("</tbody></table></body></html>");
    match Thread::parse_list(&page) {
        Err(Error::ThreadParsingError(markup)) => {
            assert!(markup.contains("Broken row marker"));
            assert!(markup.contains("mallory"));
        }
        other => panic!("expected a thread parse error, got {:?}", other),
    }
}

#[test]
fn thread_list_bad_number_fails() {
    let mut page = String::from("<html><body><table><tbody>");
    page.push_str(&good_row("thread1", "Fine", "alice", "many"));
    page.push_str("</tbody></table></body></html>");
    assert!(matches!(
        Thread::parse_list(&page),
        Err(Error::ThreadParsingError(_))
    ));
}

#[test]
fn thread_list_bad_id_prefix_fails() {
    let mut page = String::from("<html><body><table><tbody>");
    page.push_str(&good_row("row1", "Fine", "alice", "1"));
    page.push_str("</tbody></table></body></html>");
    assert!(matches!(
        Thread::parse_list(&page),
        Err(Error::ThreadParsingError(_))
    ));
}

fn post_page() -> String {
    let mut page = String::from("<html><body>");
    page.push_str(
        r#"<table class="post" id="post987" data-idx="5"><tbody><tr><td><dl class="userinfo"><dt>carol</dt><dd class="registered">Mar 2010</dd></dl></td><td class="postbody">Hi <b>there</b></td></tr><tr><td class="postdate"><span>#1</span> Jan 2, 2020 </td></tr></tbody></table>"#,
    );
    page.push_str(
        r#"<table class="post" id="post988" data-idx="6"><tbody><tr><td><dl class="userinfo"><dt>dave</dt><dd class="registered">Apr 2011</dd></dl></td><td class="postbody">Second</td></tr><tr><td class="postdate">Jan 3, 2020</td></tr></tbody></table>"#,
    );
    page.push_str("</body></html>");
    page
}

#[test]
fn post_list_two_posts() {
    let posts = Post::parse_list(&post_page()).unwrap();
    assert_eq!(posts.len(), 2);
    assert_eq!(posts[0].id, "987");
    assert_eq!(posts[0].index, 5);
    assert_eq!(posts[0].author_username, "carol");
    assert_eq!(posts[0].author_registration_date, "Mar 2010");
    assert_eq!(posts[0].post_date, "Jan 2, 2020");
    assert_eq!(posts[0].post_body, "Hi <b>there</b>");
    assert_eq!(posts[1].id, "988");
    assert_eq!(posts[1].index, 6);
    assert_eq!(posts[1].author_username, "dave");
}

#[test]
fn post_list_extraction_is_idempotent() {
    let page = post_page();
    assert_eq!(
        Post::parse_list(&page).unwrap(),
        Post::parse_list(&page).unwrap()
    );
}

#[test]
fn post_list_missing_field_fails_whole_page() {
    // No data-idx attribute: the page must fail with the post's markup.
    let mut page = String::from("<html><body>");
    page.push_str(
        r#"<table class="post" id="post987"><tbody><tr><td><dl class="userinfo"><dt>broken post marker</dt><dd class="registered">Mar 2010</dd></dl></td><td class="postbody">Body</td></tr><tr><td class="postdate">Jan 2, 2020</td></tr></tbody></table>"#,
    );
    page.push_str("</body></html>");
    match Post::parse_list(&page) {
        Err(Error::PostParsingError(markup)) => {
            assert!(markup.contains("broken post marker"));
        }
        other => panic!("expected a post parse error, got {:?}", other),
    }
}

#[test]
fn post_list_missing_body_fails() {
    let mut page = String::from("<html><body>");
    page.push_str(
        r#"<table class="post" id="post987" data-idx="5"><tbody><tr><td><dl class="userinfo"><dt>carol</dt><dd class="registered">Mar 2010</dd></dl></td></tr><tr><td class="postdate">Jan 2, 2020</td></tr></tbody></table>"#,
    );
    page.push_str("</body></html>");
    assert!(matches!(
        Post::parse_list(&page),
        Err(Error::PostParsingError(_))
    ));
}

fn compose_page() -> String {
    let mut page = String::from("<html><body>");
    page.push_str(r#"<form name="vbform">"#);
    page.push_str(r#"<input name="action" value="postreply">"#);
    page.push_str(r#"<input name="threadid" value="1234">"#);
    page.push_str(r#"<input name="formkey" value="abc123">"#);
    page.push_str(r#"<input name="form_cookie" value="xyz789">"#);
    page.push_str("</form></body></html>");
    page
}

#[test]
fn reply_params_parse_and_build() {
    let params = ReplyParams::parse(&compose_page()).unwrap();
    let payload = params.into_form(Reply::new("hello [b]world[/b]"));
    let fields: Vec<(&str, &str)> = payload
        .text_fields
        .iter()
        .map(|(k, v)| (k.as_str(), v.as_str()))
        .collect();
    assert_eq!(
        fields,
        vec![
            ("action", "postreply"),
            ("threadid", "1234"),
            ("formkey", "abc123"),
            ("form_cookie", "xyz789"),
            ("message", "hello [b]world[/b]"),
            ("bookmark", "yes"),
            ("submit", "Submit Reply"),
        ]
    );
    assert_eq!(payload.attachment_name, "");
    assert!(payload.attachment_contents.is_empty());
}

#[test]
fn reply_builder_options() {
    let params = ReplyParams::parse(&compose_page()).unwrap();
    let reply = Reply::new("msg")
        .with_bookmark(false)
        .with_attachment("cat.png", &[1, 2, 3]);
    let payload = params.into_form(reply);
    assert_eq!(payload.text_fields[5].1, "no");
    assert_eq!(payload.attachment_name, "cat.png");
    assert_eq!(payload.attachment_contents, vec![1, 2, 3]);
}

#[test]
fn reply_params_missing_field_is_parse_error() {
    let mut page = String::from("<html><body>");
    page.push_str(r#"<form name="vbform">"#);
    page.push_str(r#"<input name="action" value="postreply">"#);
    page.push_str(r#"<input name="threadid" value="1234">"#);
    page.push_str(r#"<input name="form_cookie" value="xyz789">"#);
    page.push_str("</form></body></html>");
    assert!(matches!(
        ReplyParams::parse(&page),
        Err(Error::ReplyParsingError)
    ));
}

#[test]
fn reply_params_missing_form_is_parse_error() {
    assert!(matches!(
        ReplyParams::parse("<html><body><p>no form</p></body></html>"),
        Err(Error::ReplyParsingError)
    ));
}

#[test]
fn parse_i64_accepts_what_std_accepts() {
    assert_eq!(parse_i64("42"), Some(42));
    assert_eq!(parse_i64("-7"), Some(-7));
    assert_eq!(parse_i64("+0"), Some(0));
    assert_eq!(parse_i64("0"), Some(0));
    assert_eq!(parse_i64("9223372036854775807"), Some(i64::MAX));
    assert_eq!(parse_i64("-9223372036854775808"), Some(i64::MIN));
}

#[test]
fn parse_i64_rejects_what_std_rejects() {
    assert_eq!(parse_i64(""), None);
    assert_eq!(parse_i64("-"), None);
    assert_eq!(parse_i64("+"), None);
    assert_eq!(parse_i64("12a"), None);
    assert_eq!(parse_i64(" 1"), None);
    assert_eq!(parse_i64("9223372036854775808"), None);
    assert_eq!(parse_i64("-9223372036854775809"), None);
    assert_eq!(parse_i64("99999999999999999999999"), None);
}

#[test]
fn u64_renders_in_decimal() {
    assert_eq!(u64_to_string(0), "0");
    assert_eq!(u64_to_string(7), "7");
    assert_eq!(u64_to_string(40), "40");
    assert_eq!(u64_to_string(123456789), "123456789");
    assert_eq!(u64_to_string(u64::MAX), "18446744073709551615");
}
