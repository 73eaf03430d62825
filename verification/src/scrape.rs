//! The trusted boundary to the HTML parser.
//!
//! The forum's pages are read with the `scraper` crate against fixed
//! structural paths. Each function here parses one page kind and hands back
//! the raw text of one group of fields for every container on the page, as
//! plain optional strings in document order; everything after that point
//! (required-field checking, prefix stripping, integer parsing, fail-fast
//! error reporting) is verified code. `scraper`'s output depends on the
//! document text alone, so each result is named by an uninterpreted spec
//! function, and the scrapers of one page kind walk the same containers, so
//! their row counts agree.

use vstd::prelude::*;

verus! {

/// The attributes of one row of the bookmarked-threads listing.
pub struct ThreadAttrRow {
    /// The row's inner markup, kept for error reporting.
    pub row_html: String,
    /// The row's `id` attribute.
    pub id_attr: Option<String>,
}

/// The nested fields of one row of the bookmarked-threads listing, each
/// `None` when its structural path matched nothing.
pub struct ThreadFieldRow {
    /// The inner markup of the title link.
    pub title: Option<String>,
    /// The inner markup of the author link.
    pub author: Option<String>,
    /// The inner markup of the reply-count link.
    pub replies: Option<String>,
    /// The inner markup of the view-count cell.
    pub views: Option<String>,
    /// The inner markup of the last-post date element.
    pub last_post_date: Option<String>,
    /// The inner markup of the last-post author link.
    pub last_post_username: Option<String>,
    /// The inner markup of the unread-count element; absent when the thread
    /// has no unread posts.
    pub unread: Option<String>,
}

/// The attributes of one post container on a thread page.
pub struct PostAttrRow {
    /// The post's inner markup, kept for error reporting.
    pub post_html: String,
    /// The post's `id` attribute.
    pub id_attr: Option<String>,
    /// The post's `data-idx` attribute: its position within the thread.
    pub index_attr: Option<String>,
}

/// The text-node fields of one post container on a thread page.
pub struct PostTextRow {
    /// The first text node of the author element.
    pub author_username: Option<String>,
    /// The last text node of the post-date cell, with surrounding whitespace
    /// removed.
    pub post_date: Option<String>,
}

/// The markup fields of one post container on a thread page.
pub struct PostHtmlRow {
    /// The inner markup of the author's registration-date element.
    pub author_registration_date: Option<String>,
    /// The post body's inner markup, verbatim.
    pub post_body: Option<String>,
}

/// The token fields of the reply form on a compose page, each `None` when the
/// named hidden input or its `value` attribute is missing.
pub struct ReplyFormRow {
    pub action: Option<String>,
    pub threadid: Option<String>,
    pub formkey: Option<String>,
    pub form_cookie: Option<String>,
}

/// The thread-row attributes that `scraper` finds on a listing page, in
/// document order.
pub uninterp spec fn thread_attr_rows_of(doc: Seq<char>) -> Seq<ThreadAttrRow>;

/// The thread-row fields that `scraper` finds on a listing page, in document
/// order.
pub uninterp spec fn thread_field_rows_of(doc: Seq<char>) -> Seq<ThreadFieldRow>;

/// The post attributes that `scraper` finds on a thread page, in document
/// order.
pub uninterp spec fn post_attr_rows_of(doc: Seq<char>) -> Seq<PostAttrRow>;

/// The post text-node fields that `scraper` finds on a thread page, in
/// document order.
pub uninterp spec fn post_text_rows_of(doc: Seq<char>) -> Seq<PostTextRow>;

/// The post markup fields that `scraper` finds on a thread page, in document
/// order.
pub uninterp spec fn post_html_rows_of(doc: Seq<char>) -> Seq<PostHtmlRow>;

/// The reply-form tokens that `scraper` finds on a compose page: `None` when
/// the page has no form named `vbform`.
pub uninterp spec fn reply_form_of(doc: Seq<char>) -> Option<ReplyFormRow>;

/// Relies on `scraper`: parses the document and reads, for each
/// `tbody>tr.thread` row in document order, its inner HTML and its `id`
/// attribute. The result depends on the document text alone.
#[verifier::external_body]
pub(crate) fn scrape_thread_attrs(document: &str) -> (rows: Vec<ThreadAttrRow>)
    ensures
        rows@ == thread_attr_rows_of(document@),
{
    let doc = scraper::Html::parse_document(document);
    let sel = scraper::Selector::parse("tbody>tr.thread").unwrap();
    let mut rows = Vec::new();
    for r in doc.select(&sel) {
        rows.push(ThreadAttrRow {
            row_html: r.inner_html(),
            id_attr: r.attr("id").map(str::to_owned),
        });
    }
    rows
}

/// Relies on `scraper`: parses the document and reads, for each
/// `tbody>tr.thread` row in document order, the inner HTML of its title
/// (`a.thread_title`), author (`td.author>a`), reply count (`td.replies>a`),
/// view count (`td.views`), last-post date (`td.lastpost>div.date`),
/// last-post author (`td.lastpost>a.author`) and unread count
/// (`td.title>div.title_inner>div.lastseen>a.count>b`) elements. The result
/// depends on the document text alone, and the rows walked are those of
/// [`scrape_thread_attrs`], so the row counts agree.
#[verifier::external_body]
pub(crate) fn scrape_thread_fields(document: &str) -> (rows: Vec<ThreadFieldRow>)
    ensures
        rows@ == thread_field_rows_of(document@),
        rows@.len() == thread_attr_rows_of(document@).len(),
{
    let doc = scraper::Html::parse_document(document);
    let s = |q| scraper::Selector::parse(q).unwrap();
    let mut rows = Vec::new();
    for r in doc.select(&s("tbody>tr.thread")) {
        let f = |q| r.select(&s(q)).next().map(|e| e.inner_html());
        rows.push(ThreadFieldRow {
            title: f("a.thread_title"), author: f("td.author>a"),
            replies: f("td.replies>a"), views: f("td.views"),
            last_post_date: f("td.lastpost>div.date"),
            last_post_username: f("td.lastpost>a.author"),
            unread: f("td.title>div.title_inner>div.lastseen>a.count>b"),
        });
    }
    rows
}

/// Relies on `scraper`: parses the document and reads, for each `table.post`
/// container in document order, its inner HTML and its `id` and `data-idx`
/// attributes. The result depends on the document text alone.
#[verifier::external_body]
pub(crate) fn scrape_post_attrs(document: &str) -> (rows: Vec<PostAttrRow>)
    ensures
        rows@ == post_attr_rows_of(document@),
{
    let doc = scraper::Html::parse_document(document);
    let sel = scraper::Selector::parse("table.post").unwrap();
    let mut rows = Vec::new();
    for p in doc.select(&sel) {
        rows.push(PostAttrRow {
            post_html: p.inner_html(),
            id_attr: p.attr("id").map(str::to_owned),
            index_attr: p.attr("data-idx").map(str::to_owned),
        });
    }
    rows
}

/// Relies on `scraper`: parses the document and reads, for each `table.post`
/// container in document order, the first text node of its author element
/// (`dl.userinfo>dt`) and the last text node of its post-date cell
/// (`tr>td.postdate`) as `str::trim` leaves it. The result depends on the
/// document text alone, and the containers walked are those of
/// [`scrape_post_attrs`], so the row counts agree.
#[verifier::external_body]
pub(crate) fn scrape_post_texts(document: &str) -> (rows: Vec<PostTextRow>)
    ensures
        rows@ == post_text_rows_of(document@),
        rows@.len() == post_attr_rows_of(document@).len(),
{
    let doc = scraper::Html::parse_document(document);
    let s = |q| scraper::Selector::parse(q).unwrap();
    let mut rows = Vec::new();
    for p in doc.select(&s("table.post")) {
        let f = |q| p.select(&s(q)).next();
        rows.push(PostTextRow {
            author_username: f("dl.userinfo>dt").and_then(|x| x.text().next()).map(str::to_owned),
            post_date: f("tr>td.postdate").and_then(|x| x.text().last()).map(|t| t.trim().to_owned()),
        });
    }
    rows
}

/// Relies on `scraper`: parses the document and reads, for each `table.post`
/// container in document order, the inner HTML of its registration-date
/// element (`dl.userinfo>dd.registered`) and of its body cell
/// (`td.postbody`). The result depends on the document text alone, and the
/// containers walked are those of [`scrape_post_attrs`], so the row counts
/// agree.
#[verifier::external_body]
pub(crate) fn scrape_post_htmls(document: &str) -> (rows: Vec<PostHtmlRow>)
    ensures
        rows@ == post_html_rows_of(document@),
        rows@.len() == post_attr_rows_of(document@).len(),
{
    let doc = scraper::Html::parse_document(document);
    let s = |q| scraper::Selector::parse(q).unwrap();
    let mut rows = Vec::new();
    for p in doc.select(&s("table.post")) {
        let f = |q| p.select(&s(q)).next().map(|x| x.inner_html());
        rows.push(PostHtmlRow {
            author_registration_date: f("dl.userinfo>dd.registered"),
            post_body: f("td.postbody"),
        });
    }
    rows
}

/// Relies on `scraper`: parses the document, finds the form named `vbform`,
/// and reads the `value` attribute of its `action`, `threadid`, `formkey` and
/// `form_cookie` inputs. `None` when the form itself is missing. The result
/// depends on the document text alone.
#[verifier::external_body]
pub(crate) fn scrape_reply_form(document: &str) -> (r: Option<ReplyFormRow>)
    ensures
        r == reply_form_of(document@),
{
    let doc = scraper::Html::parse_document(document);
    let s = |q| scraper::Selector::parse(q).unwrap();
    let form = doc.select(&s(r#"form[name="vbform"]"#)).next()?;
    let v = |q| form.select(&s(q)).next().and_then(|x| x.attr("value")).map(str::to_owned);
    Some(ReplyFormRow {
        action: v(r#"input[name="action"]"#),
        threadid: v(r#"input[name="threadid"]"#),
        formkey: v(r#"input[name="formkey"]"#),
        form_cookie: v(r#"input[name="form_cookie"]"#),
    })
}

} // verus!
