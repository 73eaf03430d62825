//! The post-list extractor: turns one page of a thread into post records, in
//! document order, failing fast on the first structurally unexpected post
//! container.

use vstd::prelude::*;
use crate::error::{Error, ErrorV};
use crate::scrape::{
    post_attr_rows_of, post_html_rows_of, post_text_rows_of, scrape_post_attrs, scrape_post_htmls,
    scrape_post_texts, PostAttrRow, PostHtmlRow, PostTextRow,
};
use crate::text::{parse_i64, parse_i64_spec, starts_with, strip_prefix_owned};

verus! {

/// One post within a thread.
#[derive(Debug, Clone, PartialEq, Eq)]
pub struct Post {
    /// Opaque identifier, unique within the thread.
    pub id: String,
    /// Strictly increasing position within the thread in server order; the
    /// ordering key, and the key the polling engine deduplicates by.
    pub index: i64,
    pub author_username: String,
    pub author_registration_date: String,
    pub post_date: String,
    /// Raw markup, verbatim: neither sanitized nor converted.
    pub post_body: String,
}

/// The mathematical shape of a [`Post`].
pub struct PostV {
    pub id: Seq<char>,
    pub index: int,
    pub author_username: Seq<char>,
    pub author_registration_date: Seq<char>,
    pub post_date: Seq<char>,
    pub post_body: Seq<char>,
}

impl View for Post {
    type V = PostV;

    open spec fn view(&self) -> PostV {
        PostV {
            id: self.id@,
            index: self.index as int,
            author_username: self.author_username@,
            author_registration_date: self.author_registration_date@,
            post_date: self.post_date@,
            post_body: self.post_body@,
        }
    }
}

/// The views of a sequence of posts.
pub open spec fn posts_view(s: Seq<Post>) -> Seq<PostV> {
    s.map_values(|p: Post| p@)
}

/// The post denoted by one raw container, or `None` when a required field or
/// sub-element is missing, the id attribute lacks its literal prefix, or the
/// position attribute does not parse as an integer.
pub open spec fn post_of_rows(attrs: PostAttrRow, texts: PostTextRow, htmls: PostHtmlRow) -> Option<
    PostV,
> {
    if {
        &&& attrs.id_attr matches Some(id)
        &&& starts_with(id@, "post"@)
        &&& attrs.index_attr matches Some(ix)
        &&& parse_i64_spec(ix@) is Some
        &&& texts.author_username is Some
        &&& htmls.author_registration_date is Some
        &&& texts.post_date is Some
        &&& htmls.post_body is Some
    } {
        Some(
            PostV {
                id: (attrs.id_attr->Some_0)@.skip("post"@.len() as int),
                index: parse_i64_spec((attrs.index_attr->Some_0)@)->Some_0,
                author_username: (texts.author_username->Some_0)@,
                author_registration_date: (htmls.author_registration_date->Some_0)@,
                post_date: (texts.post_date->Some_0)@,
                post_body: (htmls.post_body->Some_0)@,
            },
        )
    } else {
        None
    }
}

/// The result of extracting a whole page of raw post containers: the posts in
/// document order, or the raw markup of the first container that does not
/// parse. No partial result exists: one bad container fails the page.
pub open spec fn parse_posts_spec(
    attrs: Seq<PostAttrRow>,
    texts: Seq<PostTextRow>,
    htmls: Seq<PostHtmlRow>,
) -> Result<Seq<PostV>, Seq<char>>
    decreases attrs.len(),
{
    if attrs.len() == 0 || texts.len() == 0 || htmls.len() == 0 {
        Ok(Seq::empty())
    } else {
        match parse_posts_spec(attrs.drop_last(), texts.drop_last(), htmls.drop_last()) {
            Err(e) => Err(e),
            Ok(pre) => match post_of_rows(attrs.last(), texts.last(), htmls.last()) {
                None => Err(attrs.last().post_html@),
                Some(p) => Ok(pre.push(p)),
            },
        }
    }
}

/// Once a prefix of the containers fails, the whole page fails the same way.
proof fn lemma_parse_posts_prefix_err(
    attrs: Seq<PostAttrRow>,
    texts: Seq<PostTextRow>,
    htmls: Seq<PostHtmlRow>,
    k: int,
)
    requires
        attrs.len() == texts.len(),
        attrs.len() == htmls.len(),
        0 <= k <= attrs.len(),
        parse_posts_spec(attrs.take(k), texts.take(k), htmls.take(k)) is Err,
    ensures
        parse_posts_spec(attrs, texts, htmls) == parse_posts_spec(
            attrs.take(k),
            texts.take(k),
            htmls.take(k),
        ),
    decreases attrs.len() - k,
{
    if k == attrs.len() {
        assert(attrs.take(k) =~= attrs);
        assert(texts.take(k) =~= texts);
        assert(htmls.take(k) =~= htmls);
    } else {
        assert(attrs.take(k + 1).drop_last() =~= attrs.take(k));
        assert(texts.take(k + 1).drop_last() =~= texts.take(k));
        assert(htmls.take(k + 1).drop_last() =~= htmls.take(k));
        lemma_parse_posts_prefix_err(attrs, texts, htmls, k + 1);
    }
}

/// Parses one raw post container.
fn parse_post_row(attrs: &PostAttrRow, texts: &PostTextRow, htmls: &PostHtmlRow) -> (r: Option<
    Post,
>)
    ensures
        match r {
            Some(p) => post_of_rows(*attrs, *texts, *htmls) == Some(p@),
            None => post_of_rows(*attrs, *texts, *htmls) is None,
        },
{
    let id_attr = match &attrs.id_attr {
        Some(s) => s,
        None => { return None; },
    };
    let id = match strip_prefix_owned(id_attr.as_str(), "post") {
        Some(s) => s,
        None => { return None; },
    };
    let index_s = match &attrs.index_attr {
        Some(s) => s,
        None => { return None; },
    };
    let index = match parse_i64(index_s.as_str()) {
        Some(v) => v,
        None => { return None; },
    };
    let author_username = match &texts.author_username {
        Some(s) => s,
        None => { return None; },
    };
    let author_registration_date = match &htmls.author_registration_date {
        Some(s) => s,
        None => { return None; },
    };
    let post_date = match &texts.post_date {
        Some(s) => s,
        None => { return None; },
    };
    let post_body = match &htmls.post_body {
        Some(s) => s,
        None => { return None; },
    };
    Some(
        Post {
            id,
            index,
            author_username: author_username.clone(),
            author_registration_date: author_registration_date.clone(),
            post_date: post_date.clone(),
            post_body: post_body.clone(),
        },
    )
}

impl Post {
    /// Parses raw post containers into posts, in document order. Any
    /// container with a missing required field, an id attribute without its
    /// literal prefix, or an unparsable position attribute aborts extraction
    /// for the entire page with a parse error carrying that container's raw
    /// markup.
    pub fn parse_rows(
        attrs: &Vec<PostAttrRow>,
        texts: &Vec<PostTextRow>,
        htmls: &Vec<PostHtmlRow>,
    ) -> (r: Result<Vec<Post>, Error>)
        requires
            attrs@.len() == texts@.len(),
            attrs@.len() == htmls@.len(),
        ensures
            match r {
                Ok(v) => parse_posts_spec(attrs@, texts@, htmls@) == Ok::<_, Seq<char>>(
                    posts_view(v@),
                ),
                Err(e) => parse_posts_spec(attrs@, texts@, htmls@) matches Err(html) && e@
                    == ErrorV::PostParsingError(html),
            },
    {
        let mut out: Vec<Post> = Vec::new();
        let mut i: usize = 0;
        proof {
            assert(posts_view(out@) =~= Seq::<PostV>::empty());
        }
        while i < attrs.len()
            invariant
                attrs@.len() == texts@.len(),
                attrs@.len() == htmls@.len(),
                i <= attrs@.len(),
                parse_posts_spec(
                    attrs@.take(i as int),
                    texts@.take(i as int),
                    htmls@.take(i as int),
                ) == Ok::<_, Seq<char>>(posts_view(out@)),
            decreases attrs@.len() - i,
        {
            proof {
                assert(attrs@.take(i + 1).drop_last() =~= attrs@.take(i as int));
                assert(texts@.take(i + 1).drop_last() =~= texts@.take(i as int));
                assert(htmls@.take(i + 1).drop_last() =~= htmls@.take(i as int));
                assert(attrs@.take(i + 1).last() == attrs@[i as int]);
                assert(texts@.take(i + 1).last() == texts@[i as int]);
                assert(htmls@.take(i + 1).last() == htmls@[i as int]);
            }
            match parse_post_row(&attrs[i], &texts[i], &htmls[i]) {
                Some(p) => {
                    let ghost prev = posts_view(out@);
                    out.push(p);
                    proof {
                        assert(posts_view(out@) =~= prev.push(p@));
                    }
                },
                None => {
                    proof {
                        lemma_parse_posts_prefix_err(attrs@, texts@, htmls@, i + 1);
                    }
                    return Err(Error::PostParsingError(attrs[i].post_html.clone()));
                },
            }
            i += 1;
        }
        proof {
            assert(attrs@.take(attrs@.len() as int) =~= attrs@);
            assert(texts@.take(texts@.len() as int) =~= texts@);
            assert(htmls@.take(htmls@.len() as int) =~= htmls@);
        }
        Ok(out)
    }

    /// Parses all posts on a thread page, in document order. The result is a
    /// function of the document text alone, so repeated extraction from the
    /// same input yields identical output.
    pub fn parse_list(document: &str) -> (r: Result<Vec<Post>, Error>)
        ensures
            match r {
                Ok(v) => parse_posts_spec(
                    post_attr_rows_of(document@),
                    post_text_rows_of(document@),
                    post_html_rows_of(document@),
                ) == Ok::<_, Seq<char>>(posts_view(v@)),
                Err(e) => parse_posts_spec(
                    post_attr_rows_of(document@),
                    post_text_rows_of(document@),
                    post_html_rows_of(document@),
                ) matches Err(html) && e@ == ErrorV::PostParsingError(html),
            },
    {
        let attrs = scrape_post_attrs(document);
        let texts = scrape_post_texts(document);
        let htmls = scrape_post_htmls(document);
        Post::parse_rows(&attrs, &texts, &htmls)
    }
}

} // verus!
