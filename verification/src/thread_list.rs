//! The thread-list extractor: turns one page of the bookmarked-threads
//! listing into thread records, in document order, failing fast on the first
//! structurally unexpected row.

use vstd::prelude::*;
use crate::error::{Error, ErrorV};
use crate::scrape::{
    scrape_thread_attrs, scrape_thread_fields, thread_attr_rows_of, thread_field_rows_of,
    ThreadAttrRow, ThreadFieldRow,
};
use crate::text::{parse_i64, parse_i64_spec, starts_with, strip_prefix_owned};

verus! {

/// One thread within a list of threads.
#[derive(Debug, Clone, PartialEq, Eq)]
pub struct Thread {
    /// Opaque, stable identifier; the unique key of the thread.
    pub id: String,
    pub title: String,
    pub author_username: String,
    pub replies: i64,
    pub views: i64,
    /// Opaque display string.
    pub last_post_date: String,
    pub last_post_username: String,
    /// Zero if there are no unread posts in this thread. Otherwise, the
    /// number of unread posts.
    pub unread: i64,
}

/// The mathematical shape of a [`Thread`].
pub struct ThreadV {
    pub id: Seq<char>,
    pub title: Seq<char>,
    pub author_username: Seq<char>,
    pub replies: int,
    pub views: int,
    pub last_post_date: Seq<char>,
    pub last_post_username: Seq<char>,
    pub unread: int,
}

impl View for Thread {
    type V = ThreadV;

    open spec fn view(&self) -> ThreadV {
        ThreadV {
            id: self.id@,
            title: self.title@,
            author_username: self.author_username@,
            replies: self.replies as int,
            views: self.views as int,
            last_post_date: self.last_post_date@,
            last_post_username: self.last_post_username@,
            unread: self.unread as int,
        }
    }
}

/// The views of a sequence of threads.
pub open spec fn threads_view(s: Seq<Thread>) -> Seq<ThreadV> {
    s.map_values(|t: Thread| t@)
}

/// The unread count denoted by the optional unread-count element: an absent
/// element means zero unread posts.
pub open spec fn thread_unread_spec(unread: Option<String>) -> Option<int> {
    match unread {
        None => Some(0int),
        Some(u) => parse_i64_spec(u@),
    }
}

/// The thread denoted by one raw listing row, or `None` when a required field
/// is missing, the id attribute lacks its literal prefix, or a numeric field
/// does not parse as an integer.
pub open spec fn thread_of_row(attrs: ThreadAttrRow, fields: ThreadFieldRow) -> Option<ThreadV> {
    if {
        &&& attrs.id_attr matches Some(id)
        &&& starts_with(id@, "thread"@)
        &&& fields.title is Some
        &&& fields.author is Some
        &&& fields.replies matches Some(rep)
        &&& parse_i64_spec(rep@) is Some
        &&& fields.views matches Some(vw)
        &&& parse_i64_spec(vw@) is Some
        &&& fields.last_post_date is Some
        &&& fields.last_post_username is Some
        &&& thread_unread_spec(fields.unread) is Some
    } {
        Some(
            ThreadV {
                id: (attrs.id_attr->Some_0)@.skip("thread"@.len() as int),
                title: (fields.title->Some_0)@,
                author_username: (fields.author->Some_0)@,
                replies: parse_i64_spec((fields.replies->Some_0)@)->Some_0,
                views: parse_i64_spec((fields.views->Some_0)@)->Some_0,
                last_post_date: (fields.last_post_date->Some_0)@,
                last_post_username: (fields.last_post_username->Some_0)@,
                unread: thread_unread_spec(fields.unread)->Some_0,
            },
        )
    } else {
        None
    }
}

/// The result of extracting a whole page of raw rows: the threads in document
/// order, or the raw markup of the first row that does not parse. No partial
/// result exists: one bad row fails the page.
pub open spec fn parse_threads_spec(attrs: Seq<ThreadAttrRow>, fields: Seq<ThreadFieldRow>) -> Result<
    Seq<ThreadV>,
    Seq<char>,
>
    decreases attrs.len(),
{
    if attrs.len() == 0 || fields.len() == 0 {
        Ok(Seq::empty())
    } else {
        match parse_threads_spec(attrs.drop_last(), fields.drop_last()) {
            Err(e) => Err(e),
            Ok(pre) => match thread_of_row(attrs.last(), fields.last()) {
                None => Err(attrs.last().row_html@),
                Some(t) => Ok(pre.push(t)),
            },
        }
    }
}

/// Once a prefix of the rows fails, the whole page fails the same way.
proof fn lemma_parse_threads_prefix_err(attrs: Seq<ThreadAttrRow>, fields: Seq<ThreadFieldRow>, k: int)
    requires
        attrs.len() == fields.len(),
        0 <= k <= attrs.len(),
        parse_threads_spec(attrs.take(k), fields.take(k)) is Err,
    ensures
        parse_threads_spec(attrs, fields) == parse_threads_spec(attrs.take(k), fields.take(k)),
    decreases attrs.len() - k,
{
    if k == attrs.len() {
        assert(attrs.take(k) =~= attrs);
        assert(fields.take(k) =~= fields);
    } else {
        assert(attrs.take(k + 1).drop_last() =~= attrs.take(k));
        assert(fields.take(k + 1).drop_last() =~= fields.take(k));
        lemma_parse_threads_prefix_err(attrs, fields, k + 1);
    }
}

/// Parses one raw listing row.
fn parse_thread_row(attrs: &ThreadAttrRow, fields: &ThreadFieldRow) -> (r: Option<Thread>)
    ensures
        match r {
            Some(t) => thread_of_row(*attrs, *fields) == Some(t@),
            None => thread_of_row(*attrs, *fields) is None,
        },
{
    let id_attr = match &attrs.id_attr {
        Some(s) => s,
        None => { return None; },
    };
    let id = match strip_prefix_owned(id_attr.as_str(), "thread") {
        Some(s) => s,
        None => { return None; },
    };
    let title = match &fields.title {
        Some(s) => s,
        None => { return None; },
    };
    let author = match &fields.author {
        Some(s) => s,
        None => { return None; },
    };
    let replies_s = match &fields.replies {
        Some(s) => s,
        None => { return None; },
    };
    let replies = match parse_i64(replies_s.as_str()) {
        Some(v) => v,
        None => { return None; },
    };
    let views_s = match &fields.views {
        Some(s) => s,
        None => { return None; },
    };
    let views = match parse_i64(views_s.as_str()) {
        Some(v) => v,
        None => { return None; },
    };
    let last_post_date = match &fields.last_post_date {
        Some(s) => s,
        None => { return None; },
    };
    let last_post_username = match &fields.last_post_username {
        Some(s) => s,
        None => { return None; },
    };
    let unread = match &fields.unread {
        Some(s) => match parse_i64(s.as_str()) {
            Some(v) => v,
            None => { return None; },
        },
        None => 0,
    };
    Some(
        Thread {
            id,
            title: title.clone(),
            author_username: author.clone(),
            replies,
            views,
            last_post_date: last_post_date.clone(),
            last_post_username: last_post_username.clone(),
            unread,
        },
    )
}

impl Thread {
    /// Parses raw listing rows into threads, in document order. Any row with
    /// a missing required field, an id attribute without its literal prefix,
    /// or an unparsable numeric field aborts extraction for the entire page
    /// with a parse error carrying that row's raw markup.
    pub fn parse_rows(attrs: &Vec<ThreadAttrRow>, fields: &Vec<ThreadFieldRow>) -> (r: Result<
        Vec<Thread>,
        Error,
    >)
        requires
            attrs@.len() == fields@.len(),
        ensures
            match r {
                Ok(v) => parse_threads_spec(attrs@, fields@) == Ok::<_, Seq<char>>(
                    threads_view(v@),
                ),
                Err(e) => parse_threads_spec(attrs@, fields@) matches Err(html) && e@
                    == ErrorV::ThreadParsingError(html),
            },
    {
        let mut out: Vec<Thread> = Vec::new();
        let mut i: usize = 0;
        proof {
            assert(threads_view(out@) =~= Seq::<ThreadV>::empty());
        }
        while i < attrs.len()
            invariant
                attrs@.len() == fields@.len(),
                i <= attrs@.len(),
                parse_threads_spec(attrs@.take(i as int), fields@.take(i as int)) == Ok::<
                    _,
                    Seq<char>,
                >(threads_view(out@)),
            decreases attrs@.len() - i,
        {
            proof {
                assert(attrs@.take(i + 1).drop_last() =~= attrs@.take(i as int));
                assert(fields@.take(i + 1).drop_last() =~= fields@.take(i as int));
                assert(attrs@.take(i + 1).last() == attrs@[i as int]);
                assert(fields@.take(i + 1).last() == fields@[i as int]);
            }
            match parse_thread_row(&attrs[i], &fields[i]) {
                Some(t) => {
                    let ghost prev = threads_view(out@);
                    out.push(t);
                    proof {
                        assert(threads_view(out@) =~= prev.push(t@));
                    }
                },
                None => {
                    proof {
                        lemma_parse_threads_prefix_err(attrs@, fields@, i + 1);
                    }
                    return Err(Error::ThreadParsingError(attrs[i].row_html.clone()));
                },
            }
            i += 1;
        }
        proof {
            assert(attrs@.take(attrs@.len() as int) =~= attrs@);
            assert(fields@.take(fields@.len() as int) =~= fields@);
        }
        Ok(out)
    }

    /// Parses all threads on a page of the bookmarked-threads listing, in
    /// document order. The result is a function of the document text alone,
    /// so repeated extraction from the same input yields identical output.
    pub fn parse_list(document: &str) -> (r: Result<Vec<Thread>, Error>)
        ensures
            match r {
                Ok(v) => parse_threads_spec(
                    thread_attr_rows_of(document@),
                    thread_field_rows_of(document@),
                ) == Ok::<_, Seq<char>>(threads_view(v@)),
                Err(e) => parse_threads_spec(
                    thread_attr_rows_of(document@),
                    thread_field_rows_of(document@),
                ) matches Err(html) && e@ == ErrorV::ThreadParsingError(html),
            },
    {
        let attrs = scrape_thread_attrs(document);
        let fields = scrape_thread_fields(document);
        Thread::parse_rows(&attrs, &fields)
    }
}

} // verus!
