//! The reply-form extractor and builder: reads the ephemeral session tokens
//! from a compose-reply page, then combines them with a user-constructed
//! reply into a submittable multipart payload.

use vstd::prelude::*;
use crate::error::{Error, ErrorV};
use crate::scrape::{reply_form_of, scrape_reply_form, ReplyFormRow};
use crate::text::kv;
use vstd::slice::slice_to_vec;
use vstd::string::StringExecFns;

verus! {

/// Reply parameters read from the server: ephemeral session tokens scraped
/// from a compose page. They must be obtained fresh for each reply, because
/// the tokens may be single-use or time-limited.
pub struct ReplyParams {
    action: String,
    threadid: String,
    formkey: String,
    form_cookie: String,
}

/// The mathematical shape of a [`ReplyParams`].
pub struct ReplyParamsV {
    pub action: Seq<char>,
    pub threadid: Seq<char>,
    pub formkey: Seq<char>,
    pub form_cookie: Seq<char>,
}

impl View for ReplyParams {
    type V = ReplyParamsV;

    closed spec fn view(&self) -> ReplyParamsV {
        ReplyParamsV {
            action: self.action@,
            threadid: self.threadid@,
            formkey: self.formkey@,
            form_cookie: self.form_cookie@,
        }
    }
}

/// The tokens denoted by a scraped compose page: `None` when the form or any
/// of its four named hidden fields is missing.
pub open spec fn reply_params_spec(form: Option<ReplyFormRow>) -> Option<ReplyParamsV> {
    if {
        &&& form matches Some(f)
        &&& f.action is Some
        &&& f.threadid is Some
        &&& f.formkey is Some
        &&& f.form_cookie is Some
    } {
        Some(
            ReplyParamsV {
                action: ((form->Some_0).action->Some_0)@,
                threadid: ((form->Some_0).threadid->Some_0)@,
                formkey: ((form->Some_0).formkey->Some_0)@,
                form_cookie: ((form->Some_0).form_cookie->Some_0)@,
            },
        )
    } else {
        None
    }
}

/// A message that the user will reply with.
pub struct Reply {
    message: String,
    bookmark: bool,
    attachment: Option<(String, Vec<u8>)>,
}

/// The mathematical shape of a [`Reply`].
pub struct ReplyV {
    pub message: Seq<char>,
    pub bookmark: bool,
    pub attachment: Option<(Seq<char>, Seq<u8>)>,
}

impl View for Reply {
    type V = ReplyV;

    closed spec fn view(&self) -> ReplyV {
        ReplyV {
            message: self.message@,
            bookmark: self.bookmark,
            attachment: match self.attachment {
                None => None,
                Some(a) => Some((a.0@, a.1@)),
            },
        }
    }
}

/// A submittable reply payload: the multipart form's text fields in
/// submission order, and its attachment part. The transport sends the
/// attachment part under the name `attachment` with the fixed content type
/// `application/octet-stream`; when the reply carries no attachment the part
/// is still present, with an empty file name and empty contents, mirroring
/// the form's required-field expectations.
pub struct ReplyPayload {
    /// Name/value pairs of the form's text fields, in submission order.
    pub text_fields: Vec<(String, String)>,
    /// The attachment's file name; empty when the reply has none.
    pub attachment_name: String,
    /// The attachment's contents; empty when the reply has none.
    pub attachment_contents: Vec<u8>,
}

impl ReplyParams {
    /// Prepares a reply by parsing a compose page for the form metadata that
    /// must be sent back in the reply request. Missing any of the four named
    /// hidden fields, or the form itself, is a parse error that aborts reply
    /// preparation.
    pub fn parse(document: &str) -> (r: Result<ReplyParams, Error>)
        ensures
            match r {
                Ok(p) => reply_params_spec(reply_form_of(document@)) == Some(p@),
                Err(e) => reply_params_spec(reply_form_of(document@)) is None && e@
                    == ErrorV::ReplyParsingError,
            },
    {
        let form = match scrape_reply_form(document) {
            Some(f) => f,
            None => { return Err(Error::ReplyParsingError); },
        };
        let action = match form.action {
            Some(s) => s,
            None => { return Err(Error::ReplyParsingError); },
        };
        let threadid = match form.threadid {
            Some(s) => s,
            None => { return Err(Error::ReplyParsingError); },
        };
        let formkey = match form.formkey {
            Some(s) => s,
            None => { return Err(Error::ReplyParsingError); },
        };
        let form_cookie = match form.form_cookie {
            Some(s) => s,
            None => { return Err(Error::ReplyParsingError); },
        };
        Ok(ReplyParams { action, threadid, formkey, form_cookie })
    }

    /// Consumes the parsed tokens and a reply, returning the payload of the
    /// submission request: the four token fields echoed verbatim, the message
    /// body, the bookmark flag rendered as a fixed two-valued string, a fixed
    /// submit field, and the attachment part (empty but present when the
    /// reply has none).
    pub fn into_form(self, reply: Reply) -> (r: ReplyPayload)
        ensures
            r.text_fields@.len() == 7,
            kv(r.text_fields@[0]) == ("action"@, self@.action),
            kv(r.text_fields@[1]) == ("threadid"@, self@.threadid),
            kv(r.text_fields@[2]) == ("formkey"@, self@.formkey),
            kv(r.text_fields@[3]) == ("form_cookie"@, self@.form_cookie),
            kv(r.text_fields@[4]) == ("message"@, reply@.message),
            kv(r.text_fields@[5]) == (
                "bookmark"@,
                if reply@.bookmark {
                    "yes"@
                } else {
                    "no"@
                },
            ),
            kv(r.text_fields@[6]) == ("submit"@, "Submit Reply"@),
            match reply@.attachment {
                Some(a) => r.attachment_name@ == a.0 && r.attachment_contents@ == a.1,
                None => r.attachment_name@ == Seq::<char>::empty() && r.attachment_contents@
                    == Seq::<u8>::empty(),
            },
    {
        let bookmark: &str = if reply.bookmark {
            "yes"
        } else {
            "no"
        };
        let (attachment_name, attachment_contents) = match reply.attachment {
            Some(a) => a,
            None => (String::new(), Vec::new()),
        };
        let mut text_fields: Vec<(String, String)> = Vec::new();
        text_fields.push((String::from_str("action"), self.action));
        text_fields.push((String::from_str("threadid"), self.threadid));
        text_fields.push((String::from_str("formkey"), self.formkey));
        text_fields.push((String::from_str("form_cookie"), self.form_cookie));
        text_fields.push((String::from_str("message"), reply.message));
        text_fields.push((String::from_str("bookmark"), String::from_str(bookmark)));
        text_fields.push((String::from_str("submit"), String::from_str("Submit Reply")));
        ReplyPayload { text_fields, attachment_name, attachment_contents }
    }
}

impl Reply {
    /// Creates a reply with the given BBCode message. Replying subscribes to
    /// the thread by default, and no attachment is set.
    pub fn new(message: &str) -> (r: Reply)
        ensures
            r@.message == message@,
            r@.bookmark == true,
            r@.attachment is None,
    {
        Reply { message: message.to_owned(), bookmark: true, attachment: None }
    }

    /// Sets whether the reply should trigger subscribing to the thread.
    /// Defaults to true.
    pub fn with_bookmark(self, bookmark: bool) -> (r: Self)
        ensures
            r@.message == self@.message,
            r@.bookmark == bookmark,
            r@.attachment == self@.attachment,
    {
        let mut this = self;
        this.bookmark = bookmark;
        this
    }

    /// Sets a post attachment, overriding any existing attachment. Defaults
    /// to no attachment.
    pub fn with_attachment(self, filename: &str, contents: &[u8]) -> (r: Self)
        ensures
            r@.message == self@.message,
            r@.bookmark == self@.bookmark,
            r@.attachment matches Some(a) && a.0 == filename@ && a.1 == contents@,
    {
        let mut this = self;
        this.attachment = Some((filename.to_owned(), slice_to_vec(contents)));
        this
    }
}

} // verus!
