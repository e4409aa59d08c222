use vstd::prelude::*;
use vstd::string::*;

use crate::decimal::{decimal, push_i64};
use crate::error::{
    arity, at_position, check_arguments, error_text, integer_at, integer_at_position, text_at,
    text_result, ErrorView, ParseMessageError,
};
use crate::text::{chars_of, same_text, tokenize, tokens, views};

verus! {

/// A reply sent by a server.
#[derive(Debug, Clone, PartialEq, Eq)]
pub enum Response {
    /// Acknowledges the selection of a user, with the user's id.
    AckUser { id: i64 },
    /// Begins a list of subscriptions, closed by `EndList`.
    StartSubscriptionList,
    /// One item of a subscription list.
    Subscription { id: i64, url: String },
    /// Begins a list of feed entries, closed by `EndList`.
    StartEntryList,
    /// One item of an entry list; the title is free text that may hold spaces.
    Entry { id: i64, feed_id: i64, feed_url: String, title: String, url: String },
    /// Ends the list that was begun last.
    EndList,
    /// Acknowledges a subscription.
    AckSubscribe,
    /// Acknowledges an unsubscription.
    AckUnsubscribe,
    /// Acknowledges that an entry was marked read.
    AckMarkRead,
    /// The requested resource was not found.
    ResourceNotFound(String),
    /// The command sent was not valid.
    BadCommand(String),
    /// The command needs a selected user, and none was selected.
    NeedUser(String),
    /// The server hit an internal problem.
    InternalError(String),
}

/// A response with its strings as character sequences.
pub enum ResponseView {
    AckUser { id: i64 },
    StartSubscriptionList,
    Subscription { id: i64, url: Seq<char> },
    StartEntryList,
    Entry { id: i64, feed_id: i64, feed_url: Seq<char>, title: Seq<char>, url: Seq<char> },
    EndList,
    AckSubscribe,
    AckUnsubscribe,
    AckMarkRead,
    ResourceNotFound(Seq<char>),
    BadCommand(Seq<char>),
    NeedUser(Seq<char>),
    InternalError(Seq<char>),
}

impl View for Response {
    type V = ResponseView;

    open spec fn view(&self) -> ResponseView {
        match self {
            Response::AckUser { id } => ResponseView::AckUser { id: *id },
            Response::StartSubscriptionList => ResponseView::StartSubscriptionList,
            Response::Subscription { id, url } => ResponseView::Subscription { id: *id, url: url@ },
            Response::StartEntryList => ResponseView::StartEntryList,
            Response::Entry { id, feed_id, feed_url, title, url } => ResponseView::Entry {
                id: *id,
                feed_id: *feed_id,
                feed_url: feed_url@,
                title: title@,
                url: url@,
            },
            Response::EndList => ResponseView::EndList,
            Response::AckSubscribe => ResponseView::AckSubscribe,
            Response::AckUnsubscribe => ResponseView::AckUnsubscribe,
            Response::AckMarkRead => ResponseView::AckMarkRead,
            Response::ResourceNotFound(m) => ResponseView::ResourceNotFound(m@),
            Response::BadCommand(m) => ResponseView::BadCommand(m@),
            Response::NeedUser(m) => ResponseView::NeedUser(m@),
            Response::InternalError(m) => ResponseView::InternalError(m@),
        }
    }
}

/// The outcome of decoding a response, as views.
pub open spec fn response_result(r: Result<Response, ParseMessageError>) -> Result<
    ResponseView,
    ErrorView,
> {
    match r {
        Ok(v) => Ok(v@),
        Err(e) => Err(e@),
    }
}

/// The first position at or after `i` of a `:` that begins a token, that is,
/// one that follows a space.
pub open spec fn mark_from(s: Seq<char>, i: int) -> Option<int>
    decreases s.len() - i,
{
    if i < 1 || i >= s.len() {
        None
    } else if s[i - 1] == ' ' && s[i] == ':' {
        Some(i)
    } else {
        mark_from(s, i + 1)
    }
}

/// The first position at or after `i` of a `:`.
pub open spec fn colon_from(s: Seq<char>, i: int) -> Option<int>
    decreases s.len() - i,
{
    if i < 0 || i >= s.len() {
        None
    } else if s[i] == ':' {
        Some(i)
    } else {
        colon_from(s, i + 1)
    }
}

/// Where the title of an entry line begins: at its first `:` that begins a
/// token, so that a `:` inside an earlier field, such as the one of a URL's
/// scheme, is passed over; where no `:` begins a token, at its first `:`.
pub open spec fn title_mark(s: Seq<char>) -> Option<int> {
    match mark_from(s, 1) {
        Some(p) => Some(p),
        None => colon_from(s, 0),
    }
}

/// A response that takes no argument.
pub open spec fn bare(parts: Seq<Seq<char>>, v: ResponseView) -> Result<ResponseView, ErrorView> {
    match arity(parts.len(), 0) {
        Err(e) => Err(e),
        Ok(_) => Ok(v),
    }
}

/// A response that carries a message.
pub open spec fn with_message(
    parts: Seq<Seq<char>>,
    make: spec_fn(Seq<char>) -> ResponseView,
) -> Result<ResponseView, ErrorView> {
    match arity(parts.len(), 1) {
        Err(e) => Err(e),
        Ok(_) => match text_at(parts, "message"@, 1) {
            Err(e) => Err(e),
            Ok(m) => Ok(make(m)),
        },
    }
}

/// What an entry line decodes to: the fields are the tokens before the title
/// mark, the title is all that follows the mark.
pub open spec fn entry_of(line: Seq<char>) -> Result<ResponseView, ErrorView> {
    match title_mark(line) {
        None => Err(ErrorView::MissingArgument("title"@)),
        Some(p) => {
            let parts = tokens(line.subrange(0, p));
            match integer_at(parts, "id"@, 1) {
                Err(e) => Err(e),
                Ok(id) => match integer_at(parts, "feed_id"@, 2) {
                    Err(e) => Err(e),
                    Ok(feed_id) => match text_at(parts, "feed_url"@, 3) {
                        Err(e) => Err(e),
                        Ok(feed_url) => match text_at(parts, "url"@, 4) {
                            Err(e) => Err(e),
                            Ok(url) => Ok(
                                ResponseView::Entry {
                                    id,
                                    feed_id,
                                    feed_url,
                                    title: line.subrange(p + 1, line.len() as int),
                                    url,
                                },
                            ),
                        },
                    },
                },
            }
        },
    }
}

/// What a server line decodes to.
pub open spec fn response_of(line: Seq<char>) -> Result<ResponseView, ErrorView> {
    let parts = tokens(line);
    if parts.len() == 0 {
        Err(ErrorView::EmptyMessage)
    } else {
        let code = parts[0];
        if code == "20"@ {
            match arity(parts.len(), 1) {
                Err(e) => Err(e),
                Ok(_) => match integer_at(parts, "id"@, 1) {
                    Err(e) => Err(e),
                    Ok(id) => Ok(ResponseView::AckUser { id }),
                },
            }
        } else if code == "21"@ {
            bare(parts, ResponseView::StartSubscriptionList)
        } else if code == "22"@ {
            match arity(parts.len(), 2) {
                Err(e) => Err(e),
                Ok(_) => match integer_at(parts, "id"@, 1) {
                    Err(e) => Err(e),
                    Ok(id) => match text_at(parts, "url"@, 2) {
                        Err(e) => Err(e),
                        Ok(url) => Ok(ResponseView::Subscription { id, url }),
                    },
                },
            }
        } else if code == "23"@ {
            bare(parts, ResponseView::StartEntryList)
        } else if code == "24"@ {
            entry_of(line)
        } else if code == "25"@ {
            bare(parts, ResponseView::EndList)
        } else if code == "26"@ {
            bare(parts, ResponseView::AckSubscribe)
        } else if code == "27"@ {
            bare(parts, ResponseView::AckUnsubscribe)
        } else if code == "28"@ {
            bare(parts, ResponseView::AckMarkRead)
        } else if code == "40"@ {
            with_message(parts, |m: Seq<char>| ResponseView::ResourceNotFound(m))
        } else if code == "41"@ {
            with_message(parts, |m: Seq<char>| ResponseView::BadCommand(m))
        } else if code == "42"@ {
            with_message(parts, |m: Seq<char>| ResponseView::NeedUser(m))
        } else if code == "50"@ {
            with_message(parts, |m: Seq<char>| ResponseView::InternalError(m))
        } else {
            Err(ErrorView::UnknownType(code))
        }
    }
}

/// The wire line of a response: its code, then its fields separated by single
/// spaces, and for an entry ` :` followed by the title.
pub open spec fn response_line(r: ResponseView) -> Seq<char> {
    match r {
        ResponseView::AckUser { id } => "20 "@ + decimal(id as int),
        ResponseView::StartSubscriptionList => "21"@,
        ResponseView::Subscription { id, url } => "22 "@ + decimal(id as int) + " "@ + url,
        ResponseView::StartEntryList => "23"@,
        ResponseView::Entry { id, feed_id, feed_url, title, url } => "24 "@ + decimal(id as int)
            + " "@ + decimal(feed_id as int) + " "@ + feed_url + " "@ + url + " :"@ + title,
        ResponseView::EndList => "25"@,
        ResponseView::AckSubscribe => "26"@,
        ResponseView::AckUnsubscribe => "27"@,
        ResponseView::AckMarkRead => "28"@,
        ResponseView::ResourceNotFound(m) => "40 "@ + m,
        ResponseView::BadCommand(m) => "41 "@ + m,
        ResponseView::NeedUser(m) => "42 "@ + m,
        ResponseView::InternalError(m) => "50 "@ + m,
    }
}

/// Finds where the title of an entry line begins.
fn find_title_mark(line: &str) -> (r: Option<usize>)
    ensures
        match r {
            Some(p) => title_mark(line@) == Some(p as int) && p < line@.len(),
            None => title_mark(line@) is None,
        },
{
    let chars = chars_of(line);
    let n = chars.len();
    let mut i: usize = 1;
    while i < n
        invariant
            chars@ == line@,
            n == line@.len(),
            1 <= i,
            mark_from(line@, 1) == mark_from(line@, i as int),
        decreases n - i,
    {
        if chars[i - 1] == ' ' && chars[i] == ':' {
            return Some(i);
        }
        i = i + 1;
    }
    assert(mark_from(line@, 1) is None);
    let mut j: usize = 0;
    while j < n
        invariant
            chars@ == line@,
            n == line@.len(),
            mark_from(line@, 1) is None,
            colon_from(line@, 0) == colon_from(line@, j as int),
        decreases n - j,
    {
        if chars[j] == ':' {
            return Some(j);
        }
        j = j + 1;
    }
    None
}

/// Decodes an entry line.
fn parse_entry(line: &str) -> (r: Result<Response, ParseMessageError>)
    ensures
        response_result(r) == entry_of(line@),
{
    let mark = match find_title_mark(line) {
        None => {
            return Err(ParseMessageError::MissingArgument(String::from_str("title")));
        },
        Some(p) => p,
    };
    let n = line.unicode_len();
    let parts = tokenize(line.substring_char(0, mark));
    let id = match integer_at_position(&parts, "id", 1) {
        Err(e) => {
            return Err(e);
        },
        Ok(v) => v,
    };
    let feed_id = match integer_at_position(&parts, "feed_id", 2) {
        Err(e) => {
            return Err(e);
        },
        Ok(v) => v,
    };
    let feed_url = match at_position(&parts, "feed_url", 3) {
        Err(e) => {
            return Err(e);
        },
        Ok(v) => v,
    };
    let url = match at_position(&parts, "url", 4) {
        Err(e) => {
            return Err(e);
        },
        Ok(v) => v,
    };
    let title = String::from_str(line.substring_char(mark + 1, n));
    Ok(Response::Entry { id, feed_id, feed_url, title, url })
}

/// A response that takes no argument, after the arity check.
fn bare_response(parts: &Vec<&str>, v: Response) -> (r: Result<Response, ParseMessageError>)
    ensures
        response_result(r) == bare(views(parts@), v@),
{
    match check_arguments(parts, 0) {
        Err(e) => Err(e),
        Ok(_) => Ok(v),
    }
}

/// The message of a response that carries one, after the arity check.
fn message_of(parts: &Vec<&str>) -> (r: Result<String, ParseMessageError>)
    ensures
        match arity(parts@.len(), 1) {
            Err(e) => text_result(r) == Err::<Seq<char>, ErrorView>(e),
            Ok(_) => text_result(r) == text_at(views(parts@), "message"@, 1),
        },
{
    match check_arguments(parts, 1) {
        Err(e) => Err(e),
        Ok(_) => at_position(parts, "message", 1),
    }
}

/// Decodes one line sent by a server.
pub fn parse_response(line: &str) -> (r: Result<Response, ParseMessageError>)
    ensures
        response_result(r) == response_of(line@),
{
    let parts = tokenize(line);
    let ghost p = views(parts@);
    if parts.len() == 0 {
        return Err(ParseMessageError::EmptyMessage);
    }
    let code = parts[0];
    assert(code@ == p[0]);
    if same_text(code, "20") {
        match check_arguments(&parts, 1) {
            Err(e) => Err(e),
            Ok(_) => match integer_at_position(&parts, "id", 1) {
                Err(e) => Err(e),
                Ok(id) => Ok(Response::AckUser { id }),
            },
        }
    } else if same_text(code, "21") {
        bare_response(&parts, Response::StartSubscriptionList)
    } else if same_text(code, "22") {
        match check_arguments(&parts, 2) {
            Err(e) => Err(e),
            Ok(_) => match integer_at_position(&parts, "id", 1) {
                Err(e) => Err(e),
                Ok(id) => match at_position(&parts, "url", 2) {
                    Err(e) => Err(e),
                    Ok(url) => Ok(Response::Subscription { id, url }),
                },
            },
        }
    } else if same_text(code, "23") {
        bare_response(&parts, Response::StartEntryList)
    } else if same_text(code, "24") {
        parse_entry(line)
    } else if same_text(code, "25") {
        bare_response(&parts, Response::EndList)
    } else if same_text(code, "26") {
        bare_response(&parts, Response::AckSubscribe)
    } else if same_text(code, "27") {
        bare_response(&parts, Response::AckUnsubscribe)
    } else if same_text(code, "28") {
        bare_response(&parts, Response::AckMarkRead)
    } else if same_text(code, "40") {
        match message_of(&parts) {
            Err(e) => Err(e),
            Ok(m) => Ok(Response::ResourceNotFound(m)),
        }
    } else if same_text(code, "41") {
        match message_of(&parts) {
            Err(e) => Err(e),
            Ok(m) => Ok(Response::BadCommand(m)),
        }
    } else if same_text(code, "42") {
        match message_of(&parts) {
            Err(e) => Err(e),
            Ok(m) => Ok(Response::NeedUser(m)),
        }
    } else if same_text(code, "50") {
        match message_of(&parts) {
            Err(e) => Err(e),
            Ok(m) => Ok(Response::InternalError(m)),
        }
    } else {
        Err(ParseMessageError::UnknownType(String::from_str(code)))
    }
}

impl Response {
    /// The wire line of this response, without a line terminator.
    pub fn render(&self) -> (r: String)
        ensures
            r@ == response_line(self@),
    {
        match self {
            Response::AckUser { id } => {
                let mut out = String::from_str("20 ");
                push_i64(&mut out, *id);
                out
            },
            Response::StartSubscriptionList => String::from_str("21"),
            Response::Subscription { id, url } => {
                let mut out = String::from_str("22 ");
                push_i64(&mut out, *id);
                out.append(" ");
                out.append(url.as_str());
                out
            },
            Response::StartEntryList => String::from_str("23"),
            Response::Entry { id, feed_id, feed_url, title, url } => {
                let mut out = String::from_str("24 ");
                push_i64(&mut out, *id);
                out.append(" ");
                push_i64(&mut out, *feed_id);
                out.append(" ");
                out.append(feed_url.as_str());
                out.append(" ");
                out.append(url.as_str());
                out.append(" :");
                out.append(title.as_str());
                out
            },
            Response::EndList => String::from_str("25"),
            Response::AckSubscribe => String::from_str("26"),
            Response::AckUnsubscribe => String::from_str("27"),
            Response::AckMarkRead => String::from_str("28"),
            Response::ResourceNotFound(m) => {
                let mut out = String::from_str("40 ");
                out.append(m.as_str());
                out
            },
            Response::BadCommand(m) => {
                let mut out = String::from_str("41 ");
                out.append(m.as_str());
                out
            },
            Response::NeedUser(m) => {
                let mut out = String::from_str("42 ");
                out.append(m.as_str());
                out
            },
            Response::InternalError(m) => {
                let mut out = String::from_str("50 ");
                out.append(m.as_str());
                out
            },
        }
    }

    /// The reply to a line that could not be parsed: a `BadCommand` carrying
    /// the error's human-readable rendering.
    pub fn from_parse_error(e: &ParseMessageError) -> (r: Response)
        ensures
            r@ == ResponseView::BadCommand(error_text(e@)),
    {
        Response::BadCommand(e.message())
    }
}

impl std::str::FromStr for Response {
    type Err = ParseMessageError;

    fn from_str(line: &str) -> (r: Result<Response, ParseMessageError>)
        ensures
            response_result(r) == response_of(line@),
    {
        parse_response(line)
    }
}

} // verus!
