use vstd::prelude::*;
use vstd::string::*;

use crate::decimal::{decimal, push_i64};
use crate::error::{
    arity, at_position, check_arguments, integer_at, integer_at_position, text_at, ErrorView,
    ParseMessageError,
};
use crate::text::{same_text, tokenize, tokens, views};

verus! {

/// A request sent by a client.
#[derive(Debug, Clone, PartialEq, Eq)]
pub enum Command {
    /// Select the active user for the session.
    User { username: String },
    /// List the current user's subscriptions.
    ListSubscriptions,
    /// Subscribe the current user to a new feed.
    Subscribe { url: String },
    /// Unsubscribe the current user from a feed.
    Unsubscribe { id: i64 },
    /// List the current user's unread feed entries.
    ListUnread,
    /// Mark a feed entry as read by the current user.
    MarkRead { id: i64 },
}

/// A command with its strings as character sequences.
pub enum CommandView {
    User { username: Seq<char> },
    ListSubscriptions,
    Subscribe { url: Seq<char> },
    Unsubscribe { id: i64 },
    ListUnread,
    MarkRead { id: i64 },
}

impl View for Command {
    type V = CommandView;

    open spec fn view(&self) -> CommandView {
        match self {
            Command::User { username } => CommandView::User { username: username@ },
            Command::ListSubscriptions => CommandView::ListSubscriptions,
            Command::Subscribe { url } => CommandView::Subscribe { url: url@ },
            Command::Unsubscribe { id } => CommandView::Unsubscribe { id: *id },
            Command::ListUnread => CommandView::ListUnread,
            Command::MarkRead { id } => CommandView::MarkRead { id: *id },
        }
    }
}

/// The outcome of decoding a command, as views.
pub open spec fn command_result(r: Result<Command, ParseMessageError>) -> Result<
    CommandView,
    ErrorView,
> {
    match r {
        Ok(c) => Ok(c@),
        Err(e) => Err(e@),
    }
}

/// A command that takes one string argument, named `name`.
pub open spec fn with_text(
    parts: Seq<Seq<char>>,
    name: Seq<char>,
    make: spec_fn(Seq<char>) -> CommandView,
) -> Result<CommandView, ErrorView> {
    match arity(parts.len(), 1) {
        Err(e) => Err(e),
        Ok(_) => match text_at(parts, name, 1) {
            Err(e) => Err(e),
            Ok(v) => Ok(make(v)),
        },
    }
}

/// A command that takes one integer argument, named `name`.
pub open spec fn with_integer(
    parts: Seq<Seq<char>>,
    name: Seq<char>,
    make: spec_fn(i64) -> CommandView,
) -> Result<CommandView, ErrorView> {
    match arity(parts.len(), 1) {
        Err(e) => Err(e),
        Ok(_) => match integer_at(parts, name, 1) {
            Err(e) => Err(e),
            Ok(v) => Ok(make(v)),
        },
    }
}

/// A command that takes no argument.
pub open spec fn bare(parts: Seq<Seq<char>>, c: CommandView) -> Result<CommandView, ErrorView> {
    match arity(parts.len(), 0) {
        Err(e) => Err(e),
        Ok(_) => Ok(c),
    }
}

/// What a client line decodes to.
pub open spec fn command_of(line: Seq<char>) -> Result<CommandView, ErrorView> {
    let parts = tokens(line);
    if parts.len() == 0 {
        Err(ErrorView::EmptyMessage)
    } else {
        let verb = parts[0];
        if verb == "USER"@ {
            with_text(parts, "username"@, |v: Seq<char>| CommandView::User { username: v })
        } else if verb == "LISTSUBSCRIPTIONS"@ {
            bare(parts, CommandView::ListSubscriptions)
        } else if verb == "SUBSCRIBE"@ {
            with_text(parts, "url"@, |v: Seq<char>| CommandView::Subscribe { url: v })
        } else if verb == "UNSUBSCRIBE"@ {
            with_integer(parts, "id"@, |v: i64| CommandView::Unsubscribe { id: v })
        } else if verb == "LISTUNREAD"@ {
            bare(parts, CommandView::ListUnread)
        } else if verb == "MARKREAD"@ {
            with_integer(parts, "id"@, |v: i64| CommandView::MarkRead { id: v })
        } else {
            Err(ErrorView::UnknownType(verb))
        }
    }
}

/// The wire line of a command: its verb, then a space and its argument if it
/// has one.
pub open spec fn command_line(c: CommandView) -> Seq<char> {
    match c {
        CommandView::User { username } => "USER "@ + username,
        CommandView::ListSubscriptions => "LISTSUBSCRIPTIONS"@,
        CommandView::Subscribe { url } => "SUBSCRIBE "@ + url,
        CommandView::Unsubscribe { id } => "UNSUBSCRIBE "@ + decimal(id as int),
        CommandView::ListUnread => "LISTUNREAD"@,
        CommandView::MarkRead { id } => "MARKREAD "@ + decimal(id as int),
    }
}

/// Decodes one line sent by a client.
pub fn parse_command(line: &str) -> (r: Result<Command, ParseMessageError>)
    ensures
        command_result(r) == command_of(line@),
{
    let parts = tokenize(line);
    let ghost p = views(parts@);
    if parts.len() == 0 {
        return Err(ParseMessageError::EmptyMessage);
    }
    let verb = parts[0];
    assert(verb@ == p[0]);
    if same_text(verb, "USER") {
        match check_arguments(&parts, 1) {
            Err(e) => Err(e),
            Ok(_) => match at_position(&parts, "username", 1) {
                Err(e) => Err(e),
                Ok(username) => Ok(Command::User { username }),
            },
        }
    } else if same_text(verb, "LISTSUBSCRIPTIONS") {
        match check_arguments(&parts, 0) {
            Err(e) => Err(e),
            Ok(_) => Ok(Command::ListSubscriptions),
        }
    } else if same_text(verb, "SUBSCRIBE") {
        match check_arguments(&parts, 1) {
            Err(e) => Err(e),
            Ok(_) => match at_position(&parts, "url", 1) {
                Err(e) => Err(e),
                Ok(url) => Ok(Command::Subscribe { url }),
            },
        }
    } else if same_text(verb, "UNSUBSCRIBE") {
        match check_arguments(&parts, 1) {
            Err(e) => Err(e),
            Ok(_) => match integer_at_position(&parts, "id", 1) {
                Err(e) => Err(e),
                Ok(id) => Ok(Command::Unsubscribe { id }),
            },
        }
    } else if same_text(verb, "LISTUNREAD") {
        match check_arguments(&parts, 0) {
            Err(e) => Err(e),
            Ok(_) => Ok(Command::ListUnread),
        }
    } else if same_text(verb, "MARKREAD") {
        match check_arguments(&parts, 1) {
            Err(e) => Err(e),
            Ok(_) => match integer_at_position(&parts, "id", 1) {
                Err(e) => Err(e),
                Ok(id) => Ok(Command::MarkRead { id }),
            },
        }
    } else {
        Err(ParseMessageError::UnknownType(String::from_str(verb)))
    }
}

impl Command {
    /// The wire line of this command, without a line terminator.
    pub fn render(&self) -> (r: String)
        ensures
            r@ == command_line(self@),
    {
        match self {
            Command::User { username } => {
                let mut out = String::from_str("USER ");
                out.append(username.as_str());
                out
            },
            Command::ListSubscriptions => String::from_str("LISTSUBSCRIPTIONS"),
            Command::Subscribe { url } => {
                let mut out = String::from_str("SUBSCRIBE ");
                out.append(url.as_str());
                out
            },
            Command::Unsubscribe { id } => {
                let mut out = String::from_str("UNSUBSCRIBE ");
                push_i64(&mut out, *id);
                out
            },
            Command::ListUnread => String::from_str("LISTUNREAD"),
            Command::MarkRead { id } => {
                let mut out = String::from_str("MARKREAD ");
                push_i64(&mut out, *id);
                out
            },
        }
    }
}

impl std::str::FromStr for Command {
    type Err = ParseMessageError;

    fn from_str(line: &str) -> (r: Result<Command, ParseMessageError>)
        ensures
            command_result(r) == command_of(line@),
    {
        parse_command(line)
    }
}

} // verus!
