use seymour_protocol::{parse_command, parse_response, Command, ParseMessageError, Response};

fn text(s: &str) -> String {
    s.to_string()
}

#[test]
fn empty_line_is_empty_message() {
    assert_eq!(parse_command(""), Err(ParseMessageError::EmptyMessage));
    assert_eq!(parse_response(""), Err(ParseMessageError::EmptyMessage));
}

#[test]
fn unknown_verb() {
    assert_eq!(parse_command("FOO"), Err(ParseMessageError::UnknownType(text("FOO"))));
    assert_eq!(parse_command(" USER a"), Err(ParseMessageError::UnknownType(text(""))));
    assert_eq!(parse_command("user a"), Err(ParseMessageError::UnknownType(text("user"))));
}

#[test]
fn unknown_code() {
    assert_eq!(parse_response("51 oops"), Err(ParseMessageError::UnknownType(text("51"))));
    assert_eq!(parse_response("2"), Err(ParseMessageError::UnknownType(text("2"))));
}

#[test]
fn user_without_argument() {
    assert_eq!(
        parse_command("USER"),
        Err(ParseMessageError::MissingArgument(text("username")))
    );
}

#[test]
fn user_with_two_arguments() {
    assert_eq!(
        parse_command("USER a b"),
        Err(ParseMessageError::TooManyArguments { expected: 1, actual: 2 })
    );
}

#[test]
fn repeated_spaces_make_empty_tokens() {
    assert_eq!(
        parse_command("USER  a"),
        Err(ParseMessageError::TooManyArguments { expected: 1, actual: 2 })
    );
    assert_eq!(parse_command("USER "), Ok(Command::User { username: text("") }));
    assert_eq!(
        parse_command("LISTUNREAD "),
        Err(ParseMessageError::TooManyArguments { expected: 0, actual: 1 })
    );
}

#[test]
fn markread_with_non_integer() {
    assert_eq!(
        parse_command("MARKREAD abc"),
        Err(ParseMessageError::InvalidIntegerArgument { argument: text("id"), value: text("abc") })
    );
}

#[test]
fn markread_with_integer() {
    assert_eq!(parse_command("MARKREAD 42"), Ok(Command::MarkRead { id: 42 }));
}

#[test]
fn integer_forms() {
    assert_eq!(parse_command("UNSUBSCRIBE -17"), Ok(Command::Unsubscribe { id: -17 }));
    assert_eq!(parse_command("UNSUBSCRIBE +5"), Ok(Command::Unsubscribe { id: 5 }));
    assert_eq!(parse_command("UNSUBSCRIBE 007"), Ok(Command::Unsubscribe { id: 7 }));
    assert_eq!(
        parse_command("UNSUBSCRIBE 9223372036854775807"),
        Ok(Command::Unsubscribe { id: i64::MAX })
    );
    assert_eq!(
        parse_command("UNSUBSCRIBE -9223372036854775808"),
        Ok(Command::Unsubscribe { id: i64::MIN })
    );
    for bad in ["9223372036854775808", "-9223372036854775809", "-", "+", "", "1.5", "1e3", " 1"] {
        let line = format!("UNSUBSCRIBE {}", bad);
        let expected = if bad == " 1" {
            Err(ParseMessageError::TooManyArguments { expected: 1, actual: 2 })
        } else {
            Err(ParseMessageError::InvalidIntegerArgument { argument: text("id"), value: text(bad) })
        };
        assert_eq!(parse_command(&line), expected);
    }
}

#[test]
fn ack_user_parses_and_renders() {
    assert_eq!(parse_response("20 7"), Ok(Response::AckUser { id: 7 }));
    assert_eq!(Response::AckUser { id: 7 }.render(), "20 7");
}

#[test]
fn subscription_parses() {
    assert_eq!(
        parse_response("22 3 http://example.com/feed"),
        Ok(Response::Subscription { id: 3, url: text("http://example.com/feed") })
    );
}

#[test]
fn entry_title_keeps_spaces() {
    let parsed = parse_response("24 1 2 http://f.example :My Title").unwrap();
    match parsed {
        Response::Entry { id, feed_id, feed_url, title, url } => {
            assert_eq!(id, 1);
            assert_eq!(feed_id, 2);
            assert_eq!(feed_url, "http://f.example");
            assert_eq!(title, "My Title");
            assert_eq!(url, "");
        }
        other => panic!("not an entry: {:?}", other),
    }
}

#[test]
fn entry_without_colon_misses_title() {
    assert_eq!(
        parse_response("24 1 2 feed url title"),
        Err(ParseMessageError::MissingArgument(text("title")))
    );
}

#[test]
fn entry_splits_at_first_colon_when_none_begins_a_token() {
    assert_eq!(
        parse_response("24 1 2 f u:t"),
        Ok(Response::Entry {
            id: 1,
            feed_id: 2,
            feed_url: text("f"),
            title: text("t"),
            url: text("u"),
        })
    );
    assert_eq!(
        parse_response("24 1:t"),
        Err(ParseMessageError::MissingArgument(text("feed_id")))
    );
    assert_eq!(
        parse_response("24 1 2 http://f.example http://e.example"),
        Err(ParseMessageError::MissingArgument(text("url")))
    );
}

#[test]
fn entry_field_errors() {
    assert_eq!(
        parse_response("24 x 2 a b :t"),
        Err(ParseMessageError::InvalidIntegerArgument { argument: text("id"), value: text("x") })
    );
    assert_eq!(
        parse_response("24 1 y a b :t"),
        Err(ParseMessageError::InvalidIntegerArgument { argument: text("feed_id"), value: text("y") })
    );
    assert_eq!(
        parse_response("24 1 :t"),
        Err(ParseMessageError::InvalidIntegerArgument { argument: text("feed_id"), value: text("") })
    );
    assert_eq!(parse_response("24 1 2 :t"), Err(ParseMessageError::MissingArgument(text("url"))));
}

#[test]
fn entry_round_trip() {
    let entry = Response::Entry {
        id: 10,
        feed_id: -3,
        feed_url: text("https://feeds.example/rss"),
        title: text("A title: with colons :and spaces"),
        url: text("https://feeds.example/post/1"),
    };
    let line = entry.render();
    assert_eq!(
        line,
        "24 10 -3 https://feeds.example/rss https://feeds.example/post/1 :A title: with colons :and spaces"
    );
    assert_eq!(parse_response(&line), Ok(entry));
}

#[test]
fn command_round_trips() {
    let commands = vec![
        Command::User { username: text("alice") },
        Command::User { username: text("") },
        Command::ListSubscriptions,
        Command::Subscribe { url: text("http://example.com/feed.xml") },
        Command::Unsubscribe { id: -1 },
        Command::ListUnread,
        Command::MarkRead { id: i64::MAX },
        Command::MarkRead { id: i64::MIN },
    ];
    for c in commands {
        assert_eq!(parse_command(&c.render()), Ok(c.clone()));
    }
}

#[test]
fn command_renderings() {
    assert_eq!(Command::User { username: text("bob") }.render(), "USER bob");
    assert_eq!(Command::ListSubscriptions.render(), "LISTSUBSCRIPTIONS");
    assert_eq!(Command::Subscribe { url: text("u") }.render(), "SUBSCRIBE u");
    assert_eq!(Command::Unsubscribe { id: 0 }.render(), "UNSUBSCRIBE 0");
    assert_eq!(Command::ListUnread.render(), "LISTUNREAD");
    assert_eq!(Command::MarkRead { id: -120 }.render(), "MARKREAD -120");
}

#[test]
fn response_round_trips() {
    let responses = vec![
        Response::AckUser { id: 0 },
        Response::StartSubscriptionList,
        Response::Subscription { id: 99, url: text("gemini://x.example/") },
        Response::StartEntryList,
        Response::EndList,
        Response::AckSubscribe,
        Response::AckUnsubscribe,
        Response::AckMarkRead,
        Response::ResourceNotFound(text("feed")),
        Response::BadCommand(text("nope")),
        Response::NeedUser(text("")),
        Response::InternalError(text("db")),
    ];
    for r in responses {
        assert_eq!(parse_response(&r.render()), Ok(r.clone()));
    }
}

#[test]
fn response_renderings() {
    assert_eq!(Response::StartSubscriptionList.render(), "21");
    assert_eq!(Response::Subscription { id: 3, url: text("u") }.render(), "22 3 u");
    assert_eq!(Response::StartEntryList.render(), "23");
    assert_eq!(Response::EndList.render(), "25");
    assert_eq!(Response::AckSubscribe.render(), "26");
    assert_eq!(Response::AckUnsubscribe.render(), "27");
    assert_eq!(Response::AckMarkRead.render(), "28");
    assert_eq!(Response::ResourceNotFound(text("m")).render(), "40 m");
    assert_eq!(Response::BadCommand(text("m")).render(), "41 m");
    assert_eq!(Response::NeedUser(text("m")).render(), "42 m");
    assert_eq!(Response::InternalError(text("m")).render(), "50 m");
}

#[test]
fn message_arity() {
    assert_eq!(parse_response("41"), Err(ParseMessageError::MissingArgument(text("message"))));
    assert_eq!(
        parse_response("41 two words"),
        Err(ParseMessageError::TooManyArguments { expected: 1, actual: 2 })
    );
    assert_eq!(
        parse_response("22 1 a b"),
        Err(ParseMessageError::TooManyArguments { expected: 2, actual: 3 })
    );
    assert_eq!(parse_response("22 1"), Err(ParseMessageError::MissingArgument(text("url"))));
    assert_eq!(
        parse_response("25 x"),
        Err(ParseMessageError::TooManyArguments { expected: 0, actual: 1 })
    );
}

#[test]
fn render_adds_no_line_terminator() {
    let lines = vec![
        Command::ListUnread.render(),
        Command::User { username: text("a") }.render(),
        Response::EndList.render(),
        Response::AckUser { id: 1 }.render(),
    ];
    for line in lines {
        assert!(!line.ends_with('\n'));
        assert!(!line.ends_with('\r'));
    }
}

#[test]
fn error_messages() {
    assert_eq!(ParseMessageError::EmptyMessage.message(), "empty message");
    assert_eq!(
        ParseMessageError::UnknownType(text("FOO")).message(),
        "unknown message type \"FOO\""
    );
    assert_eq!(
        ParseMessageError::MissingArgument(text("id")).message(),
        "missing argument \"id\""
    );
    assert_eq!(
        ParseMessageError::TooManyArguments { expected: 1, actual: 12 }.message(),
        "too many arguments (expected 1, got 12)"
    );
    assert_eq!(
        ParseMessageError::InvalidIntegerArgument { argument: text("id"), value: text("abc") }
            .message(),
        "invalid integer value \"abc\" for argument \"id\""
    );
}

#[test]
fn parse_error_becomes_bad_command() {
    let e = parse_command("USER a b").unwrap_err();
    assert_eq!(
        Response::from_parse_error(&e),
        Response::BadCommand(text("too many arguments (expected 1, got 2)"))
    );
}

#[test]
fn from_str_parses() {
    assert_eq!("LISTUNREAD".parse::<Command>(), Ok(Command::ListUnread));
    assert_eq!("28".parse::<Response>(), Ok(Response::AckMarkRead));
}

#[test]
fn line_terminator_is_kept_in_the_last_token() {
    assert_eq!(
        "USER bob\n".parse::<Command>(),
        Ok(Command::User { username: text("bob\n") })
    );
    assert_eq!(
        "MARKREAD 42\n".parse::<Command>(),
        Err(ParseMessageError::InvalidIntegerArgument { argument: text("id"), value: text("42\n") })
    );
}
