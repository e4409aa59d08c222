use vstd::prelude::*;

use crate::command::{command_line, command_of, CommandView};
use crate::decimal::{decimal, lemma_decimal_word, lemma_parse_decimal};
use crate::error::ErrorView;
use crate::response::{mark_from, response_line, response_of, title_mark, ResponseView};
use crate::text::{
    lemma_split_word, lemma_tokens_one, lemma_tokens_three,
    lemma_tokens_two, no_space, split_spaces, tokens,
};

verus! {

/// Whether every string field of a command stays one token on the wire.
pub open spec fn command_fields_are_words(c: CommandView) -> bool {
    match c {
        CommandView::User { username } => no_space(username),
        CommandView::Subscribe { url } => no_space(url),
        _ => true,
    }
}

/// Decoding the rendered line of a command gives the command back, as long as
/// its string fields hold no space.
pub proof fn lemma_command_round_trip(c: CommandView)
    requires
        command_fields_are_words(c),
    ensures
        command_of(command_line(c)) == Ok::<CommandView, ErrorView>(c),
{
    reveal_strlit("USER");
    reveal_strlit("USER ");
    reveal_strlit("LISTSUBSCRIPTIONS");
    reveal_strlit("SUBSCRIBE");
    reveal_strlit("SUBSCRIBE ");
    reveal_strlit("UNSUBSCRIBE");
    reveal_strlit("UNSUBSCRIBE ");
    reveal_strlit("LISTUNREAD");
    reveal_strlit("MARKREAD");
    reveal_strlit("MARKREAD ");
    let line = command_line(c);
    match c {
        CommandView::User { username } => {
            assert("USER "@ =~= "USER"@ + seq![' ']);
            assert(line =~= "USER"@ + seq![' '] + username);
            lemma_tokens_two("USER"@, username);
        },
        CommandView::ListSubscriptions => {
            lemma_tokens_one(line);
        },
        CommandView::Subscribe { url } => {
            assert("SUBSCRIBE "@ =~= "SUBSCRIBE"@ + seq![' ']);
            assert(line =~= "SUBSCRIBE"@ + seq![' '] + url);
            lemma_tokens_two("SUBSCRIBE"@, url);
        },
        CommandView::Unsubscribe { id } => {
            assert("UNSUBSCRIBE "@ =~= "UNSUBSCRIBE"@ + seq![' ']);
            lemma_decimal_word(id as int);
            lemma_parse_decimal(id);
            assert(line =~= "UNSUBSCRIBE"@ + seq![' '] + decimal(id as int));
            lemma_tokens_two("UNSUBSCRIBE"@, decimal(id as int));
        },
        CommandView::ListUnread => {
            lemma_tokens_one(line);
        },
        CommandView::MarkRead { id } => {
            assert("MARKREAD "@ =~= "MARKREAD"@ + seq![' ']);
            lemma_decimal_word(id as int);
            lemma_parse_decimal(id);
            assert(line =~= "MARKREAD"@ + seq![' '] + decimal(id as int));
            lemma_tokens_two("MARKREAD"@, decimal(id as int));
        },
    }
}

} // verus!

verus! {

/// Whether every string field of a response stays one token on the wire.
pub open spec fn response_fields_are_words(r: ResponseView) -> bool {
    match r {
        ResponseView::Subscription { url, .. } => no_space(url),
        ResponseView::ResourceNotFound(m) => no_space(m),
        ResponseView::BadCommand(m) => no_space(m),
        ResponseView::NeedUser(m) => no_space(m),
        ResponseView::InternalError(m) => no_space(m),
        _ => true,
    }
}

/// The characters of the response codes that the proofs below need.
proof fn lemma_code_texts()
    ensures
        "20 "@ =~= "20"@ + seq![' '],
        "22 "@ =~= "22"@ + seq![' '],
        "40 "@ =~= "40"@ + seq![' '],
        "41 "@ =~= "41"@ + seq![' '],
        "42 "@ =~= "42"@ + seq![' '],
        "50 "@ =~= "50"@ + seq![' '],
        " "@ =~= seq![' '],
        no_space("20"@),
        no_space("21"@),
        no_space("22"@),
        no_space("23"@),
        no_space("25"@),
        no_space("26"@),
        no_space("27"@),
        no_space("28"@),
        no_space("40"@),
        no_space("41"@),
        no_space("42"@),
        no_space("50"@),
        "20"@[1] == '0' && "21"@[1] == '1' && "22"@[1] == '2',
        "40"@[1] == '0' && "41"@[1] == '1' && "42"@[1] == '2',
        "23"@[1] == '3' && "24"@[1] == '4',
        "24 "@ =~= "24"@ + seq![' '],
        " :"@ =~= seq![' ', ':'],
        no_space("24"@),
        "24"@.len() == 2,
        "24"@[0] != ':' && "24"@[1] != ':',
{
    reveal_strlit("20");
    reveal_strlit("20 ");
    reveal_strlit("21");
    reveal_strlit("22");
    reveal_strlit("22 ");
    reveal_strlit("23");
    reveal_strlit("24");
    reveal_strlit("24 ");
    reveal_strlit(" :");
    reveal_strlit("25");
    reveal_strlit("26");
    reveal_strlit("27");
    reveal_strlit("28");
    reveal_strlit("40");
    reveal_strlit("40 ");
    reveal_strlit("41");
    reveal_strlit("41 ");
    reveal_strlit("42");
    reveal_strlit("42 ");
    reveal_strlit("50");
    reveal_strlit("50 ");
    reveal_strlit(" ");
}

/// Decoding the rendered line of a response other than an entry gives the
/// response back, as long as its string fields hold no space.
pub proof fn lemma_response_round_trip(r: ResponseView)
    requires
        !(r is Entry),
        response_fields_are_words(r),
    ensures
        response_of(response_line(r)) == Ok::<ResponseView, ErrorView>(r),
{
    lemma_code_texts();
    reveal_strlit("20");
    reveal_strlit("21");
    reveal_strlit("22");
    reveal_strlit("23");
    reveal_strlit("24");
    reveal_strlit("25");
    reveal_strlit("26");
    reveal_strlit("27");
    reveal_strlit("28");
    reveal_strlit("40");
    reveal_strlit("41");
    reveal_strlit("42");
    reveal_strlit("50");
    let line = response_line(r);
    match r {
        ResponseView::AckUser { id } => {
            lemma_decimal_word(id as int);
            lemma_parse_decimal(id);
            assert(line =~= "20"@ + seq![' '] + decimal(id as int));
            lemma_tokens_two("20"@, decimal(id as int));
        },
        ResponseView::Subscription { id, url } => {
            lemma_decimal_word(id as int);
            lemma_parse_decimal(id);
            assert(line =~= "22"@ + seq![' '] + decimal(id as int) + seq![' '] + url);
            lemma_tokens_three("22"@, decimal(id as int), url);
        },
        ResponseView::ResourceNotFound(m) => {
            lemma_tokens_two("40"@, m);
        },
        ResponseView::BadCommand(m) => {
            lemma_tokens_two("41"@, m);
        },
        ResponseView::NeedUser(m) => {
            lemma_tokens_two("42"@, m);
        },
        ResponseView::InternalError(m) => {
            lemma_tokens_two("50"@, m);
        },
        _ => {
            lemma_tokens_one(line);
        },
    }
}

} // verus!

verus! {

/// Whether no `:` in `s` begins a token.
pub open spec fn no_mark(s: Seq<char>) -> bool {
    forall|i: int| 1 <= i < s.len() ==> !(s[i - 1] == ' ' && #[trigger] s[i] == ':')
}

/// Whether a field of an entry stays one token that does not begin with `:`.
pub open spec fn plain_field(w: Seq<char>) -> bool {
    no_space(w) && (w.len() == 0 || w[0] != ':')
}

/// A space and a plain field appended to a line without a title mark add none.
proof fn lemma_no_mark_extend(s: Seq<char>, w: Seq<char>)
    requires
        no_mark(s),
        plain_field(w),
    ensures
        no_mark(s + seq![' '] + w),
{
    let t = s + seq![' '] + w;
    assert forall|i: int| 1 <= i < t.len() implies !(t[i - 1] == ' ' && #[trigger] t[i] == ':') by {
        if i < s.len() {
            assert(t[i - 1] == s[i - 1] && t[i] == s[i]);
        } else if i == s.len() {
            assert(t[i] == ' ');
        } else if i == s.len() + 1 {
            assert(t[i] == w[0]);
        } else {
            assert(t[i - 1] == w[i - 1 - s.len() - 1]);
        }
    }
}

/// The search for a title mark stops at the first one.
proof fn lemma_mark_found(s: Seq<char>, j: int, p: int)
    requires
        1 <= j <= p < s.len(),
        s[p - 1] == ' ' && s[p] == ':',
        forall|i: int| j <= i < p ==> !(s[i - 1] == ' ' && #[trigger] s[i] == ':'),
    ensures
        mark_from(s, j) == Some(p),
    decreases p - j,
{
    if j < p {
        lemma_mark_found(s, j + 1, p);
    }
}

/// Once a line has two pieces, appending to it keeps its first piece.
proof fn lemma_split_keeps_first(s: Seq<char>, w: Seq<char>)
    requires
        split_spaces(s).len() >= 2,
    ensures
        split_spaces(s + w).len() >= split_spaces(s).len(),
        split_spaces(s + w)[0] == split_spaces(s)[0],
    decreases w.len(),
{
    if w.len() == 0 {
        assert(s + w =~= s);
    } else {
        let v = w.drop_last();
        lemma_split_keeps_first(s, v);
        assert((s + w).drop_last() =~= s + v);
    }
}

/// The first token of a word followed by a space and anything is that word.
proof fn lemma_first_token(a: Seq<char>, rest: Seq<char>)
    requires
        no_space(a),
        a.len() > 0,
    ensures
        tokens(a + seq![' '] + rest).len() >= 2,
        tokens(a + seq![' '] + rest)[0] == a,
{
    lemma_tokens_one(a);
    lemma_split_word(a, Seq::<char>::empty());
    assert(a + seq![' '] + Seq::<char>::empty() =~= a + seq![' ']);
    lemma_split_keeps_first(a + seq![' '], rest);
}

/// The fields of an entry line before its title mark, with the space that
/// precedes the mark.
spec fn entry_fields(d1: Seq<char>, d2: Seq<char>, feed_url: Seq<char>, url: Seq<char>) -> Seq<
    char,
> {
    "24"@ + seq![' '] + d1 + seq![' '] + d2 + seq![' '] + feed_url + seq![' '] + url + seq![' ']
}

/// The fields of an entry line are its first six tokens, the last one empty.
proof fn lemma_entry_fields_tokens(d1: Seq<char>, d2: Seq<char>, feed_url: Seq<char>, url: Seq<char>)
    requires
        no_space(d1),
        no_space(d2),
        no_space(feed_url),
        no_space(url),
    ensures
        tokens(entry_fields(d1, d2, feed_url, url)) == seq![
            "24"@,
            d1,
            d2,
            feed_url,
            url,
            Seq::<char>::empty(),
        ],
{
    lemma_code_texts();
    let sp = seq![' '];
    let e = Seq::<char>::empty();
    let a2 = "24"@ + sp + d1 + sp + d2;
    let a3 = a2 + sp + feed_url;
    let a4 = a3 + sp + url;
    lemma_tokens_three("24"@, d1, d2);
    lemma_split_word(a2, feed_url);
    lemma_split_word(a3, url);
    lemma_split_word(a4, e);
    assert(a4 + sp + e =~= entry_fields(d1, d2, feed_url, url));
    assert(tokens(entry_fields(d1, d2, feed_url, url)) =~~= seq!["24"@, d1, d2, feed_url, url, e]);
}

/// No `:` begins a token among the fields of an entry line.
proof fn lemma_entry_fields_no_mark(d1: Seq<char>, d2: Seq<char>, feed_url: Seq<char>, url: Seq<char>)
    requires
        plain_field(d1),
        plain_field(d2),
        plain_field(feed_url),
        plain_field(url),
    ensures
        no_mark(entry_fields(d1, d2, feed_url, url)),
{
    lemma_code_texts();
    let sp = seq![' '];
    let e = Seq::<char>::empty();
    let code = "24"@;
    let a1 = code + sp + d1;
    let a2 = a1 + sp + d2;
    let a3 = a2 + sp + feed_url;
    let a4 = a3 + sp + url;
    assert(no_mark(code));
    lemma_no_mark_extend(code, d1);
    lemma_no_mark_extend(a1, d2);
    lemma_no_mark_extend(a2, feed_url);
    lemma_no_mark_extend(a3, url);
    lemma_no_mark_extend(a4, e);
    assert(a4 + sp + e =~= entry_fields(d1, d2, feed_url, url));
}

/// Where an entry line splits into fields and title.
proof fn lemma_entry_mark(pre: Seq<char>, title: Seq<char>)
    requires
        no_mark(pre),
        pre.len() >= 1,
        pre.last() == ' ',
    ensures
        title_mark(pre + seq![':'] + title) == Some(pre.len() as int),
        (pre + seq![':'] + title).subrange(0, pre.len() as int) == pre,
        (pre + seq![':'] + title).subrange(
            pre.len() + 1 as int,
            (pre + seq![':'] + title).len() as int,
        ) == title,
{
    let line = pre + seq![':'] + title;
    let p = pre.len() as int;
    assert(line[p - 1] == ' ' && line[p] == ':');
    assert forall|i: int| 1 <= i < p implies !(line[i - 1] == ' ' && #[trigger] line[i] == ':') by {
        assert(line[i - 1] == pre[i - 1] && line[i] == pre[i]);
    }
    lemma_mark_found(line, 1, p);
    assert(line.subrange(0, p) =~= pre);
    assert(line.subrange(p + 1, line.len() as int) =~= title);
}

/// A line whose first token is the entry code decodes as an entry line.
proof fn lemma_entry_code(line: Seq<char>)
    requires
        tokens(line).len() > 0,
        tokens(line)[0] == "24"@,
    ensures
        response_of(line) == crate::response::entry_of(line),
{
    lemma_code_texts();
    reveal_strlit("20");
    reveal_strlit("21");
    reveal_strlit("22");
    reveal_strlit("23");
    reveal_strlit("24");
}

/// The rendered line of an entry, cut at its title mark.
proof fn lemma_entry_line(id: i64, feed_id: i64, feed_url: Seq<char>, title: Seq<char>, url: Seq<char>)
    ensures
        response_line(ResponseView::Entry { id, feed_id, feed_url, title, url }) == entry_fields(
            decimal(id as int),
            decimal(feed_id as int),
            feed_url,
            url,
        ) + seq![':'] + title,
        response_line(ResponseView::Entry { id, feed_id, feed_url, title, url }) == "24"@ + seq![
            ' ',
        ] + (decimal(id as int) + seq![' '] + decimal(feed_id as int) + seq![' '] + feed_url
            + seq![' '] + url + seq![' '] + seq![':'] + title),
{
    lemma_code_texts();
    let line = response_line(ResponseView::Entry { id, feed_id, feed_url, title, url });
    assert(line =~= entry_fields(decimal(id as int), decimal(feed_id as int), feed_url, url)
        + seq![':'] + title);
    assert(line =~= "24"@ + seq![' '] + (decimal(id as int) + seq![' '] + decimal(feed_id as int)
        + seq![' '] + feed_url + seq![' '] + url + seq![' '] + seq![':'] + title));
}

/// The fields and title of an entry line read back as the entry.
proof fn lemma_entry_fields_read(
    id: i64,
    feed_id: i64,
    feed_url: Seq<char>,
    title: Seq<char>,
    url: Seq<char>,
)
    requires
        plain_field(feed_url),
        plain_field(url),
    ensures
        crate::response::entry_of(
            entry_fields(decimal(id as int), decimal(feed_id as int), feed_url, url) + seq![':']
                + title,
        ) == Ok::<ResponseView, ErrorView>(
            ResponseView::Entry { id, feed_id, feed_url, title, url },
        ),
{
    let d1 = decimal(id as int);
    let d2 = decimal(feed_id as int);
    lemma_decimal_word(id as int);
    lemma_decimal_word(feed_id as int);
    lemma_parse_decimal(id);
    lemma_parse_decimal(feed_id);
    let pre = entry_fields(d1, d2, feed_url, url);
    lemma_entry_fields_no_mark(d1, d2, feed_url, url);
    lemma_entry_fields_tokens(d1, d2, feed_url, url);
    assert(pre.last() == ' ');
    lemma_entry_mark(pre, title);
}

/// Decoding the rendered line of an entry gives the entry back, as long as
/// its feed URL and URL hold no space and do not begin with `:`. The title
/// may hold anything.
pub proof fn lemma_entry_round_trip(
    id: i64,
    feed_id: i64,
    feed_url: Seq<char>,
    title: Seq<char>,
    url: Seq<char>,
)
    requires
        plain_field(feed_url),
        plain_field(url),
    ensures
        ({
            let r = ResponseView::Entry { id, feed_id, feed_url, title, url };
            response_of(response_line(r)) == Ok::<ResponseView, ErrorView>(r)
        }),
{
    let r = ResponseView::Entry { id, feed_id, feed_url, title, url };
    let line = response_line(r);
    lemma_entry_line(id, feed_id, feed_url, title, url);
    lemma_entry_fields_read(id, feed_id, feed_url, title, url);
    let rest = decimal(id as int) + seq![' '] + decimal(feed_id as int) + seq![' '] + feed_url
        + seq![' '] + url + seq![' '] + seq![':'] + title;
    lemma_code_texts();
    lemma_first_token("24"@, rest);
    lemma_entry_code(line);
}

} // verus!

verus! {

/// Whether `s` holds no line terminator character.
pub open spec fn no_line_break(s: Seq<char>) -> bool {
    forall|i: int| 0 <= i < s.len() ==> #[trigger] s[i] != '\n' && s[i] != '\r'
}

/// Joining two texts without line terminators gives none.
pub broadcast proof fn lemma_no_line_break_concat(a: Seq<char>, b: Seq<char>)
    requires
        no_line_break(a),
        no_line_break(b),
    ensures
        #[trigger] no_line_break(a + b),
{
    assert forall|i: int| 0 <= i < (a + b).len() implies #[trigger] (a + b)[i] != '\n' && (a
        + b)[i] != '\r' by {
        if i < a.len() {
            assert((a + b)[i] == a[i]);
        } else {
            assert((a + b)[i] == b[i - a.len()]);
        }
    }
}

/// The textual form of an integer holds no line terminator.
proof fn lemma_decimal_no_line_break(n: int)
    ensures
        no_line_break(decimal(n)),
{
    broadcast use lemma_no_line_break_concat;

    let m: nat = if n < 0 {
        (-n) as nat
    } else {
        n as nat
    };
    crate::decimal::lemma_nat_digits(m);
    let d = crate::decimal::nat_digits(m);
    assert forall|i: int| 0 <= i < d.len() implies #[trigger] d[i] != '\n' && d[i] != '\r' by {
        assert(crate::decimal::is_digit(d[i]));
    }
    assert(no_line_break(seq!['-']));
}

/// Rendering a command adds no line terminator: its line holds one only where
/// one of its string fields does.
pub proof fn lemma_command_line_has_no_terminator(c: CommandView)
    requires
        match c {
            CommandView::User { username } => no_line_break(username),
            CommandView::Subscribe { url } => no_line_break(url),
            _ => true,
        },
    ensures
        no_line_break(command_line(c)),
{
    broadcast use lemma_no_line_break_concat;

    reveal_strlit("USER ");
    reveal_strlit("LISTSUBSCRIPTIONS");
    reveal_strlit("SUBSCRIBE ");
    reveal_strlit("UNSUBSCRIBE ");
    reveal_strlit("LISTUNREAD");
    reveal_strlit("MARKREAD ");
    match c {
        CommandView::Unsubscribe { id } => lemma_decimal_no_line_break(id as int),
        CommandView::MarkRead { id } => lemma_decimal_no_line_break(id as int),
        _ => {},
    }
}

/// Rendering a response adds no line terminator: its line holds one only
/// where one of its string fields does.
pub proof fn lemma_response_line_has_no_terminator(r: ResponseView)
    requires
        match r {
            ResponseView::Subscription { url, .. } => no_line_break(url),
            ResponseView::Entry { feed_url, title, url, .. } => no_line_break(feed_url)
                && no_line_break(title) && no_line_break(url),
            ResponseView::ResourceNotFound(m) => no_line_break(m),
            ResponseView::BadCommand(m) => no_line_break(m),
            ResponseView::NeedUser(m) => no_line_break(m),
            ResponseView::InternalError(m) => no_line_break(m),
            _ => true,
        },
    ensures
        no_line_break(response_line(r)),
{
    broadcast use lemma_no_line_break_concat;

    reveal_strlit("20 ");
    reveal_strlit("21");
    reveal_strlit("22 ");
    reveal_strlit("23");
    reveal_strlit("24 ");
    reveal_strlit("25");
    reveal_strlit("26");
    reveal_strlit("27");
    reveal_strlit("28");
    reveal_strlit("40 ");
    reveal_strlit("41 ");
    reveal_strlit("42 ");
    reveal_strlit("50 ");
    reveal_strlit(" ");
    reveal_strlit(" :");
    match r {
        ResponseView::AckUser { id } => lemma_decimal_no_line_break(id as int),
        ResponseView::Subscription { id, .. } => lemma_decimal_no_line_break(id as int),
        ResponseView::Entry { id, feed_id, .. } => {
            lemma_decimal_no_line_break(id as int);
            lemma_decimal_no_line_break(feed_id as int);
        },
        _ => {},
    }
}

} // verus!
