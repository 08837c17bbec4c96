use crate::text::{
    chars_of, find_from, first_index, has_prefix, is_first_index, same_text, split, split_text,
    starts_with, text_of,
};
use vstd::prelude::*;
use vstd::string::StringExecFns;

verus! {

/// The token that opens a keep-alive probe.
pub open spec fn ping_token() -> Seq<char> {
    seq!['P', 'I', 'N', 'G']
}

/// Whether `line` is a keep-alive probe.
pub open spec fn is_ping_line(line: Seq<char>) -> bool {
    has_prefix(line, ping_token())
}

/// The answer to the probe `line`: `PO` in place of its first two characters.
pub open spec fn pong_of(line: Seq<char>) -> Seq<char> {
    seq!['P', 'O'] + (if line.len() >= 2 {
        line.skip(2)
    } else {
        Seq::empty()
    })
}

/// What a line of the form `:nick!host command arg ...` carries: the sender,
/// the command and the arguments. The part after the first `!` is cut at every
/// single space, so the positions of the arguments are those of the line; its
/// first piece, the host, is dropped. A line without the leading `:`, without
/// `!` or without a command carries nothing.
pub open spec fn user_msg(line: Seq<char>) -> Option<(Seq<char>, Seq<char>, Seq<Seq<char>>)> {
    if line.len() == 0 || line[0] != ':' {
        None
    } else {
        let rest = line.skip(1);
        if !rest.contains('!') {
            None
        } else {
            let bang = first_index(rest, '!');
            let items = split(rest.skip(bang + 1), ' ');
            if items.len() < 2 {
                None
            } else {
                Some((rest.take(bang), items[1], items.skip(2)))
            }
        }
    }
}

/// What a line from the server means to the client.
#[derive(Debug)]
pub enum ParsedEvent {
    /// Someone joined a channel.
    Join { who: String },
    /// Someone said something; the first argument names where.
    PrivateMessage { who: String, args: Vec<String> },
    /// Anything else.
    Unrecognized,
}

/// A [`ParsedEvent`] as plain texts.
pub enum EventView {
    Join { who: Seq<char> },
    PrivateMessage { who: Seq<char>, args: Seq<Seq<char>> },
    Unrecognized,
}

impl DeepView for ParsedEvent {
    type V = EventView;

    open spec fn deep_view(&self) -> EventView {
        match self {
            ParsedEvent::Join { who } => EventView::Join { who: who@ },
            ParsedEvent::PrivateMessage { who, args } => EventView::PrivateMessage {
                who: who@,
                args: args.deep_view(),
            },
            ParsedEvent::Unrecognized => EventView::Unrecognized,
        }
    }
}

/// The event that a command from `nick` stands for. Only `JOIN` and `PRIVMSG`
/// mean anything to the client.
pub open spec fn event_of_command(nick: Seq<char>, cmd: Seq<char>, args: Seq<Seq<char>>)
    -> EventView {
    if cmd == "JOIN"@ {
        EventView::Join { who: nick }
    } else if cmd == "PRIVMSG"@ {
        EventView::PrivateMessage { who: nick, args }
    } else {
        EventView::Unrecognized
    }
}

/// The event that a line stands for.
pub open spec fn event_of(line: Seq<char>) -> EventView {
    match user_msg(line) {
        Some((nick, cmd, args)) => event_of_command(nick, cmd, args),
        None => EventView::Unrecognized,
    }
}

/// Whether `c` ends a line.
pub open spec fn is_line_end(c: char) -> bool {
    c == '\n' || c == '\r'
}

/// `raw` without the line terminators at its end.
pub open spec fn without_line_end(raw: Seq<char>) -> Seq<char>
    decreases raw.len(),
{
    if raw.len() > 0 && is_line_end(raw.last()) {
        without_line_end(raw.drop_last())
    } else {
        raw
    }
}

/// Strips the line terminators off the end of a line as it was read.
pub fn trim_line_end(raw: &str) -> (line: String)
    ensures
        line@ == without_line_end(raw@),
{
    let chars = chars_of(raw);
    let mut end: usize = chars.len();
    assert(raw@.take(end as int) =~= raw@);
    while end > 0 && (chars[end - 1] == '\n' || chars[end - 1] == '\r')
        invariant
            end <= chars.len(),
            chars@ == raw@,
            without_line_end(raw@) == without_line_end(raw@.take(end as int)),
        decreases end,
    {
        assert(raw@.take(end as int).drop_last() =~= raw@.take(end - 1));
        end -= 1;
    }
    assert(raw@.take(end as int) =~= raw@.subrange(0, end as int));
    text_of(raw, 0, end)
}

/// Tells a keep-alive probe from every other line.
pub fn is_ping(msg: &str) -> (ping: bool)
    ensures
        ping == is_ping_line(msg@),
{
    proof {
        reveal_strlit("PING");
    }
    let token = chars_of("PING");
    assert(token@ =~= ping_token());
    let chars = chars_of(msg);
    starts_with(&chars, &token)
}

/// Answers a keep-alive probe by mirroring it.
pub fn pong_reply(ping: &str) -> (pong: String)
    ensures
        pong@ == pong_of(ping@),
{
    proof {
        reveal_strlit("PO");
    }
    let mut pong = String::from_str("PO");
    assert(pong@ =~= seq!['P', 'O']);
    let n: usize = ping.unicode_len();
    if n >= 2 {
        pong.append(ping.substring_char(2, n));
        assert(ping@.subrange(2, n as int) =~= ping@.skip(2));
    } else {
        assert(pong@ + Seq::<char>::empty() =~= pong@);
    }
    pong
}

/// Reads the sender, the command and the arguments off a line.
pub fn extract_user_msg(msg: &str) -> (parsed: Option<(String, String, Vec<String>)>)
    ensures
        parsed.deep_view() == user_msg(msg@),
{
    let chars = chars_of(msg);
    let n: usize = chars.len();
    if n == 0 || chars[0] != ':' {
        return None;
    }
    let bang: usize = find_from(&chars, 1, '!');
    let ghost rest = msg@.skip(1);
    if bang == n {
        assert(!rest.contains('!')) by {
            assert forall|i: int| 0 <= i < rest.len() implies rest[i] != '!' by {
                assert(rest[i] == msg@[i + 1]);
            }
        }
        return None;
    }
    proof {
        assert(is_first_index(rest, '!', bang - 1)) by {
            assert(rest[bang - 1] == msg@[bang as int]);
            assert forall|j: int| 0 <= j < bang - 1 implies rest[j] != '!' by {
                assert(rest[j] == msg@[j + 1]);
            }
        }
        assert(rest.contains('!'));
        assert(is_first_index(rest, '!', first_index(rest, '!')));
        assert(first_index(rest, '!') == bang - 1);
        assert(rest.take(bang - 1) =~= msg@.subrange(1, bang as int));
        assert(rest.skip(bang - 1 + 1) =~= msg@.subrange(bang + 1, n as int));
    }
    let nick = text_of(msg, 1, bang);
    let content = msg.substring_char(bang + 1, n);
    let items = split_text(content, ' ');
    if items.len() < 2 {
        return None;
    }
    let cmd = items[1].clone();
    let mut args: Vec<String> = Vec::new();
    let mut i: usize = 2;
    while i < items.len()
        invariant
            2 <= i <= items.len(),
            args.deep_view() == items.deep_view().subrange(2, i as int),
        decreases items.len() - i,
    {
        let ghost before = args.deep_view();
        args.push(items[i].clone());
        assert(args.deep_view() =~= before.push(items.deep_view()[i as int]));
        assert(items.deep_view().subrange(2, i + 1) =~= before.push(items.deep_view()[i as int]));
        i += 1;
    }
    assert(items.deep_view().subrange(2, i as int) =~= items.deep_view().skip(2));
    assert(cmd@ == items.deep_view()[1]);
    Some((nick, cmd, args))
}

/// Tells what a command from `nick` means to the client.
pub fn classify(nick: String, cmd: &str, args: Vec<String>) -> (event: ParsedEvent)
    ensures
        event.deep_view() == event_of_command(nick@, cmd@, args.deep_view()),
{
    if same_text(cmd, "JOIN") {
        ParsedEvent::Join { who: nick }
    } else if same_text(cmd, "PRIVMSG") {
        ParsedEvent::PrivateMessage { who: nick, args }
    } else {
        ParsedEvent::Unrecognized
    }
}

/// Turns a line into the event that it stands for.
pub fn parse_event(line: &str) -> (event: ParsedEvent)
    ensures
        event.deep_view() == event_of(line@),
{
    match extract_user_msg(line) {
        Some((nick, cmd, args)) => classify(nick, cmd.as_str(), args),
        None => ParsedEvent::Unrecognized,
    }
}

} // verus!
