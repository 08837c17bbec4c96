use crate::order::{order_of, tell_token, OrderView};
use crate::parse::{is_ping_line, ping_token, pong_of, user_msg};
use crate::session::{
    delivery, fetch_line, line_reaction, privmsg_reaction, said, title_line, url_actions,
    ActionView, SessionView,
};
use crate::tells::{drained, enqueued, loaded, no_empty_queue, pending, TellsView};
use crate::text::{
    drop_first_char, first_index, is_first_index, join, lemma_first_index, lemma_split_at_first,
    split,
};
use crate::title::{
    brought_page, chat_text, decorated, title_in, url_in, words_of, FetchedView,
};
use vstd::prelude::*;

verus! {

/// A message queued for `to` waits behind those that waited before, and for
/// nobody else. Once all that waits for `to` is handed over, `to` is no longer
/// kept and nothing waits for them.
pub proof fn tell_round_trip(m: TellsView, to: Seq<char>, from: Seq<char>, content: Seq<char>)
    ensures
        pending(enqueued(m, to, from, content), to) == pending(m, to).push((from, content)),
        !m.dom().contains(to) ==> pending(enqueued(m, to, from, content), to) == seq![
            (from, content),
        ],
        forall|other: Seq<char>|
            other != to ==> pending(enqueued(m, to, from, content), other) == pending(m, other),
        !drained(enqueued(m, to, from, content), to).dom().contains(to),
        pending(drained(enqueued(m, to, from, content), to), to) == Seq::<
            (Seq<char>, Seq<char>),
        >::empty(),
        !m.dom().contains(to) ==> drained(enqueued(m, to, from, content), to) == m,
{
    if !m.dom().contains(to) {
        assert(pending(m, to).push((from, content)) =~= seq![(from, content)]);
        assert(drained(enqueued(m, to, from, content), to) =~= m);
    }
}

/// Queuing a message and handing messages over keep every kept recipient with
/// a message waiting.
pub proof fn queues_stay_nonempty(m: TellsView, to: Seq<char>, from: Seq<char>, content: Seq<char>)
    requires
        no_empty_queue(m),
    ensures
        no_empty_queue(enqueued(m, to, from, content)),
        no_empty_queue(drained(m, to)),
{
    let e = enqueued(m, to, from, content);
    assert forall|k: Seq<char>| e.dom().contains(k) implies (#[trigger] e[k]).len() > 0 by {
        if k != to {
            assert(m[k].len() > 0);
        }
    }
    let d = drained(m, to);
    assert forall|k: Seq<char>| d.dom().contains(k) implies (#[trigger] d[k]).len() > 0 by {
        assert(m[k].len() > 0);
    }
}

/// A line put together from a sender without `!`, and a host, a command and
/// arguments without spaces, is parsed into that sender, that command and
/// those arguments.
pub proof fn formatted_line_is_parsed(
    nick: Seq<char>,
    host: Seq<char>,
    cmd: Seq<char>,
    args: Seq<Seq<char>>,
)
    requires
        !nick.contains('!'),
        !host.contains(' '),
        !cmd.contains(' '),
        forall|i: int| 0 <= i < args.len() ==> !(#[trigger] args[i]).contains(' '),
    ensures
        user_msg(seq![':'] + nick + seq!['!'] + join(seq![host, cmd] + args, seq![' '])) == Some(
            (nick, cmd, args),
        ),
{
    let items = seq![host, cmd] + args;
    let joined = join(items, seq![' ']);
    let line = seq![':'] + nick + seq!['!'] + joined;
    let rest = line.skip(1);
    let bang = nick.len() as int;
    assert(rest =~= nick + seq!['!'] + joined);
    assert(rest[bang] == '!');
    assert forall|j: int| 0 <= j < bang implies rest[j] != '!' by {
        assert(rest[j] == nick[j]);
    }
    assert(is_first_index(rest, '!', bang));
    assert(rest.contains('!'));
    assert(is_first_index(rest, '!', first_index(rest, '!')));
    assert(first_index(rest, '!') == bang);
    assert(rest.skip(bang + 1) =~= joined);
    assert(rest.take(bang) =~= nick);
    assert forall|i: int| 0 <= i < items.len() implies !(#[trigger] items[i]).contains(' ') by {
        if i >= 2 {
            assert(items[i] == args[i - 2]);
        }
    }
    split_of_join(items, ' ');
    assert(items.skip(2) =~= args);
}

/// A line that does not open with the sender marker `:` is not parsed.
pub proof fn unmarked_line_is_unrecognized(line: Seq<char>)
    requires
        line.len() == 0 || line[0] != ':',
    ensures
        user_msg(line) is None,
{
}

/// A line that is neither a keep-alive probe nor opens with the sender marker
/// asks for nothing and leaves the store as it is.
pub proof fn unmarked_line_is_ignored(s: SessionView, line: Seq<char>)
    requires
        line.len() == 0 || line[0] != ':',
        !is_ping_line(line),
    ensures
        line_reaction(s, line) == (s.tells, Seq::<ActionView>::empty()),
{
}

/// A parsed line is no keep-alive probe.
pub proof fn parsed_line_is_no_ping(line: Seq<char>)
    requires
        user_msg(line) is Some,
    ensures
        !is_ping_line(line),
{
    if is_ping_line(line) {
        assert(line.subrange(0, 4)[0] == ping_token()[0]);
    }
}

/// A keep-alive probe is answered with one line, which mirrors it, and leaves
/// the store as it is: `PING` and what follows it comes back as `PONG` and
/// what follows.
pub proof fn ping_is_mirrored(s: SessionView, rest: Seq<char>)
    ensures
        is_ping_line(ping_token() + rest),
        pong_of(ping_token() + rest) == seq!['P', 'O', 'N', 'G'] + rest,
        line_reaction(s, ping_token() + rest) == (
            s.tells,
            seq![ActionView::Send(seq!['P', 'O', 'N', 'G'] + rest)],
        ),
{
    let line = ping_token() + rest;
    assert(line.subrange(0, 4) =~= ping_token());
    assert(pong_of(line) =~= seq!['P', 'O', 'N', 'G'] + rest);
}

/// A chat message that the client itself sent asks for nothing and leaves the
/// store as it is.
pub proof fn own_message_is_ignored(s: SessionView, args: Seq<Seq<char>>)
    ensures
        privmsg_reaction(s, s.nick, args) == (s.tells, Seq::<ActionView>::empty()),
{
}

/// A line that carries a chat message of the client itself asks for nothing
/// and leaves the store as it is.
pub proof fn own_line_is_ignored(s: SessionView, line: Seq<char>, args: Seq<Seq<char>>)
    requires
        user_msg(line) == Some((s.nick, "PRIVMSG"@, args)),
    ensures
        line_reaction(s, line) == (s.tells, Seq::<ActionView>::empty()),
{
    parsed_line_is_no_ping(line);
    reveal_strlit("PRIVMSG");
    reveal_strlit("JOIN");
    assert("PRIVMSG"@.len() != "JOIN"@.len());
}

/// A chat message whose text mentions no address asks for no fetch.
pub proof fn no_url_no_fetch(s: SessionView, sender: Seq<char>, args: Seq<Seq<char>>)
    requires
        url_in(chat_text(args)) is None,
    ensures
        forall|i: int|
            0 <= i < privmsg_reaction(s, sender, args).1.len() ==> !(#[trigger] privmsg_reaction(
                s,
                sender,
                args,
            ).1[i] is Fetch),
{
    assert(url_actions(s.nick, sender, args) =~= Seq::<ActionView>::empty());
}

/// A chat message asks for at most one fetch: for the first address in its
/// text, and as the last thing it asks for.
pub proof fn url_is_fetched_last(s: SessionView, sender: Seq<char>, args: Seq<Seq<char>>)
    requires
        sender != s.nick,
        url_in(chat_text(args)) is Some,
    ensures
        privmsg_reaction(s, sender, args).1.len() > 0,
        privmsg_reaction(s, sender, args).1.last() matches ActionView::Fetch { url, .. } && Some(
            url,
        ) == url_in(chat_text(args)),
{
}

/// The line that answers a fetched page shows the title that the page states,
/// between the marks that set it off, to whoever the answer is for.
pub proof fn title_reply_shows_title(
    channel: Seq<char>,
    reply_to: Option<Seq<char>>,
    body: Seq<char>,
)
    ensures
        title_in(body) is None ==> title_line(channel, reply_to, body) is None,
        title_in(body) matches Some(title) ==> exists|before: Seq<char>, after: Seq<char>|
            title_line(channel, reply_to, body) == Some(#[trigger] (before + title + after)),
{
    if let Some(title) = title_in(body) {
        let target = match reply_to {
            Some(user) => user,
            None => channel,
        };
        let before = "PRIVMSG "@ + target + " :"@ + "\x037\u{ab}\x036 "@;
        let after = " \x037\u{bb}\x0F"@;
        assert(said(channel, decorated(title), reply_to) =~= before + title + after);
    }
}

/// A fetch that brought no page gets no line in answer; one that brought a
/// page gets the line that shows its title.
pub proof fn only_a_page_is_answered(
    channel: Seq<char>,
    reply_to: Option<Seq<char>>,
    fetched: FetchedView,
)
    ensures
        !brought_page(fetched) ==> fetch_line(channel, reply_to, fetched) is None,
        fetched matches FetchedView::Page { body, .. } ==> (brought_page(fetched) ==> fetch_line(
            channel,
            reply_to,
            fetched,
        ) == title_line(channel, reply_to, body)),
{
}

/// The store is saved exactly when a line changed it.
pub proof fn saved_exactly_when_changed(s: SessionView, line: Seq<char>)
    requires
        no_empty_queue(s.tells),
    ensures
        line_reaction(s, line).1.contains(ActionView::Save) <==> line_reaction(s, line).0
            != s.tells,
{
    let (tells, actions) = line_reaction(s, line);
    if is_ping_line(line) {
        assert(!actions.contains(ActionView::Save));
    } else {
        match user_msg(line) {
            Some((nick, cmd, args)) => {
                privmsg_saved_exactly_when_changed(s, nick, args);
                if cmd == "JOIN"@ {
                    assert(!actions.contains(ActionView::Save));
                } else if cmd == "PRIVMSG"@ {
                } else {
                    assert(!actions.contains(ActionView::Save));
                }
            },
            None => {
                assert(!actions.contains(ActionView::Save));
            },
        }
    }
}

/// The store is saved exactly when a chat message changed it.
pub proof fn privmsg_saved_exactly_when_changed(
    s: SessionView,
    sender: Seq<char>,
    args: Seq<Seq<char>>,
)
    requires
        no_empty_queue(s.tells),
    ensures
        privmsg_reaction(s, sender, args).1.contains(ActionView::Save) <==> privmsg_reaction(
            s,
            sender,
            args,
        ).0 != s.tells,
{
    let (tells, actions) = privmsg_reaction(s, sender, args);
    let fetch = url_actions(s.nick, sender, args);
    assert(forall|i: int| 0 <= i < fetch.len() ==> fetch[i] != ActionView::Save);
    if sender == s.nick {
        assert(!actions.contains(ActionView::Save));
    } else {
        match order_of(sender, words_of(args)) {
            Some(OrderView::Tell { from, to, content }) => {
                assert(actions[0] == ActionView::Save);
                let queue = pending(s.tells, to);
                assert(tells[to].len() == queue.len() + 1);
                if s.tells.dom().contains(to) {
                    assert(s.tells[to].len() != tells[to].len());
                } else {
                    assert(tells.dom().contains(to));
                }
            },
            None => {
                if s.tells.dom().contains(sender) {
                    let handed = delivery(sender, s.tells[sender]);
                    assert(actions[handed.len() as int] == ActionView::Save);
                    assert(!tells.dom().contains(sender));
                } else {
                    assert(!actions.contains(ActionView::Save));
                }
            },
        }
    }
}

/// A line leaves every kept recipient with a message waiting.
pub proof fn line_keeps_queues_nonempty(s: SessionView, line: Seq<char>)
    requires
        no_empty_queue(s.tells),
    ensures
        no_empty_queue(line_reaction(s, line).0),
{
    if !is_ping_line(line) {
        match user_msg(line) {
            Some((nick, cmd, args)) => {
                if cmd != "JOIN"@ && cmd == "PRIVMSG"@ && nick != s.nick {
                    match order_of(nick, words_of(args)) {
                        Some(OrderView::Tell { from, to, content }) => {
                            queues_stay_nonempty(s.tells, to, from, content);
                        },
                        None => {
                            queues_stay_nonempty(s.tells, nick, nick, nick);
                        },
                    }
                }
            },
            None => {},
        }
    }
}

/// While no line asks for the store to be saved, the store is the one that
/// was loaded: what the file holds is what the client holds.
pub proof fn unsaved_store_is_as_loaded(s: SessionView, text: Option<Seq<char>>, line: Seq<char>)
    requires
        s.tells == loaded(text),
        !line_reaction(s, line).1.contains(ActionView::Save),
    ensures
        line_reaction(s, line).0 == loaded(text),
{
    assert(no_empty_queue(loaded(text)));
    saved_exactly_when_changed(s, line);
}

/// Pieces without a separator in them, joined by the separator and split at
/// it again, are the same pieces.
pub proof fn split_of_join(parts: Seq<Seq<char>>, sep: char)
    requires
        parts.len() > 0,
        forall|i: int| 0 <= i < parts.len() ==> !(#[trigger] parts[i]).contains(sep),
    ensures
        split(join(parts, seq![sep]), sep) == parts,
    decreases parts.len(),
{
    if parts.len() == 1 {
        lemma_split_at_first(parts[0], sep, parts[0].len() as int);
        assert(seq![parts[0]] =~= parts);
    } else {
        let head = parts[0];
        let tail = parts.skip(1);
        assert forall|i: int| 0 <= i < tail.len() implies !(#[trigger] tail[i]).contains(sep) by {
            assert(tail[i] == parts[i + 1]);
        }
        split_of_join(tail, sep);
        join_from_front(parts, seq![sep]);
        let joined = join(parts, seq![sep]);
        assert(joined == head + seq![sep] + join(tail, seq![sep]));
        let k = head.len() as int;
        assert(joined[k] == sep);
        assert forall|j: int| 0 <= j < k implies joined[j] != sep by {
            assert(joined[j] == head[j]);
        }
        lemma_split_at_first(joined, sep, k);
        assert(joined.take(k) =~= head);
        assert(joined.skip(k + 1) =~= join(tail, seq![sep]));
        assert(seq![head] + tail =~= parts);
    }
}

/// Splitting loses nothing: there is at least one piece, no piece holds the
/// separator, and the pieces joined by the separator are the text again.
pub proof fn join_of_split(s: Seq<char>, sep: char)
    ensures
        split(s, sep).len() >= 1,
        forall|i: int| 0 <= i < split(s, sep).len() ==> !(#[trigger] split(s, sep)[i]).contains(sep),
        join(split(s, sep), seq![sep]) == s,
    decreases s.len(),
{
    if s.contains(sep) {
        let k = first_index(s, sep);
        lemma_first_index(s, sep);
        lemma_split_at_first(s, sep, k);
        let head = s.take(k);
        let tail = split(s.skip(k + 1), sep);
        let parts = split(s, sep);
        join_of_split(s.skip(k + 1), sep);
        assert(parts == seq![head] + tail);
        assert(!head.contains(sep)) by {
            if head.contains(sep) {
                let j = choose|j: int| 0 <= j < head.len() && head[j] == sep;
                assert(s[j] == sep);
            }
        }
        assert forall|i: int| 0 <= i < parts.len() implies !(#[trigger] parts[i]).contains(sep) by {
            if i > 0 {
                assert(parts[i] == tail[i - 1]);
            }
        }
        assert(parts.skip(1) =~= tail);
        join_from_front(parts, seq![sep]);
        assert(head + seq![sep] + s.skip(k + 1) =~= s);
    }
}

/// Fewer than three words give no order: a tell needs its command, a
/// recipient and at least one word of content.
pub proof fn too_few_words_give_no_order(from: Seq<char>, msg: Seq<Seq<char>>)
    requires
        msg.len() < 3,
    ensures
        order_of(from, msg) is None,
{
}

/// The tell command behind any one leading character, then a recipient and
/// at least one word of content, is the order to tell the recipient those
/// words, joined by single spaces, on behalf of the sender.
pub proof fn tell_words_give_the_order(
    from: Seq<char>,
    marker: char,
    to: Seq<char>,
    content: Seq<Seq<char>>,
)
    requires
        content.len() >= 1,
    ensures
        order_of(from, seq![seq![marker] + tell_token(), to] + content) == Some(
            OrderView::Tell { from, to, content: join(content, seq![' ']) },
        ),
{
    let msg = seq![seq![marker] + tell_token(), to] + content;
    assert(drop_first_char(msg[0]) =~= tell_token());
    assert(msg.skip(2) =~= content);
}

/// Joining pieces puts the first piece, then the separator, before the rest joined.
pub proof fn join_from_front(parts: Seq<Seq<char>>, sep: Seq<char>)
    requires
        parts.len() >= 2,
    ensures
        join(parts, sep) == parts[0] + sep + join(parts.skip(1), sep),
    decreases parts.len(),
{
    let tail = parts.skip(1);
    if parts.len() == 2 {
        assert(parts.drop_last() =~= seq![parts[0]]);
        assert(join(parts.drop_last(), sep) == parts[0]) by {
            reveal_with_fuel(join, 2);
        }
        assert(join(tail, sep) == parts[1]) by {
            reveal_with_fuel(join, 2);
        }
    } else {
        join_from_front(parts.drop_last(), sep);
        assert(parts.drop_last().skip(1) =~= tail.drop_last());
        assert(tail.last() == parts.last());
        assert(parts.drop_last()[0] == parts[0]);
        assert(join(parts, sep) =~= parts[0] + sep + join(tail, sep));
    }
}

} // verus!
