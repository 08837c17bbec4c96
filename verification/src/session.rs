use crate::order::{extract_order, order_of, Order, OrderView};
use crate::parse::{
    classify, event_of_command, extract_user_msg, is_ping, is_ping_line, pong_of, pong_reply,
    user_msg, EventView, ParsedEvent,
};
use crate::tells::{drained, enqueued, no_empty_queue, Pending, Tells, TellsView};
use crate::text::same_text;
use crate::title::{
    chat_text, decorate, decorated, fetched_title, find_title, find_url, message_text,
    reply_target, title_in, title_of, url_in, words_of, Fetched, FetchedView,
};
use vstd::prelude::*;
use vstd::string::StringExecFns;

verus! {

/// What the client asks of its surroundings in answer to a line.
#[derive(Debug)]
pub enum Action {
    /// Write this line to the server.
    Send(String),
    /// Write the store of waiting messages to its file.
    Save,
    /// Fetch the page at `url` and hand what came of it, with `reply_to`, to
    /// [`Session::fetch_reply`].
    Fetch { url: String, reply_to: Option<String> },
    /// Note that someone joined the channel.
    Joined(String),
}

/// An [`Action`] as plain texts.
pub enum ActionView {
    Send(Seq<char>),
    Save,
    Fetch { url: Seq<char>, reply_to: Option<Seq<char>> },
    Joined(Seq<char>),
}

impl DeepView for Action {
    type V = ActionView;

    open spec fn deep_view(&self) -> ActionView {
        match self {
            Action::Send(line) => ActionView::Send(line@),
            Action::Save => ActionView::Save,
            Action::Fetch { url, reply_to } => ActionView::Fetch {
                url: url@,
                reply_to: reply_to.deep_view(),
            },
            Action::Joined(who) => ActionView::Joined(who@),
        }
    }
}

/// The client between two lines: who it is, where it talks, and what waits.
pub struct Session {
    nick: String,
    channel: String,
    tells: Tells,
}

/// A [`Session`] as plain values.
pub struct SessionView {
    pub nick: Seq<char>,
    pub channel: Seq<char>,
    pub tells: TellsView,
}

/// The line that says `msg` to `target`.
pub open spec fn privmsg_line(target: Seq<char>, msg: Seq<char>) -> Seq<char> {
    "PRIVMSG "@ + target + " :"@ + msg
}

/// The line that says `msg` to `priv_user` alone, or to `channel` where there is none.
pub open spec fn said(channel: Seq<char>, msg: Seq<char>, priv_user: Option<Seq<char>>) -> Seq<
    char,
> {
    match priv_user {
        Some(user) => privmsg_line(user, msg),
        None => privmsg_line(channel, msg),
    }
}

/// A waiting message as its recipient reads it: sender, colon, content.
pub open spec fn notice(from: Seq<char>, msg: Seq<char>) -> Seq<char> {
    "\x02\x036"@ + from + "\x0F: \x02\x032"@ + msg + "\x0F"@
}

/// The lines that hand `msgs` over to `who`, one for each, in their order.
pub open spec fn delivery(who: Seq<char>, msgs: Pending) -> Seq<ActionView> {
    Seq::new(msgs.len(), |i: int| ActionView::Send(privmsg_line(who, notice(msgs[i].0, msgs[i].1))))
}

/// The lines that open a session.
pub open spec fn handshake_lines(nick: Seq<char>, channel: Seq<char>) -> Seq<Seq<char>> {
    seq!["USER a b c :d"@, "NICK "@ + nick, "JOIN "@ + channel]
}

/// The fetch to ask for once a chat message was searched for an address: one
/// for the address found, with the answer going where the message came from;
/// none where none was found.
pub open spec fn fetch_of(
    me: Seq<char>,
    sender: Seq<char>,
    args: Seq<Seq<char>>,
    url: Option<Seq<char>>,
) -> Seq<ActionView> {
    match url {
        Some(url) => seq![ActionView::Fetch { url, reply_to: reply_target(me, sender, args) }],
        None => Seq::empty(),
    }
}

/// The fetch that a chat message asks for: one for the first address in its
/// text, none where it mentions no address.
pub open spec fn url_actions(me: Seq<char>, sender: Seq<char>, args: Seq<Seq<char>>) -> Seq<
    ActionView,
> {
    fetch_of(me, sender, args, url_in(chat_text(args)))
}

/// What a chat message from `sender` does to the store, and what it asks for.
/// The client's own messages do nothing. A tell order is queued and the store
/// saved; any other message has what waits for `sender` handed over, and the
/// store saved if anything was. Either way the message is then searched for an
/// address.
pub open spec fn privmsg_reaction(s: SessionView, sender: Seq<char>, args: Seq<Seq<char>>) -> (
    TellsView,
    Seq<ActionView>,
) {
    if sender == s.nick {
        (s.tells, Seq::empty())
    } else {
        let fetch = url_actions(s.nick, sender, args);
        match order_of(sender, words_of(args)) {
            Some(OrderView::Tell { from, to, content }) => (
                enqueued(s.tells, to, from, content),
                seq![ActionView::Save] + fetch,
            ),
            None => if s.tells.dom().contains(sender) {
                (
                    drained(s.tells, sender),
                    delivery(sender, s.tells[sender]).push(ActionView::Save) + fetch,
                )
            } else {
                (s.tells, fetch)
            },
        }
    }
}

/// What an event does: someone joining is noted, a chat message treated as
/// such, anything else ignored.
pub open spec fn event_reaction(s: SessionView, event: EventView) -> (TellsView, Seq<ActionView>) {
    match event {
        EventView::Join { who } => (s.tells, seq![ActionView::Joined(who)]),
        EventView::PrivateMessage { who, args } => privmsg_reaction(s, who, args),
        EventView::Unrecognized => (s.tells, Seq::empty()),
    }
}

/// What a parsed line does, by its command.
pub open spec fn command_reaction(
    s: SessionView,
    nick: Seq<char>,
    cmd: Seq<char>,
    args: Seq<Seq<char>>,
) -> (TellsView, Seq<ActionView>) {
    event_reaction(s, event_of_command(nick, cmd, args))
}

/// What a line from the server does: a keep-alive probe is answered and not
/// looked at further; a line that cannot be parsed is ignored.
pub open spec fn line_reaction(s: SessionView, line: Seq<char>) -> (TellsView, Seq<ActionView>) {
    if is_ping_line(line) {
        (s.tells, seq![ActionView::Send(pong_of(line))])
    } else {
        match user_msg(line) {
            Some((nick, cmd, args)) => command_reaction(s, nick, cmd, args),
            None => (s.tells, Seq::empty()),
        }
    }
}

/// The line that shows a title once a page was searched for one: the title
/// between its marks, said to `reply_to` alone or to the channel; no line
/// where no title was found.
pub open spec fn shown_title(
    channel: Seq<char>,
    reply_to: Option<Seq<char>>,
    title: Option<Seq<char>>,
) -> Option<Seq<char>> {
    match title {
        Some(title) => Some(said(channel, decorated(title), reply_to)),
        None => None,
    }
}

/// The line that shows the title of a fetched page, where its body states one.
pub open spec fn title_line(channel: Seq<char>, reply_to: Option<Seq<char>>, body: Seq<char>)
    -> Option<Seq<char>> {
    shown_title(channel, reply_to, title_in(body))
}

/// The line that answers a fetch: the title of the page that it brought, and
/// no line where it failed or the page states no title.
pub open spec fn fetch_line(
    channel: Seq<char>,
    reply_to: Option<Seq<char>>,
    fetched: FetchedView,
) -> Option<Seq<char>> {
    shown_title(channel, reply_to, title_of(fetched))
}

impl View for Session {
    type V = SessionView;

    closed spec fn view(&self) -> SessionView {
        SessionView { nick: self.nick@, channel: self.channel@, tells: self.tells@ }
    }
}

impl Session {
    /// The validity of a session: that of its store.
    pub closed spec fn wf(&self) -> bool {
        self.tells.wf()
    }

    /// A session for `nick` on `channel` that starts with `tells`.
    pub fn new(nick: &str, channel: &str, tells: Tells) -> (session: Session)
        requires
            tells.wf(),
        ensures
            session.wf(),
            session@ == (SessionView { nick: nick@, channel: channel@, tells: tells@ }),
    {
        Session { nick: String::from_str(nick), channel: String::from_str(channel), tells }
    }

    /// The name under which the client talks.
    pub fn nick(&self) -> (nick: &str)
        ensures
            nick@ == self@.nick,
    {
        self.nick.as_str()
    }

    /// The channel on which the client talks.
    pub fn channel(&self) -> (channel: &str)
        ensures
            channel@ == self@.channel,
    {
        self.channel.as_str()
    }

    /// The messages that wait.
    pub fn tells(&self) -> (tells: &Tells)
        requires
            self.wf(),
        ensures
            tells.wf(),
            tells@ == self@.tells,
    {
        &self.tells
    }

    /// The lines to send when the connection stands: registration, name, channel.
    pub fn handshake(&self) -> (lines: Vec<String>)
        ensures
            lines.deep_view() == handshake_lines(self@.nick, self@.channel),
    {
        let mut lines: Vec<String> = Vec::new();
        lines.push(String::from_str("USER a b c :d"));
        let mut nick = String::from_str("NICK ");
        nick.append(self.nick.as_str());
        lines.push(nick);
        let mut join = String::from_str("JOIN ");
        join.append(self.channel.as_str());
        lines.push(join);
        assert(lines.deep_view() =~= handshake_lines(self@.nick, self@.channel));
        lines
    }

    /// The line that says `msg`, to `priv_user` alone or to the channel.
    pub fn say(&self, msg: &str, priv_user: Option<&str>) -> (line: String)
        ensures
            line@ == said(self@.channel, msg@, priv_user.deep_view()),
    {
        let mut line = String::from_str("PRIVMSG ");
        match priv_user {
            Some(user) => {
                line.append(user);
            },
            None => {
                line.append(self.channel.as_str());
            },
        }
        line.append(" :");
        line.append(msg);
        line
    }

    /// Queues a message for later and asks for the store to be saved.
    pub fn add_tell(&mut self, from: String, to: String, content: String) -> (action: Action)
        requires
            old(self).wf(),
        ensures
            final(self).wf(),
            final(self)@ == (SessionView {
                tells: enqueued(old(self)@.tells, to@, from@, content@),
                ..old(self)@
            }),
            action.deep_view() == ActionView::Save,
    {
        self.tells.enqueue(to, from, content);
        Action::Save
    }

    /// Hands over what waits for `who`: one line for each message, then the
    /// request to save the store; nothing at all where nothing waits.
    pub fn deliver(&mut self, who: &str) -> (actions: Vec<Action>)
        requires
            old(self).wf(),
        ensures
            final(self).wf(),
            final(self)@ == (SessionView { tells: drained(old(self)@.tells, who@), ..old(self)@ }),
            actions.deep_view() == if old(self)@.tells.dom().contains(who@) {
                delivery(who@, old(self)@.tells[who@]).push(ActionView::Save)
            } else {
                Seq::empty()
            },
    {
        let mut actions: Vec<Action> = Vec::new();
        if !self.tells.has_pending(who) {
            assert(drained(self@.tells, who@) =~= self@.tells);
            assert(actions.deep_view() =~= Seq::<ActionView>::empty());
            return actions;
        }
        let msgs = self.tells.drain(who);
        let ghost waiting = msgs.deep_view();
        let mut i: usize = 0;
        while i < msgs.len()
            invariant
                i <= msgs.len(),
                waiting == msgs.deep_view(),
                actions.deep_view() == delivery(who@, waiting).take(i as int),
                self.nick == old(self).nick,
                self.channel == old(self).channel,
            decreases msgs.len() - i,
        {
            let ghost before = actions.deep_view();
            let text = Self::notice_for(msgs[i].0.as_str(), msgs[i].1.as_str());
            let line = self.say(text.as_str(), Some(who));
            actions.push(Action::Send(line));
            assert(actions.deep_view() =~= before.push(delivery(who@, waiting)[i as int]));
            assert(delivery(who@, waiting).take(i + 1) =~= before.push(
                delivery(who@, waiting)[i as int],
            ));
            i += 1;
        }
        let ghost before = actions.deep_view();
        assert(before =~= delivery(who@, waiting));
        actions.push(Action::Save);
        assert(actions.deep_view() =~= before.push(ActionView::Save));
        actions
    }

    /// A waiting message as its recipient reads it.
    pub fn notice_for(from: &str, msg: &str) -> (text: String)
        ensures
            text@ == notice(from@, msg@),
    {
        let mut text = String::from_str("\x02\x036");
        text.append(from);
        text.append("\x0F: \x02\x032");
        text.append(msg);
        text.append("\x0F");
        text
    }

    /// Reacts to a chat message from `nick` with the arguments `args`.
    pub fn treat_privmsg(&mut self, nick: String, args: Vec<String>) -> (actions: Vec<Action>)
        requires
            old(self).wf(),
        ensures
            final(self).wf(),
            final(self)@ == (SessionView {
                tells: privmsg_reaction(old(self)@, nick@, args.deep_view()).0,
                ..old(self)@
            }),
            actions.deep_view() == privmsg_reaction(old(self)@, nick@, args.deep_view()).1,
    {
        if same_text(nick.as_str(), self.nick.as_str()) {
            let none: Vec<Action> = Vec::new();
            assert(none.deep_view() =~= Seq::<ActionView>::empty());
            return none;
        }
        let all = args.as_slice();
        assert(all.deep_view() =~= args.deep_view());
        let words = if all.len() >= 1 {
            &all[1..all.len()]
        } else {
            &all[0..0]
        };
        assert(words.deep_view() =~= words_of(args.deep_view()));
        let mut actions = match extract_order(nick.clone(), words) {
            Some(Order::Tell(from, to, content)) => {
                let save = self.add_tell(from, to, content);
                let mut first: Vec<Action> = Vec::new();
                first.push(save);
                assert(first.deep_view() =~= seq![ActionView::Save]);
                first
            },
            None => {
                assert(!old(self)@.tells.dom().contains(nick@) ==> drained(old(self)@.tells, nick@)
                    =~= old(self)@.tells);
                self.deliver(nick.as_str())
            },
        };
        let ghost first = actions.deep_view();
        let text = message_text(all);
        let mut fetch = self.fetch_for(nick, all, find_url(text.as_str()));
        let ghost last = fetch.deep_view();
        actions.append(&mut fetch);
        assert(actions.deep_view() =~= first + last);
        actions
    }

    /// The fetch to ask for once a chat message from `sender` was searched
    /// for an address and `url` was found.
    pub fn fetch_for(&self, sender: String, args: &[String], url: Option<String>) -> (actions: Vec<
        Action,
    >)
        ensures
            actions.deep_view() == fetch_of(
                self@.nick,
                sender@,
                args.deep_view(),
                url.deep_view(),
            ),
    {
        let mut actions: Vec<Action> = Vec::new();
        match url {
            Some(url) => {
                let reply_to = if args.len() >= 1 && same_text(
                    args[0].as_str(),
                    self.nick.as_str(),
                ) {
                    Some(sender)
                } else {
                    None
                };
                let ghost fetch = ActionView::Fetch { url: url@, reply_to: reply_to.deep_view() };
                actions.push(Action::Fetch { url, reply_to });
                assert(actions.deep_view() =~= seq![fetch]);
            },
            None => {
                assert(actions.deep_view() =~= Seq::<ActionView>::empty());
            },
        }
        actions
    }

    /// Reacts to an event.
    pub fn react(&mut self, event: ParsedEvent) -> (actions: Vec<Action>)
        requires
            old(self).wf(),
        ensures
            final(self).wf(),
            final(self)@ == (SessionView {
                tells: event_reaction(old(self)@, event.deep_view()).0,
                ..old(self)@
            }),
            actions.deep_view() == event_reaction(old(self)@, event.deep_view()).1,
    {
        match event {
            ParsedEvent::Join { who } => {
                let mut actions: Vec<Action> = Vec::new();
                actions.push(Action::Joined(who));
                assert(actions.deep_view() =~= seq![ActionView::Joined(who@)]);
                actions
            },
            ParsedEvent::PrivateMessage { who, args } => self.treat_privmsg(who, args),
            ParsedEvent::Unrecognized => {
                let none: Vec<Action> = Vec::new();
                assert(none.deep_view() =~= Seq::<ActionView>::empty());
                none
            },
        }
    }

    /// In a valid session every kept recipient has a message waiting.
    pub proof fn lemma_no_empty_queue(&self)
        requires
            self.wf(),
        ensures
            no_empty_queue(self@.tells),
    {
        self.tells.lemma_no_empty_queue();
    }

    /// Reacts to a parsed line by its command.
    pub fn dispatch_user_msg(&mut self, nick: String, cmd: String, args: Vec<String>) -> (actions:
        Vec<Action>)
        requires
            old(self).wf(),
        ensures
            final(self).wf(),
            final(self)@ == (SessionView {
                tells: command_reaction(old(self)@, nick@, cmd@, args.deep_view()).0,
                ..old(self)@
            }),
            actions.deep_view() == command_reaction(old(self)@, nick@, cmd@, args.deep_view()).1,
    {
        let event = classify(nick, cmd.as_str(), args);
        self.react(event)
    }

    /// Reacts to one line from the server.
    pub fn handle_line(&mut self, line: &str) -> (actions: Vec<Action>)
        requires
            old(self).wf(),
        ensures
            final(self).wf(),
            final(self)@ == (SessionView {
                tells: line_reaction(old(self)@, line@).0,
                ..old(self)@
            }),
            actions.deep_view() == line_reaction(old(self)@, line@).1,
    {
        if is_ping(line) {
            let mut actions: Vec<Action> = Vec::new();
            actions.push(Action::Send(pong_reply(line)));
            assert(actions.deep_view() =~= seq![ActionView::Send(pong_of(line@))]);
            return actions;
        }
        match extract_user_msg(line) {
            Some((nick, cmd, args)) => self.dispatch_user_msg(nick, cmd, args),
            None => {
                let none: Vec<Action> = Vec::new();
                assert(none.deep_view() =~= Seq::<ActionView>::empty());
                none
            },
        }
    }

    /// The line that shows a title once a page was searched for one and
    /// `title` was found.
    pub fn show_title(&self, reply_to: Option<&str>, title: Option<String>) -> (line: Option<
        String,
    >)
        ensures
            line.deep_view() == shown_title(
                self@.channel,
                reply_to.deep_view(),
                title.deep_view(),
            ),
    {
        match title {
            Some(title) => {
                let shown = decorate(title.as_str());
                Some(self.say(shown.as_str(), reply_to))
            },
            None => None,
        }
    }

    /// The line that shows the title of a fetched page, if its body states one.
    pub fn title_reply(&self, reply_to: Option<&str>, body: &str) -> (line: Option<String>)
        ensures
            line.deep_view() == title_line(self@.channel, reply_to.deep_view(), body@),
    {
        self.show_title(reply_to, find_title(body))
    }

    /// The line that answers a fetch asked for with `reply_to`: the title of
    /// the page, if the fetch brought one and its body states a title.
    pub fn fetch_reply(&self, reply_to: Option<&str>, fetched: &Fetched) -> (line: Option<String>)
        ensures
            line.deep_view() == fetch_line(
                self@.channel,
                reply_to.deep_view(),
                fetched.deep_view(),
            ),
    {
        self.show_title(reply_to, fetched_title(fetched))
    }
}

} // verus!
