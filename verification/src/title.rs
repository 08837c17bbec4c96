use crate::pattern::{capture_first, regex_capture};
use crate::text::{drop_first_char, join, join_text};
use vstd::prelude::*;
use vstd::string::StringExecFns;

verus! {

/// The regular expression for an address in a chat message: at the start or
/// after white space, `http://` or `https://`, then characters other than a
/// space with a dot among them. Its second group is the address itself.
pub const URL_PATTERN: &'static str = "(^|\\s+)(https?://[^ ]+\\.[^ ]+)";

/// The regular expression for the title of a page; its first group is the
/// shortest text between the two tags.
pub const TITLE_PATTERN: &'static str = "<title>(.*?)</title>";

/// The words of a chat message: the arguments after the first, which names
/// where the message went.
pub open spec fn words_of(args: Seq<Seq<char>>) -> Seq<Seq<char>> {
    if args.len() >= 1 {
        args.skip(1)
    } else {
        Seq::empty()
    }
}

/// The text of a chat message: its words joined by single spaces, less the
/// marker that opens it.
pub open spec fn chat_text(args: Seq<Seq<char>>) -> Seq<char> {
    drop_first_char(join(words_of(args), seq![' ']))
}

/// The address that a chat message mentions first.
pub open spec fn url_in(text: Seq<char>) -> Option<Seq<char>> {
    regex_capture(URL_PATTERN@, text, 2)
}

/// The title that a page states first.
pub open spec fn title_in(body: Seq<char>) -> Option<Seq<char>> {
    regex_capture(TITLE_PATTERN@, body, 1)
}

/// What came of fetching a page: no answer at all, or an answer with its
/// status and body.
#[derive(Debug)]
pub enum Fetched {
    Failed,
    Page { status: u16, body: String },
}

/// A [`Fetched`] as plain values.
pub enum FetchedView {
    Failed,
    Page { status: u16, body: Seq<char> },
}

impl DeepView for Fetched {
    type V = FetchedView;

    open spec fn deep_view(&self) -> FetchedView {
        match self {
            Fetched::Failed => FetchedView::Failed,
            Fetched::Page { status, body } => FetchedView::Page { status: *status, body: body@ },
        }
    }
}

/// Whether a fetch brought a page: there was an answer and its status is one
/// of the success class, 200 to 299.
pub open spec fn brought_page(fetched: FetchedView) -> bool {
    fetched matches FetchedView::Page { status, .. } && 200 <= status < 300
}

/// The title of what a fetch brought: the first that the body states, and none
/// where the fetch failed.
pub open spec fn title_of(fetched: FetchedView) -> Option<Seq<char>> {
    match fetched {
        FetchedView::Page { status, body } => if 200 <= status < 300 {
            title_in(body)
        } else {
            None
        },
        FetchedView::Failed => None,
    }
}

/// A title as the client shows it.
pub open spec fn decorated(title: Seq<char>) -> Seq<char> {
    "\x037\u{ab}\x036 "@ + title + " \x037\u{bb}\x0F"@
}

/// To whom the answer to a message from `sender` goes: to `sender` alone where
/// the message went to the client itself, else to the channel (`None`).
pub open spec fn reply_target(me: Seq<char>, sender: Seq<char>, args: Seq<Seq<char>>) -> Option<
    Seq<char>,
> {
    if args.len() >= 1 && args[0] == me {
        Some(sender)
    } else {
        None
    }
}

/// Puts the text of a chat message together from the arguments of its line.
pub fn message_text(args: &[String]) -> (text: String)
    ensures
        text@ == chat_text(args.deep_view()),
{
    proof {
        reveal_strlit(" ");
    }
    assert(" "@ =~= seq![' ']);
    if args.len() == 0 {
        let empty = String::new();
        assert(chat_text(args.deep_view()) =~= empty@) by {
            reveal_with_fuel(join, 1);
        }
        return empty;
    }
    let words = &args[1..args.len()];
    assert(words.deep_view() =~= words_of(args.deep_view()));
    let joined = join_text(words, " ");
    let n: usize = joined.as_str().unicode_len();
    if n == 0 {
        joined
    } else {
        let text = joined.as_str().substring_char(1, n).to_owned();
        assert(joined@.subrange(1, n as int) =~= joined@.skip(1));
        text
    }
}

/// Looks for the first address in the text of a chat message.
pub fn find_url(text: &str) -> (url: Option<String>)
    ensures
        url.deep_view() == url_in(text@),
{
    capture_first(URL_PATTERN, text, 2)
}

/// Looks for the title in the body of a page.
pub fn find_title(body: &str) -> (title: Option<String>)
    ensures
        title.deep_view() == title_in(body@),
{
    capture_first(TITLE_PATTERN, body, 1)
}

impl Fetched {
    /// Whether the fetch brought a page.
    pub fn succeeded(&self) -> (ok: bool)
        ensures
            ok == brought_page(self.deep_view()),
    {
        match self {
            Fetched::Page { status, .. } => 200 <= *status && *status < 300,
            Fetched::Failed => false,
        }
    }
}

/// Looks for the title in what a fetch brought.
pub fn fetched_title(fetched: &Fetched) -> (title: Option<String>)
    ensures
        title.deep_view() == title_of(fetched.deep_view()),
{
    match fetched {
        Fetched::Page { status, body } => {
            if 200 <= *status && *status < 300 {
                find_title(body.as_str())
            } else {
                None
            }
        },
        Fetched::Failed => None,
    }
}

/// Wraps a title in the marks that set it off in the chat.
pub fn decorate(title: &str) -> (shown: String)
    ensures
        shown@ == decorated(title@),
{
    let mut shown = String::from_str("\x037\u{ab}\x036 ");
    shown.append(title);
    shown.append(" \x037\u{bb}\x0F");
    shown
}

} // verus!
