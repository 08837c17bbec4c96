use crate::text::{drop_first_char, join, join_text, same_text};
use vstd::prelude::*;

verus! {

/// A command given to the client inside a chat message.
#[derive(Debug)]
pub enum Order {
    /// Sender, recipient and content of a message to hand over later.
    Tell(String, String, String),
}

/// An [`Order`] as plain texts.
pub enum OrderView {
    Tell { from: Seq<char>, to: Seq<char>, content: Seq<char> },
}

impl View for Order {
    type V = OrderView;

    open spec fn view(&self) -> OrderView {
        match self {
            Order::Tell(from, to, content) => OrderView::Tell {
                from: from@,
                to: to@,
                content: content@,
            },
        }
    }
}

impl DeepView for Order {
    type V = OrderView;

    open spec fn deep_view(&self) -> OrderView {
        self@
    }
}

/// The word that asks for a message to be handed over later.
pub open spec fn tell_token() -> Seq<char> {
    seq!['!', 't', 'e', 'l', 'l']
}

/// The order that the words `msg` of a chat message from `from` give. The first
/// word, less its leading marker, names the command; a tell takes a recipient
/// and at least one word of content, joined again by single spaces.
pub open spec fn order_of(from: Seq<char>, msg: Seq<Seq<char>>) -> Option<OrderView> {
    if msg.len() >= 3 && drop_first_char(msg[0]) == tell_token() {
        Some(OrderView::Tell { from, to: msg[1], content: join(msg.skip(2), seq![' ']) })
    } else {
        None
    }
}

/// Recognizes the order, if any, in the words of a chat message.
pub fn extract_order(from: String, msg: &[String]) -> (order: Option<Order>)
    ensures
        order.deep_view() == order_of(from@, msg.deep_view()),
{
    if msg.len() < 3 {
        return None;
    }
    let first = msg[0].as_str();
    let n: usize = first.unicode_len();
    let token = if n == 0 {
        first
    } else {
        first.substring_char(1, n)
    };
    assert(token@ =~= drop_first_char(msg.deep_view()[0]));
    proof {
        reveal_strlit("!tell");
        reveal_strlit(" ");
    }
    assert("!tell"@ =~= tell_token());
    assert(" "@ =~= seq![' ']);
    if !same_text(token, "!tell") {
        return None;
    }
    let to = msg[1].clone();
    let words = &msg[2..msg.len()];
    assert(words.deep_view() =~= msg.deep_view().skip(2));
    let content = join_text(words, " ");
    assert(to@ == msg.deep_view()[1]);
    Some(Order::Tell(from, to, content))
}

} // verus!
