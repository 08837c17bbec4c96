use crate::json::{
    decode, distinct_recipients, encode, entries_map, json_parse, json_text,
};
use crate::text::same_text;
use vstd::prelude::*;

verus! {

/// The messages that wait for one recipient, oldest first: sender and content.
pub type Pending = Seq<(Seq<char>, Seq<char>)>;

/// The store as a mapping from recipient to the messages that wait for them.
pub type TellsView = Map<Seq<char>, Pending>;

/// The messages that wait for `who` in `m`; none where `who` is no key of it.
pub open spec fn pending(m: TellsView, who: Seq<char>) -> Pending {
    if m.dom().contains(who) {
        m[who]
    } else {
        Seq::empty()
    }
}

/// `m` after a message from `from` with `content` was queued for `to`.
pub open spec fn enqueued(m: TellsView, to: Seq<char>, from: Seq<char>, content: Seq<char>)
    -> TellsView {
    m.insert(to, pending(m, to).push((from, content)))
}

/// `m` after all that waited for `who` was handed over.
pub open spec fn drained(m: TellsView, who: Seq<char>) -> TellsView {
    m.remove(who)
}

/// `m` with `list` as what waits for `who`; with an empty `list`, without `who`.
pub open spec fn replaced(m: TellsView, who: Seq<char>, list: Pending) -> TellsView {
    if list.len() > 0 {
        m.insert(who, list)
    } else {
        m.remove(who)
    }
}

/// `m` without the recipients for whom nothing waits.
pub open spec fn waiting_only(m: TellsView) -> TellsView {
    Map::new(|k: Seq<char>| m.dom().contains(k) && m[k].len() > 0, |k: Seq<char>| m[k])
}

/// The store that the client starts with, given the text of its file: what the
/// text holds, or nothing where the file is missing or cannot be read.
pub open spec fn loaded(text: Option<Seq<char>>) -> TellsView {
    match text {
        Some(t) => match json_parse(t) {
            Some(m) => waiting_only(m),
            None => Map::empty(),
        },
        None => Map::empty(),
    }
}

/// What went wrong when the client started, given the text of its file: the
/// text was there and could not be read as a store.
pub open spec fn load_failure(text: Option<Seq<char>>) -> Option<StoreError> {
    match text {
        Some(t) => if json_parse(t) is None {
            Some(StoreError::Malformed)
        } else {
            None
        },
        None => None,
    }
}

/// Whether no recipient in `m` is kept without a message.
pub open spec fn no_empty_queue(m: TellsView) -> bool {
    forall|k: Seq<char>| m.dom().contains(k) ==> (#[trigger] m[k]).len() > 0
}

/// Whether `k` is the recipient of one of the entries `e`.
spec fn has_key(e: Seq<(Seq<char>, Pending)>, k: Seq<char>) -> bool {
    exists|i: int| 0 <= i < e.len() && (#[trigger] e[i]).0 == k
}

/// The position of an entry for `k` in `e`, where there is one.
spec fn key_index(e: Seq<(Seq<char>, Pending)>, k: Seq<char>) -> int {
    choose|i: int| 0 <= i < e.len() && (#[trigger] e[i]).0 == k
}

/// The mapping that entries with distinct recipients stand for.
spec fn map_of(e: Seq<(Seq<char>, Pending)>) -> TellsView {
    Map::new(|k: Seq<char>| has_key(e, k), |k: Seq<char>| e[key_index(e, k)].1)
}

/// A mapping that has every entry of `e`, and no other key, is the one `e` stands for.
proof fn lemma_map_of(e: Seq<(Seq<char>, Pending)>, m: TellsView)
    requires
        forall|i: int| 0 <= i < e.len() ==> m.dom().contains((#[trigger] e[i]).0) && m[e[i].0] == e[i].1,
        forall|k: Seq<char>| m.dom().contains(k) ==> has_key(e, k),
    ensures
        map_of(e) == m,
{
    assert forall|k: Seq<char>| map_of(e).dom().contains(k) implies #[trigger] m.dom().contains(k)
        && map_of(e)[k] == m[k] by {
        let i = key_index(e, k);
        assert(0 <= i < e.len() && e[i].0 == k);
    }
    assert(map_of(e) =~= m);
}

/// What entries with distinct recipients stand for has each of them.
proof fn lemma_map_of_entry(e: Seq<(Seq<char>, Pending)>, i: int)
    requires
        distinct_recipients(e),
        0 <= i < e.len(),
    ensures
        map_of(e).dom().contains(e[i].0),
        map_of(e)[e[i].0] == e[i].1,
{
    let k = e[i].0;
    assert(has_key(e, k));
    let j = key_index(e, k);
    assert(0 <= j < e.len() && e[j].0 == k);
    assert(j == i);
}

/// Entries with distinct recipients build up the mapping that they stand for.
proof fn lemma_entries_map(e: Seq<(Seq<char>, Pending)>)
    requires
        distinct_recipients(e),
    ensures
        entries_map(e) == map_of(e),
    decreases e.len(),
{
    if e.len() == 0 {
        assert(map_of(e) =~= Map::<Seq<char>, Pending>::empty());
    } else {
        let rest = e.drop_last();
        lemma_entries_map(rest);
        let m = entries_map(e);
        assert forall|i: int| 0 <= i < e.len() implies m.dom().contains((#[trigger] e[i]).0)
            && m[e[i].0] == e[i].1 by {
            if i < e.len() - 1 {
                assert(rest[i] == e[i]);
                lemma_map_of_entry(rest, i);
            }
        }
        assert forall|k: Seq<char>| m.dom().contains(k) implies has_key(e, k) by {
            if k == e.last().0 {
                assert(e[e.len() - 1].0 == k);
            } else {
                let i = key_index(rest, k);
                assert(0 <= i < rest.len() && rest[i].0 == k);
                assert(e[i].0 == k);
            }
        }
        lemma_map_of(e, m);
    }
}

/// Why a store could not be read or written.
#[derive(Debug, Clone, Copy, PartialEq, Eq)]
pub enum StoreError {
    /// The text is no JSON map from recipient to lists of sender and content.
    Malformed,
    /// The store could not be turned into JSON text.
    Unwritable,
}

/// Messages that wait for their recipients. A recipient is kept only while
/// at least one message waits for them.
pub struct Tells {
    entries: Vec<(String, Vec<(String, String)>)>,
}

impl View for Tells {
    type V = TellsView;

    closed spec fn view(&self) -> TellsView {
        map_of(self.entries.deep_view())
    }
}

impl Tells {
    /// The validity of a store: one entry for each recipient, none of them empty.
    pub closed spec fn wf(&self) -> bool {
        let e = self.entries.deep_view();
        &&& distinct_recipients(e)
        &&& forall|i: int| 0 <= i < e.len() ==> (#[trigger] e[i]).1.len() > 0
    }

    /// In a valid store every recipient has a message waiting.
    pub proof fn lemma_no_empty_queue(&self)
        requires
            self.wf(),
        ensures
            no_empty_queue(self@),
    {
        let e = self.entries.deep_view();
        assert forall|k: Seq<char>| self@.dom().contains(k) implies (#[trigger] self@[k]).len()
            > 0 by {
            let i = key_index(e, k);
            assert(0 <= i < e.len() && e[i].0 == k);
        }
    }

    /// A store in which nothing waits.
    pub fn new() -> (tells: Tells)
        ensures
            tells.wf(),
            tells@ == Map::<Seq<char>, Pending>::empty(),
    {
        let tells = Tells { entries: Vec::new() };
        assert(tells@ =~= Map::<Seq<char>, Pending>::empty());
        tells
    }

    /// The position of the entry for `who`.
    fn position(&self, who: &str) -> (at: Option<usize>)
        ensures
            match at {
                Some(i) => i < self.entries.len() && self.entries.deep_view()[i as int].0 == who@,
                None => !has_key(self.entries.deep_view(), who@),
            },
    {
        let mut i: usize = 0;
        while i < self.entries.len()
            invariant
                i <= self.entries.len(),
                forall|j: int| 0 <= j < i ==> (#[trigger] self.entries.deep_view()[j]).0 != who@,
            decreases self.entries.len() - i,
        {
            if same_text(self.entries[i].0.as_str(), who) {
                return Some(i);
            }
            i += 1;
        }
        None
    }

    /// Adds an entry for a recipient that has none.
    fn put(&mut self, key: String, list: Vec<(String, String)>)
        requires
            old(self).wf(),
            list.len() > 0,
            !old(self)@.dom().contains(key@),
        ensures
            final(self).wf(),
            final(self)@ == old(self)@.insert(key@, list.deep_view()),
    {
        let ghost e0 = self.entries.deep_view();
        let ghost target = map_of(e0).insert(key@, list.deep_view());
        self.entries.push((key, list));
        let ghost e1 = self.entries.deep_view();
        proof {
            assert(e1[e1.len() - 1] == (key@, list.deep_view()));
            assert forall|j: int| 0 <= j < e1.len() - 1 implies (#[trigger] e1[j]) == e0[j] by {}
            assert forall|j: int| 0 <= j < e1.len() implies target.dom().contains(
                (#[trigger] e1[j]).0,
            ) && target[e1[j].0] == e1[j].1 by {
                if j < e1.len() - 1 {
                    assert(e1[j] == e0[j]);
                    lemma_map_of_entry(e0, j);
                }
            }
            assert forall|k: Seq<char>| target.dom().contains(k) implies has_key(e1, k) by {
                if k == key@ {
                    assert(e1[e1.len() - 1].0 == k);
                } else {
                    let j0 = key_index(e0, k);
                    assert(0 <= j0 < e0.len() && e0[j0].0 == k);
                    assert(e1[j0] == e0[j0]);
                }
            }
            lemma_map_of(e1, target);
            assert forall|i: int, j: int| 0 <= i < j < e1.len() implies (#[trigger] e1[i]).0 != (
            #[trigger] e1[j]).0 by {
                if j == e1.len() - 1 {
                    assert(e1[i] == e0[i]);
                    lemma_map_of_entry(e0, i);
                } else {
                    assert(e1[i] == e0[i] && e1[j] == e0[j]);
                }
            }
        }
    }

    /// Queues a message from `from` with `content` for `to`, behind those that
    /// already wait for them.
    pub fn enqueue(&mut self, to: String, from: String, content: String)
        requires
            old(self).wf(),
        ensures
            final(self).wf(),
            final(self)@ == enqueued(old(self)@, to@, from@, content@),
    {
        let mut list = self.drain(to.as_str());
        let ghost before = list.deep_view();
        list.push((from, content));
        assert(list.deep_view() =~= before.push((from@, content@)));
        self.put(to, list);
        assert(self@ =~= enqueued(old(self)@, to@, from@, content@));
    }

    /// Sets what waits for `key` to `list`; with an empty list `key` is no
    /// longer kept.
    pub fn set(&mut self, key: String, list: Vec<(String, String)>)
        requires
            old(self).wf(),
        ensures
            final(self).wf(),
            final(self)@ == replaced(old(self)@, key@, list.deep_view()),
    {
        let _ = self.drain(key.as_str());
        if list.len() > 0 {
            self.put(key, list);
        }
        assert(self@ =~= replaced(old(self)@, key@, list.deep_view()));
    }

    /// The store that a list of entries builds up when each in turn sets the
    /// queue of its recipient.
    pub fn from_entries(entries: Vec<(String, Vec<(String, String)>)>) -> (tells: Tells)
        ensures
            tells.wf(),
            tells@ == waiting_only(entries_map(entries.deep_view())),
    {
        let mut tells = Tells::new();
        let ghost e = entries.deep_view();
        assert(tells@ =~= waiting_only(entries_map(e.take(0))));
        for entry in it: entries
            invariant
                tells.wf(),
                it.seq().len() == e.len(),
                forall|j: int| 0 <= j < e.len() ==> (#[trigger] it.seq()[j]).deep_view() == e[j],
                tells@ == waiting_only(entries_map(e.take(it.index() as int))),
        {
            let ghost i = it.index() as int;
            let (key, list) = entry;
            proof {
                assert(e.take(i + 1).drop_last() =~= e.take(i));
                assert(e.take(i + 1).last() == (key@, list.deep_view()));
                assert(waiting_only(entries_map(e.take(i + 1))) =~= replaced(
                    waiting_only(entries_map(e.take(i))),
                    key@,
                    list.deep_view(),
                ));
            }
            tells.set(key, list);
        }
        assert(e.take(e.len() as int) =~= e);
        tells
    }

    /// The whole store as JSON text. There is always such a text.
    pub fn to_json(&self) -> (out: Result<String, StoreError>)
        requires
            self.wf(),
        ensures
            out is Ok,
            out matches Ok(text) ==> text@ == json_text(self@),
    {
        proof {
            lemma_entries_map(self.entries.deep_view());
        }
        match encode(&self.entries) {
            Ok(text) => Ok(text),
            Err(_) => Err(StoreError::Unwritable),
        }
    }

    /// The store that a JSON text holds. Recipients for whom the text lists no
    /// message are left out.
    pub fn from_json(text: &str) -> (out: Result<Tells, StoreError>)
        ensures
            match out {
                Ok(tells) => tells.wf() && json_parse(text@) is Some && tells@ == waiting_only(
                    json_parse(text@)->0,
                ),
                Err(e) => json_parse(text@) is None && e == StoreError::Malformed,
            },
    {
        match decode(text) {
            Ok(entries) => Ok(Tells::from_entries(entries)),
            Err(_) => Err(StoreError::Malformed),
        }
    }

    /// The store to start with: the one that `text` holds, or an empty one
    /// where there is no text or it cannot be read. With it comes what went
    /// wrong with the text, for whoever keeps a log.
    pub fn load(text: Option<&str>) -> (out: (Tells, Option<StoreError>))
        ensures
            out.0.wf(),
            out.0@ == loaded(text.deep_view()),
            out.1 == load_failure(text.deep_view()),
    {
        match text {
            Some(t) => match Tells::from_json(t) {
                Ok(tells) => (tells, None),
                Err(e) => (Tells::new(), Some(e)),
            },
            None => (Tells::new(), None),
        }
    }

    /// Takes out all that waits for `who`, oldest first. Afterwards `who` is no
    /// longer kept.
    pub fn drain(&mut self, who: &str) -> (msgs: Vec<(String, String)>)
        requires
            old(self).wf(),
        ensures
            final(self).wf(),
            final(self)@ == drained(old(self)@, who@),
            msgs.deep_view() == pending(old(self)@, who@),
    {
        let ghost e0 = self.entries.deep_view();
        let ghost target = drained(map_of(e0), who@);
        match self.position(who) {
            Some(i) => {
                let (_, list) = self.entries.remove(i);
                let ghost e1 = self.entries.deep_view();
                proof {
                    lemma_map_of_entry(e0, i as int);
                    assert forall|j: int| 0 <= j < e1.len() implies (#[trigger] e1[j]) == e0[if j
                        < i {
                        j
                    } else {
                        j + 1
                    }] by {}
                    assert forall|j: int| 0 <= j < e1.len() implies target.dom().contains(
                        (#[trigger] e1[j]).0,
                    ) && target[e1[j].0] == e1[j].1 by {
                        let j0 = if j < i {
                            j
                        } else {
                            j + 1
                        };
                        assert(e1[j] == e0[j0]);
                        lemma_map_of_entry(e0, j0);
                    }
                    assert forall|k: Seq<char>| target.dom().contains(k) implies has_key(e1, k) by {
                        let j0 = key_index(e0, k);
                        assert(0 <= j0 < e0.len() && e0[j0].0 == k);
                        let j = if j0 < i {
                            j0
                        } else {
                            j0 - 1
                        };
                        assert(e1[j] == e0[j0]);
                    }
                    lemma_map_of(e1, target);
                }
                list
            },
            None => {
                assert(target =~= map_of(e0));
                let none: Vec<(String, String)> = Vec::new();
                assert(none.deep_view() =~= Seq::<(Seq<char>, Seq<char>)>::empty());
                none
            },
        }
    }

    /// Whether a message waits for `who`.
    pub fn has_pending(&self, who: &str) -> (waiting: bool)
        requires
            self.wf(),
        ensures
            waiting == self@.dom().contains(who@),
            waiting == (pending(self@, who@).len() > 0),
    {
        proof {
            self.lemma_no_empty_queue();
        }
        self.position(who).is_some()
    }

    /// A copy of what waits for `who`, oldest first.
    pub fn pending_for(&self, who: &str) -> (msgs: Vec<(String, String)>)
        requires
            self.wf(),
        ensures
            msgs.deep_view() == pending(self@, who@),
    {
        let mut msgs: Vec<(String, String)> = Vec::new();
        let ghost e = self.entries.deep_view();
        match self.position(who) {
            Some(at) => {
                proof {
                    lemma_map_of_entry(e, at as int);
                }
                let list = &self.entries[at].1;
                let mut i: usize = 0;
                while i < list.len()
                    invariant
                        i <= list.len(),
                        msgs.deep_view() == list.deep_view().take(i as int),
                    decreases list.len() - i,
                {
                    let ghost before = msgs.deep_view();
                    msgs.push((list[i].0.clone(), list[i].1.clone()));
                    assert(msgs.deep_view() =~= before.push(list.deep_view()[i as int]));
                    assert(list.deep_view().take(i + 1) =~= before.push(list.deep_view()[i as int]));
                    i += 1;
                }
                assert(list.deep_view().take(i as int) =~= list.deep_view());
                assert(list.deep_view() == e[at as int].1);
            },
            None => {
                assert(msgs.deep_view() =~= Seq::<(Seq<char>, Seq<char>)>::empty());
            },
        }
        msgs
    }

    /// The recipients for whom a message waits, each once.
    pub fn recipients(&self) -> (names: Vec<String>)
        requires
            self.wf(),
        ensures
            names.deep_view().no_duplicates(),
            forall|k: Seq<char>| names.deep_view().contains(k) <==> self@.dom().contains(k),
    {
        let mut names: Vec<String> = Vec::new();
        let ghost e = self.entries.deep_view();
        let mut i: usize = 0;
        while i < self.entries.len()
            invariant
                i <= self.entries.len(),
                e == self.entries.deep_view(),
                names.len() == i,
                forall|j: int| 0 <= j < i ==> (#[trigger] names.deep_view()[j]) == e[j].0,
            decreases self.entries.len() - i,
        {
            let ghost before = names.deep_view();
            names.push(self.entries[i].0.clone());
            assert(names.deep_view() =~= before.push(e[i as int].0));
            i += 1;
        }
        proof {
            let n = names.deep_view();
            assert forall|a: int, b: int| 0 <= a < n.len() && 0 <= b < n.len() && a != b implies n[a]
                != n[b] by {
                assert(n[a] == e[a].0 && n[b] == e[b].0);
            }
            assert forall|k: Seq<char>| n.contains(k) <==> self@.dom().contains(k) by {
                if n.contains(k) {
                    let j = choose|j: int| 0 <= j < n.len() && n[j] == k;
                    assert(e[j].0 == k);
                }
                if self@.dom().contains(k) {
                    let j = key_index(e, k);
                    assert(0 <= j < e.len() && e[j].0 == k);
                    assert(n[j] == k);
                }
            }
        }
        names
    }

    /// The number of recipients for whom a message waits.
    pub fn len(&self) -> (n: usize)
        requires
            self.wf(),
        ensures
            n == self@.dom().len(),
            self@.dom().finite(),
    {
        proof {
            lemma_keys_counted(self.entries.deep_view());
        }
        self.entries.len()
    }

    /// Whether nothing waits.
    pub fn is_empty(&self) -> (empty: bool)
        requires
            self.wf(),
        ensures
            empty == (self@ == Map::<Seq<char>, Pending>::empty()),
    {
        let ghost e = self.entries.deep_view();
        if self.entries.len() == 0 {
            assert(self@ =~= Map::<Seq<char>, Pending>::empty());
            true
        } else {
            proof {
                lemma_map_of_entry(e, 0);
            }
            false
        }
    }
}

/// Entries with distinct recipients stand for a mapping with as many keys.
proof fn lemma_keys_counted(e: Seq<(Seq<char>, Pending)>)
    requires
        distinct_recipients(e),
    ensures
        map_of(e).dom().finite(),
        map_of(e).dom().len() == e.len(),
    decreases e.len(),
{
    if e.len() == 0 {
        assert(map_of(e).dom() =~= Set::<Seq<char>>::empty());
    } else {
        let rest = e.drop_last();
        let k = e.last().0;
        lemma_keys_counted(rest);
        assert(!has_key(rest, k));
        assert(map_of(e).dom() =~= map_of(rest).dom().insert(k)) by {
            assert forall|q: Seq<char>| has_key(e, q) <==> (has_key(rest, q) || q == k) by {
                if has_key(e, q) {
                    let i = key_index(e, q);
                    if i < rest.len() {
                        assert(rest[i].0 == q);
                    }
                }
                if has_key(rest, q) {
                    let i = key_index(rest, q);
                    assert(e[i].0 == q);
                }
                if q == k {
                    assert(e[e.len() - 1].0 == q);
                }
            }
        }
    }
}

} // verus!
