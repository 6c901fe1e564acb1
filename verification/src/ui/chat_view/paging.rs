//! [`InitialHistory`]: paging in the most recent messages of a chat.
//!
//! The server answers a first request on a cold chat with about one message,
//! so the history is paged in from the oldest message at hand until there is a
//! real backlog.

use crate::tdlib::types::{optional_values, Message, MessageValue};
use crate::ui::chat_view::model::present;
use vstd::prelude::*;

verus! {

/// How many messages make a backlog.
pub const TARGET: usize = 40;

/// How many messages to ask for at a time.
pub const BATCH: i32 = 50;

/// The least id among `batch`, 0 where there is none.
pub open spec fn least_id(batch: Seq<MessageValue>) -> i64
    decreases batch.len(),
{
    if batch.len() == 0 {
        0
    } else if batch.len() == 1 || batch.last().id < least_id(batch.drop_last()) {
        batch.last().id
    } else {
        least_id(batch.drop_last())
    }
}

/// What was paged in so far.
pub struct PagingView {
    /// The messages, in the order in which they came.
    pub messages: Seq<MessageValue>,
    /// The id to ask from next.
    pub from: i64,
}

impl PagingView {
    /// Nothing yet.
    pub open spec fn empty() -> PagingView {
        PagingView { messages: Seq::empty(), from: 0 }
    }

    /// A batch was added.
    pub open spec fn with(self, batch: Seq<MessageValue>) -> PagingView {
        if batch.len() == 0 {
            self
        } else {
            PagingView { messages: self.messages + batch, from: least_id(batch) }
        }
    }

    /// Whether another batch is to be asked for after one that was added.
    pub open spec fn wants_more(self) -> bool {
        self.messages.len() < TARGET && self.from != 0
    }
}

/// The messages of two lists are those of both.
proof fn lemma_present_concat(a: Seq<Option<MessageValue>>, b: Seq<Option<MessageValue>>)
    ensures
        present(a + b) == present(a) + present(b),
    decreases b.len(),
{
    if b.len() == 0 {
        assert(a + b =~= a);
        assert(present(a) + present(b) =~= present(a));
    } else {
        lemma_present_concat(a, b.drop_last());
        assert((a + b).drop_last() =~= a + b.drop_last());
        assert((a + b).last() == b.last());
        assert(present(a + b) =~= present(a) + present(b));
    }
}

/// The most recent history of a chat, while it is paged in.
#[derive(Debug)]
pub struct InitialHistory {
    messages: Vec<Option<Message>>,
    count: usize,
    from: i64,
}

impl View for InitialHistory {
    type V = PagingView;

    closed spec fn view(&self) -> PagingView {
        PagingView { messages: present(optional_values(self.messages@)), from: self.from }
    }
}

impl InitialHistory {
    /// The count is that of the messages.
    pub closed spec fn wf(&self) -> bool {
        self.count == present(optional_values(self.messages@)).len()
    }

    /// Nothing yet.
    pub fn new() -> (r: InitialHistory)
        ensures
            r.wf(),
            r@ == PagingView::empty(),
    {
        let r = InitialHistory { messages: Vec::new(), count: 0, from: 0 };
        assert(r@.messages =~= Seq::empty());
        r
    }

    /// The id to ask from.
    pub fn from(&self) -> (r: i64)
        ensures
            r == self@.from,
    {
        self.from
    }

    /// Adds what the server answered; `None` is a failed request. Returns
    /// whether another batch is to be asked for.
    pub fn page(&mut self, answer: Option<Vec<Option<Message>>>) -> (more: bool)
        requires
            old(self).wf(),
            answer is Some ==> old(self)@.messages.len() + answer->0@.len() <= usize::MAX,
        ensures
            final(self).wf(),
            ({
                let batch = match answer {
                    Some(b) => present(optional_values(b@)),
                    None => Seq::empty(),
                };
                &&& final(self)@ == old(self)@.with(batch)
                &&& more == (batch.len() > 0 && final(self)@.wants_more())
            }),
    {
        let mut batch: Vec<Option<Message>> = match answer {
            Some(b) => b,
            None => {
                return false;
            },
        };
        let ghost values = optional_values(batch@);
        let ghost held = optional_values(self.messages@);
        let mut least: i64 = 0;
        let mut n: usize = 0;
        for i in 0..batch.len()
            invariant
                values == optional_values(batch@),
                n == present(values.take(i as int)).len(),
                n <= i,
                least == least_id(present(values.take(i as int))),
        {
            assert(values.take(i + 1).drop_last() =~= values.take(i as int));
            match &batch[i] {
                Some(m) => {
                    assert(present(values.take(i + 1)).drop_last() =~= present(
                        values.take(i as int),
                    ));
                    if n == 0 || m.id < least {
                        least = m.id;
                    }
                    n = n + 1;
                },
                None => {},
            }
        }
        assert(values.take(values.len() as int) =~= values);
        proof {
            lemma_present_concat(held, values);
        }
        self.messages.append(&mut batch);
        assert(optional_values(self.messages@) =~= held + values);
        if n == 0 {
            assert(present(values) =~= Seq::empty());
            assert(present(held) + present(values) =~= present(held));
            return false;
        }
        self.from = least;
        self.count = self.count + n;
        self.count < TARGET && self.from != 0
    }

    /// The messages, to be taken in as the first batch.
    pub fn into_messages(self) -> (r: Vec<Option<Message>>)
        ensures
            present(optional_values(r@)) == self@.messages,
    {
        self.messages
    }
}

// --- Laws --------------------------------------------------------------------

/// The next request starts at the oldest message of the batch: no message of it
/// has a lesser id.
pub proof fn least_id_is_the_least(batch: Seq<MessageValue>, i: int)
    requires
        0 <= i < batch.len(),
    ensures
        least_id(batch) <= batch[i].id,
        exists|k: int| 0 <= k < batch.len() && (#[trigger] batch[k]).id == least_id(batch),
    decreases batch.len(),
{
    let n = batch.len() - 1;
    assert(batch[n] == batch.last());
    if n > 0 {
        let rest = batch.drop_last();
        if i < n {
            least_id_is_the_least(rest, i);
            assert(rest[i] == batch[i]);
        } else {
            least_id_is_the_least(rest, 0);
        }
        let k = choose|k: int| 0 <= k < rest.len() && (#[trigger] rest[k]).id == least_id(rest);
        assert(batch[k] == rest[k]);
    }
}

/// A batch is added behind what came before it, and the next request starts at
/// its oldest message. An empty one changes nothing.
pub proof fn pages_add_up(p: PagingView, batch: Seq<MessageValue>, i: int)
    ensures
        batch.len() == 0 ==> p.with(batch) == p,
        p.with(batch).messages.len() == p.messages.len() + batch.len(),
        0 <= i < p.messages.len() ==> p.with(batch).messages[i] == p.messages[i],
        0 <= i < batch.len() ==> p.with(batch).messages[p.messages.len() + i] == batch[i],
        0 <= i < batch.len() ==> p.with(batch).from <= batch[i].id,
{
    if 0 <= i < batch.len() {
        least_id_is_the_least(batch, i);
    }
}

/// Paging goes on until there are forty messages, as long as there is an id to
/// ask from.
pub proof fn paging_fills_the_backlog(p: PagingView)
    ensures
        p.from != 0 ==> (p.wants_more() <==> p.messages.len() < 40),
        p.from == 0 ==> !p.wants_more(),
{
}

} // verus!
