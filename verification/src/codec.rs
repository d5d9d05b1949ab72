//! Batching of outgoing messages into one `{"msgs":[...]}` frame per flush.

use vstd::prelude::*;

use crate::config::strings_view;
use crate::text::{push_all, string_chars, string_of};

verus! {

/// The items of `q` separated by `sep` (`[T]::join`).
pub open spec fn join(q: Seq<Seq<char>>, sep: Seq<char>) -> Seq<char>
    decreases q.len(),
{
    if q.len() == 0 {
        Seq::empty()
    } else if q.len() == 1 {
        q[0]
    } else {
        join(q.drop_last(), sep) + sep + q.last()
    }
}

/// The frame that carries the queued JSON objects `q`, in order.
pub open spec fn batch_frame(q: Seq<Seq<char>>) -> Seq<char> {
    "{\"msgs\":["@ + join(q, ","@) + "]}"@
}

/// Outgoing messages of one connection, already serialised as JSON object
/// text, waiting for the next flush.
#[derive(Debug, Default)]
pub struct MessageBatcher {
    queue: Vec<String>,
}

impl View for MessageBatcher {
    type V = Seq<Seq<char>>;

    closed spec fn view(&self) -> Seq<Seq<char>> {
        strings_view(self.queue@)
    }
}

impl MessageBatcher {
    pub fn new() -> (r: Self)
        ensures
            r@ == Seq::<Seq<char>>::empty(),
    {
        let r = MessageBatcher { queue: Vec::new() };
        assert(r@ =~= Seq::<Seq<char>>::empty());
        r
    }

    /// Queues a JSON object text as it is: it is spliced into the frame
    /// without being parsed again.
    pub fn queue_raw(&mut self, json_object_text: &str)
        ensures
            final(self)@ == old(self)@.push(json_object_text@),
    {
        self.queue.push(String::from_str(json_object_text));
        assert(strings_view(self.queue@) =~= strings_view(old(self).queue@).push(
            json_object_text@,
        ));
    }

    pub fn is_empty(&self) -> (r: bool)
        ensures
            r == (self@.len() == 0),
    {
        self.queue.len() == 0
    }

    /// The frame of everything queued, which empties the queue; `None` when
    /// nothing was queued.
    pub fn flush(&mut self) -> (r: Option<String>)
        ensures
            old(self)@.len() == 0 ==> r is None && final(self)@ == old(self)@,
            old(self)@.len() > 0 ==> (r matches Some(f) && f@ == batch_frame(old(self)@)),
            final(self)@.len() == 0,
    {
        if self.queue.len() == 0 {
            return None;
        }
        let ghost q = self@;
        let mut out: Vec<char> = Vec::new();
        let open = string_chars(&String::from_str("{\"msgs\":["));
        push_all(&mut out, &open);
        let mut i: usize = 0;
        while i < self.queue.len()
            invariant
                0 < self.queue@.len(),
                q == strings_view(self.queue@),
                i <= self.queue@.len(),
                out@ == "{\"msgs\":["@ + join(q.take(i as int), ","@),
            decreases self.queue.len() - i,
        {
            let ghost before = out@;
            if i > 0 {
                out.push(',');
            }
            let item = string_chars(&self.queue[i]);
            push_all(&mut out, &item);
            proof {
                reveal_strlit(",");
                let t = q.take(i + 1);
                assert(t.drop_last() =~= q.take(i as int));
                assert(t.last() == q[i as int]);
                if i == 0 {
                    assert(join(q.take(0), ","@) =~= Seq::<char>::empty());
                    assert(t.len() == 1);
                    assert(out@ =~= "{\"msgs\":["@ + join(t, ","@));
                } else {
                    assert(out@ =~= "{\"msgs\":["@ + join(t, ","@));
                }
            }
            i = i + 1;
        }
        assert(q.take(q.len() as int) =~= q);
        let close = string_chars(&String::from_str("]}"));
        push_all(&mut out, &close);
        self.queue = Vec::new();
        assert(self@ =~= Seq::<Seq<char>>::empty());
        Some(string_of(&out))
    }
}

/// A frame of one message is that message in the frame's brackets.
pub proof fn lemma_single_message_frame(m: Seq<char>)
    ensures
        batch_frame(seq![m]) == "{\"msgs\":["@ + m + "]}"@,
{
    assert(join(seq![m], ","@) == m);
}

/// Queuing messages and flushing sends them in the order they were queued,
/// comma-separated: the frame of `q` followed by `m` extends the frame of
/// `q` by `,` and `m`.
pub proof fn lemma_frame_push(q: Seq<Seq<char>>, m: Seq<char>)
    requires
        q.len() > 0,
    ensures
        join(q.push(m), ","@) == join(q, ","@) + ","@ + m,
{
    assert(q.push(m).drop_last() =~= q);
}

} // verus!
