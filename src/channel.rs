use vstd::prelude::*;

verus! {

/// Number of sequence numbers an ordered channel can carry: the wire holds a `u32`.
pub const SEQUENCE_SPACE: u64 = 0x1_0000_0000;

/// One message of an ordered channel.
#[derive(Debug)]
pub struct Message {
    pub sequence: u32,
    pub payload: Vec<u8>,
}

impl Message {
    pub open spec fn view(&self) -> (u32, Seq<u8>) {
        (self.sequence, self.payload@)
    }
}

/// The messages of `s` carry the sequence numbers `start, start + 1, ...` in that order.
pub open spec fn consecutive_from(s: Seq<Message>, start: int) -> bool {
    forall|i: int| 0 <= i < s.len() ==> #[trigger] s[i].sequence == start + i
}

pub open spec fn views(s: Seq<Message>) -> Seq<(u32, Seq<u8>)> {
    s.map_values(|m: Message| m@)
}

/// `x` has been handed out in `out` or is still buffered in `pending`.
pub open spec fn held(out: Seq<Message>, pending: Seq<Message>, x: (u32, Seq<u8>)) -> bool {
    views(out).contains(x) || views(pending).contains(x)
}

/// Numbers outgoing messages of one ordered channel.
pub struct OrderedSender {
    pub next: u64,
}

impl OrderedSender {
    pub open spec fn wf(&self) -> bool {
        self.next <= SEQUENCE_SPACE
    }

    pub fn new() -> (r: OrderedSender)
        ensures
            r.wf(),
            r.next == 0,
    {
        OrderedSender { next: 0 }
    }

    /// Gives `payload` the next sequence number; `None` once the sequence space is used up.
    pub fn send(&mut self, payload: Vec<u8>) -> (r: Option<Message>)
        requires
            old(self).wf(),
        ensures
            final(self).wf(),
            old(self).next < SEQUENCE_SPACE ==> (r matches Some(m) && m.sequence == old(self).next
                && m.payload@ == payload@ && final(self).next == old(self).next + 1),
            old(self).next == SEQUENCE_SPACE ==> r.is_none() && final(self).next == old(
                self,
            ).next,
    {
        if self.next < SEQUENCE_SPACE {
            let s = self.next as u32;
            self.next = self.next + 1;
            Some(Message { sequence: s, payload })
        } else {
            None
        }
    }
}

/// Receives one ordered channel: hands messages to the application strictly in sequence
/// order, buffering those that arrive early within a bounded reorder window.
///
/// Policy: a message that arrives at or past `next + window`, or whose number was already
/// delivered or is already buffered, is dropped. No gap is skipped, so a message lost
/// for good holds back its successors until the session ends.
pub struct OrderedReceiver {
    /// The sequence number the application expects next.
    pub next: u64,
    /// How far ahead of `next` an early message is still buffered.
    pub window: u64,
    /// Early messages, each inside the window that starts at `next`, numbers distinct.
    pub pending: Vec<Message>,
}

impl OrderedReceiver {
    pub open spec fn pending_view(&self) -> Seq<(u32, Seq<u8>)> {
        views(self.pending@)
    }

    /// `seq` lies in the window and is not buffered yet.
    pub open spec fn accepts(&self, seq: u32) -> bool {
        &&& self.next <= seq < self.next + self.window
        &&& forall|i: int| 0 <= i < self.pending@.len() ==> #[trigger] self.pending@[i].sequence != seq
    }

    pub open spec fn wf(&self) -> bool {
        &&& self.next <= SEQUENCE_SPACE
        &&& forall|i: int|
            0 <= i < self.pending@.len() ==> self.next <= #[trigger] self.pending@[i].sequence
                < self.next + self.window
        &&& forall|i: int, j: int|
            0 <= i < j < self.pending@.len() ==> #[trigger] self.pending@[i].sequence
                != #[trigger] self.pending@[j].sequence
    }

    /// Nothing buffered could be handed out now.
    pub open spec fn settled(&self) -> bool {
        forall|i: int| 0 <= i < self.pending@.len() ==> #[trigger] self.pending@[i].sequence != self.next
    }

    pub fn new(window: u64) -> (r: OrderedReceiver)
        ensures
            r.wf(),
            r.settled(),
            r.next == 0,
            r.window == window,
            r.pending@.len() == 0,
    {
        OrderedReceiver { next: 0, window, pending: Vec::new() }
    }

    /// Finds the buffered message numbered `next`, if any.
    fn find_next(&self) -> (r: Option<usize>)
        ensures
            match r {
                Some(j) => j < self.pending@.len() && self.pending@[j as int].sequence == self.next,
                None => self.settled(),
            },
    {
        let mut j: usize = 0;
        while j < self.pending.len()
            invariant
                j <= self.pending@.len(),
                forall|i: int| 0 <= i < j ==> #[trigger] self.pending@[i].sequence != self.next,
            decreases self.pending@.len() - j,
        {
            if self.pending[j].sequence as u64 == self.next {
                return Some(j);
            }
            j = j + 1;
        }
        None
    }

    /// Takes in one arriving message and returns the messages now due, in order. Nothing
    /// that was buffered, nor an arriving message inside the window, is lost: each is
    /// handed out or stays buffered.
    pub fn receive(&mut self, msg: Message) -> (r: Vec<Message>)
        requires
            old(self).wf(),
            old(self).settled(),
        ensures
            final(self).wf(),
            final(self).settled(),
            final(self).window == old(self).window,
            consecutive_from(r@, old(self).next as int),
            final(self).next == old(self).next + r@.len(),
            forall|i: int|
                0 <= i < r@.len() ==> #[trigger] r@[i]@ == msg@ || old(
                    self,
                ).pending_view().contains(r@[i]@),
            forall|j: int|
                0 <= j < old(self).pending@.len() ==> held(
                    r@,
                    final(self).pending@,
                    #[trigger] old(self).pending_view()[j],
                ),
            old(self).accepts(msg.sequence) ==> held(r@, final(self).pending@, msg@),
            forall|i: int|
                0 <= i < final(self).pending@.len() ==> #[trigger] final(self).pending@[i]@ == msg@
                    || old(self).pending_view().contains(final(self).pending@[i]@),
    {
        let ghost before = self.pending_view();
        let ghost m = msg@;
        let mut out: Vec<Message> = Vec::new();
        let s = msg.sequence as u64;
        if s == self.next {
            assert forall|i: int| 0 <= i < self.pending@.len() implies before.contains(
                #[trigger] self.pending@[i]@,
            ) by {
                assert(before[i] == self.pending@[i]@);
            }
            self.next = self.next + 1;
            out.push(msg);
            assert(views(out@)[0] == m);
            assert forall|j: int|
                0 <= j < before.len() implies held(out@, self.pending@, #[trigger] before[j]) by {
                assert(views(self.pending@)[j] == before[j]);
            }
        } else if s > self.next && s - self.next < self.window {
            let mut k: usize = 0;
            let mut dup = false;
            while k < self.pending.len()
                invariant
                    k <= self.pending@.len(),
                    !dup ==> forall|i: int| 0 <= i < k ==> #[trigger] self.pending@[i].sequence != s,
                    dup ==> exists|i: int| 0 <= i < k && #[trigger] self.pending@[i].sequence == s,
                decreases self.pending@.len() - k,
            {
                if self.pending[k].sequence as u64 == s {
                    dup = true;
                }
                k = k + 1;
            }
            if !dup {
                self.pending.push(msg);
                assert(self.pending_view() =~= before.push(m));
                assert(views(self.pending@)[before.len() as int] == m);
            }
            assert forall|j: int|
                0 <= j < before.len() implies held(out@, self.pending@, #[trigger] before[j]) by {
                assert(views(self.pending@)[j] == before[j]);
            }
            assert forall|i: int| 0 <= i < self.pending@.len() implies #[trigger] self.pending@[i]@ == m
                || before.contains(self.pending@[i]@) by {
                if i < before.len() {
                    assert(views(self.pending@)[i] == before[i]);
                }
            }
            assert(self.settled());
            return out;
        } else {
            assert forall|j: int|
                0 <= j < before.len() implies held(out@, self.pending@, #[trigger] before[j]) by {
                assert(views(self.pending@)[j] == before[j]);
            }
            assert forall|i: int| 0 <= i < self.pending@.len() implies before.contains(
                #[trigger] self.pending@[i]@,
            ) by {
                assert(views(self.pending@)[i] == before[i]);
            }
            return out;
        }
        loop
            invariant
                self.wf(),
                self.window == old(self).window,
                consecutive_from(out@, old(self).next as int),
                self.next == old(self).next + out@.len(),
                forall|i: int|
                    0 <= i < out@.len() ==> #[trigger] out@[i]@ == m || before.contains(out@[i]@),
                forall|i: int|
                    0 <= i < self.pending@.len() ==> before.contains(#[trigger] self.pending@[i]@),
                forall|j: int| 0 <= j < before.len() ==> held(out@, self.pending@, #[trigger] before[j]),
                s == old(self).next ==> held(out@, self.pending@, m),
            ensures
                self.settled(),
            decreases self.pending@.len(),
        {
            match self.find_next() {
                Some(j) => {
                    let ghost p = self.pending@;
                    let item = self.pending.remove(j);
                    assert(before.contains(p[j as int]@));
                    assert forall|i: int| 0 <= i < self.pending@.len() implies before.contains(
                        #[trigger] self.pending@[i]@,
                    ) by {
                        if i < j {
                            assert(self.pending@[i] == p[i]);
                        } else {
                            assert(self.pending@[i] == p[i + 1]);
                        }
                    }
                    let ghost o = out@;
                    self.next = self.next + 1;
                    out.push(item);
                    assert(views(out@)[o.len() as int] == p[j as int]@);
                    assert forall|x: (u32, Seq<u8>)| held(o, p, x) implies held(out@, self.pending@, x) by {
                        if views(o).contains(x) {
                            let i = choose|i: int| 0 <= i < views(o).len() && views(o)[i] == x;
                            assert(views(out@)[i] == x);
                        } else {
                            let q = choose|q: int| 0 <= q < views(p).len() && views(p)[q] == x;
                            if q < j {
                                assert(views(self.pending@)[q] == x);
                            } else if q > j {
                                assert(views(self.pending@)[q - 1] == x);
                            }
                        }
                    }
                },
                None => {
                    break;
                },
            }
        }
        out
    }

    /// Drops every buffered message: the session that owned them has ended.
    pub fn reset(&mut self)
        requires
            old(self).wf(),
        ensures
            final(self).wf(),
            final(self).settled(),
            final(self).next == old(self).next,
            final(self).window == old(self).window,
            final(self).pending@.len() == 0,
    {
        self.pending.clear();
    }
}

/// What two successive calls of `receive` hand out, taken together, is again in send
/// order: sequence numbers `start, start + 1, ...` with no gap and no repeat.
pub proof fn lemma_delivery_in_send_order(first: Seq<Message>, second: Seq<Message>, start: int)
    requires
        consecutive_from(first, start),
        consecutive_from(second, start + first.len()),
    ensures
        consecutive_from(first + second, start),
{
    assert forall|i: int| 0 <= i < (first + second).len() implies #[trigger] (first
        + second)[i].sequence == start + i by {
        if i < first.len() {
            assert((first + second)[i] == first[i]);
        } else {
            assert((first + second)[i] == second[i - first.len()]);
        }
    }
}

} // verus!
