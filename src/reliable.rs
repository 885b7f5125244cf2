use vstd::prelude::*;

verus! {

/// What a reliable message's timer asks for at a poll.
#[derive(Clone, Copy, Debug, PartialEq, Eq, Structural)]
pub enum RetransmitAction {
    /// Not due yet.
    Wait,
    /// Send the message again.
    Resend,
    /// No acknowledgement within the connection timeout: the connection is lost.
    GiveUp,
}

pub open spec fn sat_add(a: u64, b: u64) -> u64 {
    if a + b > u64::MAX {
        u64::MAX
    } else {
        (a + b) as u64
    }
}

pub open spec fn sat_double(a: u64) -> u64 {
    if 2 * a > u64::MAX {
        u64::MAX
    } else {
        (2 * a) as u64
    }
}

/// The retransmission timer of one unacknowledged reliable message. Each resend doubles
/// the delay before the next one; once `give_up_after` has passed since the first send,
/// the message is abandoned. Dropping the timer is how an acknowledgement ends it.
#[derive(Clone, Copy, Debug, PartialEq, Eq, Structural)]
pub struct Retransmission {
    pub sent_at: u64,
    pub delay: u64,
    pub next_due: u64,
    pub attempts: u32,
    pub give_up_after: u64,
}

impl Retransmission {
    /// The timer of a message first sent at `now`.
    pub fn new(now: u64, base_delay: u64, give_up_after: u64) -> (r: Retransmission)
        ensures
            r == (Retransmission {
                sent_at: now,
                delay: base_delay,
                next_due: sat_add(now, base_delay),
                attempts: 0,
                give_up_after,
            }),
    {
        let next_due = if base_delay > u64::MAX - now {
            u64::MAX
        } else {
            now + base_delay
        };
        Retransmission { sent_at: now, delay: base_delay, next_due, attempts: 0, give_up_after }
    }

    /// Polls the timer at `now` (a monotonic clock).
    pub fn poll(&mut self, now: u64) -> (r: RetransmitAction)
        ensures
            final(self).sent_at == old(self).sent_at,
            final(self).give_up_after == old(self).give_up_after,
            now >= old(self).sent_at && now - old(self).sent_at >= old(self).give_up_after ==> r
                == RetransmitAction::GiveUp && *final(self) == *old(self),
            !(now >= old(self).sent_at && now - old(self).sent_at >= old(self).give_up_after) && now
                < old(self).next_due ==> r == RetransmitAction::Wait && *final(self) == *old(self),
            !(now >= old(self).sent_at && now - old(self).sent_at >= old(self).give_up_after) && now
                >= old(self).next_due ==> r == RetransmitAction::Resend && final(self).delay
                == sat_double(old(self).delay) && final(self).next_due == sat_add(
                now,
                sat_double(old(self).delay),
            ) && final(self).attempts == (if old(self).attempts == u32::MAX {
                u32::MAX as int
            } else {
                old(self).attempts + 1
            }),
    {
        if now >= self.sent_at && now - self.sent_at >= self.give_up_after {
            return RetransmitAction::GiveUp;
        }
        if now < self.next_due {
            return RetransmitAction::Wait;
        }
        let delay = if self.delay > u64::MAX / 2 {
            u64::MAX
        } else {
            2 * self.delay
        };
        self.delay = delay;
        self.next_due = if delay > u64::MAX - now {
            u64::MAX
        } else {
            now + delay
        };
        if self.attempts < u32::MAX {
            self.attempts = self.attempts + 1;
        }
        RetransmitAction::Resend
    }
}

} // verus!
