use std::collections::VecDeque;
use vstd::prelude::*;

verus! {

/// A semantic key token: the closed set of keys the editor reacts to.
#[derive(Clone, Copy, PartialEq, Eq, Structural, Debug)]
pub enum Key {
    Escape,
    Enter,
    Backspace,
    Left,
    Right,
    Char(char),
    Num(u8),
}

/// How many tokens the queue holds before it drops the oldest.
pub const KEY_QUEUE_CAPACITY: usize = 256;

/// The key code of a raw console input record `[key_down, repeat, code, ..]`,
/// or `None` when the record is a key release.
pub fn key_down_code(event: [u32; 4]) -> (r: Option<u32>)
    ensures
        r == (if event[0] == 0 {
            None
        } else {
            Some(event[2])
        }),
{
    if event[0] == 0 {
        return None;
    }
    Some(event[2])
}

/// The queue between the key reader and the controller: it never blocks and
/// drops its oldest token when full.
pub struct InputSystem {
    queue: VecDeque<Key>,
}

impl InputSystem {
    pub closed spec fn pending(&self) -> Seq<Key> {
        self.queue@
    }

    pub open spec fn wf(&self) -> bool {
        self.pending().len() <= KEY_QUEUE_CAPACITY
    }

    pub fn new() -> (r: InputSystem)
        ensures
            r.wf(),
            r.pending() == Seq::<Key>::empty(),
    {
        InputSystem { queue: VecDeque::new() }
    }

    /// Queues `key` behind the others; when the queue is full the oldest
    /// token goes first.
    pub fn push(&mut self, key: Key)
        requires
            old(self).wf(),
        ensures
            final(self).wf(),
            old(self).pending().len() < KEY_QUEUE_CAPACITY ==> final(self).pending()
                == old(self).pending().push(key),
            old(self).pending().len() == KEY_QUEUE_CAPACITY ==> final(self).pending()
                == old(self).pending().drop_first().push(key),
    {
        if self.queue.len() == KEY_QUEUE_CAPACITY {
            let _ = self.queue.pop_front();
        }
        self.queue.push_back(key);
    }

    /// Takes the oldest queued token, if any, without waiting.
    pub fn poll(&mut self) -> (r: Option<Key>)
        requires
            old(self).wf(),
        ensures
            final(self).wf(),
            old(self).pending().len() == 0 ==> r is None && final(self).pending() == old(
                self,
            ).pending(),
            old(self).pending().len() > 0 ==> r == Some(old(self).pending()[0])
                && final(self).pending() == old(self).pending().drop_first(),
    {
        self.queue.pop_front()
    }
}

} // verus!
