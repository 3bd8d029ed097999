//! The buffer behind the supervisor's non-blocking pull interface: a
//! first-in/first-out queue of completed output lines. A background worker
//! pushes each line it reads; the consumer pulls one line at a time and is
//! told "nothing available" at once when the queue is empty — it never
//! waits, whether the producer has written nothing yet or has gone away.

use vstd::prelude::*;

verus! {

/// A first-in/first-out queue of lines.
pub struct PacketQueue {
    items: Vec<String>,
}

impl PacketQueue {
    /// The buffered lines, oldest first.
    pub closed spec fn lines(self) -> Seq<Seq<char>> {
        self.items@.map_values(|s: String| s@)
    }

    pub fn new() -> (q: PacketQueue)
        ensures
            q.lines() == Seq::<Seq<char>>::empty(),
    {
        let q = PacketQueue { items: Vec::new() };
        proof {
            assert(q.lines() =~= Seq::<Seq<char>>::empty());
        }
        q
    }

    pub fn len(&self) -> (n: usize)
        ensures
            n == self.lines().len(),
    {
        self.items.len()
    }

    pub fn is_empty(&self) -> (b: bool)
        ensures
            b == (self.lines().len() == 0),
    {
        self.items.len() == 0
    }

    /// Append one completed line at the back.
    pub fn push_line(&mut self, line: String)
        ensures
            final(self).lines() == old(self).lines().push(line@),
    {
        let ghost lv = line@;
        self.items.push(line);
        proof {
            assert(self.lines() =~= old(self).lines().push(lv));
        }
    }

    /// Take the oldest buffered line, or learn at once that nothing is
    /// available: an empty queue yields `None` immediately and is left
    /// untouched.
    pub fn next_packet(&mut self) -> (r: Option<String>)
        ensures
            old(self).lines().len() == 0 ==> r is None && final(self).lines() == old(self).lines(),
            old(self).lines().len() > 0 ==> (r matches Some(s) && s@ == old(self).lines()[0])
                && final(self).lines() == old(self).lines().drop_first(),
    {
        if self.items.len() == 0 {
            None
        } else {
            let s = self.items.remove(0);
            proof {
                assert(self.lines() =~= old(self).lines().drop_first());
            }
            Some(s)
        }
    }
}

} // verus!
