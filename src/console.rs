//! A character console with receive and transmit queues and a counter of the
//! characters it has transmitted.
use vstd::prelude::*;

verus! {

/// The counter after one more transmitted character. The counter saturates at
/// `u64::MAX` rather than wrapping, so it never goes down.
pub open spec fn counter_step(w: u64) -> u64 {
    if w == u64::MAX {
        w
    } else {
        (w + 1) as u64
    }
}

/// The counter after `k` more transmitted characters.
pub open spec fn counter_after(w: u64, k: nat) -> u64
    decreases k,
{
    if k == 0 {
        w
    } else {
        counter_step(counter_after(w, (k - 1) as nat))
    }
}

/// The observable state of a console.
pub ghost struct ConsoleView {
    /// Characters received and not read yet, oldest first.
    pub pending: Seq<char>,
    /// Characters transmitted and not collected yet, oldest first.
    pub sent: Seq<char>,
    /// Characters transmitted since the console was made.
    pub written: u64,
}

pub struct Console {
    rx: Vec<char>,
    tx: Vec<char>,
    written: u64,
}

impl View for Console {
    type V = ConsoleView;

    closed spec fn view(&self) -> ConsoleView {
        ConsoleView { pending: self.rx@, sent: self.tx@, written: self.written }
    }
}

impl Console {
    /// A console with nothing received, nothing transmitted and a zero counter.
    pub fn new() -> (r: Console)
        ensures
            r@.pending == Seq::<char>::empty(),
            r@.sent == Seq::<char>::empty(),
            r@.written == 0,
    {
        Console { rx: Vec::new(), tx: Vec::new(), written: 0 }
    }

    /// The receive side: a character arrives and waits to be read.
    pub fn receive(&mut self, c: char)
        ensures
            final(self)@.pending == old(self)@.pending.push(c),
            final(self)@.sent == old(self)@.sent,
            final(self)@.written == old(self)@.written,
    {
        self.rx.push(c);
    }

    /// Takes the oldest received character, or `None` where none is waiting
    /// (a caller that must have one polls again).
    pub fn read_char(&mut self) -> (r: Option<char>)
        ensures
            old(self)@.pending.len() == 0 ==> r.is_none() && final(self)@ == old(self)@,
            old(self)@.pending.len() > 0 ==> r == Some(old(self)@.pending[0])
                && final(self)@.pending == old(self)@.pending.drop_first()
                && final(self)@.sent == old(self)@.sent
                && final(self)@.written == old(self)@.written,
    {
        if self.rx.len() == 0 {
            None
        } else {
            Some(self.rx.remove(0))
        }
    }

    /// Transmits one character and counts it.
    pub fn write_char(&mut self, c: char)
        ensures
            final(self)@.sent == old(self)@.sent.push(c),
            final(self)@.written == counter_step(old(self)@.written),
            final(self)@.pending == old(self)@.pending,
    {
        self.tx.push(c);
        self.written = self.written.saturating_add(1);
    }

    /// Transmits each character of `s` in order.
    pub fn write_all(&mut self, s: &Vec<char>)
        ensures
            final(self)@.sent == old(self)@.sent + s@,
            final(self)@.written == counter_after(old(self)@.written, s@.len()),
            final(self)@.pending == old(self)@.pending,
    {
        let mut i: usize = 0;
        while i < s.len()
            invariant
                i <= s@.len(),
                self@.sent == old(self)@.sent + s@.subrange(0, i as int),
                self@.written == counter_after(old(self)@.written, i as nat),
                self@.pending == old(self)@.pending,
            decreases s@.len() - i,
        {
            self.write_char(s[i]);
            assert(s@.subrange(0, i + 1) == s@.subrange(0, i as int).push(s@[i as int]));
            i = i + 1;
        }
        assert(s@.subrange(0, s@.len() as int) == s@);
    }

    /// Characters transmitted since the console was made.
    pub fn chars_written(&self) -> (r: u64)
        ensures
            r == self@.written,
    {
        self.written
    }

    /// Hands over the transmitted characters not collected yet, oldest first.
    pub fn take_output(&mut self) -> (r: Vec<char>)
        ensures
            r@ == old(self)@.sent,
            final(self)@.sent == Seq::<char>::empty(),
            final(self)@.pending == old(self)@.pending,
            final(self)@.written == old(self)@.written,
    {
        let r = self.tx.clone();
        self.tx = Vec::new();
        r
    }
}

/// Each transmitted character adds exactly one to the counter, as long as the
/// counter stays within `u64`: from any counter value `w`, `k` writes leave
/// `w + k`.
pub proof fn lemma_counter_counts_writes(w: u64, k: nat)
    requires
        w + k <= u64::MAX,
    ensures
        counter_after(w, k) == w + k,
    decreases k,
{
    if k > 0 {
        lemma_counter_counts_writes(w, (k - 1) as nat);
    }
}

/// The counter never goes down: `k` writes leave it at least where it was.
pub proof fn lemma_counter_monotone(w: u64, k: nat)
    ensures
        counter_after(w, k) >= w,
    decreases k,
{
    if k > 0 {
        lemma_counter_monotone(w, (k - 1) as nat);
    }
}

} // verus!
