//! The interactive main loop: wait for a newline, print the boot summary, then
//! echo every character read.
use vstd::prelude::*;
use crate::board::{banner_text, Board};
use crate::console::{counter_after, Console};
use crate::init::{init_action, InitAction, InitSequence};

verus! {

/// Where the main loop stands. The boot summary is printed on the way from
/// the first to the second.
#[derive(PartialEq, Eq, Structural, Clone, Copy, Debug)]
pub enum MainPhase {
    /// Reading and discarding characters until a newline.
    WaitForStart,
    /// Writing back every character read.
    Echo,
}

/// The next phase, and what is transmitted, when `c` is read in phase `p`;
/// `banner` is the boot summary.
pub open spec fn main_respond(p: MainPhase, c: char, banner: Seq<char>) -> (MainPhase, Seq<char>) {
    match p {
        MainPhase::WaitForStart => if c == '\n' {
            (MainPhase::Echo, banner)
        } else {
            (MainPhase::WaitForStart, Seq::empty())
        },
        MainPhase::Echo => (MainPhase::Echo, seq![c]),
    }
}

/// The phase reached, and everything transmitted, when the characters of
/// `input` are read in turn from phase `p`.
pub open spec fn main_run(p: MainPhase, input: Seq<char>, banner: Seq<char>) -> (
    MainPhase,
    Seq<char>,
)
    decreases input.len(),
{
    if input.len() == 0 {
        (p, Seq::empty())
    } else {
        let (p1, out1) = main_respond(p, input[0], banner);
        let (p2, out2) = main_run(p1, input.drop_first(), banner);
        (p2, out1 + out2)
    }
}

/// The main loop. It can only be entered from an early init that has run to
/// the end, and it never leaves.
pub struct MainLoop {
    phase: MainPhase,
}

impl View for MainLoop {
    type V = MainPhase;

    closed spec fn view(&self) -> MainPhase {
        self.phase
    }
}

impl MainLoop {
    /// Ends early init: every driver succeeded and the post-driver hook ran.
    /// The sequence is consumed, so this happens once.
    pub fn new(init: InitSequence) -> (r: MainLoop)
        requires
            init.wf(),
            init_action(init@) == InitAction::EnterMainLoop,
        ensures
            r@ == MainPhase::WaitForStart,
    {
        MainLoop { phase: MainPhase::WaitForStart }
    }

    /// The current phase.
    pub fn phase(&self) -> (r: MainPhase)
        ensures
            r == self@,
    {
        self.phase
    }

    /// Reads one character from the console, if one is waiting, and answers
    /// it: in the wait phase a newline prints the boot summary (with the
    /// counter as it stood before) and anything else is dropped; in the echo
    /// phase the character is written back. Returns whether one was read.
    pub fn poll(&mut self, board: &Board, console: &mut Console) -> (r: bool)
        ensures
            r == (old(console)@.pending.len() > 0),
            !r ==> final(console)@ == old(console)@ && final(self)@ == old(self)@,
            r ==> ({
                let (p, out) = main_respond(
                    old(self)@,
                    old(console)@.pending[0],
                    banner_text(board.name_spec(), board.drivers_spec(), old(console)@.written),
                );
                &&& final(self)@ == p
                &&& final(console)@.pending == old(console)@.pending.drop_first()
                &&& final(console)@.sent == old(console)@.sent + out
                &&& final(console)@.written == counter_after(old(console)@.written, out.len())
            }),
    {
        match console.read_char() {
            None => false,
            Some(c) => {
                match self.phase {
                    MainPhase::WaitForStart => {
                        if c == '\n' {
                            let text = board.banner(console.chars_written());
                            console.write_all(&text);
                            self.phase = MainPhase::Echo;
                        }
                    },
                    MainPhase::Echo => {
                        console.write_char(c);
                        assert(counter_after(old(console)@.written, 1) == crate::console::counter_step(
                            counter_after(old(console)@.written, 0),
                        ));
                    },
                }
                true
            },
        }
    }
}

/// Echo fidelity: in the echo phase, what is transmitted is exactly what is
/// read, character for character and in order.
pub proof fn lemma_echo_fidelity(input: Seq<char>, banner: Seq<char>)
    ensures
        main_run(MainPhase::Echo, input, banner) == (MainPhase::Echo, input),
    decreases input.len(),
{
    if input.len() > 0 {
        lemma_echo_fidelity(input.drop_first(), banner);
        assert(seq![input[0]] + input.drop_first() == input);
    } else {
        assert(input == Seq::<char>::empty());
    }
}

/// Start gate: while waiting, characters other than a newline are dropped,
/// with nothing transmitted; the first newline prints the boot summary and
/// moves to echoing, after which everything read is written back.
pub proof fn lemma_start_gate(before: Seq<char>, after: Seq<char>, banner: Seq<char>)
    requires
        !before.contains('\n'),
    ensures
        main_run(MainPhase::WaitForStart, before, banner) == (MainPhase::WaitForStart, Seq::<
            char,
        >::empty()),
        main_run(MainPhase::WaitForStart, before + seq!['\n'] + after, banner) == (
            MainPhase::Echo,
            banner + after,
        ),
    decreases before.len(),
{
    let whole = before + seq!['\n'] + after;
    if before.len() > 0 {
        assert(!before.drop_first().contains('\n')) by {
            if before.drop_first().contains('\n') {
                let k = choose|k: int|
                    0 <= k < before.drop_first().len() && before.drop_first()[k] == '\n';
                assert(before[k + 1] == '\n');
            }
        }
        assert(before[0] != '\n') by {
            if before[0] == '\n' {
                assert(before.contains('\n'));
            }
        }
        lemma_start_gate(before.drop_first(), after, banner);
        assert(whole.drop_first() == before.drop_first() + seq!['\n'] + after);
        assert(whole[0] == before[0]);
        assert(Seq::<char>::empty() + Seq::<char>::empty() == Seq::<char>::empty());
        assert(Seq::<char>::empty() + (banner + after) == banner + after);
    } else {
        assert(whole == seq!['\n'] + after);
        assert(whole.drop_first() == after);
        lemma_echo_fidelity(after, banner);
        assert(before == Seq::<char>::empty());
    }
}

} // verus!
