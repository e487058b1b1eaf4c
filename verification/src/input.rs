//! The bounded turn buffer: validates and queues pending direction
//! changes between simulation ticks.
//!
//! Input may deliver several key presses between two ticks, while the
//! simulation applies at most one turn per tick. The buffer keeps a small
//! FIFO of pending directions: an offer is rejected when it would reverse
//! the snake with no other turn pending, or when it merely repeats the
//! most recently queued direction; a full buffer drops further offers as
//! deliberate backpressure.

use crate::game::{opposite, spec_is_perpendicular, Dir, GameState};
use vstd::prelude::*;

verus! {

/// The buffer holds at most this many pending turns.
pub open spec fn buffer_capacity() -> int {
    5
}

/// A bounded FIFO of pending directions, oldest first.
pub struct InputBuffer {
    internal: Vec<Dir>,
}

impl View for InputBuffer {
    type V = Seq<Dir>;

    closed spec fn view(&self) -> Seq<Dir> {
        self.internal@
    }
}

/// The buffer never exceeds its capacity.
pub open spec fn buffer_wf(buf: Seq<Dir>) -> bool {
    buf.len() <= buffer_capacity()
}

/// What one offer does to the buffer: rejected when the buffer is empty
/// and the candidate is not perpendicular to the current direction (it
/// would be an immediately fatal reversal), rejected when it repeats the
/// most recently queued direction, dropped when the buffer is full, and
/// appended otherwise.
pub open spec fn offer_spec(buf: Seq<Dir>, current: Dir, input: Dir) -> Seq<Dir> {
    if buf.len() == 0 {
        if spec_is_perpendicular(input, current) {
            seq![input]
        } else {
            buf
        }
    } else if input == buf.last() {
        buf
    } else if buf.len() >= buffer_capacity() {
        buf
    } else {
        buf.push(input)
    }
}

/// What one consumption does: the oldest queued directions are discarded
/// until one perpendicular to the current direction is found; that one is
/// returned and removed too. An emptied buffer yields nothing.
pub open spec fn next_turn_spec(buf: Seq<Dir>, current: Dir) -> (Option<Dir>, Seq<Dir>)
    decreases buf.len(),
{
    if buf.len() == 0 {
        (None, buf)
    } else if spec_is_perpendicular(buf[0], current) {
        (Some(buf[0]), buf.drop_first())
    } else {
        next_turn_spec(buf.drop_first(), current)
    }
}

impl InputBuffer {
    /// An empty buffer.
    pub fn new() -> (r: InputBuffer)
        ensures
            r@ == Seq::<Dir>::empty(),
            buffer_wf(r@),
    {
        InputBuffer { internal: Vec::new() }
    }

    /// The pending directions, oldest first.
    fn as_slice(&self) -> (r: &[Dir])
        ensures
            r@ == self@,
    {
        self.internal.as_slice()
    }

    /// The most recently queued direction, if any.
    fn last(&self) -> (r: Option<Dir>)
        ensures
            self@.len() == 0 ==> r is None,
            self@.len() > 0 ==> r == Some(self@.last()),
    {
        let s = self.as_slice();
        if s.len() == 0 {
            None
        } else {
            Some(s[s.len() - 1])
        }
    }

    /// Appends a direction unless the buffer is full.
    fn enqueue(&mut self, input: Dir)
        requires
            buffer_wf(old(self)@),
        ensures
            buffer_wf(final(self)@),
            old(self)@.len() < buffer_capacity() ==> final(self)@ == old(self)@.push(input),
            old(self)@.len() == buffer_capacity() ==> final(self)@ == old(self)@,
    {
        if self.internal.len() < 5 {
            self.internal.push(input);
        }
    }

    /// Removes and returns the oldest queued direction, if any.
    fn dequeue(&mut self) -> (r: Option<Dir>)
        ensures
            old(self)@.len() == 0 ==> r is None && final(self)@ == old(self)@,
            old(self)@.len() > 0 ==> r == Some(old(self)@[0]) && final(self)@ == old(
                self,
            )@.drop_first(),
    {
        if self.internal.len() == 0 {
            return None;
        }
        let first = self.internal.remove(0);
        proof {
            assert(old(self)@.remove(0) =~= old(self)@.drop_first());
        }
        Some(first)
    }

    /// Offers a candidate turn against the game's current direction:
    /// the buffer afterwards is exactly `offer_spec` of the buffer before.
    pub fn buffer_input(&mut self, game: &GameState, input: Dir)
        requires
            buffer_wf(old(self)@),
        ensures
            buffer_wf(final(self)@),
            final(self)@ == offer_spec(old(self)@, game@.dir, input),
    {
        match self.last() {
            None => {
                if input.is_perpendicular(game.snake_dir()) {
                    self.enqueue(input);
                    proof {
                        assert(final(self)@ =~= seq![input]);
                    }
                }
            },
            Some(most_recent) => {
                if input != most_recent {
                    self.enqueue(input);
                }
            },
        }
    }

    /// Hands out the turn the simulation should apply this tick, if a
    /// valid one is pending: discards queued directions that are no longer
    /// perpendicular to the current direction and returns the first one
    /// that is. At most one turn per call.
    pub fn turn_to_do(&mut self, current_dir: Dir) -> (r: Option<Dir>)
        ensures
            r == next_turn_spec(old(self)@, current_dir).0,
            final(self)@ == next_turn_spec(old(self)@, current_dir).1,
            r is Some ==> spec_is_perpendicular(next_turn_spec(old(self)@, current_dir).0->0, current_dir),
    {
        loop
            invariant
                next_turn_spec(old(self)@, current_dir) == next_turn_spec(self@, current_dir),
            decreases self@.len(),
        {
            match self.dequeue() {
                None => {
                    return None;
                },
                Some(d) => {
                    if d.is_perpendicular(current_dir) {
                        return Some(d);
                    }
                },
            }
        }
    }
}

/// A recognized input event, as the polling collaborator classifies it:
/// a request to quit, a terminal resize (redraw from blank), or a
/// directional move carrying one of the four directions.
#[derive(Clone, Copy, Debug, PartialEq, Eq, Structural)]
pub enum Input {
    _Pause,
    Resize,
    Move(Dir),
    Quit,
}

/// A non-perpendicular direction offered to an empty buffer is rejected.
pub proof fn lemma_offer_empty_rejected(current: Dir, input: Dir)
    requires
        !spec_is_perpendicular(input, current),
    ensures
        offer_spec(Seq::<Dir>::empty(), current, input) == Seq::<Dir>::empty(),
{
}

/// Offering the same direction twice in a row queues it at most once: the
/// second offer never changes the buffer again.
pub proof fn lemma_offer_duplicate_collapsed(buf: Seq<Dir>, current: Dir, input: Dir)
    requires
        buffer_wf(buf),
    ensures
        offer_spec(offer_spec(buf, current, input), current, input) == offer_spec(
            buf,
            current,
            input,
        ),
{
    let once = offer_spec(buf, current, input);
    if buf.len() == 0 {
        if spec_is_perpendicular(input, current) {
            assert(once.last() == input);
        }
    } else if input == buf.last() {
    } else if buf.len() >= buffer_capacity() {
    } else {
        assert(once.last() == input);
    }
}

/// A turn handed out by the buffer is perpendicular to the direction it
/// was validated against: never that direction itself and never its
/// reversal.
pub proof fn lemma_next_turn_never_reverses(buf: Seq<Dir>, current: Dir)
    ensures
        next_turn_spec(buf, current).0 matches Some(d) ==> spec_is_perpendicular(d, current) && d
            != current && d != opposite(current),
    decreases buf.len(),
{
    if buf.len() > 0 && !spec_is_perpendicular(buf[0], current) {
        lemma_next_turn_never_reverses(buf.drop_first(), current);
    }
}

} // verus!
