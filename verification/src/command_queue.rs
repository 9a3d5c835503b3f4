//! The nested-frame command queue: one active FIFO frame plus a stack of
//! stashed (outer) frames.
//!
//! The structure is a LIFO of FIFOs.  Each nesting level of dispatch gets its
//! own frame; draining consumes the active frame first and then resumes the
//! most recently stashed frame, so the overall drain order is the active
//! frame's contents followed by the stashed frames' contents from the most
//! recently stashed down to the bottom (earliest) frame.

use std::collections::VecDeque;
use vstd::prelude::*;

verus! {

/// The contents of a stack of frames, read from the most recently stashed
/// frame down to the bottom frame, flattened into one sequence.
///
/// `frames` lists the frames bottom first (index `0` is the earliest frame),
/// so the flattening walks the sequence from its last element backwards.
pub open spec fn flatten_rev<T>(frames: Seq<Seq<T>>) -> Seq<T>
    decreases frames.len(),
{
    if frames.len() == 0 {
        Seq::empty()
    } else {
        frames.last() + flatten_rev(frames.drop_last())
    }
}

/// Stashing one more frame puts its contents in front of everything already
/// stashed.
pub proof fn lemma_flatten_rev_push<T>(frames: Seq<Seq<T>>, frame: Seq<T>)
    ensures
        flatten_rev(frames.push(frame)) == frame + flatten_rev(frames),
{
    assert(frames.push(frame).last() == frame);
    assert(frames.push(frame).drop_last() =~= frames);
}

/// Appending to the bottom frame appends to the very end of the flattened
/// drain order.
pub proof fn lemma_flatten_rev_extend_bottom<T>(frames: Seq<Seq<T>>, extra: Seq<T>)
    requires
        frames.len() > 0,
    ensures
        flatten_rev(frames.update(0, frames[0] + extra)) == flatten_rev(frames) + extra,
    decreases frames.len(),
{
    let updated = frames.update(0, frames[0] + extra);
    if frames.len() == 1 {
        assert(updated.drop_last() =~= Seq::<Seq<T>>::empty());
        assert(frames.drop_last() =~= Seq::<Seq<T>>::empty());
        assert(updated.last() == frames[0] + extra);
        assert(frames.last() == frames[0]);
        assert(flatten_rev(Seq::<Seq<T>>::empty()) == Seq::<T>::empty());
        assert(flatten_rev(updated) == (frames[0] + extra) + Seq::<T>::empty());
        assert(flatten_rev(frames) == frames[0] + Seq::<T>::empty());
        assert((frames[0] + extra) + Seq::<T>::empty() =~= (frames[0] + Seq::<T>::empty())
            + extra);
    } else {
        assert(updated.last() == frames.last());
        assert(updated.drop_last() =~= frames.drop_last().update(0, frames[0] + extra));
        assert(frames.drop_last()[0] == frames[0]);
        lemma_flatten_rev_extend_bottom(frames.drop_last(), extra);
        assert(frames.last() + (flatten_rev(frames.drop_last()) + extra) =~= (frames.last()
            + flatten_rev(frames.drop_last())) + extra);
    }
}

/// The flattened contents are empty exactly when every frame is empty.
pub proof fn lemma_flatten_rev_empty<T>(frames: Seq<Seq<T>>)
    ensures
        flatten_rev(frames).len() == 0 <==> (forall|i: int|
            0 <= i < frames.len() ==> frames[i].len() == 0),
    decreases frames.len(),
{
    if frames.len() > 0 {
        lemma_flatten_rev_empty(frames.drop_last());
        assert(forall|i: int|
            0 <= i < frames.drop_last().len() ==> frames.drop_last()[i] == frames[i]);
    }
}

/// An ordered collection of pending commands: one active frame that receives
/// and yields commands, plus stashed frames holding the suspended outer
/// levels, the most recently stashed restored first.
pub struct CommandList<T> {
    current_frame: VecDeque<T>,
    stashed_frames: Vec<VecDeque<T>>,
}

impl<T> CommandList<T> {
    /// The contents of the active frame, front first.
    pub closed spec fn active(self) -> Seq<T> {
        self.current_frame@
    }

    /// The contents of the stashed frames, bottom (earliest) frame first;
    /// the last element is the most recently stashed frame.
    pub closed spec fn stashed(self) -> Seq<Seq<T>> {
        Seq::new(self.stashed_frames@.len(), |i: int| self.stashed_frames@[i]@)
    }

    /// Every pending command in drain order: the active frame first, then the
    /// stashed frames from the most recently stashed down to the bottom one.
    pub open spec fn pending(self) -> Seq<T> {
        self.active() + flatten_rev(self.stashed())
    }

    /// Whether the structure holds no command at all: the active frame and
    /// every stashed frame are empty.
    pub open spec fn is_content_empty(self) -> bool {
        &&& self.active().len() == 0
        &&& forall|i: int| 0 <= i < self.stashed().len() ==> self.stashed()[i].len() == 0
    }

    /// A command list with one empty active frame and nothing stashed.
    pub fn new() -> (r: Self)
        ensures
            r.active() == Seq::<T>::empty(),
            r.stashed() == Seq::<Seq<T>>::empty(),
    {
        let r = CommandList { current_frame: VecDeque::new(), stashed_frames: Vec::new() };
        proof {
            assert(r.stashed() =~= Seq::<Seq<T>>::empty());
        }
        r
    }

    /// Removes and returns the earliest command of the active frame only;
    /// yields nothing when the active frame is empty, even if stashed frames
    /// still hold commands.
    pub fn pop_command(&mut self) -> (r: Option<T>)
        ensures
            final(self).stashed() == old(self).stashed(),
            match r {
                Some(x) => {
                    &&& old(self).active().len() > 0
                    &&& x == old(self).active()[0]
                    &&& final(self).active() == old(self).active().drop_first()
                },
                None => {
                    &&& old(self).active().len() == 0
                    &&& final(self).active() == old(self).active()
                },
            },
    {
        let r = self.current_frame.pop_front();
        proof {
            assert(final(self).stashed() =~= old(self).stashed());
            if r is Some {
                assert(final(self).active() =~= old(self).active().drop_first());
            }
        }
        r
    }

    /// Inserts at the very front of the active frame, so the next drain
    /// returns this command before everything previously queued at this level.
    pub fn push_immediate_command(&mut self, new_command: T)
        ensures
            final(self).active() == seq![new_command] + old(self).active(),
            final(self).stashed() == old(self).stashed(),
            final(self).pending() == seq![new_command] + old(self).pending(),
    {
        self.current_frame.push_front(new_command);
        proof {
            assert(final(self).stashed() =~= old(self).stashed());
            assert((seq![new_command] + old(self).active()) + flatten_rev(old(self).stashed())
                =~= seq![new_command] + old(self).pending());
        }
    }

    /// Appends to the back of the active frame: same-level scheduling.
    pub fn add_command_to_current_frame(&mut self, new_command: T)
        ensures
            final(self).active() == old(self).active().push(new_command),
            final(self).stashed() == old(self).stashed(),
    {
        self.current_frame.push_back(new_command);
        proof {
            assert(final(self).stashed() =~= old(self).stashed());
        }
    }

    /// Appends each command in order to the back of the active frame.
    pub fn append_commands_to_current_frame(&mut self, new_commands: Vec<T>)
        ensures
            final(self).active() == old(self).active() + new_commands@,
            final(self).stashed() == old(self).stashed(),
    {
        let mut commands = new_commands;
        let ghost all = commands@;
        proof {
            assert(all.take(0) =~= Seq::<T>::empty());
            assert(old(self).active() + all.take(0) =~= old(self).active());
        }
        while commands.len() > 0
            invariant
                commands@.len() <= all.len(),
                commands@ == all.skip(all.len() - commands.len()),
                self.active() == old(self).active() + all.take(all.len() - commands.len()),
                self.stashed() == old(self).stashed(),
            decreases commands.len(),
        {
            let ghost done = all.len() - commands@.len();
            let command = commands.remove(0);
            proof {
                assert(all.skip(done)[0] == all[done]);
                assert(command == all[done]);
                assert(commands@ =~= all.skip(done + 1));
            }
            self.add_command_to_current_frame(command);
            proof {
                assert(old(self).active() + all.take(done + 1) =~= (old(self).active() + all.take(
                    done,
                )).push(all[done]));
            }
        }
        proof {
            assert(all.take(all.len() as int) =~= all);
        }
    }

    /// Appends to the back of the bottom (earliest stashed) frame, or of the
    /// active frame when nothing is stashed: globally deferred scheduling.
    /// In drain order the command lands behind every other pending command.
    pub fn add_command_to_bottom_frame(&mut self, new_command: T)
        ensures
            final(self).pending() == old(self).pending().push(new_command),
            old(self).stashed().len() == 0 ==> {
                &&& final(self).active() == old(self).active().push(new_command)
                &&& final(self).stashed() == old(self).stashed()
            },
            old(self).stashed().len() > 0 ==> {
                &&& final(self).active() == old(self).active()
                &&& final(self).stashed() == old(self).stashed().update(
                    0,
                    old(self).stashed()[0].push(new_command),
                )
            },
    {
        if self.stashed_frames.len() > 0 {
            let bottom = &mut self.stashed_frames[0];
            bottom.push_back(new_command);
            proof {
                assert(final(self).stashed() =~= old(self).stashed().update(
                    0,
                    old(self).stashed()[0].push(new_command),
                ));
                assert(old(self).stashed()[0] + seq![new_command] =~= old(self).stashed()[0].push(
                    new_command,
                ));
                lemma_flatten_rev_extend_bottom(old(self).stashed(), seq![new_command]);
                assert(old(self).active() + (flatten_rev(old(self).stashed()) + seq![new_command])
                    =~= old(self).pending().push(new_command));
            }
        } else {
            self.current_frame.push_back(new_command);
            proof {
                assert(final(self).stashed() =~= old(self).stashed());
                assert(final(self).pending() =~= old(self).pending().push(new_command));
            }
        }
    }

    /// Appends each command in order to the back of the bottom frame (or the
    /// active frame when nothing is stashed).
    pub fn append_commands_to_bottom_frame(&mut self, new_commands: Vec<T>)
        ensures
            final(self).pending() == old(self).pending() + new_commands@,
            old(self).stashed().len() == 0 ==> {
                &&& final(self).active() == old(self).active() + new_commands@
                &&& final(self).stashed() == old(self).stashed()
            },
            old(self).stashed().len() > 0 ==> {
                &&& final(self).active() == old(self).active()
                &&& final(self).stashed() == old(self).stashed().update(
                    0,
                    old(self).stashed()[0] + new_commands@,
                )
            },
    {
        let ghost all = new_commands@;
        let mut commands = new_commands;
        proof {
            assert(all.take(0) =~= Seq::<T>::empty());
            assert(old(self).pending() + all.take(0) =~= old(self).pending());
            assert(old(self).active() + all.take(0) =~= old(self).active());
            if old(self).stashed().len() > 0 {
                assert(old(self).stashed()[0] + all.take(0) =~= old(self).stashed()[0]);
                assert(old(self).stashed().update(0, old(self).stashed()[0]) =~= old(
                    self,
                ).stashed());
            }
        }
        while commands.len() > 0
            invariant
                commands@.len() <= all.len(),
                commands@ == all.skip(all.len() - commands.len()),
                self.pending() == old(self).pending() + all.take(all.len() - commands.len()),
                old(self).stashed().len() == 0 ==> {
                    &&& self.active() == old(self).active() + all.take(all.len() - commands.len())
                    &&& self.stashed() == old(self).stashed()
                },
                old(self).stashed().len() > 0 ==> {
                    &&& self.active() == old(self).active()
                    &&& self.stashed() == old(self).stashed().update(
                        0,
                        old(self).stashed()[0] + all.take(all.len() - commands.len()),
                    )
                },
            decreases commands.len(),
        {
            let ghost done = all.len() - commands@.len();
            let ghost prev = *self;
            let command = commands.remove(0);
            proof {
                assert(all.skip(done)[0] == all[done]);
                assert(command == all[done]);
                assert(commands@ =~= all.skip(done + 1));
            }
            self.add_command_to_bottom_frame(command);
            proof {
                assert(all.take(done + 1) =~= all.take(done).push(all[done]));
                assert(old(self).pending() + all.take(done + 1) =~= (old(self).pending()
                    + all.take(done)).push(all[done]));
                if old(self).stashed().len() == 0 {
                    assert(old(self).active() + all.take(done + 1) =~= (old(self).active()
                        + all.take(done)).push(all[done]));
                } else {
                    assert(prev.stashed()[0] == old(self).stashed()[0] + all.take(done));
                    assert(prev.stashed()[0].push(all[done]) =~= old(self).stashed()[0] + all.take(
                        done + 1,
                    ));
                    assert(prev.stashed().update(0, prev.stashed()[0].push(all[done])) =~= old(
                        self,
                    ).stashed().update(0, old(self).stashed()[0] + all.take(done + 1)));
                }
            }
        }
        proof {
            assert(all.take(all.len() as int) =~= all);
        }
    }

    /// Moves the active frame onto the stash (becoming the most recently
    /// stashed frame) and installs a fresh empty frame as active.  The
    /// pending contents are unchanged; they are merely suspended one level
    /// deeper.
    pub fn start_new_frame(&mut self)
        ensures
            final(self).active() == Seq::<T>::empty(),
            final(self).stashed() == old(self).stashed().push(old(self).active()),
            final(self).pending() == old(self).pending(),
    {
        let mut new_frame: VecDeque<T> = VecDeque::new();
        std::mem::swap(&mut new_frame, &mut self.current_frame);
        self.stashed_frames.push(new_frame);
        proof {
            assert(final(self).stashed() =~= old(self).stashed().push(old(self).active()));
            lemma_flatten_rev_push(old(self).stashed(), old(self).active());
            assert(final(self).pending() =~= old(self).pending());
        }
    }

    /// When the active frame is empty and a stashed frame exists, restores
    /// the most recently stashed frame as active and reports `true`;
    /// otherwise leaves the structure unchanged and reports `false`.  The
    /// pending contents are never changed.
    pub fn maybe_pop_frame(&mut self) -> (r: bool)
        ensures
            final(self).pending() == old(self).pending(),
            r == (old(self).active().len() == 0 && old(self).stashed().len() > 0),
            r ==> {
                &&& final(self).active() == old(self).stashed().last()
                &&& final(self).stashed() == old(self).stashed().drop_last()
            },
            !r ==> {
                &&& final(self).active() == old(self).active()
                &&& final(self).stashed() == old(self).stashed()
            },
    {
        if self.current_frame.len() != 0 {
            false
        } else if let Some(mut old_frame) = self.stashed_frames.pop() {
            std::mem::swap(&mut self.current_frame, &mut old_frame);
            proof {
                assert(final(self).stashed() =~= old(self).stashed().drop_last());
                assert(old(self).active() + flatten_rev(old(self).stashed()) =~= flatten_rev(
                    old(self).stashed(),
                ));
                assert(final(self).pending() =~= flatten_rev(old(self).stashed()));
            }
            true
        } else {
            proof {
                assert(old(self).stashed().len() == 0);
            }
            false
        }
    }

    /// Removes and returns the earliest pending command, crossing frame
    /// boundaries: when the active frame is drained, the most recently
    /// stashed frame is restored and tried next, and so on down to the bottom
    /// frame.  Yields nothing exactly when no frame holds a command, in which
    /// case the structure is left with a single empty frame.
    ///
    /// Reading the frames bottom first with the active frame on top, the
    /// command comes from the topmost non-empty frame, which stays active
    /// with the frames above it discarded; in the flattened drain order this
    /// is always the earliest pending command.
    pub fn pop_command_and_maybe_frame(&mut self) -> (r: Option<T>)
        ensures
            match r {
                Some(x) => {
                    &&& old(self).pending().len() > 0
                    &&& x == old(self).pending()[0]
                    &&& final(self).pending() == old(self).pending().drop_first()
                    &&& ({
                        let frames = old(self).stashed().push(old(self).active());
                        exists|j: int|
                            #![trigger frames.subrange(0, j)]
                        {
                            &&& 0 <= j < frames.len()
                            &&& frames[j].len() > 0
                            &&& (forall|i: int| j < i < frames.len() ==> frames[i].len() == 0)
                            &&& x == frames[j][0]
                            &&& final(self).active() == frames[j].drop_first()
                            &&& final(self).stashed() == frames.subrange(0, j)
                        }
                    })
                },
                None => {
                    &&& old(self).pending().len() == 0
                    &&& final(self).active().len() == 0
                    &&& final(self).stashed().len() == 0
                },
            },
    {
        let ghost frames0 = old(self).stashed().push(old(self).active());
        proof {
            assert(self.stashed() =~= frames0.subrange(0, self.stashed().len() as int));
        }
        loop
            invariant
                frames0 == old(self).stashed().push(old(self).active()),
                self.pending() == old(self).pending(),
                self.stashed().len() < frames0.len(),
                self.stashed() == frames0.subrange(0, self.stashed().len() as int),
                self.active() == frames0[self.stashed().len() as int],
                forall|i: int| self.stashed().len() < i < frames0.len() ==> frames0[i].len() == 0,
            decreases self.stashed().len(),
        {
            let ghost before = *self;
            if let Some(v) = self.pop_command() {
                proof {
                    assert(before.active().len() > 0);
                    assert(before.active().drop_first() + flatten_rev(before.stashed())
                        =~= before.pending().drop_first());
                    let j = before.stashed().len() as int;
                    assert(0 <= j < frames0.len());
                    assert(before.active() == frames0[j]);
                    assert(frames0[j].len() > 0);
                    assert(forall|i: int| j < i < frames0.len() ==> frames0[i].len() == 0);
                    assert(v == frames0[j][0]);
                    assert(final(self).active() == frames0[j].drop_first());
                    assert(final(self).stashed() == frames0.subrange(0, j));
                    assert(final(self).stashed() == (old(self).stashed().push(
                        old(self).active(),
                    )).subrange(0, before.stashed().len() as int));
                }
                return Some(v);
            }
            if !self.maybe_pop_frame() {
                proof {
                    assert(before.active().len() == 0);
                    assert(before.stashed().len() == 0);
                    assert(before.pending().len() == 0);
                }
                return None;
            }
            proof {
                assert(self.stashed() =~= frames0.subrange(0, self.stashed().len() as int));
            }
        }
    }

    /// Reports whether the structure holds no command at all: the active
    /// frame and every stashed frame are empty.
    pub fn is_empty(&self) -> (r: bool)
        ensures
            r == self.is_content_empty(),
    {
        if self.current_frame.len() != 0 {
            return false;
        }
        let mut i: usize = 0;
        while i < self.stashed_frames.len()
            invariant
                i <= self.stashed_frames.len(),
                self.active().len() == 0,
                forall|k: int| 0 <= k < i ==> self.stashed()[k].len() == 0,
            decreases self.stashed_frames.len() - i,
        {
            if self.stashed_frames[i].len() != 0 {
                proof {
                    assert(self.stashed()[i as int].len() != 0);
                }
                return false;
            }
            i += 1;
        }
        true
    }

    /// Reports whether the active frame alone is empty; stashed frames may
    /// still hold commands.
    pub fn is_current_frame_empty(&self) -> (r: bool)
        ensures
            r == (self.active().len() == 0),
    {
        self.current_frame.len() == 0
    }

    /// Reports whether the active frame is the only frame, i.e. nothing is
    /// stashed.
    pub fn is_only_frame(&self) -> (r: bool)
        ensures
            r == (self.stashed().len() == 0),
    {
        self.stashed_frames.len() == 0
    }
}

/// Round-trip law: `start_new_frame` followed immediately by
/// `maybe_pop_frame`, with no insertion in between, restores the exact prior
/// active frame, contents and ordering, and the exact prior stash — and the
/// restore does report that it restored a frame.
///
/// `before` is any state, `stashed_state` relates to `before` as
/// `start_new_frame`'s contract describes, and `after` with `restored`
/// relate to `stashed_state` as `maybe_pop_frame`'s contract describes.
pub proof fn lemma_stash_restore_round_trip<T>(
    before: CommandList<T>,
    stashed_state: CommandList<T>,
    after: CommandList<T>,
    restored: bool,
)
    requires
        stashed_state.active() == Seq::<T>::empty(),
        stashed_state.stashed() == before.stashed().push(before.active()),
        restored == (stashed_state.active().len() == 0 && stashed_state.stashed().len() > 0),
        restored ==> after.active() == stashed_state.stashed().last() && after.stashed()
            == stashed_state.stashed().drop_last(),
        !restored ==> after.active() == stashed_state.active() && after.stashed()
            == stashed_state.stashed(),
    ensures
        restored,
        after.active() == before.active(),
        after.stashed() == before.stashed(),
{
    assert(stashed_state.stashed().last() == before.active());
    assert(stashed_state.stashed().drop_last() =~= before.stashed());
}

/// Ordering law for same-level scheduling: a command appended to the back
/// of the active frame stands in the drain order after everything already
/// in the active frame and before everything in every stashed frame.
///
/// `before` is any state and `after` relates to it as
/// `add_command_to_current_frame`'s contract describes.  Together with the
/// contracts of `push_immediate_command` (which puts its command at drain
/// position zero), `add_command_to_bottom_frame` (which puts its command at
/// the very end of the drain order), `start_new_frame` (which keeps the
/// drain order) and `pop_command_and_maybe_frame` (which always yields the
/// earliest pending command), this pins where each kind of insertion is
/// observed when draining.
pub proof fn lemma_next_insertion_position<T>(before: CommandList<T>, after: CommandList<T>, x: T)
    requires
        after.active() == before.active().push(x),
        after.stashed() == before.stashed(),
    ensures
        after.pending() == before.pending().insert(before.active().len() as int, x),
{
    assert(after.pending() =~= before.pending().insert(before.active().len() as int, x));
}

/// Emptiness law: the structure holds no command at all exactly when the
/// active frame and every stashed frame are empty — one non-empty frame
/// anywhere, active or stashed, and the structure is not empty.  Holding no
/// command at all is in turn the same as having nothing pending to drain.
pub proof fn lemma_content_empty_iff_nothing_pending<T>(q: CommandList<T>)
    ensures
        q.is_content_empty() <==> q.pending().len() == 0,
        !q.is_content_empty() <==> (q.active().len() > 0 || exists|i: int|
            0 <= i < q.stashed().len() && q.stashed()[i].len() > 0),
{
    lemma_flatten_rev_empty(q.stashed());
}

/// The queue-level core of next-before-later precedence: whenever at least
/// one frame is stashed, the drain order is the whole active frame, then
/// the newer stashed frames, and the bottom frame last.  So after a nested
/// handler invocation returns and its caller's frame is restored, a
/// command it scheduled on the active frame (`next`) is drained before a
/// command it sent to the bottom frame (`later`), which waits until every
/// newer frame has fully unwound.
pub proof fn lemma_active_precedes_bottom<T>(q: CommandList<T>)
    requires
        q.stashed().len() > 0,
    ensures
        q.pending() == (q.active() + flatten_rev(q.stashed().drop_first())) + q.stashed()[0],
{
    lemma_flatten_rev_split_bottom(q.stashed());
    assert(q.active() + (flatten_rev(q.stashed().drop_first()) + q.stashed()[0]) =~= (q.active()
        + flatten_rev(q.stashed().drop_first())) + q.stashed()[0]);
}

/// One scheduling operation, for stating laws over whole interleavings.
/// Each variant mirrors one mutator's contract on the pair of the active
/// frame and the stashed frames: `PushFrontActive` is
/// `push_immediate_command`, `PushBackActive` is
/// `add_command_to_current_frame`, `PushBackBottom` is
/// `add_command_to_bottom_frame`, and `StartNewFrame` is `start_new_frame`.
pub enum QueueOp<T> {
    /// Insert at the very front of the active frame.
    PushFrontActive(T),
    /// Append to the back of the active frame.
    PushBackActive(T),
    /// Append to the back of the bottom frame (the active frame when
    /// nothing is stashed).
    PushBackBottom(T),
    /// Stash the active frame and install an empty one.
    StartNewFrame,
}

/// The state after one scheduling operation, exactly as the corresponding
/// mutator's contract describes it.
pub open spec fn apply_op<T>(active: Seq<T>, stashed: Seq<Seq<T>>, op: QueueOp<T>) -> (
    Seq<T>,
    Seq<Seq<T>>,
) {
    match op {
        QueueOp::PushFrontActive(x) => (seq![x] + active, stashed),
        QueueOp::PushBackActive(x) => (active.push(x), stashed),
        QueueOp::PushBackBottom(x) => if stashed.len() == 0 {
            (active.push(x), stashed)
        } else {
            (active, stashed.update(0, stashed[0].push(x)))
        },
        QueueOp::StartNewFrame => (Seq::empty(), stashed.push(active)),
    }
}

/// The state after a whole sequence of scheduling operations, applied in
/// order.
pub open spec fn apply_ops<T>(active: Seq<T>, stashed: Seq<Seq<T>>, ops: Seq<QueueOp<T>>) -> (
    Seq<T>,
    Seq<Seq<T>>,
)
    decreases ops.len(),
{
    if ops.len() == 0 {
        (active, stashed)
    } else {
        let next = apply_op(active, stashed, ops[0]);
        apply_ops(next.0, next.1, ops.drop_first())
    }
}

/// The commands a sequence of operations appends to the bottom frame, in
/// order.
pub open spec fn bottom_appends<T>(ops: Seq<QueueOp<T>>) -> Seq<T>
    decreases ops.len(),
{
    if ops.len() == 0 {
        Seq::empty()
    } else {
        match ops[0] {
            QueueOp::PushBackBottom(x) => seq![x] + bottom_appends(ops.drop_first()),
            _ => bottom_appends(ops.drop_first()),
        }
    }
}

/// The flattened drain order splits off the bottom frame at its end: it is
/// the contents of all newer frames followed by the bottom frame's
/// contents.
pub proof fn lemma_flatten_rev_split_bottom<T>(frames: Seq<Seq<T>>)
    requires
        frames.len() > 0,
    ensures
        flatten_rev(frames) == flatten_rev(frames.drop_first()) + frames[0],
    decreases frames.len(),
{
    if frames.len() == 1 {
        assert(frames.drop_first() =~= Seq::<Seq<T>>::empty());
        assert(frames.drop_last() =~= Seq::<Seq<T>>::empty());
        assert(frames.last() == frames[0]);
        assert(flatten_rev(Seq::<Seq<T>>::empty()) == Seq::<T>::empty());
        assert(flatten_rev(frames) == frames[0] + Seq::<T>::empty());
        assert(frames[0] + Seq::<T>::empty() =~= Seq::<T>::empty() + frames[0]);
    } else {
        let shorter = frames.drop_last();
        assert(shorter.len() > 0);
        assert(shorter[0] == frames[0]);
        lemma_flatten_rev_split_bottom(shorter);
        assert(frames.drop_first().len() > 0);
        assert(frames.drop_first().drop_last() =~= shorter.drop_first());
        assert(frames.drop_first().last() == frames.last());
        assert(frames.last() + (flatten_rev(shorter.drop_first()) + frames[0]) =~= (frames.last()
            + flatten_rev(shorter.drop_first())) + frames[0]);
    }
}

/// Every frame appears as one contiguous stretch of the flattened drain
/// order.
pub proof fn lemma_flatten_rev_contains_frame<T>(frames: Seq<Seq<T>>, k: int)
    requires
        0 <= k < frames.len(),
    ensures
        exists|off: int|
            {
                &&& 0 <= off
                &&& off + frames[k].len() <= flatten_rev(frames).len()
                &&& #[trigger] flatten_rev(frames).subrange(off, off + frames[k].len() as int)
                    == frames[k]
            },
    decreases frames.len(),
{
    if k == frames.len() - 1 {
        assert(frames.last() == frames[k]);
        assert(flatten_rev(frames).subrange(0, 0 + frames[k].len() as int) =~= frames[k]);
    } else {
        let shorter = frames.drop_last();
        assert(shorter[k] == frames[k]);
        lemma_flatten_rev_contains_frame(shorter, k);
        let off0 = choose|off: int|
            {
                &&& 0 <= off
                &&& off + shorter[k].len() <= flatten_rev(shorter).len()
                &&& #[trigger] flatten_rev(shorter).subrange(off, off + shorter[k].len() as int)
                    == shorter[k]
            };
        let off = frames.last().len() + off0;
        assert(forall|j: int|
            0 <= j < shorter[k].len() ==> shorter[k][j] == flatten_rev(shorter).subrange(
                off0,
                off0 + shorter[k].len() as int,
            )[j]);
        assert(flatten_rev(frames).subrange(off, off + frames[k].len() as int) =~= frames[k]);
    }
}

/// Whether some frame of the state — a stashed one or the active one —
/// holds `run` as one contiguous stretch.
pub open spec fn some_frame_holds_run<T>(active: Seq<T>, stashed: Seq<Seq<T>>, run: Seq<T>) -> bool {
    exists|k: int, i: int|
        {
            &&& 0 <= k < stashed.push(active).len()
            &&& 0 <= i
            &&& i + run.len() <= stashed.push(active)[k].len()
            &&& #[trigger] stashed.push(active)[k].subrange(i, i + run.len() as int) == run
        }
}

/// Whether the flattened drain order — the active frame followed by the
/// stashed frames, most recently stashed first — holds `run` as one
/// contiguous stretch.
pub open spec fn drain_order_holds_run<T>(
    active: Seq<T>,
    stashed: Seq<Seq<T>>,
    run: Seq<T>,
) -> bool {
    exists|i: int|
        {
            &&& 0 <= i
            &&& i + run.len() <= (active + flatten_rev(stashed)).len()
            &&& #[trigger] (active + flatten_rev(stashed)).subrange(i, i + run.len() as int)
                == run
        }
}

/// A contiguous stretch of any one frame is a contiguous stretch of the
/// flattened drain order, since that order is the frames laid end to end.
pub proof fn lemma_frame_run_in_drain_order<T>(active: Seq<T>, stashed: Seq<Seq<T>>, run: Seq<T>)
    requires
        some_frame_holds_run(active, stashed, run),
    ensures
        drain_order_holds_run(active, stashed, run),
{
    let len = run.len() as int;
    let (k, i): (int, int) = choose|k: int, i: int|
        {
            &&& 0 <= k < stashed.push(active).len()
            &&& 0 <= i
            &&& i + run.len() <= stashed.push(active)[k].len()
            &&& #[trigger] stashed.push(active)[k].subrange(i, i + run.len() as int) == run
        };
    if k == stashed.len() {
        assert(stashed.push(active)[k] == active);
        assert(forall|j: int|
            0 <= j < len ==> run[j] == active.subrange(i, i + len)[j]);
        assert((active + flatten_rev(stashed)).subrange(i, i + len) =~= run);
    } else {
        assert(stashed.push(active)[k] == stashed[k]);
        lemma_flatten_rev_contains_frame(stashed, k);
        let off0 = choose|off: int|
            {
                &&& 0 <= off
                &&& off + stashed[k].len() <= flatten_rev(stashed).len()
                &&& #[trigger] flatten_rev(stashed).subrange(off, off + stashed[k].len() as int)
                    == stashed[k]
            };
        let pos = active.len() + off0 + i;
        assert(forall|j: int|
            0 <= j < stashed[k].len() ==> stashed[k][j] == flatten_rev(stashed).subrange(
                off0,
                off0 + stashed[k].len() as int,
            )[j]);
        assert(forall|j: int|
            0 <= j < len ==> run[j] == stashed[k].subrange(i, i + len)[j]);
        assert((active + flatten_rev(stashed)).subrange(pos, pos + len) =~= run);
    }
}

/// No scheduling operation breaks up a contiguous stretch of a frame:
/// operations only prepend to the active frame, append to a frame's back,
/// or move a frame whole onto the stash.
pub proof fn lemma_op_preserves_run<T>(
    active: Seq<T>,
    stashed: Seq<Seq<T>>,
    run: Seq<T>,
    op: QueueOp<T>,
)
    requires
        some_frame_holds_run(active, stashed, run),
    ensures
        ({
            let next = apply_op(active, stashed, op);
            some_frame_holds_run(next.0, next.1, run)
        }),
{
    let frames = stashed.push(active);
    let next = apply_op(active, stashed, op);
    let frames_next = next.1.push(next.0);
    let len = run.len() as int;
    let (k, i): (int, int) = choose|k: int, i: int|
        {
            &&& 0 <= k < frames.len()
            &&& 0 <= i
            &&& i + run.len() <= frames[k].len()
            &&& #[trigger] frames[k].subrange(i, i + run.len() as int) == run
        };
    match op {
        QueueOp::PushFrontActive(x) => {
            if k == stashed.len() {
                assert((seq![x] + active).subrange(i + 1, i + 1 + len) =~= active.subrange(
                    i,
                    i + len,
                ));
                assert(frames_next[k].subrange(i + 1, i + 1 + len) == run);
            } else {
                assert(frames_next[k].subrange(i, i + len) == run);
            }
        },
        QueueOp::PushBackActive(x) => {
            if k == stashed.len() {
                assert(active.push(x).subrange(i, i + len) =~= active.subrange(i, i + len));
            }
            assert(frames_next[k].subrange(i, i + len) == run);
        },
        QueueOp::PushBackBottom(x) => {
            if stashed.len() == 0 {
                assert(active.push(x).subrange(i, i + len) =~= active.subrange(i, i + len));
            } else if k == 0 {
                assert(stashed[0].push(x).subrange(i, i + len) =~= stashed[0].subrange(
                    i,
                    i + len,
                ));
            }
            assert(frames_next[k].subrange(i, i + len) == run);
        },
        QueueOp::StartNewFrame => {
            assert(frames_next[k] == frames[k]);
            assert(frames_next[k].subrange(i, i + len) == run);
        },
    }
}

/// Immediate scheduling over any interleaving: insert a command at the
/// front of the active frame, then apply any sequence of scheduling
/// operations.  The frame that received the command still holds it
/// immediately ahead of everything that frame held at insertion time, as
/// one contiguous stretch — so, frames being drained front to back, the
/// front-inserted command is observed before every command that was
/// already pending at its own nesting level when it was pushed.
pub proof fn lemma_front_insertion_stays_ahead<T>(
    active: Seq<T>,
    stashed: Seq<Seq<T>>,
    x: T,
    ops: Seq<QueueOp<T>>,
)
    ensures
        ({
            let end = apply_ops(seq![x] + active, stashed, ops);
            some_frame_holds_run(end.0, end.1, seq![x] + active)
        }),
    decreases ops.len(),
{
    let run = seq![x] + active;
    assert(some_frame_holds_run(run, stashed, run)) by {
        assert(stashed.push(run)[stashed.len() as int].subrange(0, 0 + run.len() as int)
            =~= run);
    };
    lemma_front_insertion_stays_ahead_from(run, stashed, run, ops);
}

/// Helper for the law above: a contiguous stretch survives any further
/// sequence of scheduling operations.
pub proof fn lemma_front_insertion_stays_ahead_from<T>(
    active: Seq<T>,
    stashed: Seq<Seq<T>>,
    run: Seq<T>,
    ops: Seq<QueueOp<T>>,
)
    requires
        some_frame_holds_run(active, stashed, run),
    ensures
        ({
            let end = apply_ops(active, stashed, ops);
            some_frame_holds_run(end.0, end.1, run)
        }),
    decreases ops.len(),
{
    if ops.len() > 0 {
        let next = apply_op(active, stashed, ops[0]);
        lemma_op_preserves_run(active, stashed, run, ops[0]);
        lemma_front_insertion_stays_ahead_from(next.0, next.1, run, ops.drop_first());
    }
}

/// Immediate scheduling, stated on the drain order itself: insert a
/// command at the front of the active frame, then apply any sequence of
/// scheduling operations.  The final drain order still holds the command
/// immediately ahead of everything its frame held at insertion time, as
/// one contiguous stretch.  Draining to exhaustion yields the drain order
/// front to back — `pop_command_and_maybe_frame` always removes
/// `pending()[0]` — so the front-inserted command is observed before every
/// command that was already pending at its own nesting level at the moment
/// of the push.
pub proof fn lemma_front_insertion_in_drain_order<T>(
    active: Seq<T>,
    stashed: Seq<Seq<T>>,
    x: T,
    ops: Seq<QueueOp<T>>,
)
    ensures
        ({
            let end = apply_ops(seq![x] + active, stashed, ops);
            drain_order_holds_run(end.0, end.1, seq![x] + active)
        }),
{
    lemma_front_insertion_stays_ahead(active, stashed, x, ops);
    let end = apply_ops(seq![x] + active, stashed, ops);
    lemma_frame_run_in_drain_order(end.0, end.1, seq![x] + active);
}

/// Globally-deferred scheduling over any interleaving: starting from any
/// state that has a bottom frame on the stash, apply any sequence of
/// scheduling operations.  The bottom frame then holds exactly what it held
/// before plus every bottom append of the sequence, in order, and the drain
/// order ends with precisely that: everything inserted at the front or back
/// of the active frame, and everything in every frame created after the
/// bottom frame, is observed before any bottom-appended command.  Since
/// `pop_command_and_maybe_frame` always yields the earliest pending
/// command, bottom appends are drained only once every newer frame has been
/// fully exhausted.
pub proof fn lemma_bottom_appends_drain_last<T>(
    active: Seq<T>,
    stashed: Seq<Seq<T>>,
    ops: Seq<QueueOp<T>>,
)
    requires
        stashed.len() > 0,
    ensures
        ({
            let end = apply_ops(active, stashed, ops);
            &&& end.1.len() > 0
            &&& end.1[0] == stashed[0] + bottom_appends(ops)
            &&& end.0 + flatten_rev(end.1) == (end.0 + flatten_rev(end.1.drop_first())) + (
            stashed[0] + bottom_appends(ops))
        }),
    decreases ops.len(),
{
    let end = apply_ops(active, stashed, ops);
    if ops.len() == 0 {
        assert(stashed[0] + Seq::<T>::empty() =~= stashed[0]);
        lemma_flatten_rev_split_bottom(stashed);
    } else {
        let next = apply_op(active, stashed, ops[0]);
        assert(next.1.len() > 0);
        lemma_bottom_appends_drain_last(next.0, next.1, ops.drop_first());
        match ops[0] {
            QueueOp::PushBackBottom(x) => {
                assert(next.1[0] == stashed[0].push(x));
                assert(stashed[0].push(x) + bottom_appends(ops.drop_first()) =~= stashed[0] + (
                seq![x] + bottom_appends(ops.drop_first())));
            },
            QueueOp::StartNewFrame => {
                assert(next.1[0] == stashed[0]);
            },
            _ => {
                assert(next.1[0] == stashed[0]);
            },
        }
        lemma_flatten_rev_split_bottom(end.1);
    }
}

} // verus!
