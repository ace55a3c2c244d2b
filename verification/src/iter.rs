//! The iterator seek/step state machine and its cursor semantics.
//!
//! A cursor ranges over the ordered contents of one keyspace in a chosen
//! direction.  The state machine here decides, without touching the native
//! cursor, which native operation each call must issue: a fresh seek leaves
//! the cursor on its first pair, so the first advance after any seek reads
//! the current pair without stepping; later advances step once in the
//! current direction; a cursor that has run off either end is exhausted, a
//! terminal state in which no further native operation is issued.  The
//! embedding performs each returned operation on the native cursor and
//! reports back whether the cursor is still valid.
//!
//! `model_scan` runs the very same state machine against an in-memory
//! contents vector, which pins down the intended yield sequence exactly and
//! lets the protocol be exercised in isolation from the native engine.

use vstd::prelude::*;

use crate::bytes::bytes_lt;
use crate::bytes::lex_lt;

verus! {

/// The direction a cursor moves in when stepped.
#[allow(non_camel_case_types)]
#[derive(Clone, Copy, PartialEq, Eq, Structural, Debug)]
pub enum Direction {
    forward,
    reverse,
}

/// Where iteration starts: the first key, the last key, or the key nearest
/// to a given one in the iteration order, with a direction.
pub enum IteratorMode {
    Start,
    End,
    From(Vec<u8>, Direction),
}

/// `IteratorMode` at the specification level.
pub enum SpecMode {
    Start,
    End,
    From(Seq<u8>, Direction),
}

impl View for IteratorMode {
    type V = SpecMode;

    open spec fn view(&self) -> SpecMode {
        match self {
            IteratorMode::Start => SpecMode::Start,
            IteratorMode::End => SpecMode::End,
            IteratorMode::From(k, d) => SpecMode::From(k@, *d),
        }
    }
}

/// A seek operation for the embedding to issue on the native cursor.
pub enum SeekOp {
    First,
    Last,
    Key(Vec<u8>),
}

/// `SeekOp` at the specification level.
pub enum SpecSeek {
    First,
    Last,
    Key(Seq<u8>),
}

impl View for SeekOp {
    type V = SpecSeek;

    open spec fn view(&self) -> SpecSeek {
        match self {
            SeekOp::First => SpecSeek::First,
            SeekOp::Last => SpecSeek::Last,
            SeekOp::Key(k) => SpecSeek::Key(k@),
        }
    }
}

/// A single step of the native cursor.
#[derive(Clone, Copy, PartialEq, Eq, Structural, Debug)]
pub enum StepOp {
    Next,
    Prev,
}

/// What one advance of the iterator asks of the embedding: nothing (the
/// sequence is over), a read of the current pair without stepping, or one
/// step followed by a read.
#[derive(Clone, Copy, PartialEq, Eq, Structural, Debug)]
pub enum AdvanceAction {
    Finished,
    Check,
    Step(StepOp),
}

/// The cursor protocol state: the direction of travel, whether the last
/// native operation was a seek whose pair has not been consumed yet, and
/// whether the cursor has run off the end.
pub struct DBIterator {
    pub direction: Direction,
    pub just_seeked: bool,
    pub exhausted: bool,
}

impl DBIterator {
    /// A fresh state; a seek via `set_mode` must follow before the first
    /// advance.
    pub fn new() -> (r: DBIterator)
        ensures
            r.direction == Direction::forward,
            !r.just_seeked,
            !r.exhausted,
    {
        DBIterator { direction: Direction::forward, just_seeked: false, exhausted: false }
    }

    /// Re-seeks: picks the native seek operation for the mode, adopts the
    /// mode's direction, and marks the seek as not yet consumed.  Valid in
    /// any state; it restarts iteration from the new position.
    pub fn set_mode(&mut self, mode: &IteratorMode) -> (op: SeekOp)
        ensures
            final(self).just_seeked,
            !final(self).exhausted,
            match mode@ {
                SpecMode::Start => op@ == SpecSeek::First && final(self).direction
                    == Direction::forward,
                SpecMode::End => op@ == SpecSeek::Last && final(self).direction
                    == Direction::reverse,
                SpecMode::From(k, d) => op@ == SpecSeek::Key(k) && final(self).direction == d,
            },
    {
        self.just_seeked = true;
        self.exhausted = false;
        match mode {
            IteratorMode::Start => {
                self.direction = Direction::forward;
                SeekOp::First
            },
            IteratorMode::End => {
                self.direction = Direction::reverse;
                SeekOp::Last
            },
            IteratorMode::From(k, d) => {
                self.direction = *d;
                SeekOp::Key(vstd::slice::slice_to_vec(k.as_slice()))
            },
        }
    }

    /// One advance: exhaustion is terminal and asks nothing of the
    /// embedding; the first advance after a seek consumes the seek and asks
    /// for a read of the current pair without stepping; any other advance
    /// asks for one step in the current direction.
    pub fn advance(&mut self) -> (a: AdvanceAction)
        ensures
            final(self).direction == old(self).direction,
            final(self).exhausted == old(self).exhausted,
            old(self).exhausted ==> a == AdvanceAction::Finished
                && final(self).just_seeked == old(self).just_seeked,
            !old(self).exhausted && old(self).just_seeked ==> a == AdvanceAction::Check
                && !final(self).just_seeked,
            !old(self).exhausted && !old(self).just_seeked ==> !final(self).just_seeked && a
                == AdvanceAction::Step(
                match old(self).direction {
                    Direction::forward => StepOp::Next,
                    Direction::reverse => StepOp::Prev,
                },
            ),
    {
        if self.exhausted {
            AdvanceAction::Finished
        } else if self.just_seeked {
            self.just_seeked = false;
            AdvanceAction::Check
        } else {
            match self.direction {
                Direction::forward => AdvanceAction::Step(StepOp::Next),
                Direction::reverse => AdvanceAction::Step(StepOp::Prev),
            }
        }
    }

    /// Records the native validity check made after a seek-read or a step:
    /// an invalid cursor means the sequence is exhausted, for good.
    pub fn record_valid(&mut self, valid: bool)
        ensures
            final(self).exhausted == (old(self).exhausted || !valid),
            final(self).direction == old(self).direction,
            final(self).just_seeked == old(self).just_seeked,
    {
        if !valid {
            self.exhausted = true;
        }
    }
}

/// The pairs a contents vector holds, at the specification level.
pub open spec fn pairs_view(s: Seq<(Vec<u8>, Vec<u8>)>) -> Seq<(Seq<u8>, Seq<u8>)> {
    s.map(|i: int, p: (Vec<u8>, Vec<u8>)| (p.0@, p.1@))
}

/// The position a seek to `k` lands on, scanning from `i`: the first index
/// whose key is not below `k`, or the length if every key is below `k`.
pub open spec fn seek_index_from(c: Seq<(Seq<u8>, Seq<u8>)>, k: Seq<u8>, i: int) -> int
    decreases c.len() - i,
    when 0 <= i <= c.len()
{
    if i >= c.len() {
        c.len() as int
    } else if !lex_lt(c[i].0, k) {
        i
    } else {
        seek_index_from(c, k, i + 1)
    }
}

/// The position a seek to `k` lands on.
pub open spec fn seek_index(c: Seq<(Seq<u8>, Seq<u8>)>, k: Seq<u8>) -> int {
    seek_index_from(c, k, 0)
}

/// The exact sequence of pairs a full scan of `c` yields in the given mode.
pub open spec fn scan_spec(c: Seq<(Seq<u8>, Seq<u8>)>, mode: SpecMode) -> Seq<(Seq<u8>, Seq<u8>)> {
    match mode {
        SpecMode::Start => c,
        SpecMode::End => c.reverse(),
        SpecMode::From(k, Direction::forward) => c.skip(seek_index(c, k)),
        SpecMode::From(k, Direction::reverse) => {
            let p = seek_index(c, k);
            if p >= c.len() {
                Seq::empty()
            } else {
                c.take(p + 1).reverse()
            }
        },
    }
}

/// `seek_index_from` stays within bounds, skips exactly the keys below `k`,
/// and lands on a key not below `k` when there is one.
pub proof fn lemma_seek_index_from(c: Seq<(Seq<u8>, Seq<u8>)>, k: Seq<u8>, i: int)
    requires
        0 <= i <= c.len(),
    ensures
        i <= seek_index_from(c, k, i) <= c.len(),
        forall|j: int| i <= j < seek_index_from(c, k, i) ==> lex_lt(#[trigger] c[j].0, k),
        seek_index_from(c, k, i) < c.len() ==> !lex_lt(c[seek_index_from(c, k, i)].0, k),
    decreases c.len() - i,
{
    if i < c.len() && lex_lt(c[i].0, k) {
        lemma_seek_index_from(c, k, i + 1);
    }
}

/// Started at the first key a scan yields the whole contents in order;
/// started at the last key it yields them in reverse order.
pub proof fn lemma_scan_whole(c: Seq<(Seq<u8>, Seq<u8>)>)
    ensures
        scan_spec(c, SpecMode::Start) == c,
        scan_spec(c, SpecMode::End) == c.reverse(),
{
}

/// A forward scan from `k` yields exactly the contents from the first key
/// not below `k` on, in order.
pub proof fn lemma_scan_from_forward(c: Seq<(Seq<u8>, Seq<u8>)>, k: Seq<u8>)
    ensures
        scan_spec(c, SpecMode::From(k, Direction::forward)) == c.skip(seek_index(c, k)),
        forall|j: int| 0 <= j < seek_index(c, k) ==> lex_lt(#[trigger] c[j].0, k),
        seek_index(c, k) < c.len() ==> !lex_lt(c[seek_index(c, k)].0, k),
{
    lemma_seek_index_from(c, k, 0);
}

/// Finds the seek position for `k` in the contents vector.
fn lower_bound(contents: &Vec<(Vec<u8>, Vec<u8>)>, k: &[u8]) -> (p: usize)
    ensures
        p as int == seek_index(pairs_view(contents@), k@),
{
    let ghost cv = pairs_view(contents@);
    let n = contents.len();
    let mut i: usize = 0;
    while i < n
        invariant
            n == contents@.len(),
            cv == pairs_view(contents@),
            cv.len() == n,
            0 <= i <= n,
            seek_index(cv, k@) == seek_index_from(cv, k@, i as int),
        decreases n - i,
    {
        proof {
            assert(cv[i as int].0 == contents@[i as int].0@);
        }
        if !bytes_lt(contents[i].0.as_slice(), k) {
            return i;
        }
        i += 1;
    }
    n
}

/// Runs the seek/step state machine over an in-memory contents vector and
/// collects every yielded pair: exactly the scan the mode prescribes.
pub fn model_scan(contents: &Vec<(Vec<u8>, Vec<u8>)>, mode: &IteratorMode) -> (out: Vec<
    (Vec<u8>, Vec<u8>),
>)
    ensures
        pairs_view(out@) == scan_spec(pairs_view(contents@), mode@),
{
    let ghost cv = pairs_view(contents@);
    let ghost total = scan_spec(cv, mode@);
    let n = contents.len();
    let mut it = DBIterator::new();

    let op = it.set_mode(mode);
    let mut valid: bool;
    let mut pos: usize = 0;
    match &op {
        SeekOp::First => {
            valid = n > 0;
        },
        SeekOp::Last => {
            if n > 0 {
                valid = true;
                pos = n - 1;
            } else {
                valid = false;
            }
        },
        SeekOp::Key(k) => {
            pos = lower_bound(contents, k.as_slice());
            valid = pos < n;
        },
    }
    let ghost start = pos as int;
    let ghost dir = it.direction;

    proof {
        assert(cv.len() == n);
        match mode@ {
            SpecMode::Start => {
                assert(total =~= cv.skip(0));
            },
            SpecMode::End => {
                if valid {
                    assert(cv.take(start + 1) =~= cv);
                }
            },
            SpecMode::From(k, d) => {
                lemma_seek_index_from(cv, k, 0);
                assert(seek_index(cv, k) == start);
                if !valid {
                    assert(seek_index(cv, k) == cv.len());
                    if d == Direction::forward {
                        assert(total =~= cv.skip(cv.len() as int));
                    }
                }
            },
        }
        if valid {
            assert(total.len() == (if dir == Direction::forward {
                cv.len() - start
            } else {
                start + 1
            }));
            assert(forall|j: int| 0 <= j < total.len() ==> #[trigger] total[j] == (
            if dir == Direction::forward {
                cv[start + j]
            } else {
                cv[start - j]
            }));
        } else {
            assert(total.len() == 0);
        }
    }

    let mut out: Vec<(Vec<u8>, Vec<u8>)> = Vec::new();
    let mut done = false;
    proof {
        assert(pairs_view(out@) =~= total.take(0));
    }
    while !done
        invariant
            n == contents@.len(),
            cv == pairs_view(contents@),
            cv.len() == n,
            total == scan_spec(cv, mode@),
            it.direction == dir,
            valid ==> pos < n,
            valid ==> (if dir == Direction::forward {
                0 <= start <= pos as int
            } else {
                pos as int <= start < n
            }),
            it.just_seeked ==> out@.len() == 0,
            valid ==> total.len() == (if dir == Direction::forward {
                cv.len() - start
            } else {
                start + 1
            }),
            valid ==> forall|j: int| 0 <= j < total.len() ==> #[trigger] total[j] == (
            if dir == Direction::forward {
                cv[start + j]
            } else {
                cv[start - j]
            }),
            it.just_seeked && valid ==> pos as int == start,
            !valid && it.just_seeked ==> total.len() == 0,
            pairs_view(out@) == total.take(out@.len() as int),
            out@.len() <= total.len(),
            !it.just_seeked && valid ==> out@.len() >= 1 && pos as int == (
            if dir == Direction::forward {
                start + out@.len() - 1
            } else {
                start - (out@.len() - 1)
            }),
            !it.just_seeked && !valid ==> out@.len() == total.len(),
            it.exhausted ==> !valid && !it.just_seeked,
            !it.exhausted && !it.just_seeked ==> valid,
            done ==> out@.len() == total.len(),
        decreases (if done {
            0int
        } else {
            1int
        }) + (if it.just_seeked {
            1int
        } else {
            0int
        }) + (if it.exhausted {
            0int
        } else {
            1int
        }) + (if valid {
            if dir == Direction::forward {
                n - pos
            } else {
                pos + 1int
            }
        } else {
            0int
        }),
    {
        let a = it.advance();
        match a {
            AdvanceAction::Finished => {
                done = true;
            },
            AdvanceAction::Check => {
                it.record_valid(valid);
                if valid {
                    let ghost prev = out@;
                    let k = vstd::slice::slice_to_vec(contents[pos].0.as_slice());
                    let v = vstd::slice::slice_to_vec(contents[pos].1.as_slice());
                    out.push((k, v));
                    proof {
                        assert(cv[pos as int] == (contents@[pos as int].0@,
                            contents@[pos as int].1@));
                        assert(total[prev.len() as int] == cv[pos as int]);
                        assert(pairs_view(out@) =~= pairs_view(prev).push(cv[pos as int]));
                        assert(total.take(out@.len() as int) =~= total.take(
                            prev.len() as int,
                        ).push(total[prev.len() as int]));
                    }
                }
            },
            AdvanceAction::Step(step) => {
                let ghost prevpos = pos as int;
                match step {
                    StepOp::Next => {
                        if pos + 1 < n {
                            pos = pos + 1;
                        } else {
                            valid = false;
                        }
                    },
                    StepOp::Prev => {
                        if pos > 0 {
                            pos = pos - 1;
                        } else {
                            valid = false;
                        }
                    },
                }
                it.record_valid(valid);
                if valid {
                    let ghost prev = out@;
                    let k = vstd::slice::slice_to_vec(contents[pos].0.as_slice());
                    let v = vstd::slice::slice_to_vec(contents[pos].1.as_slice());
                    out.push((k, v));
                    proof {
                        assert(cv[pos as int] == (contents@[pos as int].0@,
                            contents@[pos as int].1@));
                        assert(total[prev.len() as int] == cv[pos as int]);
                        assert(pairs_view(out@) =~= pairs_view(prev).push(cv[pos as int]));
                        assert(total.take(out@.len() as int) =~= total.take(
                            prev.len() as int,
                        ).push(total[prev.len() as int]));
                    }
                }
            },
        }
    }
    proof {
        assert(total.take(total.len() as int) =~= total);
    }
    out
}

} // verus!
