//! Where actions come from.

use vstd::prelude::*;
use std::time::Duration;
use crate::game::Action;

verus! {

/// `std::io::Error`, the failure an input source or a canvas may report,
/// carried through without looking inside.
#[verifier::external_type_specification]
#[verifier::external_body]
pub struct ExIoError(std::io::Error);

/// A source of player actions.
///
/// The game loop waits on this trait, never on a keyboard directly, so a test
/// can drive a complete game by handing it a scripted list of actions.
pub trait InputSource: Sized {
    /// Whether waiting up to `timeout` may turn this source into `after` and
    /// hand back `r`. Each source says what its polls yield.
    open spec fn polls_to(&self, timeout: Duration, after: Self, r: std::io::Result<Option<Action>>) -> bool {
        arbitrary()
    }

    /// Waits up to `timeout` for an action.
    ///
    /// Returns [`None`] when the timeout expires with nothing pressed, which is
    /// the normal case and is what lets the loop keep ticking gravity.
    fn poll(&mut self, timeout: Duration) -> (r: std::io::Result<Option<Action>>)
        ensures
            old(self).polls_to(timeout, *final(self), r),
    ;
}

/// An input source that replays a fixed list of actions and then goes quiet.
#[derive(Debug, Clone, Default)]
pub struct ScriptedInput {
    queued: Vec<Action>,
}

impl ScriptedInput {
    /// The actions still to come, first one first.
    pub closed spec fn remaining(self) -> Seq<Action> {
        self.queued@.reverse()
    }

    /// Creates a source that will yield `actions`, first one first.
    pub fn new(actions: Vec<Action>) -> (s: ScriptedInput)
        ensures
            s.remaining() == actions@,
    {
        let mut queued: Vec<Action> = Vec::new();
        let mut i: usize = actions.len();
        while i > 0
            invariant
                i <= actions@.len(),
                queued@ == actions@.subrange(i as int, actions@.len() as int).reverse(),
            decreases i,
        {
            i = i - 1;
            queued.push(actions[i]);
            assert(queued@ =~= actions@.subrange(i as int, actions@.len() as int).reverse());
        }
        assert(queued@.reverse() =~= actions@);
        ScriptedInput { queued }
    }

    /// Whether every scripted action has been consumed.
    pub fn is_exhausted(&self) -> (b: bool)
        ensures
            b == (self.remaining().len() == 0),
    {
        self.queued.len() == 0
    }
}

impl InputSource for ScriptedInput {
    /// The next scripted action, whatever the timeout, or nothing once the
    /// script has run out.
    open spec fn polls_to(&self, timeout: Duration, after: ScriptedInput, r: std::io::Result<Option<Action>>) -> bool {
        if self.remaining().len() == 0 {
            &&& r matches Ok(None)
            &&& after.remaining() == self.remaining()
        } else {
            &&& r == Ok::<Option<Action>, std::io::Error>(Some(self.remaining()[0]))
            &&& after.remaining() == self.remaining().drop_first()
        }
    }

    fn poll(&mut self, timeout: Duration) -> (r: std::io::Result<Option<Action>>)
        ensures
            old(self).remaining().len() == 0 ==> {
                &&& r matches Ok(None)
                &&& final(self).remaining() == old(self).remaining()
            },
            old(self).remaining().len() > 0 ==> {
                &&& r == Ok::<Option<Action>, std::io::Error>(Some(old(self).remaining()[0]))
                &&& final(self).remaining() == old(self).remaining().drop_first()
            },
    {
        let next = self.queued.pop();
        proof {
            if old(self).queued@.len() > 0 {
                assert(self.queued@.reverse() =~= old(self).queued@.reverse().drop_first());
            }
        }
        Ok(next)
    }
}

/// Whether each source of `sources` is the one before it after a poll with
/// the matching timeout that handed back the matching result.
pub open spec fn polled_in_turn(
    sources: Seq<ScriptedInput>,
    timeouts: Seq<Duration>,
    results: Seq<std::io::Result<Option<Action>>>,
) -> bool {
    &&& sources.len() == results.len() + 1
    &&& timeouts.len() == results.len()
    &&& forall|i: int|
        0 <= i < results.len() ==> #[trigger] sources[i].polls_to(timeouts[i], sources[i + 1], results[i])
}

/// After `i` polls, what is left of the script is the script less its first
/// `i` actions, or nothing once they are all used.
proof fn lemma_script_left(
    sources: Seq<ScriptedInput>,
    timeouts: Seq<Duration>,
    results: Seq<std::io::Result<Option<Action>>>,
    i: int,
)
    requires
        polled_in_turn(sources, timeouts, results),
        0 <= i <= results.len(),
    ensures
        sources[i].remaining() == sources[0].remaining().skip(
            if i <= sources[0].remaining().len() { i } else { sources[0].remaining().len() as int },
        ),
    decreases i,
{
    let script = sources[0].remaining();
    if i == 0 {
        assert(script.skip(0) =~= script);
    } else {
        lemma_script_left(sources, timeouts, results, i - 1);
        let k = i - 1;
        assert(0 <= k < results.len());
        assert(sources[k].polls_to(timeouts[k], sources[k + 1], results[k]));
        assert(k + 1 == i);
        if i <= script.len() {
            assert(script.skip(i - 1).drop_first() =~= script.skip(i));
        }
    }
}

/// A scripted source hands out its whole script, one action per poll and in
/// order, whatever the timeouts, and then reports nothing pressed for ever.
pub proof fn law_script_replays_then_goes_quiet(
    sources: Seq<ScriptedInput>,
    timeouts: Seq<Duration>,
    results: Seq<std::io::Result<Option<Action>>>,
)
    requires
        polled_in_turn(sources, timeouts, results),
    ensures
        forall|i: int| 0 <= i < results.len() ==> #[trigger] results[i] == (if i < sources[0].remaining().len() {
            Ok::<Option<Action>, std::io::Error>(Some(sources[0].remaining()[i]))
        } else {
            Ok::<Option<Action>, std::io::Error>(None)
        }),
{
    let script = sources[0].remaining();
    assert forall|i: int| 0 <= i < results.len() implies #[trigger] results[i] == (if i < script.len() {
        Ok::<Option<Action>, std::io::Error>(Some(script[i]))
    } else {
        Ok::<Option<Action>, std::io::Error>(None)
    }) by {
        lemma_script_left(sources, timeouts, results, i);
        assert(sources[i].polls_to(timeouts[i], sources[i + 1], results[i]));
        if i < script.len() {
            assert(script.skip(i)[0] == script[i]);
        }
    }
}

} // verus!
