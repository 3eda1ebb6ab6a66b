//! When an observation session ends, and what it keeps.

use vstd::prelude::*;
use vstd::string::*;

use crate::checks::client::{Observation, ObservationView};
use crate::checks::ctx::Wait;
use crate::text;
use crate::text::line;

verus! {

/// How far a session has come.
#[derive(Debug, Clone, Copy, PartialEq, Eq, Structural)]
pub enum Phase {
    /// Requests are awaited.
    Listening,
    /// The client has gone; what it had sent already is still taken.
    Draining,
    /// Nothing more is taken.
    Over,
}

/// What a session hears of.
pub enum Heard {
    /// A request was observed.
    Request(Observation),
    /// The last live connection closed.
    HungUp,
    /// Nothing was heard for the idle time.
    Quiet,
    /// No observation is queued, and none will be.
    NothingQueued,
}

/// The same, by what was observed.
pub enum HeardView {
    Request(ObservationView),
    HungUp,
    Quiet,
    NothingQueued,
}

impl View for Heard {
    type V = HeardView;

    open spec fn view(&self) -> HeardView {
        match *self {
            Heard::Request(o) => HeardView::Request(o@),
            Heard::HungUp => HeardView::HungUp,
            Heard::Quiet => HeardView::Quiet,
            Heard::NothingQueued => HeardView::NothingQueued,
        }
    }
}

/// Collects a session's observations, up to a limit.
pub struct Collector {
    pub observations: Vec<Observation>,
    pub limit: usize,
    pub phase: Phase,
}

/// What a collector holds.
pub struct CollectorView {
    pub taken: Seq<ObservationView>,
    pub limit: nat,
    pub phase: Phase,
}

/// The observations by what they show.
pub open spec fn shown(observations: Seq<Observation>) -> Seq<ObservationView> {
    observations.map_values(|o: Observation| o@)
}

impl View for Collector {
    type V = CollectorView;

    open spec fn view(&self) -> CollectorView {
        CollectorView {
            taken: shown(self.observations@),
            limit: self.limit as nat,
            phase: self.phase,
        }
    }
}

impl CollectorView {
    /// Under the limit as long as anything is taken, and never beyond it.
    pub open spec fn wf(self) -> bool {
        &&& self.taken.len() <= self.limit
        &&& self.phase !is Over ==> self.taken.len() < self.limit
    }

    /// With one more observation, where one is still taken.
    pub open spec fn take(self, o: ObservationView) -> CollectorView {
        if self.phase is Over {
            self
        } else {
            CollectorView {
                taken: self.taken.push(o),
                phase: if self.taken.len() + 1 == self.limit {
                    Phase::Over
                } else {
                    self.phase
                },
                ..self
            }
        }
    }

    /// With one more thing heard.
    pub open spec fn hear(self, heard: HeardView) -> CollectorView {
        match heard {
            HeardView::Request(o) => self.take(o),
            HeardView::HungUp | HeardView::Quiet => if self.phase is Listening {
                CollectorView { phase: Phase::Draining, ..self }
            } else {
                self
            },
            HeardView::NothingQueued => CollectorView { phase: Phase::Over, ..self },
        }
    }

    /// With all of these heard, first to last.
    pub open spec fn hear_all(self, heard: Seq<HeardView>) -> CollectorView
        decreases heard.len(),
    {
        if heard.len() == 0 {
            self
        } else {
            self.hear_all(heard.drop_last()).hear(heard.last())
        }
    }
}

/// A session with nothing collected.
pub open spec fn spec_collector(limit: nat) -> CollectorView {
    CollectorView {
        taken: Seq::empty(),
        limit,
        phase: if limit == 0 {
            Phase::Over
        } else {
            Phase::Listening
        },
    }
}

impl Collector {
    /// Starts a session that stops after `limit` requests.
    pub fn new(limit: usize) -> (r: Collector)
        ensures
            r@ == spec_collector(limit as nat),
            r@.wf(),
    {
        let phase = if limit == 0 {
            Phase::Over
        } else {
            Phase::Listening
        };
        let r = Collector { observations: Vec::new(), limit, phase };
        assert(r@.taken =~= Seq::empty());
        r
    }

    /// Takes note of what was heard.
    pub fn hear(&mut self, heard: Heard)
        requires
            old(self)@.wf(),
        ensures
            final(self)@ == old(self)@.hear(heard@),
            final(self)@.wf(),
    {
        match heard {
            Heard::Request(o) => match self.phase {
                Phase::Over => {},
                _ => {
                    let ghost before = self.observations@;
                    self.observations.push(o);
                    assert(shown(self.observations@) =~= shown(before).push(o@));
                    if self.observations.len() == self.limit {
                        self.phase = Phase::Over;
                    }
                },
            },
            Heard::HungUp | Heard::Quiet => match self.phase {
                Phase::Listening => {
                    self.phase = Phase::Draining;
                },
                _ => {},
            },
            Heard::NothingQueued => {
                self.phase = Phase::Over;
            },
        }
    }
}

/// Why a session that nobody joined has nothing to show.
pub fn no_client(accept_timeout: Wait) -> (r: String)
    ensures
        r@ == "no client connected within "@ + text::duration_text(accept_timeout.nanos),
{
    line("no client connected within ").wait(accept_timeout.nanos).done()
}

/// The requests among what was heard, in order.
pub open spec fn requests(heard: Seq<HeardView>) -> Seq<ObservationView>
    decreases heard.len(),
{
    if heard.len() == 0 {
        Seq::empty()
    } else {
        let before = requests(heard.drop_last());
        match heard.last() {
            HeardView::Request(o) => before.push(o),
            _ => before,
        }
    }
}

/// A run of requests and nothing else.
pub open spec fn only_requests(observations: Seq<ObservationView>) -> Seq<HeardView> {
    observations.map_values(|o: ObservationView| HeardView::Request(o))
}

/// The first of them, up to the limit.
pub open spec fn capped(observations: Seq<ObservationView>, limit: nat) -> Seq<ObservationView> {
    if observations.len() <= limit {
        observations
    } else {
        observations.take(limit as int)
    }
}

/// Whatever is heard, a session keeps no more than its limit, and what it
/// keeps is how the requests began, in the order in which they came.
pub proof fn law_session_keeps_the_beginning(limit: nat, heard: Seq<HeardView>)
    ensures
        ({
            let after = spec_collector(limit).hear_all(heard);
            &&& after.wf()
            &&& after.limit == limit
            &&& after.taken.is_prefix_of(requests(heard))
            &&& after.phase !is Over ==> after.taken == requests(heard)
        }),
    decreases heard.len(),
{
    if heard.len() > 0 {
        law_session_keeps_the_beginning(limit, heard.drop_last());
        let before = spec_collector(limit).hear_all(heard.drop_last());
        let after = spec_collector(limit).hear_all(heard);
        let known = requests(heard.drop_last());
        assert(after.taken =~= requests(heard).take(after.taken.len() as int)) by {
            assert(before.taken =~= known.take(before.taken.len() as int));
        }
    }
}

proof fn lemma_hear_requests(start: CollectorView, observations: Seq<ObservationView>)
    requires
        start.wf(),
    ensures
        ({
            let after = start.hear_all(only_requests(observations));
            &&& after.wf()
            &&& after.limit == start.limit
            &&& start.phase is Over ==> after == start
            &&& start.phase !is Over ==> {
                &&& after.taken == capped(start.taken + observations, start.limit)
                &&& after.phase == (if start.taken.len() + observations.len() >= start.limit {
                    Phase::Over
                } else {
                    start.phase
                })
            }
        }),
    decreases observations.len(),
{
    let heard = only_requests(observations);
    if observations.len() > 0 {
        lemma_hear_requests(start, observations.drop_last());
        assert(heard.drop_last() =~= only_requests(observations.drop_last()));
        let all = start.taken + observations;
        let fewer = start.taken + observations.drop_last();
        assert(all.drop_last() =~= fewer);
        let after = start.hear_all(heard);
        if start.phase !is Over {
            assert(after.taken =~= capped(all, start.limit));
        }
    } else {
        assert(start.taken + observations =~= start.taken);
    }
}

proof fn lemma_hear_append(start: CollectorView, a: Seq<HeardView>, b: Seq<HeardView>)
    ensures
        start.hear_all(a + b) == start.hear_all(a).hear_all(b),
    decreases b.len(),
{
    if b.len() == 0 {
        assert(a + b =~= a);
    } else {
        lemma_hear_append(start, a, b.drop_last());
        assert((a + b).drop_last() =~= a + b.drop_last());
    }
}

/// A client's hanging up, or its falling silent, loses nothing that it had
/// said: what was queued by then is kept like what came before, up to the
/// limit, and the session is over.
pub proof fn law_hanging_up_loses_nothing(
    limit: nat,
    before: Seq<ObservationView>,
    ending: HeardView,
    queued: Seq<ObservationView>,
)
    requires
        ending is HungUp || ending is Quiet,
    ensures
        ({
            let after = spec_collector(limit).hear_all(
                only_requests(before) + seq![ending] + only_requests(queued) + seq![
                    HeardView::NothingQueued,
                ],
            );
            &&& after.taken == capped(before + queued, limit)
            &&& after.phase is Over
        }),
{
    let start = spec_collector(limit);
    let a = only_requests(before);
    let b = seq![ending];
    let c = only_requests(queued);
    let d = seq![HeardView::NothingQueued];
    lemma_hear_append(start, a + b + c, d);
    lemma_hear_append(start, a + b, c);
    lemma_hear_append(start, a, b);
    lemma_hear_requests(start, before);
    assert(start.taken + before =~= before);
    let first = start.hear_all(a);
    assert(b.drop_last() =~= Seq::empty());
    assert(d.drop_last() =~= Seq::empty());
    let second = first.hear(ending);
    assert(first.hear_all(b) == second) by {
        reveal_with_fuel(CollectorView::hear_all, 2);
    }
    lemma_hear_requests(second, queued);
    let third = second.hear_all(c);
    assert(third.hear_all(d) == third.hear(HeardView::NothingQueued)) by {
        reveal_with_fuel(CollectorView::hear_all, 2);
    }
    if first.phase is Over {
        assert(capped(before + queued, limit) =~= first.taken);
    } else {
        assert(first.taken == before);
    }
}

} // verus!
