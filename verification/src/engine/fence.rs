//! The fence-ordering planner for shard adoption.
//!
//! When a survivor adopts a dead peer's shards it must not let a shard it lost the
//! fence on still widen its enumeration scope or be recovered: two survivors racing
//! adoption of the same shard would otherwise both execute its workflows. The planner
//! keeps an ordering, per shard: the publish-fence happens before the shard
//! contributes to the widened scope and before it is recovered.

use vstd::prelude::*;

use crate::error::StoreError;

verus! {

/// What the planner asks of the store.
#[derive(Debug, PartialEq, Eq)]
pub enum FenceStep {
    /// Win the shard's election.
    Acquire(usize),
    /// Publish this node as the shard's current owner.
    Publish(usize),
    /// Tell whether this node still holds authority for the shard.
    IsCurrentOwner(usize),
    /// Widen the owned scope by exactly these shards.
    Extend(Vec<usize>),
    /// Adoption is planned: the scope is widened by these shards, which may be recovered.
    Recover(Vec<usize>),
    /// Adoption is aborted.
    Abort,
}

/// What the store answered.
#[derive(Debug, PartialEq, Eq)]
pub enum FenceReply {
    /// What came of an acquisition or a publication.
    Fence(Result<(), StoreError>),
    /// Whether this node still holds authority.
    Owner(bool),
    /// The scope is widened.
    Extended,
}

/// How far the plan has come.
#[derive(Debug, PartialEq, Eq)]
pub enum FencePhase {
    /// Acquiring the next shard.
    Acquiring,
    /// Publishing the shard just acquired.
    Publishing,
    /// Asserting ownership of the shards that passed the fence.
    Asserting,
    /// Widening the scope.
    Extending,
    /// Planned.
    Planned,
    /// Aborted by a store failure.
    Aborted(StoreError),
}

/// An adoption on its way through the fence.
#[derive(Debug, PartialEq, Eq)]
pub struct AdoptionPlan {
    /// The shards to adopt.
    pub shards: Vec<usize>,
    /// How many of them have passed or lost the fence.
    pub fenced: usize,
    /// The shards that survived both steps of the fence.
    pub committed: Vec<usize>,
    /// How many of those have been asserted.
    pub asserted: usize,
    /// The shards that are still owned.
    pub survivors: Vec<usize>,
    /// How far the plan has come.
    pub phase: FencePhase,
}

/// What an adoption plan says.
pub struct AdoptionView {
    /// The shards to adopt.
    pub shards: Seq<usize>,
    /// How many of them have passed or lost the fence.
    pub fenced: int,
    /// The shards that survived both steps of the fence.
    pub committed: Seq<usize>,
    /// How many of those have been asserted.
    pub asserted: int,
    /// The shards that are still owned.
    pub survivors: Seq<usize>,
    /// How far the plan has come.
    pub phase: FencePhase,
}

/// What the planner asks, over sequences.
pub enum FenceAsk {
    /// Win the shard's election.
    Acquire(usize),
    /// Publish this node as the shard's current owner.
    Publish(usize),
    /// Tell whether this node still holds authority for the shard.
    IsCurrentOwner(usize),
    /// Widen the owned scope by exactly these shards.
    Extend(Seq<usize>),
    /// Adoption is planned.
    Recover(Seq<usize>),
    /// Adoption is aborted.
    Abort,
}

impl View for FenceStep {
    type V = FenceAsk;

    open spec fn view(&self) -> FenceAsk {
        match self {
            FenceStep::Acquire(shard) => FenceAsk::Acquire(*shard),
            FenceStep::Publish(shard) => FenceAsk::Publish(*shard),
            FenceStep::IsCurrentOwner(shard) => FenceAsk::IsCurrentOwner(*shard),
            FenceStep::Extend(shards) => FenceAsk::Extend(shards@),
            FenceStep::Recover(shards) => FenceAsk::Recover(shards@),
            FenceStep::Abort => FenceAsk::Abort,
        }
    }
}

impl View for AdoptionPlan {
    type V = AdoptionView;

    open spec fn view(&self) -> AdoptionView {
        AdoptionView {
            shards: self.shards@,
            fenced: self.fenced as int,
            committed: self.committed@,
            asserted: self.asserted as int,
            survivors: self.survivors@,
            phase: self.phase,
        }
    }
}

/// The phase after some shards have passed or lost the fence.
pub open spec fn fence_phase(shards: Seq<usize>, fenced: int, committed: Seq<usize>) -> FencePhase {
    if fenced < shards.len() {
        FencePhase::Acquiring
    } else if committed.len() > 0 {
        FencePhase::Asserting
    } else {
        FencePhase::Extending
    }
}

impl AdoptionView {
    /// The plan fits its own phase.
    pub open spec fn fits(self) -> bool {
        &&& 0 <= self.fenced <= self.shards.len()
        &&& 0 <= self.asserted <= self.committed.len() <= self.fenced
        &&& self.survivors.len() <= self.asserted
        &&& self.phase is Acquiring || self.phase is Publishing ==> self.fenced < self.shards.len()
            && self.asserted == 0
        &&& self.phase is Asserting ==> self.fenced == self.shards.len() && self.asserted
            < self.committed.len()
        &&& self.phase is Extending || self.phase is Planned ==> self.fenced == self.shards.len()
            && self.asserted == self.committed.len()
    }

    /// What the plan asks.
    pub open spec fn asks(self) -> FenceAsk {
        match self.phase {
            FencePhase::Acquiring => FenceAsk::Acquire(self.shards[self.fenced]),
            FencePhase::Publishing => FenceAsk::Publish(self.shards[self.fenced]),
            FencePhase::Asserting => FenceAsk::IsCurrentOwner(self.committed[self.asserted]),
            FencePhase::Extending => FenceAsk::Extend(self.survivors),
            FencePhase::Planned => FenceAsk::Recover(self.survivors),
            FencePhase::Aborted(_) => FenceAsk::Abort,
        }
    }

    /// The shard at hand lost the fence: it is dropped.
    pub open spec fn dropped(self) -> AdoptionView {
        AdoptionView {
            fenced: self.fenced + 1,
            phase: fence_phase(self.shards, self.fenced + 1, self.committed),
            ..self
        }
    }

    /// The plan after an answer. One that does not fit the question leaves the plan as
    /// it is.
    pub open spec fn after(self, reply: FenceReply) -> AdoptionView {
        match (self.phase, reply) {
            (FencePhase::Acquiring, FenceReply::Fence(Ok(()))) => AdoptionView {
                phase: FencePhase::Publishing,
                ..self
            },
            (FencePhase::Publishing, FenceReply::Fence(Ok(()))) => {
                let committed = self.committed.push(self.shards[self.fenced]);
                AdoptionView {
                    committed,
                    fenced: self.fenced + 1,
                    phase: fence_phase(self.shards, self.fenced + 1, committed),
                    ..self
                }
            },
            (FencePhase::Acquiring, FenceReply::Fence(Err(StoreError::NotOwner { .. })))
            | (FencePhase::Publishing, FenceReply::Fence(Err(StoreError::NotOwner { .. }))) => {
                self.dropped()
            },
            (FencePhase::Acquiring, FenceReply::Fence(Err(error)))
            | (FencePhase::Publishing, FenceReply::Fence(Err(error))) => AdoptionView {
                phase: FencePhase::Aborted(error),
                ..self
            },
            (FencePhase::Asserting, FenceReply::Owner(owner)) => AdoptionView {
                survivors: if owner {
                    self.survivors.push(self.committed[self.asserted])
                } else {
                    self.survivors
                },
                asserted: self.asserted + 1,
                phase: if self.asserted + 1 == self.committed.len() {
                    FencePhase::Extending
                } else {
                    FencePhase::Asserting
                },
                ..self
            },
            (FencePhase::Extending, FenceReply::Extended) => AdoptionView {
                phase: FencePhase::Planned,
                ..self
            },
            _ => self,
        }
    }
}

/// A plan that has asked nothing yet.
pub open spec fn fresh_plan(shards: Seq<usize>) -> AdoptionView {
    AdoptionView {
        shards,
        fenced: 0,
        committed: Seq::empty(),
        asserted: 0,
        survivors: Seq::empty(),
        phase: fence_phase(shards, 0, Seq::empty()),
    }
}

/// Copies a list of shards.
fn clone_shards(shards: &Vec<usize>) -> (copy: Vec<usize>)
    ensures
        copy@ == shards@,
{
    let mut copy: Vec<usize> = Vec::new();
    let mut i: usize = 0;
    while i < shards.len()
        invariant
            0 <= i <= shards@.len(),
            copy@ == shards@.take(i as int),
        decreases shards.len() - i,
    {
        copy.push(shards[i]);
        proof {
            assert(copy@ =~= shards@.take(i + 1));
        }
        i = i + 1;
    }
    proof {
        assert(shards@.take(i as int) =~= shards@);
    }
    copy
}

impl AdoptionPlan {
    /// Plans the adoption of shards.
    ///
    /// Per shard, acquisition and publication are asked as a unit: a loss at either step
    /// drops the shard, and any other store failure aborts the whole adoption. The
    /// shards that survive are then asserted, and the scope is widened once, over
    /// exactly those that are still owned.
    pub fn new(shards: Vec<usize>) -> (plan: Self)
        ensures
            plan@ == fresh_plan(shards@),
            plan@.fits(),
    {
        let phase = if shards.len() > 0 {
            FencePhase::Acquiring
        } else {
            FencePhase::Extending
        };
        AdoptionPlan {
            shards,
            fenced: 0,
            committed: Vec::new(),
            asserted: 0,
            survivors: Vec::new(),
            phase,
        }
    }

    /// What the plan asks next.
    pub fn step(&self) -> (step: FenceStep)
        requires
            self@.fits(),
        ensures
            step@ == self@.asks(),
    {
        match &self.phase {
            FencePhase::Acquiring => FenceStep::Acquire(self.shards[self.fenced]),
            FencePhase::Publishing => FenceStep::Publish(self.shards[self.fenced]),
            FencePhase::Asserting => FenceStep::IsCurrentOwner(self.committed[self.asserted]),
            FencePhase::Extending => FenceStep::Extend(clone_shards(&self.survivors)),
            FencePhase::Planned => FenceStep::Recover(clone_shards(&self.survivors)),
            FencePhase::Aborted(_) => FenceStep::Abort,
        }
    }

    /// The phase once the shard at hand has passed or lost the fence.
    fn next_phase(shards: &Vec<usize>, fenced: usize, committed: &Vec<usize>) -> (phase: FencePhase)
        ensures
            phase == fence_phase(shards@, fenced as int, committed@),
    {
        if fenced < shards.len() {
            FencePhase::Acquiring
        } else if committed.len() > 0 {
            FencePhase::Asserting
        } else {
            FencePhase::Extending
        }
    }

    /// Takes in what the store answered.
    pub fn advance(self, reply: FenceReply) -> (plan: Self)
        requires
            self@.fits(),
        ensures
            plan@ == self@.after(reply),
            plan@.fits(),
    {
        let AdoptionPlan { shards, fenced, committed, asserted, survivors, phase } = self;
        let shard_count: usize = shards.len();
        let committed_count: usize = committed.len();
        match (phase, reply) {
            (FencePhase::Acquiring, FenceReply::Fence(Ok(()))) => AdoptionPlan {
                shards,
                fenced,
                committed,
                asserted,
                survivors,
                phase: FencePhase::Publishing,
            },
            (FencePhase::Publishing, FenceReply::Fence(Ok(()))) => {
                let mut committed = committed;
                committed.push(shards[fenced]);
                let fenced: usize = fenced + 1;
                let phase = Self::next_phase(&shards, fenced, &committed);
                AdoptionPlan { shards, fenced, committed, asserted, survivors, phase }
            },
            (FencePhase::Acquiring, FenceReply::Fence(Err(error))) => {
                match error {
                    StoreError::NotOwner { .. } => {
                        let fenced: usize = fenced + 1;
                        let phase = Self::next_phase(&shards, fenced, &committed);
                        AdoptionPlan { shards, fenced, committed, asserted, survivors, phase }
                    },
                    error => AdoptionPlan {
                        shards,
                        fenced,
                        committed,
                        asserted,
                        survivors,
                        phase: FencePhase::Aborted(error),
                    },
                }
            },
            (FencePhase::Publishing, FenceReply::Fence(Err(error))) => {
                match error {
                    StoreError::NotOwner { .. } => {
                        let fenced: usize = fenced + 1;
                        let phase = Self::next_phase(&shards, fenced, &committed);
                        AdoptionPlan { shards, fenced, committed, asserted, survivors, phase }
                    },
                    error => AdoptionPlan {
                        shards,
                        fenced,
                        committed,
                        asserted,
                        survivors,
                        phase: FencePhase::Aborted(error),
                    },
                }
            },
            (FencePhase::Asserting, FenceReply::Owner(owner)) => {
                let mut survivors = survivors;
                if owner {
                    survivors.push(committed[asserted]);
                }
                let asserted: usize = asserted + 1;
                let phase = if asserted == committed_count {
                    FencePhase::Extending
                } else {
                    FencePhase::Asserting
                };
                AdoptionPlan { shards, fenced, committed, asserted, survivors, phase }
            },
            (FencePhase::Extending, FenceReply::Extended) => AdoptionPlan {
                shards,
                fenced,
                committed,
                asserted,
                survivors,
                phase: FencePhase::Planned,
            },
            (phase, _) => AdoptionPlan { shards, fenced, committed, asserted, survivors, phase },
        }
    }
}

/// The states that a plan goes through, from its beginning, as its questions are
/// answered.
pub open spec fn fence_trace(plans: Seq<AdoptionView>, replies: Seq<FenceReply>) -> bool {
    &&& plans.len() == replies.len() + 1
    &&& plans[0] == fresh_plan(plans[0].shards)
    &&& forall|i: int|
        0 <= i < replies.len() ==> plans[i + 1] == (#[trigger] plans[i]).after(replies[i])
}

/// The answer lets a shard pass a step of the fence.
pub open spec fn passes(reply: FenceReply) -> bool {
    reply matches FenceReply::Fence(Ok(_))
}

/// Before a point of a trace, the shard's publication was asked and confirmed.
pub open spec fn published_before(
    plans: Seq<AdoptionView>,
    replies: Seq<FenceReply>,
    shard: usize,
    end: int,
) -> bool {
    exists|k: int|
        0 <= k < end && (#[trigger] plans[k]).asks() == FenceAsk::Publish(shard) && passes(
            replies[k],
        )
}

/// Before a point of a trace, this node's authority for the shard was asked and
/// confirmed.
pub open spec fn confirmed_before(
    plans: Seq<AdoptionView>,
    replies: Seq<FenceReply>,
    shard: usize,
    end: int,
) -> bool {
    exists|k: int|
        0 <= k < end && (#[trigger] plans[k]).asks() == FenceAsk::IsCurrentOwner(shard)
            && replies[k] == FenceReply::Owner(true)
}

/// What an answer does to the shards that passed the fence and to those still owned.
proof fn lemma_after(plan: AdoptionView, reply: FenceReply)
    requires
        plan.fits(),
    ensures
        plan.after(reply).fits(),
        plan.after(reply).shards == plan.shards,
        plan.after(reply).committed == plan.committed || (plan.phase is Publishing && passes(
            reply,
        ) && plan.after(reply).committed == plan.committed.push(
            plan.shards[plan.fenced],
        )),
        plan.after(reply).survivors == plan.survivors || (plan.phase is Asserting && reply
            == FenceReply::Owner(true) && plan.after(reply).survivors == plan.survivors.push(
            plan.committed[plan.asserted],
        )),
{
}

/// Every state of a plan fits its phase.
proof fn lemma_fits(plans: Seq<AdoptionView>, replies: Seq<FenceReply>, n: int)
    requires
        fence_trace(plans, replies),
        0 <= n < plans.len(),
    ensures
        plans[n].fits(),
    decreases n,
{
    if n > 0 {
        lemma_fits(plans, replies, n - 1);
        assert(plans[n] == plans[n - 1].after(replies[n - 1]));
        lemma_after(plans[n - 1], replies[n - 1]);
    }
}

/// Every shard that passed the fence was published before.
proof fn lemma_published(plans: Seq<AdoptionView>, replies: Seq<FenceReply>, n: int, i: int)
    requires
        fence_trace(plans, replies),
        0 <= n < plans.len(),
        0 <= i < plans[n].committed.len(),
    ensures
        published_before(plans, replies, plans[n].committed[i], n),
    decreases n,
{
    if n > 0 {
        let before = plans[n - 1];
        lemma_fits(plans, replies, n - 1);
        assert(plans[n] == before.after(replies[n - 1]));
        lemma_after(before, replies[n - 1]);
        let shard = plans[n].committed[i];
        if i < before.committed.len() {
            lemma_published(plans, replies, n - 1, i);
            let k = choose|k: int|
                0 <= k < n - 1 && (#[trigger] plans[k]).asks() == FenceAsk::Publish(shard)
                    && passes(replies[k]);
            assert(plans[k].asks() == FenceAsk::Publish(shard));
        } else {
            assert(plans[n - 1].asks() == FenceAsk::Publish(shard));
        }
    }
}

/// Every shard that is still owned passed the fence and was confirmed before.
proof fn lemma_confirmed(plans: Seq<AdoptionView>, replies: Seq<FenceReply>, n: int, i: int)
    requires
        fence_trace(plans, replies),
        0 <= n < plans.len(),
        0 <= i < plans[n].survivors.len(),
    ensures
        plans[n].committed.contains(plans[n].survivors[i]),
        confirmed_before(plans, replies, plans[n].survivors[i], n),
    decreases n,
{
    if n > 0 {
        let before = plans[n - 1];
        lemma_fits(plans, replies, n - 1);
        assert(plans[n] == before.after(replies[n - 1]));
        lemma_after(before, replies[n - 1]);
        let shard = plans[n].survivors[i];
        if i < before.survivors.len() {
            lemma_confirmed(plans, replies, n - 1, i);
            let c = choose|c: int| 0 <= c < before.committed.len() && before.committed[c] == shard;
            assert(plans[n].committed[c] == shard);
            let k = choose|k: int|
                0 <= k < n - 1 && (#[trigger] plans[k]).asks() == FenceAsk::IsCurrentOwner(shard)
                    && replies[k] == FenceReply::Owner(true);
            assert(plans[k].asks() == FenceAsk::IsCurrentOwner(shard));
        } else {
            assert(plans[n].committed[before.asserted] == shard);
            assert(plans[n - 1].asks() == FenceAsk::IsCurrentOwner(shard));
        }
    }
}

/// Whenever the scope is widened, and whenever shards are handed to recovery, each of
/// the shards was published and then confirmed as owned before.
pub proof fn the_fence_precedes_widening_and_recovery(
    plans: Seq<AdoptionView>,
    replies: Seq<FenceReply>,
    n: int,
    shard: usize,
)
    requires
        fence_trace(plans, replies),
        0 <= n < plans.len(),
        plans[n].phase is Extending || plans[n].phase is Planned,
        plans[n].survivors.contains(shard),
    ensures
        plans[n].asks() == FenceAsk::Extend(plans[n].survivors) || plans[n].asks()
            == FenceAsk::Recover(plans[n].survivors),
        published_before(plans, replies, shard, n),
        confirmed_before(plans, replies, shard, n),
{
    let i = choose|i: int| 0 <= i < plans[n].survivors.len() && plans[n].survivors[i] == shard;
    lemma_confirmed(plans, replies, n, i);
    let c = choose|c: int| 0 <= c < plans[n].committed.len() && plans[n].committed[c] == shard;
    lemma_published(plans, replies, n, c);
}

/// The scope is widened once: after the widening was asked and answered, nothing but
/// recovery is asked, for the same shards.
pub proof fn the_scope_is_widened_once(
    plans: Seq<AdoptionView>,
    replies: Seq<FenceReply>,
    n: int,
    m: int,
)
    requires
        fence_trace(plans, replies),
        0 <= n < m < plans.len(),
        plans[n].phase is Extending,
        replies[n] is Extended,
    ensures
        plans[m].asks() == FenceAsk::Recover(plans[n].survivors),
    decreases m - n,
{
    assert(plans[n + 1] == plans[n].after(replies[n]));
    if m > n + 1 {
        the_scope_is_widened_once(plans, replies, n, m - 1);
        assert(plans[m - 1].phase is Planned);
        assert(plans[m] == plans[m - 1].after(replies[m - 1]));
    }
}

} // verus!
