//! Spending policy.
//!
//! A cap on each transaction, a limit on what is spent in a rolling window, and a delay for
//! destinations that are new and for amounts that are large: one fault elsewhere cannot
//! drain the wallet in one instant. The engine decides whether and when a transaction may
//! be signed. Holding one back until then is the caller's part.
//!
//! History and known destinations are kept by chain: the same address on another chain may
//! belong to somebody else.

use vstd::prelude::*;

use crate::bytes::bytes_equal;
use crate::decoder::{DecodedTransaction, TransferView};
use crate::time::{Duration, Timestamp};

verus! {

/// The thresholds. There are no defaults: what is safe depends on the deployment.
#[derive(Debug, Clone, Copy)]
pub struct PolicyConfig {
    /// A transaction above this value is denied.
    pub max_single_tx_value: u128,
    /// The approved values within `window` may not add up to more than this.
    pub max_value_per_window: u128,
    /// The window that the limit applies over.
    pub window: Duration,
    /// A transaction of at least this value, or to a destination not seen before, waits.
    pub timelock_threshold: u128,
    /// How long it waits.
    pub timelock_delay: Duration,
}

/// The outcome for one transaction.
#[derive(Debug, Clone, Copy, PartialEq, Eq, Structural)]
pub enum PolicyDecision {
    /// May be signed now.
    Approved,
    /// May not be signed.
    Denied(DenialReason),
    /// May be submitted again, but not before `release_at`.
    Queued {
        release_at: Timestamp,
    },
}

/// Why a transaction was denied.
#[derive(Debug, Clone, Copy, PartialEq, Eq, Structural)]
pub enum DenialReason {
    /// Its value alone is above the cap.
    ExceedsSingleTxCap,
    /// It would take what was spent in the window over the limit.
    ExceedsVelocityLimit,
}

/// An approved transaction.
pub ghost struct Spending {
    pub time: int,
    pub chain_id: nat,
    pub value: nat,
}

/// The state of an engine.
#[verifier::ext_equal]
pub ghost struct PolicyState {
    pub config: PolicyConfig,
    pub history: Seq<Spending>,
    pub known: Set<(nat, Seq<u8>)>,
}

/// Whether a spending lies in the window that ends now.
pub open spec fn in_window(e: Spending, now: int, window: nat) -> bool {
    0 <= now - e.time <= window
}

/// Whether a spending lies before the window that ends now, and so counts at no later time.
pub open spec fn is_expired(e: Spending, now: int, window: nat) -> bool {
    now - e.time > window
}

/// What was spent on a chain in the window that ends now.
pub open spec fn window_total(history: Seq<Spending>, chain_id: nat, now: int, window: nat) -> nat
    decreases history.len(),
{
    if history.len() == 0 {
        0
    } else {
        let e = history.last();
        window_total(history.drop_last(), chain_id, now, window) + if e.chain_id == chain_id
            && in_window(e, now, window) {
            e.value
        } else {
            0
        }
    }
}

/// The spendings that have not expired, in their order. Those that lie later than now stay:
/// they still count when their time has come.
pub open spec fn pruned(history: Seq<Spending>, now: int, window: nat) -> Seq<Spending>
    decreases history.len(),
{
    if history.len() == 0 {
        Seq::empty()
    } else {
        let rest = pruned(history.drop_last(), now, window);
        if is_expired(history.last(), now, window) {
            rest
        } else {
            rest.push(history.last())
        }
    }
}

/// What the policy says of a transaction, with the release time as a number.
pub ghost enum Verdict {
    Approved,
    Denied(DenialReason),
    Queued(int),
}

/// What the policy says of a transaction at a time.
pub open spec fn verdict(state: PolicyState, tx: TransferView, now: int) -> Verdict {
    let config = state.config;
    if tx.value > config.max_single_tx_value {
        Verdict::Denied(DenialReason::ExceedsSingleTxCap)
    } else if window_total(state.history, tx.chain_id, now, config.window@) + tx.value
        > config.max_value_per_window {
        Verdict::Denied(DenialReason::ExceedsVelocityLimit)
    } else if tx.value >= config.timelock_threshold || !state.known.contains(
        (tx.chain_id, tx.to),
    ) {
        Verdict::Queued(now + config.timelock_delay@)
    } else {
        Verdict::Approved
    }
}

/// The state after a transaction was approved and signed.
pub open spec fn after_approval(state: PolicyState, tx: TransferView, now: int) -> PolicyState {
    PolicyState {
        config: state.config,
        history: pruned(
            state.history.push(Spending { time: now, chain_id: tx.chain_id, value: tx.value }),
            now,
            state.config.window@,
        ),
        known: state.known.insert((tx.chain_id, tx.to)),
    }
}

/// The decision that says what a verdict says.
pub open spec fn decides(decision: PolicyDecision, v: Verdict) -> bool {
    match decision {
        PolicyDecision::Approved => v == Verdict::Approved,
        PolicyDecision::Denied(reason) => v == Verdict::Denied(reason),
        PolicyDecision::Queued { release_at } => v == Verdict::Queued(release_at@),
    }
}

/// Keeps what was approved and which destinations are known. There is no way to change the
/// configuration of an engine.
pub struct PolicyEngine {
    config: PolicyConfig,
    /// Time, chain and value of each approved transaction that can still count.
    history: Vec<(Timestamp, u64, u128)>,
    /// Chain and address, each pair once.
    known_destinations: Vec<(u64, [u8; 20])>,
}

/// What a history entry stands for.
pub open spec fn spending(e: (Timestamp, u64, u128)) -> Spending {
    Spending { time: e.0@, chain_id: e.1 as nat, value: e.2 as nat }
}

/// What a vector of history entries stands for.
pub open spec fn spendings(history: Seq<(Timestamp, u64, u128)>) -> Seq<Spending> {
    Seq::new(history.len(), |i: int| spending(history[i]))
}

/// What a vector of destinations stands for.
pub open spec fn destinations(known: Seq<(u64, [u8; 20])>) -> Set<(nat, Seq<u8>)> {
    Set::new(
        |d: (nat, Seq<u8>)|
            exists|i: int|
                #![trigger known[i]]
                0 <= i < known.len() && d == (known[i].0 as nat, known[i].1@),
    )
}

impl PolicyEngine {
    pub closed spec fn view(&self) -> PolicyState {
        PolicyState {
            config: self.config,
            history: spendings(self.history@),
            known: destinations(self.known_destinations@),
        }
    }

    /// No destination is kept twice.
    #[verifier::type_invariant]
    closed spec fn no_duplicates(&self) -> bool {
        forall|i: int, j: int|
            #![trigger self.known_destinations@[i], self.known_destinations@[j]]
            0 <= i < j < self.known_destinations@.len() ==> !(self.known_destinations@[i].0
                == self.known_destinations@[j].0 && self.known_destinations@[i].1@
                == self.known_destinations@[j].1@)
    }

    /// An engine without history: every destination is new to it.
    pub fn new(config: PolicyConfig) -> (r: Self)
        ensures
            r@ == (PolicyState { config, history: Seq::empty(), known: Set::empty() }),
    {
        let r = PolicyEngine { config, history: Vec::new(), known_destinations: Vec::new() };
        assert(r@.history =~= Seq::empty());
        assert(r@.known =~= Set::empty());
        r
    }

    /// How many approved transactions are kept.
    pub fn history_len(&self) -> (r: usize)
        ensures
            r == self@.history.len(),
    {
        self.history.len()
    }

    /// Whether the destination is known.
    fn knows(&self, chain_id: u64, to: &[u8; 20]) -> (r: bool)
        ensures
            r == self@.known.contains((chain_id as nat, to@)),
    {
        let mut i: usize = 0;
        while i < self.known_destinations.len()
            invariant
                i <= self.known_destinations@.len(),
                forall|j: int|
                    #![trigger self.known_destinations@[j]]
                    0 <= j < i ==> (
                    self.known_destinations@[j].0 as nat,
                    self.known_destinations@[j].1@,
                    ) != (chain_id as nat, to@),
            decreases self.known_destinations.len() - i,
        {
            let (chain, address) = &self.known_destinations[i];
            if *chain == chain_id && bytes_equal(address, to) {
                return true;
            }
            i = i + 1;
        }
        false
    }

    /// Whether what was spent on the chain in the window, with `value` added, is above the
    /// limit.
    fn exceeds_velocity_limit(&self, chain_id: u64, value: u128, now: Timestamp) -> (r: bool)
        ensures
            r == (window_total(self@.history, chain_id as nat, now@, self@.config.window@) + value
                > self@.config.max_value_per_window),
    {
        let ghost h = self@.history;
        let ghost w = self@.config.window@;
        let mut total: u128 = value;
        let mut i: usize = 0;
        proof {
            assert(h.take(0) =~= Seq::empty());
        }
        while i < self.history.len()
            invariant
                i <= self.history@.len(),
                h == spendings(self.history@),
                h == self@.history,
                w == self@.config.window@,
                self.config == self@.config,
                total == window_total(h.take(i as int), chain_id as nat, now@, w) + value,
            decreases self.history.len() - i,
        {
            let (time, chain, spent) = self.history[i];
            proof {
                assert(h.take(i + 1).drop_last() =~= h.take(i as int));
                assert(h.take(i + 1).last() == spending(self.history@[i as int]));
            }
            if chain == chain_id && now.is_within(time, self.config.window) {
                match total.checked_add(spent) {
                    Some(sum) => {
                        total = sum;
                    },
                    None => {
                        // More than any limit can be.
                        proof {
                            lemma_total_grows(h, (i + 1) as int, chain_id as nat, now@, w);
                        }
                        return true;
                    },
                }
            }
            i = i + 1;
        }
        assert(h.take(i as int) =~= h);
        total > self.config.max_value_per_window
    }

    /// What the policy says of the transaction now. Nothing is recorded: call
    /// `record_approved` once the transaction has been signed.
    pub fn evaluate(&self, tx: &DecodedTransaction, now: Timestamp) -> (r: PolicyDecision)
        requires
            verdict(self@, tx@, now@) matches Verdict::Queued(release_at) ==> release_at
                <= i128::MAX,
        ensures
            decides(r, verdict(self@, tx@, now@)),
            r matches PolicyDecision::Queued { release_at } ==> release_at@ == now@
                + self@.config.timelock_delay@,
            r is Approved ==> tx.value < self@.config.timelock_threshold && self@.known.contains(
                (tx.chain_id as nat, tx.to@),
            ),
            r is Denied ==> tx.value > self@.config.max_single_tx_value || window_total(
                self@.history,
                tx.chain_id as nat,
                now@,
                self@.config.window@,
            ) + tx.value > self@.config.max_value_per_window,
    {
        if tx.value > self.config.max_single_tx_value {
            return PolicyDecision::Denied(DenialReason::ExceedsSingleTxCap);
        }
        if self.exceeds_velocity_limit(tx.chain_id, tx.value, now) {
            return PolicyDecision::Denied(DenialReason::ExceedsVelocityLimit);
        }
        let is_new_destination = !self.knows(tx.chain_id, &tx.to);
        if tx.value >= self.config.timelock_threshold || is_new_destination {
            let release_at = now.after(self.config.timelock_delay);
            return PolicyDecision::Queued { release_at };
        }
        PolicyDecision::Approved
    }

    /// Records that the transaction was approved and signed. What lies before the window is
    /// dropped, so the history does not grow without bound.
    pub fn record_approved(&mut self, tx: &DecodedTransaction, now: Timestamp)
        ensures
            final(self)@ == after_approval(old(self)@, tx@, now@),
    {
        let ghost before = self@;
        let ghost w = before.config.window@;
        let ghost pushed = before.history.push(
            Spending { time: now@, chain_id: tx.chain_id as nat, value: tx.value as nat },
        );
        let known = self.knows(tx.chain_id, &tx.to);
        proof {
            use_type_invariant(&*self);
        }
        let mut kept: Vec<(Timestamp, u64, u128)> = Vec::new();
        let mut i: usize = 0;
        proof {
            assert(before.history.take(0) =~= Seq::empty());
            assert(spendings(kept@) =~= Seq::empty());
        }
        while i < self.history.len()
            invariant
                i <= self.history@.len(),
                *self == *old(self),
                before == self@,
                before.history == spendings(self.history@),
                w == before.config.window@,
                self.config == before.config,
                spendings(kept@) == pruned(before.history.take(i as int), now@, w),
            decreases self.history.len() - i,
        {
            let entry = self.history[i];
            let ghost kept_before = kept@;
            proof {
                let t = before.history.take(i + 1);
                assert(t.drop_last() =~= before.history.take(i as int));
                assert(t.last() == spending(entry));
            }
            if !now.is_beyond(entry.0, self.config.window) {
                kept.push(entry);
                assert(spendings(kept@) =~= spendings(kept_before).push(spending(entry)));
            }
            i = i + 1;
        }
        assert(before.history.take(i as int) =~= before.history);
        let ghost kept_before = kept@;
        let entry = (now, tx.chain_id, tx.value);
        kept.push(entry);
        proof {
            assert(spendings(kept@) =~= spendings(kept_before).push(spending(entry)));
            assert(pushed.drop_last() =~= before.history);
        }
        self.history = kept;
        if !known {
            let ghost old_known = self.known_destinations@;
            let mut all: Vec<(u64, [u8; 20])> = Vec::new();
            std::mem::swap(&mut all, &mut self.known_destinations);
            let d = (tx.chain_id, tx.to);
            all.push(d);
            proof {
                assert forall|x: (nat, Seq<u8>)|
                    destinations(all@).contains(x) == destinations(old_known).insert(
                        (tx.chain_id as nat, tx.to@),
                    ).contains(x) by {
                    if destinations(old_known).contains(x) {
                        let j = choose|j: int|
                            #![trigger old_known[j]]
                            0 <= j < old_known.len() && x == (
                                old_known[j].0 as nat,
                                old_known[j].1@,
                            );
                        assert(all@[j] == old_known[j]);
                    }
                    if x == (tx.chain_id as nat, tx.to@) {
                        assert(all@[old_known.len() as int] == d);
                    }
                    if destinations(all@).contains(x) {
                        let j = choose|j: int|
                            #![trigger all@[j]]
                            0 <= j < all@.len() && x == (all@[j].0 as nat, all@[j].1@);
                        if j < old_known.len() {
                            assert(old_known[j] == all@[j]);
                        }
                    }
                }
                assert(destinations(all@) =~= destinations(old_known).insert(
                    (tx.chain_id as nat, tx.to@),
                ));
            }
            self.known_destinations = all;
        } else {
            proof {
                assert(before.known.insert((tx.chain_id as nat, tx.to@)) =~= before.known);
            }
        }
    }
}

/// The total over a longer part of the history is no smaller.
proof fn lemma_total_grows(h: Seq<Spending>, n: int, chain_id: nat, now: int, window: nat)
    requires
        0 <= n <= h.len(),
    ensures
        window_total(h.take(n), chain_id, now, window) <= window_total(h, chain_id, now, window),
    decreases h.len() - n,
{
    if n < h.len() {
        lemma_total_grows(h, n + 1, chain_id, now, window);
        assert(h.take(n + 1).drop_last() =~= h.take(n));
    } else {
        assert(h.take(n) =~= h);
    }
}

/// Dropping what lies before the window does not change what was spent within a window, now
/// or later.
pub proof fn law_pruning_changes_no_total(
    history: Seq<Spending>,
    now: int,
    window: nat,
    chain_id: nat,
    later: int,
)
    requires
        now <= later,
    ensures
        window_total(pruned(history, now, window), chain_id, later, window) == window_total(
            history,
            chain_id,
            later,
            window,
        ),
    decreases history.len(),
{
    if history.len() > 0 {
        let front = history.drop_last();
        law_pruning_changes_no_total(front, now, window, chain_id, later);
        let rest = pruned(front, now, window);
        let e = history.last();
        if !is_expired(e, now, window) {
            assert(rest.push(e).drop_last() =~= rest);
        }
    }
}

/// Everything that was recorded within the window counts, in whatever order it was recorded:
/// recording a transaction adds its value to the total at every time from then on for as long
/// as it lies in the window, and takes nothing else away.
pub proof fn law_recorded_spendings_count(
    state: PolicyState,
    tx: TransferView,
    now: int,
    chain_id: nat,
    later: int,
)
    requires
        now <= later,
    ensures
        window_total(
            after_approval(state, tx, now).history,
            chain_id,
            later,
            state.config.window@,
        ) == window_total(state.history, chain_id, later, state.config.window@) + if chain_id
            == tx.chain_id && later - now <= state.config.window@ {
            tx.value
        } else {
            0
        },
{
    let e = Spending { time: now, chain_id: tx.chain_id, value: tx.value };
    let all = state.history.push(e);
    assert(all.drop_last() =~= state.history);
    law_pruning_changes_no_total(all, now, state.config.window@, chain_id, later);
}

/// The velocity limit holds: a transaction that is not denied, recorded at the time at which
/// it was evaluated, leaves the window's total on its chain within the limit. The totals of
/// other chains stay what they were.
pub proof fn law_velocity_limit_holds(state: PolicyState, tx: TransferView, now: int)
    requires
        !(verdict(state, tx, now) is Denied),
    ensures
        window_total(
            after_approval(state, tx, now).history,
            tx.chain_id,
            now,
            state.config.window@,
        ) == window_total(state.history, tx.chain_id, now, state.config.window@) + tx.value,
        window_total(
            after_approval(state, tx, now).history,
            tx.chain_id,
            now,
            state.config.window@,
        ) <= state.config.max_value_per_window,
        forall|other: nat|
            #![trigger window_total(after_approval(state, tx, now).history, other, now, state.config.window@)]
            other != tx.chain_id ==> window_total(
                after_approval(state, tx, now).history,
                other,
                now,
                state.config.window@,
            ) == window_total(state.history, other, now, state.config.window@),
{
    let w = state.config.window@;
    law_recorded_spendings_count(state, tx, now, tx.chain_id, now);
    assert forall|other: nat|
        #![trigger window_total(after_approval(state, tx, now).history, other, now, w)]
        other != tx.chain_id implies window_total(
        after_approval(state, tx, now).history,
        other,
        now,
        w,
    ) == window_total(state.history, other, now, w) by {
        law_recorded_spendings_count(state, tx, now, other, now);
    }
}

/// The limits never loosen: whatever is recorded, the configuration stays, and what is above
/// the cap stays denied.
pub proof fn law_limits_never_loosen(
    state: PolicyState,
    recorded: TransferView,
    at: int,
    tx: TransferView,
    now: int,
)
    requires
        tx.value > state.config.max_single_tx_value,
    ensures
        after_approval(state, recorded, at).config == state.config,
        verdict(after_approval(state, recorded, at), tx, now) == Verdict::Denied(
            DenialReason::ExceedsSingleTxCap,
        ),
{
}

/// A destination is known on a chain once a transaction to it was recorded there, and on no
/// other chain by that.
pub proof fn law_destinations_are_known_by_chain(
    state: PolicyState,
    tx: TransferView,
    now: int,
    other_chain: nat,
)
    requires
        other_chain != tx.chain_id,
    ensures
        after_approval(state, tx, now).known.contains((tx.chain_id, tx.to)),
        after_approval(state, tx, now).known.contains((other_chain, tx.to))
            == state.known.contains((other_chain, tx.to)),
{
}

/// Only small amounts to known destinations are ever approved at once.
pub proof fn law_approval_needs_known_destination(state: PolicyState, tx: TransferView, now: int)
    requires
        verdict(state, tx, now) == Verdict::Approved,
    ensures
        state.known.contains((tx.chain_id, tx.to)),
        tx.value < state.config.timelock_threshold,
        tx.value <= state.config.max_single_tx_value,
{
}

/// Nothing in the history of an engine has expired at the last recorded time.
pub proof fn law_history_is_pruned(state: PolicyState, tx: TransferView, now: int, i: int)
    requires
        0 <= i < after_approval(state, tx, now).history.len(),
    ensures
        !is_expired(after_approval(state, tx, now).history[i], now, state.config.window@),
{
    lemma_pruned_not_expired(
        state.history.push(Spending { time: now, chain_id: tx.chain_id, value: tx.value }),
        now,
        state.config.window@,
        i,
    );
}

proof fn lemma_pruned_not_expired(history: Seq<Spending>, now: int, window: nat, i: int)
    requires
        0 <= i < pruned(history, now, window).len(),
    ensures
        !is_expired(pruned(history, now, window)[i], now, window),
    decreases history.len(),
{
    let rest = pruned(history.drop_last(), now, window);
    if i < rest.len() {
        lemma_pruned_not_expired(history.drop_last(), now, window, i);
    }
}

/// The verdict on a transaction, from the numbers: it is denied for its value alone exactly if
/// that is above the cap, and for the window exactly if it is not and the window's total with
/// it is above the limit.
pub proof fn law_denials(state: PolicyState, tx: TransferView, now: int)
    ensures
        verdict(state, tx, now) == Verdict::Denied(DenialReason::ExceedsSingleTxCap) <==> tx.value
            > state.config.max_single_tx_value,
        verdict(state, tx, now) == Verdict::Denied(DenialReason::ExceedsVelocityLimit) <==> (
        tx.value <= state.config.max_single_tx_value && window_total(
            state.history,
            tx.chain_id,
            now,
            state.config.window@,
        ) + tx.value > state.config.max_value_per_window),
{
}

/// A transaction that is not denied waits if it is large or goes somewhere new, and for both
/// alike it waits the whole delay, counted from now. All others are approved.
pub proof fn law_timelock_is_the_whole_delay(state: PolicyState, tx: TransferView, now: int)
    ensures
        verdict(state, tx, now) matches Verdict::Queued(release_at) ==> release_at == now
            + state.config.timelock_delay@,
        !(verdict(state, tx, now) is Denied) && (tx.value >= state.config.timelock_threshold
            || !state.known.contains((tx.chain_id, tx.to))) <==> verdict(state, tx, now)
            == Verdict::Queued(now + state.config.timelock_delay@),
        !(verdict(state, tx, now) is Denied) && tx.value < state.config.timelock_threshold
            && state.known.contains((tx.chain_id, tx.to)) <==> verdict(state, tx, now)
            == Verdict::Approved,
{
}

/// What counts towards the total of a chain: every spending on that chain that is neither
/// later than now nor older than the window, with its whole value, and nothing else.
pub proof fn law_window_total_counts(
    history: Seq<Spending>,
    e: Spending,
    chain_id: nat,
    now: int,
    window: nat,
)
    ensures
        window_total(Seq::empty(), chain_id, now, window) == 0,
        e.chain_id == chain_id && e.time <= now <= e.time + window ==> window_total(
            history.push(e),
            chain_id,
            now,
            window,
        ) == window_total(history, chain_id, now, window) + e.value,
        !(e.chain_id == chain_id && e.time <= now <= e.time + window) ==> window_total(
            history.push(e),
            chain_id,
            now,
            window,
        ) == window_total(history, chain_id, now, window),
{
    assert(history.push(e).drop_last() =~= history);
}

/// Recording makes the one destination known, on its chain, and no other; and it forgets none.
pub proof fn law_recording_adds_one_destination(
    state: PolicyState,
    tx: TransferView,
    now: int,
    chain_id: nat,
    to: Seq<u8>,
)
    ensures
        after_approval(state, tx, now).known.contains((chain_id, to)) <==> state.known.contains(
            (chain_id, to),
        ) || (chain_id == tx.chain_id && to == tx.to),
{
}

/// What is kept of the history is everything that is not older than the window, in its order.
pub proof fn law_pruning_keeps_what_still_counts(history: Seq<Spending>, now: int, window: nat)
    ensures
        pruned(history, now, window) == history.filter(|e: Spending| now - e.time <= window),
    decreases history.len(),
{
    reveal(Seq::filter);
    if history.len() > 0 {
        law_pruning_keeps_what_still_counts(history.drop_last(), now, window);
    }
}

/// A decision says one verdict, with the same reason or the same time.
pub proof fn law_decisions_say_one_verdict(reason: DenialReason, release_at: Timestamp, v: Verdict)
    ensures
        decides(PolicyDecision::Approved, v) <==> v == Verdict::Approved,
        decides(PolicyDecision::Denied(reason), v) <==> v == Verdict::Denied(reason),
        decides((PolicyDecision::Queued { release_at }), v) <==> v == Verdict::Queued(release_at@),
{
}

} // verus!
