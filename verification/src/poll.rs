//! Putting one question to several nodes in turn, and going by the answer only if all of them
//! give it.
//!
//! This is the cross-check of `rpc::Untrusted` for a caller that sends each question itself
//! and comes back with the answer.

use vstd::prelude::*;

use crate::bytes::bytes_equal;
use crate::job::urls;
use crate::request::{Refusal, RefusalView};
use crate::rpc::{CrossCheckError, Endpoint, RpcDisagreement};
use crate::rpc_evm::{RpcError, RpcErrorView};

verus! {

/// Something that nodes can agree on.
pub trait Answer: Sized {
    /// What is agreed on.
    type Meaning;

    spec fn meaning(&self) -> Self::Meaning;

    /// Whether the two answers mean the same.
    fn same(&self, other: &Self) -> (r: bool)
        ensures
            r == (self.meaning() == other.meaning()),
    ;
}

impl Answer for u64 {
    type Meaning = nat;

    open spec fn meaning(&self) -> nat {
        *self as nat
    }

    fn same(&self, other: &Self) -> (r: bool) {
        *self == *other
    }
}

impl Answer for u128 {
    type Meaning = nat;

    open spec fn meaning(&self) -> nat {
        *self as nat
    }

    fn same(&self, other: &Self) -> (r: bool) {
        *self == *other
    }
}

impl Answer for Vec<u8> {
    type Meaning = Seq<u8>;

    open spec fn meaning(&self) -> Seq<u8> {
        self@
    }

    fn same(&self, other: &Self) -> (r: bool) {
        bytes_equal(self.as_slice(), other.as_slice())
    }
}

/// How a poll stands.
pub ghost enum Standing<M> {
    /// The node with that number is to be asked next.
    Asking(nat),
    /// A node failed to answer, or gave another answer than the first one.
    Failed(RefusalView),
    /// All nodes gave this answer.
    Agreed(M),
}

/// How a poll stands when the answers from the `k`-th on are still to be held against the
/// first node's answer.
pub open spec fn standing_from<M>(
    endpoints: Seq<Seq<char>>,
    first: M,
    answers: Seq<Result<M, RpcErrorView>>,
    k: nat,
) -> Standing<M>
    decreases endpoints.len() - k,
{
    if k >= endpoints.len() {
        Standing::Agreed(first)
    } else if k >= answers.len() {
        Standing::Asking(k)
    } else {
        match answers[k as int] {
            Err(e) => Standing::Failed(RefusalView::Query(endpoints[k as int], e)),
            Ok(answer) => if answer != first {
                Standing::Failed(RefusalView::Disagreement(endpoints[0], endpoints[k as int]))
            } else {
                standing_from(endpoints, first, answers, k + 1)
            },
        }
    }
}

/// How a poll stands after the answers so far, given in the order of the nodes.
pub open spec fn standing<M>(
    endpoints: Seq<Seq<char>>,
    answers: Seq<Result<M, RpcErrorView>>,
) -> Standing<M> {
    if answers.len() == 0 {
        Standing::Asking(0)
    } else {
        match answers[0] {
            Err(e) => Standing::Failed(RefusalView::Rpc(e)),
            Ok(first) => standing_from(endpoints, first, answers, 1),
        }
    }
}

/// A poll that goes on.
pub struct Poll<T> {
    /// The first node's answer, once it is there.
    pub first: Option<T>,
    /// How many nodes have answered.
    pub asked: usize,
}

impl<T: Answer> Poll<T> {
    /// The poll has had these answers, all of them the same, and is not through.
    pub open spec fn has_had(
        self,
        endpoints: Seq<Seq<char>>,
        answers: Seq<Result<T::Meaning, RpcErrorView>>,
    ) -> bool {
        &&& self.asked == answers.len()
        &&& self.asked < endpoints.len()
        &&& self.first is Some <==> self.asked > 0
        &&& forall|i: int|
            #![trigger answers[i]]
            0 <= i < answers.len() ==> answers[i] == Ok::<_, RpcErrorView>(
                self.first->0.meaning(),
            )
    }
}

/// What an answer does to a poll.
pub enum PollStep<T> {
    /// The next node is to be asked.
    Next(Poll<T>),
    /// All nodes have given this answer.
    Agreed(T),
    /// The poll has failed.
    Failed(Refusal),
}

proof fn lemma_standing_from_agreeing<M>(
    endpoints: Seq<Seq<char>>,
    first: M,
    answers: Seq<Result<M, RpcErrorView>>,
    k: nat,
    n: nat,
)
    requires
        k <= n <= answers.len(),
        n <= endpoints.len(),
        forall|i: int|
            #![trigger answers[i]]
            k <= i < n ==> answers[i] == Ok::<_, RpcErrorView>(first),
    ensures
        standing_from(endpoints, first, answers, k) == standing_from(endpoints, first, answers, n),
    decreases n - k,
{
    if k < n {
        assert(answers[k as int] == Ok::<_, RpcErrorView>(first));
        lemma_standing_from_agreeing(endpoints, first, answers, k + 1, n);
    }
}

/// A poll that is not through asks the node that comes next.
pub proof fn lemma_poll_asks<T: Answer>(
    poll: Poll<T>,
    endpoints: Seq<Seq<char>>,
    answers: Seq<Result<T::Meaning, RpcErrorView>>,
)
    requires
        poll.has_had(endpoints, answers),
    ensures
        standing(endpoints, answers) == Standing::<T::Meaning>::Asking(poll.asked as nat),
{
    if answers.len() > 0 {
        assert(answers[0] == Ok::<_, RpcErrorView>(poll.first->0.meaning()));
        lemma_standing_from_agreeing(
            endpoints,
            poll.first->0.meaning(),
            answers,
            1,
            answers.len(),
        );
    }
}

/// How a poll stands depends only on the answers of its nodes: what comes later does not
/// change a poll that is through.
pub proof fn lemma_agreement_stays<M>(
    endpoints: Seq<Seq<char>>,
    answers: Seq<Result<M, RpcErrorView>>,
    first: M,
)
    requires
        0 < endpoints.len() <= answers.len(),
        forall|i: int|
            #![trigger answers[i]]
            0 <= i < endpoints.len() ==> answers[i] == Ok::<_, RpcErrorView>(first),
    ensures
        standing(endpoints, answers) == Standing::Agreed(first),
{
    assert(answers[0] == Ok::<_, RpcErrorView>(first));
    lemma_standing_from_agreeing(endpoints, first, answers, 1, endpoints.len());
}

proof fn lemma_agreed_from<M>(
    endpoints: Seq<Seq<char>>,
    first: M,
    answers: Seq<Result<M, RpcErrorView>>,
    k: nat,
    value: M,
)
    requires
        1 <= k <= endpoints.len(),
        standing_from(endpoints, first, answers, k) == Standing::Agreed(value),
    ensures
        value == first,
        endpoints.len() <= answers.len() || k == endpoints.len(),
        forall|i: int|
            #![trigger answers[i]]
            k <= i < endpoints.len() ==> answers[i] == Ok::<_, RpcErrorView>(value),
    decreases endpoints.len() - k,
{
    if k < endpoints.len() {
        lemma_agreed_from(endpoints, first, answers, k + 1, value);
    }
}

/// A poll agrees on an answer only if every single node gave it.
pub proof fn law_agreement_is_unanimous<M>(
    endpoints: Seq<Seq<char>>,
    answers: Seq<Result<M, RpcErrorView>>,
    value: M,
)
    requires
        endpoints.len() > 0,
    ensures
        standing(endpoints, answers) == Standing::Agreed(value) <==> endpoints.len()
            <= answers.len() && forall|i: int|
            #![trigger answers[i]]
            0 <= i < endpoints.len() ==> answers[i] == Ok::<_, RpcErrorView>(value),
{
    if standing(endpoints, answers) == Standing::Agreed(value) {
        lemma_agreed_from(endpoints, answers[0]->Ok_0, answers, 1, value);
    }
    if endpoints.len() <= answers.len() && forall|i: int|
        #![trigger answers[i]]
        0 <= i < endpoints.len() ==> answers[i] == Ok::<_, RpcErrorView>(value) {
        lemma_agreement_stays(endpoints, answers, value);
    }
}

/// Once all nodes agree, further answers change nothing.
pub proof fn lemma_agreement_extends<M>(
    endpoints: Seq<Seq<char>>,
    answers: Seq<Result<M, RpcErrorView>>,
    more: Seq<Result<M, RpcErrorView>>,
    value: M,
)
    requires
        0 < endpoints.len() == answers.len() <= more.len(),
        standing(endpoints, answers) == Standing::Agreed(value),
        forall|i: int| #![trigger more[i]] 0 <= i < answers.len() ==> more[i] == answers[i],
    ensures
        standing(endpoints, more) == Standing::Agreed(value),
{
    law_agreement_is_unanimous(endpoints, answers, value);
    lemma_agreement_stays(endpoints, more, value);
}

/// Takes the next node's answer into account.
pub(crate) fn take_answer<T: Answer>(
    poll: Poll<T>,
    endpoints: &Vec<Endpoint>,
    answer: Result<T, RpcError>,
    Ghost(answers): Ghost<Seq<Result<T::Meaning, RpcErrorView>>>,
) -> (r: PollStep<T>)
    requires
        poll.has_had(urls(endpoints@), answers),
    ensures
        ({
            let next = answers.push(answer_view(answer));
            match r {
                PollStep::Next(p) => p.has_had(urls(endpoints@), next),
                PollStep::Agreed(v) => {
                    &&& standing(urls(endpoints@), next) == Standing::Agreed(v.meaning())
                    &&& next.len() == endpoints@.len()
                },
                PollStep::Failed(e) => standing(urls(endpoints@), next) == Standing::<
                    T::Meaning,
                >::Failed(e@),
            }
        }),
{
    let ghost names = urls(endpoints@);
    let ghost next = answers.push(answer_view(answer));
    match poll.first {
        None => match answer {
            Err(e) => PollStep::Failed(Refusal::Rpc(e)),
            Ok(value) => if endpoints.len() == 1 {
                proof {
                    lemma_agreement_stays(names, next, value.meaning());
                }
                PollStep::Agreed(value)
            } else {
                PollStep::Next(Poll { first: Some(value), asked: 1 })
            },
        },
        Some(first) => {
            proof {
                assert(answers[0] == Ok::<_, RpcErrorView>(first.meaning()));
                assert(next[0] == answers[0]);
                assert forall|i: int| #![trigger next[i]] 1 <= i < answers.len() implies next[i]
                    == Ok::<_, RpcErrorView>(first.meaning()) by {
                    assert(next[i] == answers[i]);
                }
                lemma_standing_from_agreeing(names, first.meaning(), next, 1, answers.len());
            }
            let node = &endpoints[poll.asked];
            match answer {
                Err(e) => PollStep::Failed(
                    Refusal::CrossCheck(CrossCheckError::Query(node.clone(), e)),
                ),
                Ok(value) => if !value.same(&first) {
                    PollStep::Failed(
                        Refusal::CrossCheck(
                            CrossCheckError::Disagreement(
                                RpcDisagreement {
                                    primary: endpoints[0].clone(),
                                    disagreeing: node.clone(),
                                },
                            ),
                        ),
                    )
                } else {
                    proof {
                        assert forall|i: int| #![trigger next[i]] 0 <= i < next.len() implies next[i]
                            == Ok::<_, RpcErrorView>(first.meaning()) by {
                            if i < answers.len() {
                                assert(next[i] == answers[i]);
                            }
                        }
                    }
                    if endpoints.len() - poll.asked == 1 {
                        proof {
                            lemma_agreement_stays(names, next, first.meaning());
                        }
                        PollStep::Agreed(first)
                    } else {
                        PollStep::Next(Poll { first: Some(first), asked: poll.asked + 1 })
                    }
                },
            }
        },
    }
}

/// What an answer says.
pub open spec fn answer_view<T: Answer>(answer: Result<T, RpcError>) -> Result<
    T::Meaning,
    RpcErrorView,
> {
    match answer {
        Ok(v) => Ok(v.meaning()),
        Err(e) => Err(e@),
    }
}

/// The nodes are asked one after the other: the next one is asked exactly if all nodes before
/// it gave one and the same answer, and as many nodes were asked as answers came.
pub proof fn law_nodes_are_asked_in_turn<M>(
    endpoints: Seq<Seq<char>>,
    answers: Seq<Result<M, RpcErrorView>>,
    k: nat,
)
    requires
        endpoints.len() > 0,
    ensures
        standing(endpoints, answers) == Standing::<M>::Asking(k) <==> {
            &&& k == answers.len()
            &&& k < endpoints.len()
            &&& forall|i: int|
                #![trigger answers[i]]
                0 <= i < answers.len() ==> answers[i] is Ok && answers[i] == answers[0]
        },
{
    if answers.len() > 0 {
        if answers[0] is Ok {
            lemma_asking_from(endpoints, answers[0]->Ok_0, answers, 1, k);
            if k == answers.len() && k < endpoints.len() && forall|i: int|
                #![trigger answers[i]]
                0 <= i < answers.len() ==> answers[i] is Ok && answers[i] == answers[0] {
                lemma_standing_from_agreeing(endpoints, answers[0]->Ok_0, answers, 1, k);
            }
        }
    }
}

proof fn lemma_asking_from<M>(
    endpoints: Seq<Seq<char>>,
    first: M,
    answers: Seq<Result<M, RpcErrorView>>,
    from: nat,
    k: nat,
)
    requires
        from >= 1,
        from <= answers.len(),
    ensures
        standing_from(endpoints, first, answers, from) == Standing::<M>::Asking(k) ==> k
            == answers.len() && k < endpoints.len() && forall|i: int|
            #![trigger answers[i]]
            from <= i < answers.len() ==> answers[i] == Ok::<_, RpcErrorView>(first),
    decreases endpoints.len() - from,
{
    if from < endpoints.len() && from < answers.len() {
        lemma_asking_from(endpoints, first, answers, from + 1, k);
    }
}

/// The first node that does not confirm the answer ends the poll and is named. A first node
/// that fails has nothing to be confirmed.
pub proof fn law_first_failure_is_named<M>(
    endpoints: Seq<Seq<char>>,
    answers: Seq<Result<M, RpcErrorView>>,
    first: M,
    k: int,
)
    requires
        0 <= k < endpoints.len(),
        k < answers.len(),
        forall|i: int|
            #![trigger answers[i]]
            0 <= i < k ==> answers[i] == Ok::<_, RpcErrorView>(first),
    ensures
        answers[k] matches Err(e) ==> standing(endpoints, answers) == Standing::<M>::Failed(
            if k == 0 {
                RefusalView::Rpc(e)
            } else {
                RefusalView::Query(endpoints[k], e)
            },
        ),
        k > 0 && answers[k] is Ok && answers[k]->Ok_0 != first ==> standing(endpoints, answers)
            == Standing::<M>::Failed(RefusalView::Disagreement(endpoints[0], endpoints[k])),
{
    if k > 0 {
        assert(answers[0] == Ok::<_, RpcErrorView>(first));
        lemma_standing_from_agreeing(endpoints, first, answers, 1, k as nat);
    }
}

} // verus!
