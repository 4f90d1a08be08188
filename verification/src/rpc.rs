//! Answers of chain nodes, none of which is to be believed on its own.
//!
//! Every answer comes wrapped in `Untrusted`. To get at it a caller says `trust`, or has it
//! checked against other nodes with `cross_check`, which is the thing to do wherever funds
//! depend on it.

use vstd::prelude::*;
use vstd::std_specs::cmp::PartialEqSpec;

verus! {

/// A chain node.
#[derive(Debug, PartialEq, Eq, Hash)]
pub struct Endpoint(pub String);

impl Clone for Endpoint {
    fn clone(&self) -> (r: Self)
        ensures
            r == *self,
    {
        Endpoint(self.0.clone())
    }
}

/// An answer of one node, together with the node.
#[derive(Debug, Clone)]
pub struct Untrusted<T> {
    value: T,
    source: Endpoint,
}

/// Two nodes gave different answers to one question: at least one of them lies or lags
/// behind.
#[derive(Debug)]
pub struct RpcDisagreement {
    /// The node that was asked first.
    pub primary: Endpoint,
    /// The node whose answer differs.
    pub disagreeing: Endpoint,
}

/// Why an answer could not be confirmed.
#[derive(Debug)]
pub enum CrossCheckError<E> {
    /// A node could not be asked. That is no disagreement, but no confirmation either.
    Query(Endpoint, E),
    /// A node gave another answer.
    Disagreement(RpcDisagreement),
}

/// The two answers count as the same.
pub open spec fn same_answer<T: PartialEq>(a: T, b: T) -> bool {
    T::obeys_eq_spec() ==> a.eq_spec(&b)
}

/// The two answers do not count as the same.
pub open spec fn other_answer<T: PartialEq>(a: T, b: T) -> bool {
    T::obeys_eq_spec() ==> !a.eq_spec(&b)
}

/// Each of the first `n` nodes can give the same answer.
pub open spec fn all_agree<T: PartialEq, Q: Fn(&Endpoint) -> T>(
    value: T,
    others: Seq<Endpoint>,
    n: int,
    query: Q,
) -> bool {
    forall|i: int|
        #![trigger others[i]]
        0 <= i < n ==> exists|answer: T|
            call_ensures(query, (&others[i],), answer) && same_answer(answer, value)
}

/// Each of the first `n` nodes can be asked and give the same answer.
pub open spec fn all_confirm<T: PartialEq, E, Q: Fn(&Endpoint) -> Result<T, E>>(
    value: T,
    others: Seq<Endpoint>,
    n: int,
    query: Q,
) -> bool {
    forall|i: int|
        #![trigger others[i]]
        0 <= i < n ==> exists|answer: T|
            call_ensures(query, (&others[i],), Ok::<T, E>(answer)) && same_answer(answer, value)
}

impl<T> Untrusted<T> {
    /// The answer.
    pub closed spec fn answer(&self) -> T {
        self.value
    }

    /// The node that gave it.
    pub closed spec fn node(&self) -> Endpoint {
        self.source
    }

    /// Wraps an answer together with the node that gave it.
    pub fn new(value: T, source: Endpoint) -> (r: Self)
        ensures
            r.answer() == value,
            r.node() == source,
    {
        Untrusted { value, source }
    }

    /// The node that gave the answer.
    pub fn source(&self) -> (r: &Endpoint)
        ensures
            *r == self.node(),
    {
        &self.source
    }

    /// The answer, on the word of one node.
    pub fn trust(self) -> (r: T)
        ensures
            r == self.answer(),
    {
        self.value
    }
}

impl<T: Clone + PartialEq> Untrusted<T> {
    /// Asks the other nodes the same question, in their order. The answer comes out only if
    /// all of them give it too; otherwise the first that does not is named.
    pub fn cross_check(self, others: &[Endpoint], query: impl Fn(&Endpoint) -> T) -> (r: Result<
        T,
        RpcDisagreement,
    >)
        requires
            forall|i: int|
                #![trigger others@[i]]
                0 <= i < others@.len() ==> call_requires(query, (&others@[i],)),
        ensures
            match r {
                Ok(value) => value == self.answer() && all_agree(
                    self.answer(),
                    others@,
                    others@.len() as int,
                    query,
                ),
                Err(d) => d.primary == self.node() && exists|k: int, answer: T|
                    #![trigger others@[k], call_ensures(query, (&others@[k],), answer)]
                    0 <= k < others@.len() && d.disagreeing == others@[k] && all_agree(
                        self.answer(),
                        others@,
                        k,
                        query,
                    ) && call_ensures(query, (&others@[k],), answer) && other_answer(
                        answer,
                        self.answer(),
                    ),
            },
    {
        let mut i: usize = 0;
        while i < others.len()
            invariant
                i <= others@.len(),
                forall|j: int|
                    #![trigger others@[j]]
                    0 <= j < others@.len() ==> call_requires(query, (&others@[j],)),
                all_agree(self.answer(), others@, i as int, query),
            decreases others.len() - i,
        {
            let endpoint = &others[i];
            let answer = query(endpoint);
            if answer != self.value {
                return Err(
                    RpcDisagreement {
                        primary: self.source.clone(),
                        disagreeing: endpoint.clone(),
                    },
                );
            }
            proof {
                assert(call_ensures(query, (&others@[i as int],), answer));
                assert(same_answer(answer, self.answer()));
            }
            i = i + 1;
        }
        Ok(self.value)
    }

    /// Like `cross_check`, for nodes that may fail to answer: the first node that fails, or
    /// that gives another answer, is named.
    pub fn try_cross_check<E>(
        self,
        others: &[Endpoint],
        query: impl Fn(&Endpoint) -> Result<T, E>,
    ) -> (r: Result<T, CrossCheckError<E>>)
        requires
            forall|i: int|
                #![trigger others@[i]]
                0 <= i < others@.len() ==> call_requires(query, (&others@[i],)),
        ensures
            match r {
                Ok(value) => value == self.answer() && all_confirm(
                    self.answer(),
                    others@,
                    others@.len() as int,
                    query,
                ),
                Err(CrossCheckError::Query(endpoint, e)) => exists|k: int|
                    #![trigger others@[k]]
                    0 <= k < others@.len() && endpoint == others@[k] && all_confirm(
                        self.answer(),
                        others@,
                        k,
                        query,
                    ) && call_ensures(query, (&others@[k],), Err::<T, E>(e)),
                Err(CrossCheckError::Disagreement(d)) => d.primary == self.node() && exists|
                    k: int,
                    answer: T,
                |
                    #![trigger others@[k], call_ensures(query, (&others@[k],), Ok::<T, E>(answer))]
                    0 <= k < others@.len() && d.disagreeing == others@[k] && all_confirm(
                        self.answer(),
                        others@,
                        k,
                        query,
                    ) && call_ensures(query, (&others@[k],), Ok::<T, E>(answer)) && other_answer(
                        answer,
                        self.answer(),
                    ),
            },
    {
        let mut i: usize = 0;
        while i < others.len()
            invariant
                i <= others@.len(),
                forall|j: int|
                    #![trigger others@[j]]
                    0 <= j < others@.len() ==> call_requires(query, (&others@[j],)),
                all_confirm(self.answer(), others@, i as int, query),
            decreases others.len() - i,
        {
            let endpoint = &others[i];
            let answer = match query(endpoint) {
                Ok(answer) => answer,
                Err(e) => return Err(CrossCheckError::Query(endpoint.clone(), e)),
            };
            if answer != self.value {
                return Err(
                    CrossCheckError::Disagreement(
                        RpcDisagreement {
                            primary: self.source.clone(),
                            disagreeing: endpoint.clone(),
                        },
                    ),
                );
            }
            proof {
                assert(call_ensures(query, (&others@[i as int],), Ok::<T, E>(answer)));
                assert(same_answer(answer, self.answer()));
            }
            i = i + 1;
        }
        Ok(self.value)
    }
}

} // verus!
