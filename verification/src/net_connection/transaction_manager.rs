//! Pairing of outbound calls with the answers to them.

use crate::amf::AmfValue;
use crate::errors::Error;
use crate::net_connection::packets::AMFCommandMessage;
use std::collections::HashMap;
use vstd::prelude::*;

verus! {

broadcast use vstd::std_specs::hash::group_hash_axioms;

/// How a call ended: with `_result` or with `_error`.
#[derive(Debug, Clone, Copy, PartialEq, Eq, Structural)]
pub enum TransactionResult {
    Result,
    Error,
}

/// A call that waits for its answer.
pub struct Transaction<F> {
    pub result_callback: F,
}

/// The id that the first call of a session gets.
pub const FIRST_TRANSACTION_ID: u32 = 2;

/// Gives every call its transaction id and keeps the callbacks of the calls
/// that wait for an answer.
pub struct TransactionManager<F> {
    current_transaction_id: u32,
    transactions: HashMap<u32, Transaction<F>>,
}

/// Whether a callback may be called with whatever an answer brings.
pub open spec fn accepts_every_answer<F: Fn(TransactionResult, AmfValue, Vec<AmfValue>)>(
    callback: F,
) -> bool {
    forall|result: TransactionResult, command_object: AmfValue, arguments: Vec<AmfValue>|
        call_requires(callback, (result, command_object, arguments))
}

impl<F: Fn(TransactionResult, AmfValue, Vec<AmfValue>)> TransactionManager<F> {
    /// The id given out last; 1 before the first call.
    pub closed spec fn last_id(&self) -> u32 {
        self.current_transaction_id
    }

    /// The calls that wait for an answer, by id.
    pub closed spec fn pending(&self) -> Map<u32, Transaction<F>> {
        self.transactions@
    }

    /// Every pending id has been given out, none is below 2, and every
    /// pending callback may be called with whatever an answer brings.
    pub open spec fn wf(&self) -> bool {
        &&& self.last_id() >= 1
        &&& forall|id: u32| #[trigger]
            self.pending().contains_key(id) ==> FIRST_TRANSACTION_ID <= id <= self.last_id()
        &&& forall|id: u32| #[trigger]
            self.pending().contains_key(id) ==> accepts_every_answer(
                self.pending()[id].result_callback,
            )
    }

    /// A manager that has given out no id yet.
    pub fn new() -> (r: Self)
        ensures
            r.wf(),
            r.last_id() == 1,
            r.pending() == Map::<u32, Transaction<F>>::empty(),
    {
        TransactionManager { current_transaction_id: 1, transactions: HashMap::new() }
    }

    /// Whether another id can be given out.
    pub fn has_free_id(&self) -> (r: bool)
        ensures
            r == (self.last_id() < u32::MAX),
    {
        self.current_transaction_id < u32::MAX
    }

    /// Gives out the next id and keeps `result_callback` under it.
    pub fn initialize_transaction(&mut self, result_callback: F) -> (r: u32)
        requires
            old(self).wf(),
            old(self).last_id() < u32::MAX,
            accepts_every_answer(result_callback),
        ensures
            final(self).wf(),
            final(self).spec_gave(old(self), r),
            !old(self).pending().contains_key(r),
            final(self).pending() == old(self).pending().insert(
                r,
                Transaction { result_callback },
            ),
    {
        self.current_transaction_id = self.current_transaction_id + 1;
        let transaction_id = self.current_transaction_id;
        self.transactions.insert(transaction_id, Transaction { result_callback });
        proof {
            assert forall|id: u32| #[trigger] self.pending().contains_key(id) implies ({
                &&& FIRST_TRANSACTION_ID <= id <= self.last_id()
                &&& accepts_every_answer(self.pending()[id].result_callback)
            }) by {
                if id != transaction_id {
                    assert(old(self).pending().contains_key(id));
                }
            }
        }
        transaction_id
    }

    /// Ends a call: hands the answer to the callback kept under
    /// `transaction_id` and forgets the call. An id that is not pending is
    /// an error and changes nothing.
    pub fn finalize_transaction(
        &mut self,
        transaction_id: u32,
        result: TransactionResult,
        response: AMFCommandMessage,
    ) -> (r: Result<(), Error>)
        requires
            old(self).wf(),
        ensures
            final(self).wf(),
            final(self).last_id() == old(self).last_id(),
            match r {
                Ok(()) => {
                    &&& old(self).pending().contains_key(transaction_id)
                    &&& final(self).pending() == old(self).pending().remove(transaction_id)
                    &&& call_ensures(
                        old(self).pending()[transaction_id].result_callback,
                        (
                            result,
                            match response.command_object {
                                Some(v) => v,
                                None => AmfValue::Null,
                            },
                            response.optional_arguments,
                        ),
                        (),
                    )
                },
                Err(e) => {
                    &&& !old(self).pending().contains_key(transaction_id)
                    &&& final(self).pending() == old(self).pending()
                    &&& e == Error::UnknownTransaction(transaction_id)
                },
            },
    {
        let transaction = match self.transactions.remove(&transaction_id) {
            Some(transaction) => transaction,
            None => {
                proof {
                    assert(self.transactions@ =~= old(self).transactions@);
                    assert forall|id: u32| #[trigger] self.pending().contains_key(id) implies ({
                        &&& FIRST_TRANSACTION_ID <= id <= self.last_id()
                        &&& accepts_every_answer(self.pending()[id].result_callback)
                    }) by {
                        assert(old(self).pending().contains_key(id));
                    }
                }
                return Err(Error::UnknownTransaction(transaction_id));
            },
        };
        proof {
            assert forall|id: u32| #[trigger] self.pending().contains_key(id) implies ({
                &&& FIRST_TRANSACTION_ID <= id <= self.last_id()
                &&& accepts_every_answer(self.pending()[id].result_callback)
            }) by {
                assert(old(self).pending().contains_key(id));
            }
            assert(old(self).pending().contains_key(transaction_id));
        }
        let command_object = match response.command_object {
            Some(v) => v,
            None => AmfValue::Null,
        };
        let callback = transaction.result_callback;
        callback(result, command_object, response.optional_arguments);
        Ok(())
    }

    /// The call that waits under `transaction_id`, if there is one.
    pub fn get_transaction(&self, transaction_id: u32) -> (r: Option<&Transaction<F>>)
        ensures
            match r {
                Some(t) => self.pending().contains_key(transaction_id) && *t
                    == self.pending()[transaction_id],
                None => !self.pending().contains_key(transaction_id),
            },
    {
        self.transactions.get(&transaction_id)
    }

    /// Forgets the call that waits under `transaction_id`, if there is one.
    pub fn clean_up_transaction(&mut self, transaction_id: u32)
        requires
            old(self).wf(),
        ensures
            final(self).wf(),
            final(self).last_id() == old(self).last_id(),
            final(self).pending() == old(self).pending().remove(transaction_id),
    {
        self.transactions.remove(&transaction_id);
        proof {
            assert forall|id: u32| #[trigger] self.pending().contains_key(id) implies ({
                &&& FIRST_TRANSACTION_ID <= id <= self.last_id()
                &&& accepts_every_answer(self.pending()[id].result_callback)
            }) by {
                assert(old(self).pending().contains_key(id));
            }
        }
    }

    /// Whether this manager is what giving out `id` makes of `before`.
    pub open spec fn spec_gave(&self, before: &Self, id: u32) -> bool {
        id == before.last_id() + 1 && self.last_id() == id
    }

    /// Ids are strictly increasing: of two calls, the later gets the
    /// higher id. Between the two the manager may end and forget calls,
    /// which never lowers the id given out last.
    pub proof fn lemma_ids_strictly_increase(
        before_first: &Self,
        after_first: &Self,
        before_second: &Self,
        after_second: &Self,
        first: u32,
        second: u32,
    )
        requires
            after_first.spec_gave(before_first, first),
            before_second.last_id() >= after_first.last_id(),
            after_second.spec_gave(before_second, second),
        ensures
            first < second,
    {
    }

    /// An id that is given out is none that waits: ids are never used
    /// twice.
    pub proof fn lemma_ids_are_fresh(&self, id: u32)
        requires
            self.wf(),
            id == self.last_id() + 1,
        ensures
            !self.pending().contains_key(id),
    {
    }
}

} // verus!
