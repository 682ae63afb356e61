use vstd::prelude::*;

use std::collections::HashMap;

use crate::ledger::{spec_moved, Ledger, LedgerError};
use crate::metadata::TokenMetadata;
use crate::verdict::{parse_verdict, spec_response_text, verdict_of, Response};

verus! {

broadcast use vstd::std_specs::hash::group_hash_axioms;

/// A token amount.
pub type Balance = u128;

/// The ordinal of a wager, assigned from the contract-wide counter; never
/// reused.
pub type RequestId = u64;

/// An opaque continuation handle, persisted verbatim.
pub type CryptoHash = [u8; 32];

/// One suspended wager: the continuation handle issued when the call was
/// suspended, and the amount and parties of the provisional transfer.
pub struct Request {
    pub data_id: CryptoHash,
    pub amount: Balance,
    pub sender_id: String,
    pub receiver_id: String,
}

impl Clone for Request {
    fn clone(&self) -> (r: Self)
        ensures
            r == *self,
    {
        Request {
            data_id: self.data_id,
            amount: self.amount,
            sender_id: self.sender_id.clone(),
            receiver_id: self.receiver_id.clone(),
        }
    }
}

/// Why an operation on the wager protocol failed. Every failure leaves the
/// whole state as it was: no operation commits part of its effects.
#[derive(Clone, Copy, Debug, PartialEq, Eq, Structural)]
pub enum WagerError {
    /// Guard violation: the receiver is the ledger's own reserve account.
    VaultReceiver,
    /// Authorization error: the caller may not perform this operation.
    Unauthorized,
    /// Not-found error: no pending request exists under the identifier.
    RequestNotFound,
    /// Protocol violation: the verdict payload does not parse.
    MalformedVerdict,
    /// Protocol violation: the verdict names a winner outside the wager.
    UnknownWinner,
    /// Invariant violation: resumption ran with no recorded response.
    ResponseMissing,
    /// The ledger refused to move the funds.
    Ledger(LedgerError),
}

/// The wager protocol layered over the token ledger: pending requests and
/// recorded responses keyed by request id, the id counter, and the accounts
/// with administrative power.
pub struct Contract {
    pub agent_name: String,
    pub operator_id: String,
    pub reserve_id: String,
    pub metadata: TokenMetadata,
    pub ledger: Ledger,
    pub requests: HashMap<RequestId, Request>,
    pub responses: HashMap<RequestId, Response>,
    pub num_requests: u64,
}

/// An initiation assigned `id` to a new wager: the id is the counter before
/// the call, and the counter advanced by exactly one.
pub open spec fn initiation_assigns(pre: Contract, post: Contract, id: RequestId) -> bool {
    &&& id == pre.num_requests
    &&& post.num_requests == pre.num_requests + 1
}

/// Settlement bookkeeping: the request and response under `id` are removed
/// together, and everything else but the ledger is kept.
pub open spec fn settlement_cleanup(pre: Contract, post: Contract, id: RequestId) -> bool {
    &&& post.requests@ == pre.requests@.remove(id)
    &&& post.responses@ == pre.responses@.remove(id)
    &&& post.num_requests == pre.num_requests
    &&& post.agent_name == pre.agent_name
    &&& post.operator_id == pre.operator_id
    &&& post.reserve_id == pre.reserve_id
    &&& post.metadata == pre.metadata
}

/// How one settlement relates the state before and after resumption: the
/// recorded response decides whether funds move, loser pays winner, and the
/// wager's bookkeeping is cleared exactly when the call succeeds.
pub open spec fn settles_to(
    pre: Contract,
    post: Contract,
    id: RequestId,
    r: Result<Response, WagerError>,
) -> bool {
    if !pre.responses@.contains_key(id) {
        post == pre && r == Err::<Response, WagerError>(WagerError::ResponseMissing)
    } else {
        let resp = pre.responses@[id];
        let req = pre.requests@[id];
        match verdict_of(spec_response_text(resp)) {
            None => post == pre && r == Err::<Response, WagerError>(WagerError::MalformedVerdict),
            Some(v) => {
                if !resp.ok {
                    // The wager is voided: no funds move.
                    &&& settlement_cleanup(pre, post, id)
                    &&& post.ledger == pre.ledger
                    &&& r == Ok::<Response, WagerError>(resp)
                } else if v.1 == req.receiver_id@ {
                    // The sender lost: the receiver is paid, registered first
                    // if need be.
                    if pre.ledger.can_transfer_register(req.sender_id@, req.receiver_id@, req.amount) {
                        &&& settlement_cleanup(pre, post, id)
                        &&& spec_moved(pre.ledger, post.ledger, req.sender_id@, req.receiver_id@, req.amount)
                        &&& r == Ok::<Response, WagerError>(resp)
                    } else {
                        post == pre && r == Err::<Response, WagerError>(
                            WagerError::Ledger(
                                pre.ledger.transfer_register_error(req.sender_id@, req.receiver_id@, req.amount),
                            ),
                        )
                    }
                } else if v.1 == req.sender_id@ {
                    // The receiver lost: the sender is paid back.
                    if pre.ledger.can_transfer(req.receiver_id@, req.sender_id@, req.amount) {
                        &&& settlement_cleanup(pre, post, id)
                        &&& spec_moved(pre.ledger, post.ledger, req.receiver_id@, req.sender_id@, req.amount)
                        &&& r == Ok::<Response, WagerError>(resp)
                    } else {
                        post == pre && r == Err::<Response, WagerError>(
                            WagerError::Ledger(
                                pre.ledger.transfer_error(req.receiver_id@, req.sender_id@, req.amount),
                            ),
                        )
                    }
                } else {
                    post == pre && r == Err::<Response, WagerError>(WagerError::UnknownWinner)
                }
            },
        }
    }
}

impl Contract {
    /// Well-formed: the ledger conserves its supply and holds the reserve
    /// account, every pending id is below the counter, and a response exists
    /// only while its request does.
    pub open spec fn wf(self) -> bool {
        &&& self.ledger.wf()
        &&& self.ledger.spec_registered(self.reserve_id@)
        &&& forall|id: RequestId| #[trigger] self.requests@.contains_key(id) ==> id < self.num_requests
        &&& forall|id: RequestId| #[trigger]
            self.responses@.contains_key(id) ==> self.requests@.contains_key(id)
    }

    /// Create the contract: the whole supply is minted into the reserve
    /// account, the stores are empty and the counter is zero.
    pub fn new(
        total_supply: Balance,
        metadata: TokenMetadata,
        agent_name: String,
        operator_id: String,
        reserve_id: String,
    ) -> (r: Contract)
        requires
            metadata.is_valid(),
        ensures
            r.wf(),
            r.agent_name == agent_name,
            r.operator_id == operator_id,
            r.reserve_id == reserve_id,
            r.metadata == metadata,
            r.num_requests == 0,
            r.requests@ == Map::<RequestId, Request>::empty(),
            r.responses@ == Map::<RequestId, Response>::empty(),
            r.ledger.spec_total_supply() == total_supply,
            r.ledger.spec_balance_of(reserve_id@) == total_supply,
            forall|x: Seq<char>|
                x != reserve_id@ ==> !r.ledger.spec_registered(x) && r.ledger.spec_balance_of(x)
                    == 0,
    {
        let ledger = Ledger::new(reserve_id.clone(), total_supply);
        Contract {
            agent_name,
            operator_id,
            reserve_id,
            metadata,
            ledger,
            requests: HashMap::new(),
            responses: HashMap::new(),
            num_requests: 0,
        }
    }

    pub fn ft_total_supply(&self) -> (r: Balance)
        ensures
            r == self.ledger.spec_total_supply(),
    {
        self.ledger.total_supply()
    }

    pub fn ft_balance_of(&self, account_id: &String) -> (r: Balance)
        requires
            self.wf(),
        ensures
            r == self.ledger.spec_balance_of(account_id@),
    {
        self.ledger.balance_of(account_id)
    }

    pub fn ft_metadata(&self) -> (r: &TokenMetadata)
        ensures
            *r == self.metadata,
    {
        &self.metadata
    }

    /// Register storage for an account, so it can be paid; idempotent, and
    /// no balance changes.
    pub fn storage_deposit(&mut self, account_id: &String)
        requires
            old(self).wf(),
        ensures
            final(self).wf(),
            final(self).ledger.spec_registered(account_id@),
            forall|x: Seq<char>|
                x != account_id@ ==> final(self).ledger.spec_registered(x) == old(
                    self,
                ).ledger.spec_registered(x),
            forall|x: Seq<char>| #[trigger]
                final(self).ledger.spec_balance_of(x) == old(self).ledger.spec_balance_of(x),
            final(self).ledger.spec_total_supply() == old(self).ledger.spec_total_supply(),
            final(self).requests@ == old(self).requests@,
            final(self).responses@ == old(self).responses@,
            final(self).num_requests == old(self).num_requests,
            final(self).agent_name == old(self).agent_name,
            final(self).operator_id == old(self).operator_id,
            final(self).reserve_id == old(self).reserve_id,
            final(self).metadata == old(self).metadata,
    {
        self.ledger.register_account(account_id);
    }

    /// Turn an incoming transfer into an immediate gift or a suspended wager.
    ///
    /// The receiver may never be the reserve account. When the receiver's
    /// balance cannot cover the amount, the transfer is executed at once and
    /// no wager is created. Otherwise a pending request is stored under a
    /// fresh id, taken from the counter before it advances, with the
    /// continuation handle the suspension produced; no balance changes until
    /// settlement. The caller is then expected to notify the arbiter and
    /// suspend the call.
    #[allow(unused_variables)]
    pub fn ft_transfer(
        &mut self,
        sender_id: String,
        receiver_id: String,
        amount: Balance,
        memo: Option<String>,
        data_id: CryptoHash,
    ) -> (r: Result<Option<RequestId>, WagerError>)
        requires
            old(self).wf(),
            old(self).num_requests < u64::MAX,
        ensures
            final(self).wf(),
            final(self).agent_name == old(self).agent_name,
            final(self).operator_id == old(self).operator_id,
            final(self).reserve_id == old(self).reserve_id,
            final(self).metadata == old(self).metadata,
            final(self).responses@ == old(self).responses@,
            final(self).num_requests >= old(self).num_requests,
            final(self).ledger.spec_total_supply() == old(self).ledger.spec_total_supply(),
            match r {
                Ok(None) => {
                    // The immediate branch: the receiver could not cover the
                    // wager, so the gift is executed at once.
                    &&& receiver_id@ != old(self).reserve_id@
                    &&& old(self).ledger.spec_balance_of(receiver_id@) < amount
                    &&& old(self).ledger.can_transfer_register(sender_id@, receiver_id@, amount)
                    &&& spec_moved(old(self).ledger, final(self).ledger, sender_id@, receiver_id@, amount)
                    &&& final(self).requests@ == old(self).requests@
                    &&& final(self).num_requests == old(self).num_requests
                },
                Ok(Some(id)) => {
                    // The wager branch: nothing moves; a pending request is
                    // stored under the fresh id.
                    &&& receiver_id@ != old(self).reserve_id@
                    &&& old(self).ledger.spec_balance_of(receiver_id@) >= amount
                    &&& initiation_assigns(*old(self), *final(self), id)
                    &&& !old(self).requests@.contains_key(id)
                    &&& final(self).requests@ == old(self).requests@.insert(
                        id,
                        (Request { data_id, amount, sender_id, receiver_id }),
                    )
                    &&& final(self).ledger == old(self).ledger
                },
                Err(e) => {
                    &&& *final(self) == *old(self)
                    &&& match e {
                        WagerError::VaultReceiver => receiver_id@ == old(self).reserve_id@,
                        WagerError::Ledger(le) => {
                            &&& receiver_id@ != old(self).reserve_id@
                            &&& old(self).ledger.spec_balance_of(receiver_id@) < amount
                            &&& !old(self).ledger.can_transfer_register(sender_id@, receiver_id@, amount)
                            &&& le == old(self).ledger.transfer_register_error(sender_id@, receiver_id@, amount)
                        },
                        _ => false,
                    }
                },
            },
    {
        if receiver_id == self.reserve_id {
            return Err(WagerError::VaultReceiver);
        }
        let receiver_balance = self.ledger.balance_of(&receiver_id);
        if receiver_balance < amount {
            match self.ledger.transfer_register(&sender_id, &receiver_id, amount) {
                Ok(()) => Ok(None),
                Err(e) => Err(WagerError::Ledger(e)),
            }
        } else {
            let request_id: RequestId = self.num_requests;
            self.requests.insert(request_id, Request { data_id, amount, sender_id, receiver_id });
            self.num_requests = self.num_requests + 1;
            Ok(Some(request_id))
        }
    }

    /// Record the arbiter's verdict for a pending wager.
    ///
    /// Only the operator may respond, and only to an id that still has a
    /// pending request. The response overwrites any earlier unconsumed one;
    /// the caller is then expected to resume the suspended call through the
    /// continuation handle.
    #[allow(unused_variables)]
    pub fn respond(
        &mut self,
        caller: &String,
        data_id: CryptoHash,
        request_id: RequestId,
        response: Response,
    ) -> (r: Result<(), WagerError>)
        requires
            old(self).wf(),
        ensures
            final(self).wf(),
            final(self).agent_name == old(self).agent_name,
            final(self).operator_id == old(self).operator_id,
            final(self).reserve_id == old(self).reserve_id,
            final(self).metadata == old(self).metadata,
            final(self).requests@ == old(self).requests@,
            final(self).num_requests == old(self).num_requests,
            final(self).ledger == old(self).ledger,
            match r {
                Ok(()) => {
                    &&& caller@ == old(self).operator_id@
                    &&& old(self).requests@.contains_key(request_id)
                    &&& final(self).responses@ == old(self).responses@.insert(request_id, response)
                },
                Err(e) => {
                    &&& *final(self) == *old(self)
                    &&& match e {
                        WagerError::Unauthorized => caller@ != old(self).operator_id@,
                        WagerError::RequestNotFound => caller@ == old(self).operator_id@ && !old(
                            self,
                        ).requests@.contains_key(request_id),
                        _ => false,
                    }
                },
            },
    {
        if !(*caller == self.operator_id) {
            return Err(WagerError::Unauthorized);
        }
        if !self.requests.contains_key(&request_id) {
            return Err(WagerError::RequestNotFound);
        }
        self.responses.insert(request_id, response);
        Ok(())
    }

    /// Settle a wager: the resumed part of the suspended call.
    ///
    /// Requires a recorded response; parses its payload, and moves the
    /// amount from the loser to the winner named by the verdict, which must
    /// be one of the two wager parties. On success the request and response
    /// are removed together; on any failure nothing at all changes.
    pub fn await_response(&mut self, request_id: RequestId) -> (r: Result<Response, WagerError>)
        requires
            old(self).wf(),
        ensures
            final(self).wf(),
            settles_to(*old(self), *final(self), request_id, r),
    {
        let ghost pre = *self;
        if !self.responses.contains_key(&request_id) {
            return Err(WagerError::ResponseMissing);
        }
        let parsed_opt = {
            let resp = self.responses.get(&request_id).unwrap();
            match &resp.data {
                Some(s) => parse_verdict(s.as_str()),
                None => parse_verdict(""),
            }
        };
        proof {
            reveal_strlit("");
            assert(""@ =~= Seq::<char>::empty());
        }
        let parsed = match parsed_opt {
            Some(m) => m,
            None => {
                return Err(WagerError::MalformedVerdict);
            },
        };
        let ok_flag = self.responses.get(&request_id).unwrap().ok;
        proof {
            assert(pre.requests@.contains_key(request_id));
        }
        let (req_amount, req_sender, req_receiver) = {
            let req = self.requests.get(&request_id).unwrap();
            (req.amount, req.sender_id.clone(), req.receiver_id.clone())
        };
        if ok_flag {
            let wins_receiver = parsed.winner == req_receiver;
            let wins_sender = parsed.winner == req_sender;
            if wins_receiver {
                match self.ledger.transfer_register(&req_sender, &req_receiver, req_amount) {
                    Ok(()) => {},
                    Err(e) => {
                        return Err(WagerError::Ledger(e));
                    },
                }
            } else if wins_sender {
                match self.ledger.transfer(&req_receiver, &req_sender, req_amount) {
                    Ok(()) => {},
                    Err(e) => {
                        return Err(WagerError::Ledger(e));
                    },
                }
            } else {
                return Err(WagerError::UnknownWinner);
            }
        }
        let resp = self.responses.remove(&request_id).unwrap();
        self.requests.remove(&request_id);
        proof {
            assert forall|id: RequestId| #[trigger]
                self.responses@.contains_key(id) implies self.requests@.contains_key(id) by {
                assert(pre.responses@.contains_key(id));
            }
            assert(self.ledger.spec_registered(self.reserve_id@)) by {
                if ok_flag && self.reserve_id@ != req_receiver@ && self.reserve_id@ != req_sender@ {
                    assert(pre.ledger.spec_registered(pre.reserve_id@));
                }
            }
        }
        Ok(resp)
    }

    /// Read a pending request.
    pub fn get_request(&self, request_id: RequestId) -> (r: Result<Request, WagerError>)
        ensures
            match r {
                Ok(req) => self.requests@.contains_key(request_id) && req == self.requests@[request_id],
                Err(e) => e == WagerError::RequestNotFound && !self.requests@.contains_key(
                    request_id,
                ),
            },
    {
        match self.requests.get(&request_id) {
            Some(req) => Ok(req.clone()),
            None => Err(WagerError::RequestNotFound),
        }
    }

    /// Operator-only administrative purge: drop the request and any response
    /// under `request_id` without settling. An already-created suspension is
    /// not retracted; a later stray resumption fails for lack of a response.
    pub fn remove_request(&mut self, caller: &String, request_id: RequestId) -> (r: Result<
        (),
        WagerError,
    >)
        requires
            old(self).wf(),
        ensures
            final(self).wf(),
            match r {
                Ok(()) => {
                    &&& caller@ == old(self).operator_id@
                    &&& final(self).requests@ == old(self).requests@.remove(request_id)
                    &&& final(self).responses@ == old(self).responses@.remove(request_id)
                    &&& final(self).ledger == old(self).ledger
                    &&& final(self).num_requests == old(self).num_requests
                    &&& final(self).agent_name == old(self).agent_name
                    &&& final(self).operator_id == old(self).operator_id
                    &&& final(self).reserve_id == old(self).reserve_id
                    &&& final(self).metadata == old(self).metadata
                },
                Err(e) => {
                    &&& *final(self) == *old(self)
                    &&& e == WagerError::Unauthorized
                    &&& caller@ != old(self).operator_id@
                },
            },
    {
        if !(*caller == self.operator_id) {
            return Err(WagerError::Unauthorized);
        }
        self.requests.remove(&request_id);
        self.responses.remove(&request_id);
        proof {
            let ghost pre = *old(self);
            assert forall|id: RequestId| #[trigger]
                self.responses@.contains_key(id) implies self.requests@.contains_key(id) by {
                assert(pre.responses@.contains_key(id));
            }
        }
        Ok(())
    }

    /// Self-only: replace the token metadata.
    pub fn set_ft_metadata(&mut self, caller: &String, metadata: TokenMetadata) -> (r: Result<
        (),
        WagerError,
    >)
        requires
            old(self).wf(),
            metadata.is_valid(),
        ensures
            final(self).wf(),
            match r {
                Ok(()) => caller@ == old(self).reserve_id@ && *final(self) == (Contract {
                    metadata,
                    ..*old(self)
                }),
                Err(e) => caller@ != old(self).reserve_id@ && e == WagerError::Unauthorized
                    && *final(self) == *old(self),
            },
    {
        if !(*caller == self.reserve_id) {
            return Err(WagerError::Unauthorized);
        }
        self.metadata = metadata;
        Ok(())
    }

    /// Self-only: hand the operator role to another account.
    pub fn set_operator_id(&mut self, caller: &String, operator_id: String) -> (r: Result<
        (),
        WagerError,
    >)
        requires
            old(self).wf(),
        ensures
            final(self).wf(),
            match r {
                Ok(()) => caller@ == old(self).reserve_id@ && *final(self) == (Contract {
                    operator_id,
                    ..*old(self)
                }),
                Err(e) => caller@ != old(self).reserve_id@ && e == WagerError::Unauthorized
                    && *final(self) == *old(self),
            },
    {
        if !(*caller == self.reserve_id) {
            return Err(WagerError::Unauthorized);
        }
        self.operator_id = operator_id;
        Ok(())
    }

    /// Self-only: name the arbiter agent notified of new wagers.
    pub fn set_agent_name(&mut self, caller: &String, agent_name: String) -> (r: Result<
        (),
        WagerError,
    >)
        requires
            old(self).wf(),
        ensures
            final(self).wf(),
            match r {
                Ok(()) => caller@ == old(self).reserve_id@ && *final(self) == (Contract {
                    agent_name,
                    ..*old(self)
                }),
                Err(e) => caller@ != old(self).reserve_id@ && e == WagerError::Unauthorized
                    && *final(self) == *old(self),
            },
    {
        if !(*caller == self.reserve_id) {
            return Err(WagerError::Unauthorized);
        }
        self.agent_name = agent_name;
        Ok(())
    }
}

/// Request ids are unique and strictly increasing across any sequence of
/// initiations: an initiation hands out the counter's value and advances it,
/// no operation ever lowers the counter, and a well-formed state never holds
/// a pending request at or above the counter, so a fresh id can collide with
/// nothing stored.
pub proof fn lemma_request_ids_strictly_increase(
    a: Contract,
    b: Contract,
    c: Contract,
    d: Contract,
    id1: RequestId,
    id2: RequestId,
)
    requires
        a.wf(),
        initiation_assigns(a, b, id1),
        c.num_requests >= b.num_requests,
        initiation_assigns(c, d, id2),
    ensures
        id2 > id1,
        !a.requests@.contains_key(id1),
{
    if a.requests@.contains_key(id1) {
        assert(id1 < a.num_requests);
    }
}

} // verus!
