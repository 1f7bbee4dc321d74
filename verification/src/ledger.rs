//! The token ledger: token records, approvals and operator grants.
//!
//! The ledger owns every token record. Its well-formedness ties the global
//! supply counter to the number of stored records and keeps at most one
//! approval per spender on each token; every mutating operation either
//! commits all its writes or leaves the ledger exactly as it was.

use vstd::prelude::*;
use crate::errors::ContractError;
use crate::state::{Approval, BlockInfo, Expiration, TokenInfo};
use crate::msg::{CheckOwnershipResponse, MinterResponse, OwnableTokensResponse};
use crate::strmap::StrMap;

verus! {

/// A grant of all of one account's token rights to an operator.
#[derive(Clone, Debug, PartialEq, Eq)]
pub struct OperatorGrant {
    /// The account whose tokens are covered.
    pub granter: String,
    /// The account acting on the granter's behalf.
    pub operator: String,
    /// When the grant stops being valid.
    pub expires: Expiration,
}

/// No two grants cover the same (granter, operator) pair.
spec fn grants_distinct(s: Seq<OperatorGrant>) -> bool {
    forall|i: int, j: int|
        0 <= i < j < s.len() ==> !(s[i].granter@ == s[j].granter@
            && s[i].operator@ == s[j].operator@)
}

/// The map denoted by a sequence of grants; later grants win.
spec fn grants_map(s: Seq<OperatorGrant>) -> Map<(Seq<char>, Seq<char>), Expiration>
    decreases s.len(),
{
    if s.len() == 0 {
        Map::empty()
    } else {
        grants_map(s.drop_last()).insert(
            (s.last().granter@, s.last().operator@),
            s.last().expires,
        )
    }
}

proof fn lemma_grants_map_contains(s: Seq<OperatorGrant>, k: (Seq<char>, Seq<char>))
    ensures
        grants_map(s).contains_key(k) <==> (exists|i: int|
            0 <= i < s.len() && s[i].granter@ == k.0 && s[i].operator@ == k.1),
    decreases s.len(),
{
    if s.len() > 0 {
        let t = s.drop_last();
        lemma_grants_map_contains(t, k);
        if s.last().granter@ == k.0 && s.last().operator@ == k.1 {
            assert(s[s.len() - 1].granter@ == k.0 && s[s.len() - 1].operator@ == k.1);
        } else {
            if grants_map(s).contains_key(k) {
                let i = choose|i: int|
                    0 <= i < t.len() && t[i].granter@ == k.0 && t[i].operator@ == k.1;
                assert(s[i].granter@ == k.0 && s[i].operator@ == k.1);
            }
            if exists|i: int| 0 <= i < s.len() && s[i].granter@ == k.0
                && s[i].operator@ == k.1 {
                let i = choose|i: int|
                    0 <= i < s.len() && s[i].granter@ == k.0 && s[i].operator@ == k.1;
                assert(i < s.len() - 1);
                assert(t[i].granter@ == k.0 && t[i].operator@ == k.1);
            }
        }
    }
}

proof fn lemma_grants_map_index(s: Seq<OperatorGrant>, i: int)
    requires
        grants_distinct(s),
        0 <= i < s.len(),
    ensures
        grants_map(s).contains_key((s[i].granter@, s[i].operator@)),
        grants_map(s)[(s[i].granter@, s[i].operator@)] == s[i].expires,
    decreases s.len(),
{
    let t = s.drop_last();
    if i < s.len() - 1 {
        assert(grants_distinct(t)) by {
            assert(forall|x: int| 0 <= x < t.len() ==> t[x] == s[x]);
        }
        lemma_grants_map_index(t, i);
        assert(!(s[i].granter@ == s[s.len() - 1].granter@
            && s[i].operator@ == s[s.len() - 1].operator@));
    }
}

proof fn lemma_grants_map_update(s: Seq<OperatorGrant>, i: int, g: OperatorGrant)
    requires
        grants_distinct(s),
        0 <= i < s.len(),
        g.granter@ == s[i].granter@,
        g.operator@ == s[i].operator@,
    ensures
        grants_map(s.update(i, g)) == grants_map(s).insert((g.granter@, g.operator@), g.expires),
        grants_distinct(s.update(i, g)),
    decreases s.len(),
{
    let u = s.update(i, g);
    assert(grants_distinct(u)) by {
        assert(forall|x: int| 0 <= x < u.len()
            ==> (#[trigger] u[x]).granter@ == s[x].granter@ && u[x].operator@ == s[x].operator@);
    }
    let t = s.drop_last();
    let k = (g.granter@, g.operator@);
    if i == s.len() - 1 {
        assert(u.drop_last() =~= t);
        assert(u.last() == g);
        assert(grants_map(t).insert(k, s.last().expires).insert(k, g.expires)
            =~= grants_map(t).insert(k, g.expires));
    } else {
        assert(grants_distinct(t)) by {
            assert(forall|x: int| 0 <= x < t.len() ==> t[x] == s[x]);
        }
        assert(u.drop_last() =~= t.update(i, g));
        assert(u.last() == s.last());
        lemma_grants_map_update(t, i, g);
        let lk = (s.last().granter@, s.last().operator@);
        assert(k != lk);
        assert(grants_map(t).insert(k, g.expires).insert(lk, s.last().expires)
            =~= grants_map(t).insert(lk, s.last().expires).insert(k, g.expires));
    }
}

proof fn lemma_grants_map_remove(s: Seq<OperatorGrant>, i: int)
    requires
        grants_distinct(s),
        0 <= i < s.len(),
    ensures
        grants_map(s.remove(i)) == grants_map(s).remove((s[i].granter@, s[i].operator@)),
        grants_distinct(s.remove(i)),
    decreases s.len(),
{
    let r = s.remove(i);
    assert(grants_distinct(r)) by {
        assert(forall|x: int| 0 <= x < r.len()
            ==> r[x] == (if x < i { s[x] } else { s[x + 1] }));
    }
    let t = s.drop_last();
    let k = (s[i].granter@, s[i].operator@);
    if i == s.len() - 1 {
        assert(r =~= t);
        assert(grants_distinct(t)) by {
            assert(forall|x: int| 0 <= x < t.len() ==> t[x] == s[x]);
        }
        lemma_grants_map_contains(t, k);
        assert(!grants_map(t).contains_key(k)) by {
            assert(forall|x: int| 0 <= x < t.len()
                ==> !((#[trigger] s[x]).granter@ == s[s.len() - 1].granter@
                    && s[x].operator@ == s[s.len() - 1].operator@) && t[x] == s[x]);
        }
        assert(grants_map(t).insert(k, s.last().expires).remove(k) =~= grants_map(t));
    } else {
        assert(grants_distinct(t)) by {
            assert(forall|x: int| 0 <= x < t.len() ==> t[x] == s[x]);
        }
        assert(t[i] == s[i]);
        lemma_grants_map_remove(t, i);
        assert(r.drop_last() =~= t.remove(i));
        assert(r.last() == s.last());
        let lk = (s.last().granter@, s.last().operator@);
        assert(k != lk);
        assert(grants_map(t).remove(k).insert(lk, s.last().expires)
            =~= grants_map(t).insert(lk, s.last().expires).remove(k));
    }
}

/// At most one approval per spender on a token.
pub open spec fn spec_approvals_distinct(s: Seq<Approval>) -> bool {
    forall|i: int, j: int| 0 <= i < j < s.len() ==> s[i].spender@ != s[j].spender@
}

/// The approvals of a token with every approval of one spender removed.
pub open spec fn spec_retain_others(s: Seq<Approval>, spender: Seq<char>) -> Seq<Approval>
    decreases s.len(),
{
    if s.len() == 0 {
        Seq::empty()
    } else if s.last().spender@ == spender {
        spec_retain_others(s.drop_last(), spender)
    } else {
        spec_retain_others(s.drop_last(), spender).push(s.last())
    }
}

proof fn lemma_retain_others(s: Seq<Approval>, spender: Seq<char>)
    requires
        spec_approvals_distinct(s),
    ensures
        spec_approvals_distinct(spec_retain_others(s, spender)),
        forall|i: int| 0 <= i < spec_retain_others(s, spender).len()
            ==> (#[trigger] spec_retain_others(s, spender)[i]).spender@ != spender,
    decreases s.len(),
{
    if s.len() > 0 {
        let t = s.drop_last();
        assert(spec_approvals_distinct(t)) by {
            assert(forall|x: int| 0 <= x < t.len() ==> t[x] == s[x]);
        }
        lemma_retain_others(t, spender);
        if s.last().spender@ != spender {
            let r = spec_retain_others(s, spender);
            let rt = spec_retain_others(t, spender);
            lemma_retain_sub(t, spender);
            assert forall|i: int, j: int| 0 <= i < j < r.len()
                implies r[i].spender@ != r[j].spender@ by {
                if j < r.len() - 1 {
                    assert(r[i] == rt[i] && r[j] == rt[j]);
                } else {
                    let wi = choose|w: int| 0 <= w < t.len() && t[w] == rt[i];
                    assert(s[wi] == rt[i]);
                    assert(s[wi].spender@ != s[s.len() - 1].spender@);
                }
            }
        }
    }
}

/// Every retained approval occurs in the original list.
proof fn lemma_retain_sub(s: Seq<Approval>, spender: Seq<char>)
    ensures
        forall|i: int| 0 <= i < spec_retain_others(s, spender).len()
            ==> exists|w: int| 0 <= w < s.len()
                && #[trigger] s[w] == #[trigger] spec_retain_others(s, spender)[i],
    decreases s.len(),
{
    if s.len() > 0 {
        let t = s.drop_last();
        lemma_retain_sub(t, spender);
        let r = spec_retain_others(s, spender);
        let rt = spec_retain_others(t, spender);
        assert forall|i: int| #![trigger r[i]] 0 <= i < r.len()
            implies exists|w: int| 0 <= w < s.len() && #[trigger] s[w] == r[i] by {
            if s.last().spender@ == spender || i < r.len() - 1 {
                assert(r[i] == rt[i]);
                let w = choose|w: int| 0 <= w < t.len() && t[w] == rt[i];
                assert(s[w] == r[i]);
            } else {
                assert(s[s.len() - 1] == r[i]);
            }
        }
    }
}

/// Whether a token carries an active (non-expired) approval for a spender.
pub open spec fn spec_approval_active(
    token: TokenInfo,
    spender: Seq<char>,
    block: BlockInfo,
) -> bool {
    exists|i: int|
        0 <= i < token.approvals@.len() && (#[trigger] token.approvals@[i]).spender@ == spender
            && !token.approvals@[i].expires.spec_is_expired(block)
}

/// One step of the two-step transfer of the administrator role.
#[derive(Clone, Debug, PartialEq, Eq)]
pub enum OwnershipAction {
    /// Proposes a new administrator, optionally with an acceptance
    /// deadline; the role moves only once the proposed account accepts.
    TransferOwnership { new_owner: String, expiry: Option<Expiration> },
    /// The proposed administrator takes the role over.
    AcceptOwnership,
    /// The administrator steps down for good; the role stays vacant.
    RenounceOwnership,
}

/// The token ledger and contract configuration.
pub struct Cw721Contract {
    contract_name: String,
    contract_symbol: String,
    minter: Option<String>,
    pending_minter: Option<String>,
    pending_expiry: Option<Expiration>,
    token_count: u64,
    tokens: StrMap<TokenInfo>,
    operators: Vec<OperatorGrant>,
}

impl Cw721Contract {
    /// The contract's display name.
    pub closed spec fn spec_name(&self) -> Seq<char> {
        self.contract_name@
    }

    /// The contract's ticker symbol.
    pub closed spec fn spec_symbol(&self) -> Seq<char> {
        self.contract_symbol@
    }

    /// The administrator account, if one is set.
    pub closed spec fn spec_minter(&self) -> Option<String> {
        self.minter
    }

    /// The account proposed to take the administrator role, if any.
    pub closed spec fn spec_pending_minter(&self) -> Option<String> {
        self.pending_minter
    }

    /// The deadline by which the proposed administrator must accept.
    pub closed spec fn spec_pending_expiry(&self) -> Option<Expiration> {
        self.pending_expiry
    }

    /// Whether an account is the administrator.
    pub open spec fn is_minter(&self, sender: Seq<char>) -> bool {
        match self.spec_minter() {
            Some(m) => m@ == sender,
            None => false,
        }
    }

    /// The contract's display name.
    pub fn name(&self) -> (r: &String)
        ensures
            r@ == self.spec_name(),
    {
        &self.contract_name
    }

    /// The contract's ticker symbol.
    pub fn symbol(&self) -> (r: &String)
        ensures
            r@ == self.spec_symbol(),
    {
        &self.contract_symbol
    }

    /// The administrator account, if one is set.
    pub fn minter(&self) -> (r: Option<&String>)
        ensures
            match r {
                Some(m) => self.spec_minter() == Some(*m),
                None => self.spec_minter() is None,
            },
    {
        match &self.minter {
            Some(m) => Some(m),
            None => None,
        }
    }

    /// Checks that the caller is the administrator; fails `NotOwner`
    /// otherwise.
    pub fn assert_owner(&self, sender: &String) -> (r: Result<(), ContractError>)
        ensures
            r is Ok <==> self.is_minter(sender@),
            r is Err ==> r == Err::<(), ContractError>(ContractError::NotOwner {}),
    {
        match &self.minter {
            Some(m) => {
                if *m == *sender {
                    Ok(())
                } else {
                    Err(ContractError::NotOwner {})
                }
            },
            None => Err(ContractError::NotOwner {}),
        }
    }
    /// The token table keyed by token id.
    pub closed spec fn tokens_map(&self) -> Map<Seq<char>, TokenInfo> {
        self.tokens@
    }

    /// The stored token ids, oldest first.
    pub closed spec fn token_ids(&self) -> Seq<Seq<char>> {
        self.tokens.key_seq()
    }

    /// The global token-supply counter.
    pub closed spec fn supply(&self) -> u64 {
        self.token_count
    }

    /// The operator table keyed by (granter, operator).
    pub closed spec fn operator_grants(&self) -> Map<(Seq<char>, Seq<char>), Expiration> {
        grants_map(self.operators@)
    }

    /// Whether an operator holds an active grant from an owner.
    pub open spec fn spec_operator_active(
        &self,
        owner: Seq<char>,
        operator: Seq<char>,
        block: BlockInfo,
    ) -> bool {
        self.operator_grants().contains_key((owner, operator))
            && !self.operator_grants()[(owner, operator)].spec_is_expired(block)
    }

    /// Whether a caller may transfer or burn a token: the owner, a holder
    /// of an active approval, or an active operator of the owner.
    pub open spec fn spec_can_send(
        &self,
        block: BlockInfo,
        sender: Seq<char>,
        token: TokenInfo,
    ) -> bool {
        ||| token.owner@ == sender
        ||| spec_approval_active(token, sender, block)
        ||| self.spec_operator_active(token.owner@, sender, block)
    }

    /// Whether a caller may manage a token's approvals: the owner or an
    /// active operator of the owner.
    pub open spec fn spec_can_approve(
        &self,
        block: BlockInfo,
        sender: Seq<char>,
        token: TokenInfo,
    ) -> bool {
        ||| token.owner@ == sender
        ||| self.spec_operator_active(token.owner@, sender, block)
    }

    /// The contract configuration — name, symbol, administrator and any
    /// pending administrator transfer — is untouched.
    pub open spec fn same_config(&self, other: &Cw721Contract) -> bool {
        &&& self.spec_name() == other.spec_name()
        &&& self.spec_symbol() == other.spec_symbol()
        &&& self.spec_minter() == other.spec_minter()
        &&& self.spec_pending_minter() == other.spec_pending_minter()
        &&& self.spec_pending_expiry() == other.spec_pending_expiry()
    }

    /// Well-formed: unique token ids, the supply counter equal to the
    /// number of records, unique operator pairs, and at most one approval
    /// per spender on each token.
    pub closed spec fn wf(&self) -> bool {
        &&& self.tokens.wf()
        &&& self.token_count as int == self.tokens.key_seq().len()
        &&& grants_distinct(self.operators@)
        &&& forall|k: Seq<char>| #[trigger] self.tokens@.contains_key(k)
            ==> spec_approvals_distinct(self.tokens@[k].approvals@)
    }

    /// The supply counter always equals the number of token records.
    pub proof fn lemma_supply_is_record_count(&self)
        requires
            self.wf(),
        ensures
            self.tokens_map().dom().finite(),
            self.supply() as int == self.tokens_map().dom().len(),
            self.supply() as int == self.token_ids().len(),
    {
        self.tokens.lemma_dom_len();
    }

    /// Token ids enumerate the token table exactly.
    pub proof fn lemma_token_ids(&self)
        requires
            self.wf(),
        ensures
            forall|k: Seq<char>| self.tokens_map().contains_key(k)
                <==> self.token_ids().contains(k),
            forall|i: int, j: int| 0 <= i < j < self.token_ids().len()
                ==> self.token_ids()[i] != self.token_ids()[j],
            forall|i: int| 0 <= i < self.token_ids().len()
                ==> self.tokens_map().contains_key(#[trigger] self.token_ids()[i]),
    {
        self.tokens.lemma_key_seq();
    }

    /// Sets up an empty ledger under a name, symbol and minter.
    pub fn instantiate(name: String, symbol: String, minter: String) -> (r: Self)
        ensures
            r.wf(),
            r.spec_name() == name@,
            r.spec_symbol() == symbol@,
            r.spec_minter() == Some(minter),
            r.tokens_map() == Map::<Seq<char>, TokenInfo>::empty(),
            r.token_ids() == Seq::<Seq<char>>::empty(),
            r.supply() == 0,
            r.operator_grants() == Map::<(Seq<char>, Seq<char>), Expiration>::empty(),
            r.spec_pending_minter() is None,
            r.spec_pending_expiry() is None,
    {
        Cw721Contract {
            contract_name: name,
            contract_symbol: symbol,
            minter: Some(minter),
            pending_minter: None,
            pending_expiry: None,
            token_count: 0,
            tokens: StrMap::new(),
            operators: Vec::new(),
        }
    }

    /// Runs one step of the two-step administrator transfer: propose a
    /// successor (with an optional acceptance deadline), accept a
    /// proposal, or renounce the role. The role only moves when the
    /// proposed account accepts before the deadline.
    pub fn update_ownership(
        &mut self,
        block: &BlockInfo,
        sender: &String,
        action: OwnershipAction,
    ) -> (r: Result<(), ContractError>)
        requires
            old(self).wf(),
        ensures
            final(self).wf(),
            final(self).tokens_map() == old(self).tokens_map(),
            final(self).token_ids() == old(self).token_ids(),
            final(self).supply() == old(self).supply(),
            final(self).operator_grants() == old(self).operator_grants(),
            final(self).spec_name() == old(self).spec_name(),
            final(self).spec_symbol() == old(self).spec_symbol(),
            match r {
                Ok(_) => match action {
                    OwnershipAction::TransferOwnership { new_owner, expiry } => {
                        &&& old(self).is_minter(sender@)
                        &&& final(self).spec_minter() == old(self).spec_minter()
                        &&& final(self).spec_pending_minter() == Some(new_owner)
                        &&& final(self).spec_pending_expiry() == expiry
                    },
                    OwnershipAction::AcceptOwnership => {
                        &&& old(self).spec_pending_minter() is Some
                        &&& old(self).spec_pending_minter()->Some_0@ == sender@
                        &&& (match old(self).spec_pending_expiry() {
                            Some(x) => !x.spec_is_expired(*block),
                            None => true,
                        })
                        &&& final(self).spec_minter() == old(self).spec_pending_minter()
                        &&& final(self).spec_pending_minter() is None
                        &&& final(self).spec_pending_expiry() is None
                    },
                    OwnershipAction::RenounceOwnership => {
                        &&& old(self).is_minter(sender@)
                        &&& final(self).spec_minter() is None
                        &&& final(self).spec_pending_minter() is None
                        &&& final(self).spec_pending_expiry() is None
                    },
                },
                Err(e) => {
                    &&& *final(self) == *old(self)
                    &&& match action {
                        OwnershipAction::TransferOwnership { .. } => {
                            &&& e == (ContractError::NotOwner {})
                            &&& !old(self).is_minter(sender@)
                        },
                        OwnershipAction::AcceptOwnership => {
                            &&& (e == (ContractError::NotFound {})
                                <==> old(self).spec_pending_minter() is None)
                            &&& (e == (ContractError::Unauthorized {}) <==> (
                                old(self).spec_pending_minter() is Some
                                    && old(self).spec_pending_minter()->Some_0@ != sender@))
                            &&& (e == (ContractError::Expired {}) <==> (
                                old(self).spec_pending_minter() is Some
                                    && old(self).spec_pending_minter()->Some_0@ == sender@
                                    && (match old(self).spec_pending_expiry() {
                                    Some(x) => x.spec_is_expired(*block),
                                    None => false,
                                })))
                            &&& (e == (ContractError::NotFound {})
                                || e == (ContractError::Unauthorized {})
                                || e == (ContractError::Expired {}))
                        },
                        OwnershipAction::RenounceOwnership => {
                            &&& e == (ContractError::NotOwner {})
                            &&& !old(self).is_minter(sender@)
                        },
                    }
                },
            },
    {
        match action {
            OwnershipAction::TransferOwnership { new_owner, expiry } => {
                match self.assert_owner(sender) {
                    Ok(_) => {},
                    Err(e) => {
                        return Err(e);
                    },
                }
                self.pending_minter = Some(new_owner);
                self.pending_expiry = expiry;
                Ok(())
            },
            OwnershipAction::AcceptOwnership => {
                let pending = match &self.pending_minter {
                    Some(p) => p,
                    None => {
                        return Err(ContractError::NotFound {});
                    },
                };
                if !(*pending == *sender) {
                    return Err(ContractError::Unauthorized {});
                }
                match &self.pending_expiry {
                    Some(x) => {
                        if x.is_expired(block) {
                            return Err(ContractError::Expired {});
                        }
                    },
                    None => {},
                }
                self.minter = match &self.pending_minter {
                    Some(p) => Some(p.clone()),
                    None => None,
                };
                self.pending_minter = None;
                self.pending_expiry = None;
                Ok(())
            },
            OwnershipAction::RenounceOwnership => {
                match self.assert_owner(sender) {
                    Ok(_) => {},
                    Err(e) => {
                        return Err(e);
                    },
                }
                self.minter = None;
                self.pending_minter = None;
                self.pending_expiry = None;
                Ok(())
            },
        }
    }

    /// The number of live tokens.
    pub fn token_count(&self) -> (r: u64)
        ensures
            r == self.supply(),
    {
        self.token_count
    }

    /// Bumps the supply counter alone; the caller pairs it with a record
    /// insertion to keep the ledger well-formed.
    pub fn increment_tokens(&mut self) -> (r: u64)
        requires
            old(self).supply() < u64::MAX,
        ensures
            r == old(self).supply() + 1,
            final(self).supply() == old(self).supply() + 1,
            final(self).tokens_map() == old(self).tokens_map(),
            final(self).token_ids() == old(self).token_ids(),
            final(self).operator_grants() == old(self).operator_grants(),
            final(self).same_config(old(self)),
    {
        self.token_count = self.token_count + 1;
        self.token_count
    }

    /// Lowers the supply counter alone; the caller pairs it with a record
    /// removal to keep the ledger well-formed.
    pub fn decrement_tokens(&mut self) -> (r: u64)
        requires
            old(self).supply() > 0,
        ensures
            r == old(self).supply() - 1,
            final(self).supply() == old(self).supply() - 1,
            final(self).tokens_map() == old(self).tokens_map(),
            final(self).token_ids() == old(self).token_ids(),
            final(self).operator_grants() == old(self).operator_grants(),
            final(self).same_config(old(self)),
    {
        self.token_count = self.token_count - 1;
        self.token_count
    }

    /// Whether a token record with this id exists.
    pub fn has_token(&self, token_id: &String) -> (r: bool)
        ensures
            r == self.tokens_map().contains_key(token_id@),
    {
        self.tokens.contains_key(token_id)
    }

    /// Loads a token record; fails `NotFound` if the id is absent.
    pub fn get(&self, token_id: &String) -> (r: Result<&TokenInfo, ContractError>)
        requires
            self.wf(),
        ensures
            match r {
                Ok(t) => self.tokens_map().contains_key(token_id@)
                    && *t == self.tokens_map()[token_id@],
                Err(e) => !self.tokens_map().contains_key(token_id@)
                    && e == (ContractError::NotFound {}),
            },
    {
        match self.tokens.get(token_id) {
            Some(t) => Ok(t),
            None => Err(ContractError::NotFound {}),
        }
    }

    /// Creates a token record; fails `Claimed` if the id is taken. The
    /// supply counter moves with the record.
    pub fn create(&mut self, token_id: String, token: TokenInfo) -> (r: Result<
        (),
        ContractError,
    >)
        requires
            old(self).wf(),
            old(self).supply() < u64::MAX,
            spec_approvals_distinct(token.approvals@),
        ensures
            final(self).wf(),
            match r {
                Ok(_) => {
                    &&& !old(self).tokens_map().contains_key(token_id@)
                    &&& final(self).tokens_map() == old(self).tokens_map().insert(
                        token_id@,
                        token,
                    )
                    &&& final(self).token_ids() == old(self).token_ids().push(token_id@)
                    &&& final(self).supply() == old(self).supply() + 1
                    &&& final(self).operator_grants() == old(self).operator_grants()
                    &&& final(self).same_config(old(self))
                },
                Err(e) => {
                    &&& old(self).tokens_map().contains_key(token_id@)
                    &&& e == (ContractError::Claimed {})
                    &&& *final(self) == *old(self)
                },
            },
    {
        if self.tokens.contains_key(&token_id) {
            return Err(ContractError::Claimed {});
        }
        self.tokens.insert(token_id, token);
        self.token_count = self.token_count + 1;
        Ok(())
    }

    /// The position of a grant for a (granter, operator) pair, if any.
    fn find_grant(&self, granter: &String, operator: &String) -> (r: Option<usize>)
        ensures
            match r {
                Some(i) => i < self.operators@.len()
                    && self.operators@[i as int].granter@ == granter@
                    && self.operators@[i as int].operator@ == operator@,
                None => forall|i: int| 0 <= i < self.operators@.len()
                    ==> !((#[trigger] self.operators@[i]).granter@ == granter@
                        && self.operators@[i].operator@ == operator@),
            },
    {
        let n = self.operators.len();
        for i in 0..n
            invariant
                n == self.operators@.len(),
                forall|j: int| 0 <= j < i
                    ==> !((#[trigger] self.operators@[j]).granter@ == granter@
                        && self.operators@[j].operator@ == operator@),
        {
            if self.operators[i].granter == *granter && self.operators[i].operator == *operator {
                return Some(i);
            }
        }
        None
    }

    /// Decides whether the caller may manage a token's approvals: the
    /// owner always may, an operator only while the grant is unexpired.
    pub fn check_can_approve(
        &self,
        block: &BlockInfo,
        sender: &String,
        token: &TokenInfo,
    ) -> (r: Result<(), ContractError>)
        requires
            self.wf(),
        ensures
            r is Ok <==> self.spec_can_approve(*block, sender@, *token),
            r is Err ==> r == Err::<(), ContractError>(ContractError::NotOwner {}),
    {
        if token.owner == *sender {
            return Ok(());
        }
        proof {
            lemma_grants_map_contains(self.operators@, (token.owner@, sender@));
        }
        match self.find_grant(&token.owner, sender) {
            Some(i) => {
                proof {
                    lemma_grants_map_index(self.operators@, i as int);
                }
                if self.operators[i].expires.is_expired(block) {
                    Err(ContractError::NotOwner {})
                } else {
                    Ok(())
                }
            },
            None => Err(ContractError::NotOwner {}),
        }
    }

    /// Decides whether the caller may transfer or burn a token: the
    /// owner, an unexpired approval holder, or an unexpired operator.
    pub fn check_can_send(
        &self,
        block: &BlockInfo,
        sender: &String,
        token: &TokenInfo,
    ) -> (r: Result<(), ContractError>)
        requires
            self.wf(),
        ensures
            r is Ok <==> self.spec_can_send(*block, sender@, *token),
            r is Err ==> r == Err::<(), ContractError>(ContractError::NotOwner {}),
    {
        if token.owner == *sender {
            return Ok(());
        }
        let n = token.approvals.len();
        for i in 0..n
            invariant
                n == token.approvals@.len(),
                forall|j: int| 0 <= j < i
                    ==> !((#[trigger] token.approvals@[j]).spender@ == sender@
                        && !token.approvals@[j].expires.spec_is_expired(*block)),
        {
            let a = &token.approvals[i];
            if a.spender == *sender && !a.is_expired(block) {
                return Ok(());
            }
        }
        proof {
            lemma_grants_map_contains(self.operators@, (token.owner@, sender@));
        }
        match self.find_grant(&token.owner, sender) {
            Some(i) => {
                proof {
                    lemma_grants_map_index(self.operators@, i as int);
                }
                if self.operators[i].expires.is_expired(block) {
                    Err(ContractError::NotOwner {})
                } else {
                    Ok(())
                }
            },
            None => Err(ContractError::NotOwner {}),
        }
    }

    /// Checks that the caller is the stored owner of a token; any other
    /// case, the token's absence included, fails `Unauthorized`.
    pub fn verify_token_ownership(&self, sender: &String, token_id: &String) -> (r: Result<
        (),
        ContractError,
    >)
        requires
            self.wf(),
        ensures
            r is Ok <==> (self.tokens_map().contains_key(token_id@)
                && self.tokens_map()[token_id@].owner@ == sender@),
            r is Err ==> r == Err::<(), ContractError>(ContractError::Unauthorized {}),
    {
        match self.tokens.get(token_id) {
            Some(t) => {
                if t.owner == *sender {
                    Ok(())
                } else {
                    Err(ContractError::Unauthorized {})
                }
            },
            None => Err(ContractError::Unauthorized {}),
        }
    }

    /// Moves a token to a new owner and clears its approvals; the caller
    /// must be authorized to send it.
    pub fn transfer_nft(
        &mut self,
        block: &BlockInfo,
        sender: &String,
        recipient: String,
        token_id: &String,
    ) -> (r: Result<(), ContractError>)
        requires
            old(self).wf(),
        ensures
            final(self).wf(),
            final(self).same_config(old(self)),
            final(self).operator_grants() == old(self).operator_grants(),
            final(self).supply() == old(self).supply(),
            final(self).token_ids() == old(self).token_ids(),
            match r {
                Ok(_) => {
                    &&& old(self).tokens_map().contains_key(token_id@)
                    &&& old(self).spec_can_send(
                        *block,
                        sender@,
                        old(self).tokens_map()[token_id@],
                    )
                    &&& final(self).tokens_map() == old(self).tokens_map().insert(
                        token_id@,
                        final(self).tokens_map()[token_id@],
                    )
                    &&& final(self).tokens_map()[token_id@].owner@ == recipient@
                    &&& final(self).tokens_map()[token_id@].approvals@
                        == Seq::<Approval>::empty()
                    &&& final(self).tokens_map()[token_id@].token_uri
                        == old(self).tokens_map()[token_id@].token_uri
                    &&& final(self).tokens_map()[token_id@].extension
                        == old(self).tokens_map()[token_id@].extension
                },
                Err(e) => {
                    &&& *final(self) == *old(self)
                    &&& (e == (ContractError::NotFound {})
                        <==> !old(self).tokens_map().contains_key(token_id@))
                    &&& (e == (ContractError::NotOwner {}) <==> (
                        old(self).tokens_map().contains_key(token_id@)
                            && !old(self).spec_can_send(
                            *block,
                            sender@,
                            old(self).tokens_map()[token_id@],
                        )))
                    &&& (e == (ContractError::NotFound {}) || e == (ContractError::NotOwner {}))
                },
            },
    {
        let token = match self.tokens.get(token_id) {
            Some(t) => t,
            None => {
                return Err(ContractError::NotFound {});
            },
        };
        match self.check_can_send(block, sender, token) {
            Ok(_) => {},
            Err(e) => {
                return Err(e);
            },
        }
        let updated = TokenInfo {
            owner: recipient,
            approvals: Vec::new(),
            token_uri: clone_opt_string(&token.token_uri),
            extension: clone_opt_string(&token.extension),
        };
        self.tokens.insert(token_id.clone(), updated);
        Ok(())
    }

    /// Replaces or removes the approval of one spender on one token; the
    /// caller must be authorized to manage approvals.
    pub fn _update_approvals(
        &mut self,
        block: &BlockInfo,
        sender: &String,
        spender: String,
        token_id: &String,
        add: bool,
        expires: Option<Expiration>,
    ) -> (r: Result<(), ContractError>)
        requires
            old(self).wf(),
        ensures
            final(self).wf(),
            final(self).same_config(old(self)),
            final(self).operator_grants() == old(self).operator_grants(),
            final(self).supply() == old(self).supply(),
            final(self).token_ids() == old(self).token_ids(),
            match r {
                Ok(_) => {
                    &&& old(self).tokens_map().contains_key(token_id@)
                    &&& old(self).spec_can_approve(
                        *block,
                        sender@,
                        old(self).tokens_map()[token_id@],
                    )
                    &&& final(self).tokens_map() == old(self).tokens_map().insert(
                        token_id@,
                        final(self).tokens_map()[token_id@],
                    )
                    &&& final(self).tokens_map()[token_id@].owner
                        == old(self).tokens_map()[token_id@].owner
                    &&& final(self).tokens_map()[token_id@].token_uri
                        == old(self).tokens_map()[token_id@].token_uri
                    &&& final(self).tokens_map()[token_id@].extension
                        == old(self).tokens_map()[token_id@].extension
                    &&& add ==> {
                        &&& !spec_expiry(expires).spec_is_expired(*block)
                        &&& final(self).tokens_map()[token_id@].approvals@
                            == spec_retain_others(
                            old(self).tokens_map()[token_id@].approvals@,
                            spender@,
                        ).push(
                            Approval { spender: spender, expires: spec_expiry(expires) },
                        )
                    }
                    &&& !add ==> final(self).tokens_map()[token_id@].approvals@
                        == spec_retain_others(
                        old(self).tokens_map()[token_id@].approvals@,
                        spender@,
                    )
                },
                Err(e) => {
                    &&& *final(self) == *old(self)
                    &&& (e == (ContractError::NotFound {})
                        <==> !old(self).tokens_map().contains_key(token_id@))
                    &&& (e == (ContractError::NotOwner {}) <==> (
                        old(self).tokens_map().contains_key(token_id@)
                            && !old(self).spec_can_approve(
                            *block,
                            sender@,
                            old(self).tokens_map()[token_id@],
                        )))
                    &&& (e == (ContractError::Expired {}) <==> (
                        old(self).tokens_map().contains_key(token_id@)
                            && old(self).spec_can_approve(
                            *block,
                            sender@,
                            old(self).tokens_map()[token_id@],
                        ) && add && spec_expiry(expires).spec_is_expired(*block)))
                    &&& (e == (ContractError::NotFound {}) || e == (ContractError::NotOwner {})
                        || e == (ContractError::Expired {}))
                },
            },
    {
        let token = match self.tokens.get(token_id) {
            Some(t) => t,
            None => {
                return Err(ContractError::NotFound {});
            },
        };
        match self.check_can_approve(block, sender, token) {
            Ok(_) => {},
            Err(e) => {
                return Err(e);
            },
        }
        let ghost old_approvals = token.approvals@;
        let n = token.approvals.len();
        let mut kept: Vec<Approval> = Vec::new();
        for i in 0..n
            invariant
                n == token.approvals@.len(),
                token == old(self).tokens_map()[token_id@],
                kept@ == spec_retain_others(token.approvals@.take(i as int), spender@),
        {
            let a = &token.approvals[i];
            proof {
                assert(token.approvals@.take(i + 1).drop_last() =~= token.approvals@.take(
                    i as int,
                ));
                assert(token.approvals@.take(i + 1).last() == token.approvals@[i as int]);
            }
            if !(a.spender == spender) {
                kept.push(clone_approval(a));
            }
        }
        proof {
            assert(token.approvals@.take(n as int) =~= token.approvals@);
        }
        let exp = match expires {
            Some(e) => e,
            None => Expiration::Never,
        };
        if add {
            if exp.is_expired(block) {
                return Err(ContractError::Expired {});
            }
        }
        let owner = token.owner.clone();
        let token_uri = clone_opt_string(&token.token_uri);
        let extension = clone_opt_string(&token.extension);
        let mut approvals = kept;
        if add {
            approvals.push(Approval { spender: spender, expires: exp });
        }
        proof {
            lemma_retain_others(old(self).tokens_map()[token_id@].approvals@, spender@);
        }
        let updated = TokenInfo { owner, approvals, token_uri, extension };
        self.tokens.insert(token_id.clone(), updated);
        Ok(())
    }

    /// Grants or refreshes an approval on a token for a spender.
    pub fn approve(
        &mut self,
        block: &BlockInfo,
        sender: &String,
        spender: String,
        token_id: &String,
        expires: Option<Expiration>,
    ) -> (r: Result<(), ContractError>)
        requires
            old(self).wf(),
        ensures
            final(self).wf(),
            final(self).same_config(old(self)),
            final(self).operator_grants() == old(self).operator_grants(),
            final(self).supply() == old(self).supply(),
            final(self).token_ids() == old(self).token_ids(),
            match r {
                Ok(_) => {
                    &&& old(self).tokens_map().contains_key(token_id@)
                    &&& old(self).spec_can_approve(
                        *block,
                        sender@,
                        old(self).tokens_map()[token_id@],
                    )
                    &&& !spec_expiry(expires).spec_is_expired(*block)
                    &&& final(self).tokens_map() == old(self).tokens_map().insert(
                        token_id@,
                        final(self).tokens_map()[token_id@],
                    )
                    &&& final(self).tokens_map()[token_id@].owner
                        == old(self).tokens_map()[token_id@].owner
                    &&& final(self).tokens_map()[token_id@].approvals@
                        == spec_retain_others(
                        old(self).tokens_map()[token_id@].approvals@,
                        spender@,
                    ).push(Approval { spender: spender, expires: spec_expiry(expires) })
                },
                Err(e) => {
                    &&& *final(self) == *old(self)
                    &&& (e == (ContractError::NotFound {})
                        <==> !old(self).tokens_map().contains_key(token_id@))
                    &&& (e == (ContractError::NotOwner {}) <==> (
                        old(self).tokens_map().contains_key(token_id@)
                            && !old(self).spec_can_approve(
                            *block,
                            sender@,
                            old(self).tokens_map()[token_id@],
                        )))
                    &&& (e == (ContractError::Expired {}) <==> (
                        old(self).tokens_map().contains_key(token_id@)
                            && old(self).spec_can_approve(
                            *block,
                            sender@,
                            old(self).tokens_map()[token_id@],
                        ) && spec_expiry(expires).spec_is_expired(*block)))
                    &&& (e == (ContractError::NotFound {}) || e == (ContractError::NotOwner {})
                        || e == (ContractError::Expired {}))
                },
            },
    {
        self._update_approvals(block, sender, spender, token_id, true, expires)
    }

    /// Removes any approval of a spender on a token.
    pub fn revoke(
        &mut self,
        block: &BlockInfo,
        sender: &String,
        spender: String,
        token_id: &String,
    ) -> (r: Result<(), ContractError>)
        requires
            old(self).wf(),
        ensures
            final(self).wf(),
            final(self).same_config(old(self)),
            final(self).operator_grants() == old(self).operator_grants(),
            final(self).supply() == old(self).supply(),
            final(self).token_ids() == old(self).token_ids(),
            match r {
                Ok(_) => {
                    &&& old(self).tokens_map().contains_key(token_id@)
                    &&& old(self).spec_can_approve(
                        *block,
                        sender@,
                        old(self).tokens_map()[token_id@],
                    )
                    &&& final(self).tokens_map() == old(self).tokens_map().insert(
                        token_id@,
                        final(self).tokens_map()[token_id@],
                    )
                    &&& final(self).tokens_map()[token_id@].owner
                        == old(self).tokens_map()[token_id@].owner
                    &&& final(self).tokens_map()[token_id@].approvals@
                        == spec_retain_others(
                        old(self).tokens_map()[token_id@].approvals@,
                        spender@,
                    )
                },
                Err(e) => {
                    &&& *final(self) == *old(self)
                    &&& (e == (ContractError::NotFound {})
                        <==> !old(self).tokens_map().contains_key(token_id@))
                    &&& (e == (ContractError::NotOwner {}) <==> (
                        old(self).tokens_map().contains_key(token_id@)
                            && !old(self).spec_can_approve(
                            *block,
                            sender@,
                            old(self).tokens_map()[token_id@],
                        )))
                    &&& (e == (ContractError::NotFound {}) || e == (ContractError::NotOwner {}))
                },
            },
    {
        self._update_approvals(block, sender, spender, token_id, false, None)
    }

    /// Grants an operator all of the caller's token rights until expiry;
    /// an already-expired expiry is rejected.
    pub fn approve_all(
        &mut self,
        block: &BlockInfo,
        sender: &String,
        operator: String,
        expires: Option<Expiration>,
    ) -> (r: Result<(), ContractError>)
        requires
            old(self).wf(),
        ensures
            final(self).wf(),
            final(self).same_config(old(self)),
            final(self).tokens_map() == old(self).tokens_map(),
            final(self).token_ids() == old(self).token_ids(),
            final(self).supply() == old(self).supply(),
            match r {
                Ok(_) => {
                    &&& !spec_expiry(expires).spec_is_expired(*block)
                    &&& final(self).operator_grants() == old(self).operator_grants().insert(
                        (sender@, operator@),
                        spec_expiry(expires),
                    )
                },
                Err(e) => {
                    &&& e == (ContractError::Expired {})
                    &&& spec_expiry(expires).spec_is_expired(*block)
                    &&& *final(self) == *old(self)
                },
            },
    {
        let exp = match expires {
            Some(e) => e,
            None => Expiration::Never,
        };
        if exp.is_expired(block) {
            return Err(ContractError::Expired {});
        }
        match self.find_grant(sender, &operator) {
            Some(i) => {
                proof {
                    lemma_grants_map_update(
                        self.operators@,
                        i as int,
                        OperatorGrant {
                            granter: self.operators@[i as int].granter,
                            operator: self.operators@[i as int].operator,
                            expires: exp,
                        },
                    );
                }
                let granter_kept = self.operators[i].granter.clone();
                let operator_kept = self.operators[i].operator.clone();
                let slot = &mut self.operators[i];
                *slot = OperatorGrant {
                    granter: granter_kept,
                    operator: operator_kept,
                    expires: exp,
                };
                proof {
                    lemma_grants_map_update(
                        old(self).operators@,
                        i as int,
                        self.operators@[i as int],
                    );
                }
            },
            None => {
                let ghost s = self.operators@;
                self.operators.push(
                    OperatorGrant { granter: sender.clone(), operator: operator, expires: exp },
                );
                proof {
                    assert(self.operators@.drop_last() =~= s);
                    assert(grants_distinct(self.operators@)) by {
                        assert(forall|x: int| 0 <= x < s.len() ==> self.operators@[x] == s[x]);
                    }
                }
            },
        }
        Ok(())
    }

    /// Withdraws any operator grant from the caller to an operator.
    pub fn revoke_all(&mut self, sender: &String, operator: &String)
        requires
            old(self).wf(),
        ensures
            final(self).wf(),
            final(self).same_config(old(self)),
            final(self).tokens_map() == old(self).tokens_map(),
            final(self).token_ids() == old(self).token_ids(),
            final(self).supply() == old(self).supply(),
            final(self).operator_grants() == old(self).operator_grants().remove(
                (sender@, operator@),
            ),
    {
        proof {
            lemma_grants_map_contains(self.operators@, (sender@, operator@));
        }
        match self.find_grant(sender, operator) {
            Some(i) => {
                proof {
                    lemma_grants_map_remove(self.operators@, i as int);
                }
                let _ = self.operators.remove(i);
            },
            None => {
                proof {
                    assert(grants_map(self.operators@).remove((sender@, operator@))
                        =~= grants_map(self.operators@));
                }
            },
        }
    }

    /// Deletes a token the caller may send, lowering the supply counter.
    pub fn burn(&mut self, block: &BlockInfo, sender: &String, token_id: &String) -> (r: Result<
        (),
        ContractError,
    >)
        requires
            old(self).wf(),
        ensures
            final(self).wf(),
            final(self).same_config(old(self)),
            final(self).operator_grants() == old(self).operator_grants(),
            match r {
                Ok(_) => {
                    &&& old(self).tokens_map().contains_key(token_id@)
                    &&& old(self).spec_can_send(
                        *block,
                        sender@,
                        old(self).tokens_map()[token_id@],
                    )
                    &&& final(self).tokens_map() == old(self).tokens_map().remove(token_id@)
                    &&& final(self).supply() == old(self).supply() - 1
                },
                Err(e) => {
                    &&& *final(self) == *old(self)
                    &&& (e == (ContractError::NotFound {})
                        <==> !old(self).tokens_map().contains_key(token_id@))
                    &&& (e == (ContractError::NotOwner {}) <==> (
                        old(self).tokens_map().contains_key(token_id@)
                            && !old(self).spec_can_send(
                            *block,
                            sender@,
                            old(self).tokens_map()[token_id@],
                        )))
                    &&& (e == (ContractError::NotFound {}) || e == (ContractError::NotOwner {}))
                },
            },
    {
        let token = match self.tokens.get(token_id) {
            Some(t) => t,
            None => {
                return Err(ContractError::NotFound {});
            },
        };
        match self.check_can_send(block, sender, token) {
            Ok(_) => {},
            Err(e) => {
                return Err(e);
            },
        }
        proof {
            self.tokens.lemma_key_seq();
            assert(self.tokens.key_seq().contains(token_id@));
            let w = choose|w: int|
                0 <= w < self.tokens.key_seq().len() && self.tokens.key_seq()[w] == token_id@;
            assert(self.tokens.key_seq().len() > 0);
        }
        self.tokens.remove(token_id);
        self.token_count = self.token_count - 1;
        Ok(())
    }

    /// Removes tokens whose ownership an opening already verified; the
    /// whole batch is removed, or — on an absent or repeated id — nothing.
    pub(crate) fn opening_burn(&mut self, token_ids: &Vec<String>) -> (r: Result<
        (),
        ContractError,
    >)
        requires
            old(self).wf(),
        ensures
            final(self).wf(),
            final(self).same_config(old(self)),
            final(self).operator_grants() == old(self).operator_grants(),
            ((forall|i: int| 0 <= i < token_ids@.len()
                ==> old(self).tokens_map().contains_key((#[trigger] token_ids@[i])@))
                && (forall|x: int, y: int|
                0 <= x < y < token_ids@.len() ==> (#[trigger] token_ids@[x])@
                    != (#[trigger] token_ids@[y])@)) ==> r is Ok,
            match r {
                Ok(_) => {
                    &&& forall|i: int| 0 <= i < token_ids@.len()
                        ==> old(self).tokens_map().contains_key((#[trigger] token_ids@[i])@)
                    &&& forall|k: Seq<char>| #[trigger] final(self).tokens_map().contains_key(k)
                        <==> (old(self).tokens_map().contains_key(k) && !spec_id_in(
                        token_ids@,
                        k,
                    ))
                    &&& forall|k: Seq<char>| final(self).tokens_map().contains_key(k)
                        ==> final(self).tokens_map()[k] == old(self).tokens_map()[k]
                    &&& final(self).supply() == old(self).supply() - token_ids@.len()
                },
                Err(e) => {
                    &&& e == (ContractError::NotFound {})
                    &&& *final(self) == *old(self)
                },
            },
    {
        let n = token_ids.len();
        for i in 0..n
            invariant
                n == token_ids@.len(),
                self.wf(),
                *self == *old(self),
                forall|x: int, y: int| 0 <= x < y < i ==> token_ids@[x]@ != token_ids@[y]@,
                forall|x: int| 0 <= x < i
                    ==> self.tokens_map().contains_key((#[trigger] token_ids@[x])@),
        {
            if !self.tokens.contains_key(&token_ids[i]) {
                return Err(ContractError::NotFound {});
            }
            for j in 0..i
                invariant
                    i < n,
                    n == token_ids@.len(),
                    self.wf(),
                    *self == *old(self),
                    forall|x: int| 0 <= x < j ==> token_ids@[x]@ != token_ids@[i as int]@,
            {
                if token_ids[j] == token_ids[i] {
                    return Err(ContractError::NotFound {});
                }
            }
        }
        let ghost m0 = self.tokens_map();
        let ghost c0 = self.supply();
        for i in 0..n
            invariant
                n == token_ids@.len(),
                self.wf(),
                m0 == old(self).tokens_map(),
                c0 == old(self).supply(),
                self.same_config(old(self)),
                self.operator_grants() == old(self).operator_grants(),
                forall|x: int, y: int| 0 <= x < y < n ==> token_ids@[x]@ != token_ids@[y]@,
                forall|x: int| 0 <= x < n ==> m0.contains_key((#[trigger] token_ids@[x])@),
                forall|k: Seq<char>| #[trigger] self.tokens_map().contains_key(k)
                    <==> (m0.contains_key(k) && !spec_id_in(token_ids@.take(i as int), k)),
                forall|k: Seq<char>| self.tokens_map().contains_key(k)
                    ==> self.tokens_map()[k] == m0[k],
                self.supply() as int == c0 - i,
        {
            proof {
                assert(self.tokens_map().contains_key(token_ids@[i as int]@)) by {
                    assert(!spec_id_in(token_ids@.take(i as int), token_ids@[i as int]@));
                }
                self.tokens.lemma_key_seq();
                assert(self.tokens.key_seq().contains(token_ids@[i as int]@));
                let w = choose|w: int|
                    0 <= w < self.tokens.key_seq().len()
                        && self.tokens.key_seq()[w] == token_ids@[i as int]@;
                assert(self.tokens.key_seq().len() > 0);
            }
            self.tokens.remove(&token_ids[i]);
            self.token_count = self.token_count - 1;
            proof {
                let idk = token_ids@[i as int]@;
                assert forall|k: Seq<char>| #[trigger] self.tokens_map().contains_key(k)
                    <==> (m0.contains_key(k) && !spec_id_in(token_ids@.take(i + 1), k)) by {
                    assert(token_ids@.take(i + 1)[i as int]@ == idk);
                    if spec_id_in(token_ids@.take(i + 1), k) {
                        let w = choose|w: int|
                            0 <= w < token_ids@.take(i + 1).len()
                                && (#[trigger] token_ids@.take(i + 1)[w])@ == k;
                        if w < i {
                            assert(spec_id_in(token_ids@.take(i as int), k)) by {
                                assert(token_ids@.take(i as int)[w]@ == k);
                            }
                        } else {
                            assert(token_ids@[w]@ == k && w == i);
                        }
                    }
                    if spec_id_in(token_ids@.take(i as int), k) {
                        let w = choose|w: int|
                            0 <= w < token_ids@.take(i as int).len()
                                && (#[trigger] token_ids@.take(i as int)[w])@ == k;
                        assert(token_ids@.take(i + 1)[w]@ == k);
                    }
                    if k == idk {
                        assert(spec_id_in(token_ids@.take(i + 1), k)) by {
                            assert(token_ids@.take(i + 1)[i as int]@ == k);
                        }
                    }
                }
            }
        }
        proof {
            assert(token_ids@.take(n as int) =~= token_ids@);
        }
        Ok(())
    }

    /// The owner of a token; fails `NotFound` if the id is absent.
    pub fn owner_of(&self, token_id: &String) -> (r: Result<String, ContractError>)
        requires
            self.wf(),
        ensures
            match r {
                Ok(o) => self.tokens_map().contains_key(token_id@)
                    && o == self.tokens_map()[token_id@].owner,
                Err(e) => !self.tokens_map().contains_key(token_id@)
                    && e == (ContractError::NotFound {}),
            },
    {
        match self.tokens.get(token_id) {
            Some(t) => Ok(t.owner.clone()),
            None => Err(ContractError::NotFound {}),
        }
    }

    /// A token's metadata URI and extension payload; fails `NotFound` if
    /// the id is absent.
    pub fn nft_info(&self, token_id: &String) -> (r: Result<
        (Option<String>, Option<String>),
        ContractError,
    >)
        requires
            self.wf(),
        ensures
            match r {
                Ok(p) => self.tokens_map().contains_key(token_id@)
                    && p.0 == self.tokens_map()[token_id@].token_uri
                    && p.1 == self.tokens_map()[token_id@].extension,
                Err(e) => !self.tokens_map().contains_key(token_id@)
                    && e == (ContractError::NotFound {}),
            },
    {
        match self.tokens.get(token_id) {
            Some(t) => Ok((clone_opt_string(&t.token_uri), clone_opt_string(&t.extension))),
            None => Err(ContractError::NotFound {}),
        }
    }

    /// Who can mint, as a response record.
    pub fn minter_response(&self) -> (r: MinterResponse)
        ensures
            r.minter == self.spec_minter(),
    {
        MinterResponse {
            minter: match &self.minter {
                Some(m) => Some(m.clone()),
                None => None,
            },
        }
    }

    /// The position of the first string reading equal, if any.
    fn find_string(v: &Vec<String>, s: &String) -> (r: Option<usize>)
        ensures
            match r {
                Some(i) => i < v@.len() && v@[i as int]@ == s@ && (forall|x: int|
                    0 <= x < i ==> (#[trigger] v@[x])@ != s@),
                None => forall|x: int| 0 <= x < v@.len() ==> (#[trigger] v@[x])@ != s@,
            },
    {
        let n = v.len();
        for i in 0..n
            invariant
                n == v@.len(),
                forall|x: int| 0 <= x < i ==> (#[trigger] v@[x])@ != s@,
        {
            if v[i] == *s {
                return Some(i);
            }
        }
        None
    }

    /// Lists an owner's token ids in ledger order, starting after a given
    /// id, clipped to the requested page size — the default when unset,
    /// never above the maximum.
    pub fn tokens(&self, owner: &String, start_after: Option<&String>, limit: Option<u32>) -> (r:
        Vec<String>)
        requires
            self.wf(),
        ensures
            ({
                let base = match start_after {
                    Some(s) => spec_after(self.token_ids(), s@),
                    None => self.token_ids(),
                };
                &&& r@.len() <= spec_limit(limit)
                &&& r@.map_values(|t: String| t@) == spec_clip(
                    spec_owned_ids(self.tokens_map(), base, owner@),
                    spec_limit(limit),
                )
            }),
    {
        let lim_u32: u32 = match limit {
            Some(l) => {
                if l > MAX_LIMIT {
                    MAX_LIMIT
                } else {
                    l
                }
            },
            None => DEFAULT_LIMIT,
        };
        let lim = lim_u32 as usize;
        let keys = self.tokens.keys();
        let n = keys.len();
        let ghost allids = self.token_ids();
        let ghost base: Seq<Seq<char>> = match start_after {
            Some(s) => spec_after(self.token_ids(), s@),
            None => self.token_ids(),
        };
        let idx: usize = match start_after {
            Some(s) => {
                match Self::find_string(&keys, s) {
                    Some(p) => {
                        proof {
                            lemma_after_at(allids, s@, p as int);
                        }
                        p + 1
                    },
                    None => {
                        proof {
                            lemma_after_none(allids, s@);
                        }
                        n
                    },
                }
            },
            None => 0,
        };
        proof {
            assert(base =~= allids.skip(idx as int));
        }
        let mut out: Vec<String> = Vec::new();
        let mut i: usize = idx;
        proof {
            assert(allids.subrange(idx as int, idx as int) =~= Seq::<Seq<char>>::empty());
            assert(out@.map_values(|t: String| t@) =~= Seq::<Seq<char>>::empty());
            self.tokens.lemma_key_seq();
        }
        while i < n
            invariant
                idx <= i <= n,
                n == allids.len(),
                self.wf(),
                allids == self.token_ids(),
                keys@.len() == n,
                forall|x: int| 0 <= x < n ==> (#[trigger] keys@[x])@ == allids[x],
                out@.map_values(|t: String| t@) == spec_owned_ids(
                    self.tokens_map(),
                    allids.subrange(idx as int, i as int),
                    owner@,
                ),
            decreases n - i,
        {
            let ghost pre_mv = out@.map_values(|t: String| t@);
            proof {
                self.tokens.lemma_key_seq();
                assert(self.tokens_map().contains_key(allids[i as int]));
                assert(allids.subrange(idx as int, i + 1).drop_last() =~= allids.subrange(
                    idx as int,
                    i as int,
                ));
                assert(allids.subrange(idx as int, i + 1).last() == allids[i as int]);
            }
            let t = match self.tokens.get(&keys[i]) {
                Some(t) => t,
                None => {
                    proof {
                        assert(false);
                    }
                    return out;
                },
            };
            if t.owner == *owner {
                out.push(keys[i].clone());
                proof {
                    assert(out@.map_values(|t2: String| t2@) =~= pre_mv.push(allids[i as int]));
                }
            }
            i = i + 1;
        }
        proof {
            assert(allids.subrange(idx as int, n as int) =~= allids.skip(idx as int));
        }
        let ghost full = out@.map_values(|t: String| t@);
        out.truncate(lim);
        proof {
            let clipped = spec_clip(spec_owned_ids(self.tokens_map(), base, owner@), spec_limit(
                limit,
            ));
            if lim <= full.len() {
                assert(out@.map_values(|t: String| t@) =~= full.take(lim as int));
                assert(full.take(lim as int) =~= clipped);
            } else {
                assert(out@.map_values(|t: String| t@) =~= full);
            }
        }
        out
    }

    /// Whether an owner holds any token minted from one base id.
    fn owns_base(&self, owner: &String, base: &String) -> (r: bool)
        requires
            self.wf(),
        ensures
            r == spec_owns_base(self.tokens_map(), owner@, base@),
    {
        let keys = self.tokens.keys();
        let n = keys.len();
        let ghost allids = self.token_ids();
        proof {
            self.tokens.lemma_key_seq();
        }
        for i in 0..n
            invariant
                n == allids.len(),
                self.wf(),
                allids == self.token_ids(),
                keys@.len() == n,
                forall|x: int| 0 <= x < n ==> (#[trigger] keys@[x])@ == allids[x],
                forall|x: int| 0 <= x < i ==> !(self.tokens_map().contains_key(
                    #[trigger] allids[x],
                ) && self.tokens_map()[allids[x]].owner@ == owner@ && crate::ids::spec_base_of(
                    allids[x],
                ) == base@),
        {
            proof {
                self.tokens.lemma_key_seq();
                assert(self.tokens_map().contains_key(allids[i as int]));
            }
            let t = match self.tokens.get(&keys[i]) {
                Some(t) => t,
                None => {
                    proof {
                        assert(false);
                    }
                    return false;
                },
            };
            if t.owner == *owner {
                let b = crate::ids::base_of(&keys[i]);
                if b == *base {
                    return true;
                }
            }
        }
        proof {
            self.tokens.lemma_key_seq();
            if spec_owns_base(self.tokens_map(), owner@, base@) {
                let k = choose|k: Seq<char>|
                    #![auto]
                    self.tokens_map().contains_key(k) && self.tokens_map()[k].owner@ == owner@
                        && crate::ids::spec_base_of(k) == base@;
                assert(allids.contains(k));
                let x = choose|x: int| 0 <= x < allids.len() && allids[x] == k;
                assert(false);
            }
        }
        false
    }

    /// One flag per queried base id: whether the owner holds any token of
    /// that base.
    pub fn check_ownership(&self, owner: &String, base_ids: &Vec<String>) -> (r:
        CheckOwnershipResponse)
        requires
            self.wf(),
        ensures
            r.ownerships@.len() == base_ids@.len(),
            forall|i: int| 0 <= i < base_ids@.len() ==> r.ownerships@[i] == spec_owns_base(
                self.tokens_map(),
                owner@,
                (#[trigger] base_ids@[i])@,
            ),
    {
        let n = base_ids.len();
        let mut flags: Vec<bool> = Vec::new();
        for i in 0..n
            invariant
                n == base_ids@.len(),
                self.wf(),
                flags@.len() == i,
                forall|x: int| 0 <= x < i ==> flags@[x] == spec_owns_base(
                    self.tokens_map(),
                    owner@,
                    (#[trigger] base_ids@[x])@,
                ),
        {
            let f = self.owns_base(owner, &base_ids[i]);
            flags.push(f);
        }
        CheckOwnershipResponse { ownerships: flags }
    }

    /// Each queried owner paired with the full list of their token ids,
    /// in ledger order.
    pub fn ownable_tokens(&self, owners: &Vec<String>) -> (r: OwnableTokensResponse)
        requires
            self.wf(),
        ensures
            r.tokens@.len() == owners@.len(),
            forall|i: int|
                #![auto]
                0 <= i < owners@.len() ==> r.tokens@[i].0@ == owners@[i]@
                    && r.tokens@[i].1@.map_values(|t: String| t@) == spec_owned_ids(
                    self.tokens_map(),
                    self.token_ids(),
                    owners@[i]@,
                ),
    {
        let n = owners.len();
        let mut entries: Vec<(String, Vec<String>)> = Vec::new();
        for i in 0..n
            invariant
                n == owners@.len(),
                self.wf(),
                entries@.len() == i,
                forall|x: int|
                    #![auto]
                    0 <= x < i ==> entries@[x].0@ == owners@[x]@
                        && entries@[x].1@.map_values(|t: String| t@) == spec_owned_ids(
                        self.tokens_map(),
                        self.token_ids(),
                        owners@[x]@,
                    ),
        {
            let ids = self.owned_all(&owners[i]);
            entries.push((owners[i].clone(), ids));
        }
        OwnableTokensResponse { tokens: entries }
    }

    /// Every token id an owner holds, in ledger order.
    fn owned_all(&self, owner: &String) -> (r: Vec<String>)
        requires
            self.wf(),
        ensures
            r@.map_values(|t: String| t@) == spec_owned_ids(
                self.tokens_map(),
                self.token_ids(),
                owner@,
            ),
    {
        let keys = self.tokens.keys();
        let n = keys.len();
        let ghost allids = self.token_ids();
        let mut out: Vec<String> = Vec::new();
        proof {
            assert(allids.subrange(0, 0) =~= Seq::<Seq<char>>::empty());
            assert(out@.map_values(|t: String| t@) =~= Seq::<Seq<char>>::empty());
            self.tokens.lemma_key_seq();
        }
        for i in 0..n
            invariant
                n == allids.len(),
                self.wf(),
                allids == self.token_ids(),
                keys@.len() == n,
                forall|x: int| 0 <= x < n ==> (#[trigger] keys@[x])@ == allids[x],
                out@.map_values(|t: String| t@) == spec_owned_ids(
                    self.tokens_map(),
                    allids.subrange(0, i as int),
                    owner@,
                ),
        {
            let ghost pre_mv = out@.map_values(|t: String| t@);
            proof {
                self.tokens.lemma_key_seq();
                assert(self.tokens_map().contains_key(allids[i as int]));
                assert(allids.subrange(0, i + 1).drop_last() =~= allids.subrange(0, i as int));
                assert(allids.subrange(0, i + 1).last() == allids[i as int]);
            }
            let t = match self.tokens.get(&keys[i]) {
                Some(t) => t,
                None => {
                    proof {
                        assert(false);
                    }
                    return out;
                },
            };
            if t.owner == *owner {
                out.push(keys[i].clone());
                proof {
                    assert(out@.map_values(|t2: String| t2@) =~= pre_mv.push(allids[i as int]));
                }
            }
        }
        proof {
            assert(allids.subrange(0, n as int) =~= allids);
        }
        out
    }
}

/// The default page size of token enumeration.
pub const DEFAULT_LIMIT: u32 = 30;

/// The largest page size token enumeration grants.
pub const MAX_LIMIT: u32 = 100;

/// The ids, in ledger order, of the tokens an owner holds.
pub open spec fn spec_owned_ids(
    m: Map<Seq<char>, TokenInfo>,
    ids: Seq<Seq<char>>,
    owner: Seq<char>,
) -> Seq<Seq<char>>
    decreases ids.len(),
{
    if ids.len() == 0 {
        Seq::empty()
    } else {
        let rest = spec_owned_ids(m, ids.drop_last(), owner);
        if m.contains_key(ids.last()) && m[ids.last()].owner@ == owner {
            rest.push(ids.last())
        } else {
            rest
        }
    }
}

/// Everything after the first occurrence of `s`; empty if `s` is absent.
pub open spec fn spec_after(ids: Seq<Seq<char>>, s: Seq<char>) -> Seq<Seq<char>>
    decreases ids.len(),
{
    if ids.len() == 0 {
        Seq::empty()
    } else if ids.first() == s {
        ids.drop_first()
    } else {
        spec_after(ids.drop_first(), s)
    }
}

/// A sequence clipped to at most `lim` elements.
pub open spec fn spec_clip(s: Seq<Seq<char>>, lim: int) -> Seq<Seq<char>> {
    if s.len() <= lim {
        s
    } else {
        s.take(lim)
    }
}

/// The page size a request resolves to: the default when unset, never
/// above the maximum.
pub open spec fn spec_limit(limit: Option<u32>) -> int {
    let l = match limit {
        Some(l) => l,
        None => DEFAULT_LIMIT,
    };
    if l > MAX_LIMIT {
        MAX_LIMIT as int
    } else {
        l as int
    }
}

/// Whether an owner holds any token minted from a base id.
pub open spec fn spec_owns_base(
    m: Map<Seq<char>, TokenInfo>,
    owner: Seq<char>,
    base: Seq<char>,
) -> bool {
    exists|k: Seq<char>|
        #![auto]
        m.contains_key(k) && m[k].owner@ == owner && crate::ids::spec_base_of(k) == base
}

/// The owner index is derived from the primary map, so the two can never
/// disagree: an id stands in an owner's list exactly when a live record
/// under that id names that owner. In particular a burned token is gone
/// from every owner's list the moment its record is gone.
pub proof fn lemma_owner_index_consistent(
    m: Map<Seq<char>, TokenInfo>,
    ids: Seq<Seq<char>>,
    owner: Seq<char>,
    k: Seq<char>,
)
    ensures
        spec_owned_ids(m, ids, owner).contains(k) <==> (ids.contains(k) && m.contains_key(k)
            && m[k].owner@ == owner),
    decreases ids.len(),
{
    if ids.len() > 0 {
        let t = ids.drop_last();
        lemma_owner_index_consistent(m, t, owner, k);
        let owned = spec_owned_ids(m, ids, owner);
        let rest = spec_owned_ids(m, t, owner);
        if owned.contains(k) {
            let w = choose|w: int| 0 <= w < owned.len() && owned[w] == k;
            if w < rest.len() {
                assert(rest[w] == k);
                assert(t.contains(k));
                let x = choose|x: int| 0 <= x < t.len() && t[x] == k;
                assert(ids[x] == k);
            } else {
                assert(k == ids.last());
                assert(ids[ids.len() - 1] == k);
            }
        }
        if ids.contains(k) && m.contains_key(k) && m[k].owner@ == owner {
            let x = choose|x: int| 0 <= x < ids.len() && ids[x] == k;
            if x < ids.len() - 1 {
                assert(t[x] == k);
                let w = choose|w: int| 0 <= w < rest.len() && rest[w] == k;
                assert(owned[w] == k);
            } else {
                assert(owned.contains(k)) by {
                    assert(owned[owned.len() - 1] == k);
                }
            }
        }
    }
}

proof fn lemma_after_at(ids: Seq<Seq<char>>, s: Seq<char>, p: int)
    requires
        0 <= p < ids.len(),
        ids[p] == s,
        forall|x: int| 0 <= x < p ==> ids[x] != s,
    ensures
        spec_after(ids, s) == ids.skip(p + 1),
    decreases p,
{
    if p == 0 {
        assert(spec_after(ids, s) =~= ids.skip(1));
    } else {
        assert(ids.first() != s);
        let rest = ids.drop_first();
        assert(rest[p - 1] == ids[p]);
        assert(forall|x: int| 0 <= x < p - 1 ==> (#[trigger] rest[x]) == ids[x + 1]);
        lemma_after_at(rest, s, p - 1);
        assert(rest.skip(p) =~= ids.skip(p + 1));
    }
}

proof fn lemma_after_none(ids: Seq<Seq<char>>, s: Seq<char>)
    requires
        forall|x: int| 0 <= x < ids.len() ==> ids[x] != s,
    ensures
        spec_after(ids, s) == Seq::<Seq<char>>::empty(),
    decreases ids.len(),
{
    if ids.len() > 0 {
        let rest = ids.drop_first();
        assert(forall|x: int| 0 <= x < rest.len() ==> (#[trigger] rest[x]) == ids[x + 1]);
        lemma_after_none(rest, s);
    }
}

/// Whether any of the ids reads as the given key.
pub open spec fn spec_id_in(ids: Seq<String>, k: Seq<char>) -> bool {
    exists|i: int| 0 <= i < ids.len() && (#[trigger] ids[i])@ == k
}

/// The expiry an optional expiration stands for; absent means never.
pub open spec fn spec_expiry(e: Option<Expiration>) -> Expiration {
    match e {
        Some(x) => x,
        None => Expiration::Never,
    }
}

/// Clones an optional string, value for value.
fn clone_opt_string(s: &Option<String>) -> (r: Option<String>)
    ensures
        r == *s,
{
    match s {
        Some(x) => Some(x.clone()),
        None => None,
    }
}

/// Clones an approval, value for value.
fn clone_approval(a: &Approval) -> (r: Approval)
    ensures
        r == *a,
{
    Approval { spender: a.spender.clone(), expires: a.expires }
}

} // verus!
