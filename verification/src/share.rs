//! The standalone broker: a separate component that keeps one token per
//! principal and hands each principal its own token only.

use vstd::prelude::*;
use crate::install::{install_plan, plan, step_views, Component, Found, Step};
use crate::principal::Principal;
use crate::store::Store;
use crate::token::{sentinel_view, Token, TokenView};
use crate::entry_points::{
    names_distinct, views, Access, AccessView, EntryKind, EntryPointDecl, EntryPointView,
    ParameterDecl, ParameterView, ValueType,
};

verus! {

/// Name of the entry point that returns the caller's token.
pub open spec fn retrieve_name() -> Seq<char> {
    "retrieve_uref"@
}

/// Name of the entry point that records a token for a principal.
pub open spec fn store_name() -> Seq<char> {
    "store_uref"@
}

/// The entry points of the standalone broker: reading takes no argument and
/// returns a token; storing takes a token and a public key and returns
/// nothing. Both are public and run in the broker's own context.
pub open spec fn entry_point_table() -> Seq<EntryPointView> {
    seq![
        EntryPointView {
            name: retrieve_name(),
            params: seq![],
            ret: ValueType::Token,
            access: AccessView::Public,
            kind: EntryKind::Contract,
        },
        EntryPointView {
            name: store_name(),
            params: seq![
                ParameterView { name: "uref"@, value_type: ValueType::Token },
                ParameterView { name: "account_pubkey"@, value_type: ValueType::PublicKey },
            ],
            ret: ValueType::Unit,
            access: AccessView::Public,
            kind: EntryKind::Contract,
        },
    ]
}

/// The two names of the table differ.
pub proof fn lemma_table_names_distinct()
    ensures
        names_distinct(entry_point_table()),
{
    reveal_strlit("retrieve_uref");
    reveal_strlit("store_uref");
    assert("retrieve_uref"@.len() != "store_uref"@.len());
}

/// Returns the entry points of the standalone broker.
pub fn get_entry_points() -> (eps: Vec<EntryPointDecl>)
    ensures
        views(eps@) == entry_point_table(),
        names_distinct(views(eps@)),
        forall|i: int| 0 <= i < eps.len() ==> (#[trigger] eps[i])@.access == AccessView::Public,
{
    let mut eps: Vec<EntryPointDecl> = Vec::new();
    let retrieve = EntryPointDecl::new(
        "retrieve_uref",
        Vec::new(),
        ValueType::Token,
        Access::Public,
        EntryKind::Contract,
    );
    assert(retrieve@.params =~= seq![]);
    eps.push(retrieve);
    let mut params: Vec<ParameterDecl> = Vec::new();
    params.push(ParameterDecl::new("uref", ValueType::Token));
    params.push(ParameterDecl::new("account_pubkey", ValueType::PublicKey));
    let store = EntryPointDecl::new(
        "store_uref",
        params,
        ValueType::Unit,
        Access::Public,
        EntryKind::Contract,
    );
    assert(store@.params =~= entry_point_table()[1].params);
    eps.push(store);
    proof {
        assert(views(eps@) =~= entry_point_table());
        lemma_table_names_distinct();
    }
    eps
}

/// One grant: the token meant for a principal.
#[derive(Clone, Copy, Debug)]
pub struct Record {
    pub principal: Principal,
    pub token: Token,
}

/// The standalone broker: at most one token per principal.
pub struct ShareBroker {
    store: Store<Token>,
}

/// What `retrieve` hands to `caller`: its record, else the sentinel.
pub open spec fn retrieved(records: Map<Seq<u8>, Token>, caller: Seq<u8>) -> TokenView {
    if records.dom().contains(caller) {
        records[caller]@
    } else {
        sentinel_view()
    }
}

/// The records after the grants were stored one after the other, the
/// first grant first.
pub open spec fn stored_all(records: Map<Seq<u8>, Token>, grants: Seq<Record>) -> Map<
    Seq<u8>,
    Token,
>
    decreases grants.len(),
{
    if grants.len() == 0 {
        records
    } else {
        stored_all(records, grants.drop_last()).insert(grants.last().principal@, grants.last().token)
    }
}

impl ShareBroker {
    /// The invariant of the records; every operation keeps it.
    pub closed spec fn well_formed(&self) -> bool {
        self.store.well_formed()
    }

    /// The records as a map from a principal's account hash to its token.
    pub closed spec fn view(&self) -> Map<Seq<u8>, Token> {
        self.store@
    }

    /// A broker without records.
    pub fn new() -> (broker: ShareBroker)
        ensures
            broker.well_formed(),
            broker@ == Map::<Seq<u8>, Token>::empty(),
    {
        ShareBroker { store: Store::new() }
    }

    /// Records `token` for `principal`, replacing what was recorded for it
    /// before. Every other principal's record stays as it was.
    pub fn store(&mut self, token: Token, principal: Principal)
        requires
            old(self).well_formed(),
        ensures
            final(self).well_formed(),
            final(self)@ == old(self)@.insert(principal@, token),
    {
        self.store.set_key(principal, token);
    }

    /// Looks the caller's record up. `None` where nothing was ever stored
    /// for the caller: a missing record and a stored sentinel stay apart.
    pub fn lookup(&self, caller: &Principal) -> (found: Option<Token>)
        requires
            self.well_formed(),
        ensures
            found matches Some(t) ==> self@.dom().contains(caller@) && self@[caller@] == t,
            found is None <==> !self@.dom().contains(caller@),
    {
        match self.store.get_key(caller) {
            Some(token) => Some(*token),
            None => None,
        }
    }

    /// Returns the token stored for the caller's own identity, or the
    /// sentinel where none was ever stored. The caller names no one but
    /// itself, so no other principal's token is handed out.
    pub fn retrieve(&self, caller: &Principal) -> (token: Token)
        requires
            self.well_formed(),
        ensures
            token@ == retrieved(self@, caller@),
            self@.dom().contains(caller@) ==> token == self@[caller@],
    {
        match self.lookup(caller) {
            Some(token) => token,
            None => Token::sentinel(),
        }
    }

    /// Stores every grant, in order: what setup does with the tokens it
    /// hands out.
    pub fn distribute(&mut self, grants: &Vec<Record>)
        requires
            old(self).well_formed(),
        ensures
            final(self).well_formed(),
            final(self)@ == stored_all(old(self)@, grants@),
    {
        let mut i: usize = 0;
        while i < grants.len()
            invariant
                i <= grants.len(),
                self.well_formed(),
                self@ == stored_all(old(self)@, grants@.take(i as int)),
            decreases grants.len() - i,
        {
            assert(grants@.take(i + 1).drop_last() =~= grants@.take(i as int));
            self.store(grants[i].token, grants[i].principal);
            i += 1;
        }
        assert(grants@.take(grants.len() as int) =~= grants@);
    }
}

/// The name under which the standalone broker is installed.
pub open spec fn component_name() -> Seq<char> {
    "uref-share"@
}

/// Plans the installation or upgrade of the standalone broker under `name`.
/// `found` is what the lookup of the package-hash name gave: a package that
/// is found is reused, a missing one is created and registered, and over a
/// registration that is no hash nothing is planned.
pub fn install_or_upgrade_contract(name: String, found: Found) -> (steps: Option<Vec<Step>>)
    ensures
        steps is Some <==> found != Found::Other,
        steps matches Some(s) ==> Some(step_views(s@)) == install_plan(
            name@,
            found,
            Component::Share,
        ),
{
    plan(name.as_str(), found, Component::Share)
}

/// The entry point of the installer: installs or upgrades the standalone broker
/// under its own name.
pub fn call(found: Found) -> (steps: Option<Vec<Step>>)
    ensures
        steps is Some <==> found != Found::Other,
        steps matches Some(s) ==> Some(step_views(s@)) == install_plan(
            component_name(),
            found,
            Component::Share,
        ),
{
    install_or_upgrade_contract(String::from_str("uref-share"), found)
}

/// What a principal retrieves is its own record or the sentinel, whatever
/// is stored for anyone else: with no record of its own it gets the
/// sentinel, and a token stored for another principal changes nothing for
/// it.
pub proof fn lemma_retrieve_is_self_scoped(
    records: Map<Seq<u8>, Token>,
    caller: Seq<u8>,
    other: Seq<u8>,
    token: Token,
)
    requires
        other != caller,
    ensures
        !records.dom().contains(caller) ==> retrieved(records, caller) == sentinel_view(),
        retrieved(records.insert(other, token), caller) == retrieved(records, caller),
{
}

/// Storing grants gives a record to exactly the principals they name, and
/// to those that had one: a principal that no grant names and that had no
/// record has none afterwards.
pub proof fn lemma_stored_all_domain(records: Map<Seq<u8>, Token>, grants: Seq<Record>)
    ensures
        forall|key: Seq<u8>| #[trigger]
            stored_all(records, grants).dom().contains(key) <==> (records.dom().contains(key)
                || exists|i: int| 0 <= i < grants.len() && (#[trigger] grants[i]).principal@ == key),
    decreases grants.len(),
{
    if grants.len() > 0 {
        let head = grants.drop_last();
        lemma_stored_all_domain(records, head);
        assert forall|key: Seq<u8>| #[trigger]
            stored_all(records, grants).dom().contains(key) implies (records.dom().contains(key)
            || exists|i: int| 0 <= i < grants.len() && (#[trigger] grants[i]).principal@ == key) by {
            if key == grants.last().principal@ {
                assert(grants[grants.len() - 1].principal@ == key);
            } else if !records.dom().contains(key) {
                assert(stored_all(records, head).dom().contains(key));
                let i = choose|i: int| 0 <= i < head.len() && (#[trigger] head[i]).principal@ == key;
                assert(grants[i].principal@ == key);
            }
        }
        assert forall|key: Seq<u8>|
            (records.dom().contains(key) || exists|i: int|
                0 <= i < grants.len() && (#[trigger] grants[i]).principal@ == key) implies #[trigger]
            stored_all(records, grants).dom().contains(key) by {
            if key != grants.last().principal@ {
                if !records.dom().contains(key) {
                    let i = choose|i: int|
                        0 <= i < grants.len() && (#[trigger] grants[i]).principal@ == key;
                    assert(head[i].principal@ == key);
                }
                assert(stored_all(records, head).dom().contains(key));
            }
        }
    }
}

/// After grants were stored, every record is either an earlier record or
/// the token of a grant made out to that principal.
pub proof fn lemma_stored_all_values(records: Map<Seq<u8>, Token>, grants: Seq<Record>)
    ensures
        forall|key: Seq<u8>| #[trigger]
            stored_all(records, grants).dom().contains(key) ==> (records.dom().contains(key)
                && stored_all(records, grants)[key] == records[key]) || exists|i: int|
                0 <= i < grants.len() && (#[trigger] grants[i]).principal@ == key && grants[i].token
                    == stored_all(records, grants)[key],
    decreases grants.len(),
{
    if grants.len() > 0 {
        let head = grants.drop_last();
        lemma_stored_all_values(records, head);
        assert forall|key: Seq<u8>| #[trigger]
            stored_all(records, grants).dom().contains(key) implies (records.dom().contains(key)
            && stored_all(records, grants)[key] == records[key]) || exists|i: int|
            0 <= i < grants.len() && (#[trigger] grants[i]).principal@ == key && grants[i].token
                == stored_all(records, grants)[key] by {
            if key == grants.last().principal@ {
                assert(grants[grants.len() - 1].principal@ == key);
            } else {
                assert(stored_all(records, head).dom().contains(key));
                if !(records.dom().contains(key) && stored_all(records, head)[key]
                    == records[key]) {
                    let i = choose|i: int|
                        0 <= i < head.len() && (#[trigger] head[i]).principal@ == key
                            && head[i].token == stored_all(records, head)[key];
                    assert(grants[i].principal@ == key);
                }
            }
        }
    }
}

/// A token that no grant carries and that the records did not hold is not
/// in the records after the grants were stored. So the token that the
/// issuing authority retains never appears at the broker.
pub proof fn lemma_retained_never_stored(
    records: Map<Seq<u8>, Token>,
    grants: Seq<Record>,
    retained: Token,
)
    requires
        forall|key: Seq<u8>| records.dom().contains(key) ==> #[trigger] records[key] != retained,
        forall|i: int| 0 <= i < grants.len() ==> (#[trigger] grants[i]).token != retained,
    ensures
        forall|key: Seq<u8>| #[trigger]
            stored_all(records, grants).dom().contains(key) ==> stored_all(records, grants)[key]
                != retained,
{
    lemma_stored_all_values(records, grants);
}

/// Whether a grant is made out to `key`.
pub open spec fn names(grants: Seq<Record>, key: Seq<u8>) -> bool {
    exists|i: int| 0 <= i < grants.len() && (#[trigger] grants[i]).principal@ == key
}

/// Whether a grant made out to `key` carries `token`.
pub open spec fn granted_to(grants: Seq<Record>, key: Seq<u8>, token: Token) -> bool {
    exists|i: int|
        0 <= i < grants.len() && (#[trigger] grants[i]).principal@ == key && grants[i].token
            == token
}

/// After grants were stored, the record of a principal that a grant names
/// is the token of a grant made out to it, whatever it held before.
pub proof fn lemma_stored_all_granted(
    records: Map<Seq<u8>, Token>,
    grants: Seq<Record>,
    key: Seq<u8>,
)
    requires
        names(grants, key),
    ensures
        stored_all(records, grants).dom().contains(key),
        granted_to(grants, key, stored_all(records, grants)[key]),
    decreases grants.len(),
{
    let head = grants.drop_last();
    let last = grants.len() - 1;
    if key == grants[last].principal@ {
        assert(grants[last].principal@ == key && grants[last].token == stored_all(
            records,
            grants,
        )[key]);
    } else {
        let i = choose|i: int| 0 <= i < grants.len() && (#[trigger] grants[i]).principal@ == key;
        assert(head[i].principal@ == key);
        lemma_stored_all_granted(records, head, key);
        let j = choose|j: int|
            0 <= j < head.len() && (#[trigger] head[j]).principal@ == key && head[j].token
                == stored_all(records, head)[key];
        assert(grants[j].principal@ == key && grants[j].token == stored_all(records, grants)[key]);
    }
}

} // verus!
