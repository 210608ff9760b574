//! The protected resource with a standalone broker: setup hands each
//! authorized principal's token to the broker one by one, and a principal
//! later fetches its own token from there.

use vstd::prelude::*;
use crate::install::{install_plan, plan, step_views, Component, Found, Step};
use crate::entry_points::{
    group_only, names_distinct, views, Access, AccessView, EntryKind, EntryPointDecl,
    EntryPointView, ParameterDecl, ParameterView, ValueType,
};
use crate::group::{
    can_invoke, distributed, lemma_distributed_in_group, lemma_holder_is_admitted, mint_group,
    valid_group, Context,
};
use crate::principal::Principal;
use crate::resource::{admin_group, check_grant};
use crate::share::{
    lemma_retained_never_stored, lemma_stored_all_domain, lemma_stored_all_granted, retrieved,
    stored_all, Record, ShareBroker,
};
use crate::signal::Signal;
use crate::token::{is_sentinel_view, Token};

verus! {

/// Name of the gated entry point.
pub open spec fn gated_name() -> Seq<char> {
    "group_access_only"@
}

/// Name of the entry point by which a principal activates its access.
pub open spec fn activate_name() -> Seq<char> {
    "get_access"@
}

/// The entry points of the resource: the gated operation, open to holders
/// of a token of the admin group only, and the public activation, which
/// runs in the caller's own context and is told where the broker is.
pub open spec fn entry_point_table() -> Seq<EntryPointView> {
    seq![
        EntryPointView {
            name: gated_name(),
            params: seq![],
            ret: ValueType::Token,
            access: group_only(admin_group()),
            kind: EntryKind::Contract,
        },
        EntryPointView {
            name: activate_name(),
            params: seq![ParameterView { name: "share_contract"@, value_type: ValueType::Token }],
            ret: ValueType::Unit,
            access: AccessView::Public,
            kind: EntryKind::Session,
        },
    ]
}

/// The two names of the table differ.
pub proof fn lemma_table_names_distinct()
    ensures
        names_distinct(entry_point_table()),
{
    reveal_strlit("group_access_only");
    reveal_strlit("get_access");
    assert("group_access_only"@.len() != "get_access"@.len());
}

/// Returns the entry points of the resource, the gated one under group
/// security.
pub fn get_entry_points() -> (eps: Vec<EntryPointDecl>)
    ensures
        views(eps@) == entry_point_table(),
        names_distinct(views(eps@)),
        forall|i: int|
            0 <= i < eps.len() ==> ((#[trigger] eps[i])@.access != AccessView::Public
                <==> eps[i]@.name == gated_name()),
{
    let mut eps: Vec<EntryPointDecl> = Vec::new();
    let gated = EntryPointDecl::new(
        "group_access_only",
        Vec::new(),
        ValueType::Token,
        Access::group("admin"),
        EntryKind::Contract,
    );
    assert(gated@.params =~= seq![]);
    eps.push(gated);
    let mut params: Vec<ParameterDecl> = Vec::new();
    params.push(ParameterDecl::new("share_contract", ValueType::Token));
    let activate = EntryPointDecl::new(
        "get_access",
        params,
        ValueType::Unit,
        Access::Public,
        EntryKind::Session,
    );
    assert(activate@.params =~= entry_point_table()[1].params);
    eps.push(activate);
    proof {
        assert(views(eps@) =~= entry_point_table());
        lemma_table_names_distinct();
        assert(views(eps@)[0] == eps[0]@);
        assert(views(eps@)[1] == eps[1]@);
    }
    eps
}

/// What setup does with a minted group: the token the authority keeps for
/// itself and the grants to store with the broker, one per principal.
#[derive(Debug)]
pub struct AccessPlan {
    pub retained: Token,
    pub grants: Vec<Record>,
}

/// Matches principals and tokens position by position.
pub open spec fn paired(principals: Seq<Principal>, tokens: Seq<Token>) -> Seq<Record> {
    Seq::new(principals.len(), |i: int| Record { principal: principals[i], token: tokens[i] })
}

/// Plans the distribution of a freshly minted group among the authorized
/// principals. The group must be valid and one token larger than the list
/// of principals, else nothing is planned. The authority retains the last
/// minted token; it is matched with no principal.
pub fn prepare_access(principals: &Vec<Principal>, minted: Vec<Token>) -> (plan: Option<
    AccessPlan,
>)
    ensures
        plan is Some <==> valid_group(minted@) && minted.len() == principals.len() + 1,
        plan matches Some(p) ==> {
            &&& p.retained == minted@.last()
            &&& p.grants@ == paired(principals@, distributed(minted@))
            &&& forall|i: int| 0 <= i < p.grants.len() ==> (#[trigger] p.grants[i]).token != p.retained
        },
{
    let ghost all = minted@;
    match mint_group(principals.len(), minted) {
        None => None,
        Some(grants) => {
            let mut records: Vec<Record> = Vec::new();
            let mut i: usize = 0;
            while i < principals.len()
                invariant
                    i <= principals.len(),
                    grants.distributable.len() == principals.len(),
                    records.len() == i,
                    forall|k: int|
                        0 <= k < i ==> records[k] == (Record {
                            principal: principals[k],
                            token: grants.distributable[k],
                        }),
                decreases principals.len() - i,
            {
                records.push(Record { principal: principals[i], token: grants.distributable[i] });
                i += 1;
            }
            proof {
                assert(records@ =~= paired(principals@, distributed(all)));
                assert forall|k: int| 0 <= k < records.len() implies (#[trigger] records[k]).token
                    != grants.retained by {
                    assert(grants.distributable[k] == records[k].token);
                }
            }
            Some(AccessPlan { retained: grants.retained, grants: records })
        },
    }
}

/// Activates the caller's access: fetches the caller's own token from the
/// broker and takes it into the caller's context. A caller for whom the
/// broker holds nothing, or the sentinel, is denied and its context stays
/// as it was.
pub fn activate_access(broker: &ShareBroker, caller: &Principal, ctx: &mut Context) -> (done:
    Result<(), Signal>)
    requires
        broker.well_formed(),
    ensures
        is_sentinel_view(retrieved(broker@, caller@)) ==> {
            &&& done == Err::<(), Signal>(Signal::NoGrant)
            &&& final(ctx)@ == old(ctx)@
        },
        !is_sentinel_view(retrieved(broker@, caller@)) ==> {
            &&& done is Ok
            &&& final(ctx)@.len() == old(ctx)@.len() + 1
            &&& final(ctx)@.drop_last() == old(ctx)@
            &&& final(ctx)@.last()@ == retrieved(broker@, caller@)
        },
{
    match check_grant(broker.retrieve(caller)) {
        Err(signal) => Err(signal),
        Ok(token) => {
            ctx.receive(token);
            assert(ctx@.drop_last() =~= old(ctx)@);
            Ok(())
        },
    }
}

/// The name under which the resource is installed.
pub open spec fn component_name() -> Seq<char> {
    "locked"@
}

/// Plans the installation or upgrade of the resource under `name`.
/// `found` is what the lookup of the package-hash name gave: a package that
/// is found is reused, a missing one is created and registered, and over a
/// registration that is no hash nothing is planned.
pub fn install_or_upgrade_contract(name: String, found: Found) -> (steps: Option<Vec<Step>>)
    ensures
        steps is Some <==> found != Found::Other,
        steps matches Some(s) ==> Some(step_views(s@)) == install_plan(
            name@,
            found,
            Component::Locked,
        ),
{
    plan(name.as_str(), found, Component::Locked)
}

/// The entry point of the installer: installs or upgrades the resource
/// under its own name.
pub fn call(found: Found) -> (steps: Option<Vec<Step>>)
    ensures
        steps is Some <==> found != Found::Other,
        steps matches Some(s) ==> Some(step_views(s@)) == install_plan(
            component_name(),
            found,
            Component::Locked,
        ),
{
    install_or_upgrade_contract(String::from_str("locked"), found)
}

/// The grants that setup stores for a minted group.
pub open spec fn setup_grants(principals: Seq<Principal>, minted: Seq<Token>) -> Seq<Record> {
    paired(principals, distributed(minted))
}

/// Setup hands out one token less than it minted, one per authorized
/// principal, and the token it retains never appears at the broker: not
/// in a record that setup writes, nor, if it was in none before, in any
/// other.
pub proof fn lemma_setup_keeps_retained_out(
    principals: Seq<Principal>,
    minted: Seq<Token>,
    records: Map<Seq<u8>, Token>,
)
    requires
        valid_group(minted),
        minted.len() == principals.len() + 1,
        forall|key: Seq<u8>| records.dom().contains(key) ==> #[trigger] records[key] != minted.last(),
    ensures
        minted.len() == setup_grants(principals, minted).len() + 1,
        forall|key: Seq<u8>| #[trigger]
            stored_all(records, setup_grants(principals, minted)).dom().contains(key)
                ==> stored_all(records, setup_grants(principals, minted))[key] != minted.last(),
{
    let grants = setup_grants(principals, minted);
    assert forall|i: int| 0 <= i < grants.len() implies (#[trigger] grants[i]).token
        != minted.last() by {
        lemma_distributed_in_group(minted, i);
    }
    lemma_retained_never_stored(records, grants, minted.last());
}

/// After setup, every authorized principal finds at the broker a token of
/// the group that is no sentinel. Taking it into its context, as
/// activation does, the principal passes the group's membership check,
/// whatever else its context holds.
pub proof fn lemma_granted_principal_is_admitted(
    principals: Seq<Principal>,
    minted: Seq<Token>,
    records: Map<Seq<u8>, Token>,
    i: int,
    held: Seq<Token>,
)
    requires
        valid_group(minted),
        minted.len() == principals.len() + 1,
        0 <= i < principals.len(),
    ensures
        !is_sentinel_view(
            retrieved(stored_all(records, setup_grants(principals, minted)), principals[i]@),
        ),
        stored_all(records, setup_grants(principals, minted)).dom().contains(principals[i]@),
        can_invoke(
            held.push(stored_all(records, setup_grants(principals, minted))[principals[i]@]),
            minted,
        ),
{
    let grants = setup_grants(principals, minted);
    let key = principals[i]@;
    assert(grants[i].principal@ == key);
    lemma_stored_all_granted(records, grants, key);
    let after = stored_all(records, grants);
    let j = choose|j: int|
        0 <= j < grants.len() && (#[trigger] grants[j]).principal@ == key && grants[j].token
            == after[key];
    lemma_distributed_in_group(minted, j);
    let at = minted.len() - 2 - j;
    assert(after[key] == minted[at]);
    let now = held.push(after[key]);
    lemma_holder_is_admitted(now, minted, held.len() as int, at);
}

/// After setup, a principal that is not authorized and had no record finds
/// nothing at the broker: it retrieves the sentinel, so that activation
/// denies it and leaves its context as it was.
pub proof fn lemma_ungranted_principal_is_denied(
    principals: Seq<Principal>,
    minted: Seq<Token>,
    records: Map<Seq<u8>, Token>,
    caller: Seq<u8>,
)
    requires
        !records.dom().contains(caller),
        forall|i: int| 0 <= i < principals.len() ==> (#[trigger] principals[i])@ != caller,
    ensures
        !stored_all(records, setup_grants(principals, minted)).dom().contains(caller),
        is_sentinel_view(
            retrieved(stored_all(records, setup_grants(principals, minted)), caller),
        ),
{
    let grants = setup_grants(principals, minted);
    lemma_stored_all_domain(records, grants);
    assert forall|i: int| 0 <= i < grants.len() implies (#[trigger] grants[i]).principal@
        != caller by {
        assert(principals[i]@ != caller);
    }
}

} // verus!
