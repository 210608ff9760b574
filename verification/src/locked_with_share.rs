//! The protected resource with an integrated broker: setup hands all tokens
//! over in one batch, and each principal later collects its own.

use vstd::prelude::*;
use crate::install::{install_plan, plan, step_views, Component, Found, Step};
use crate::entry_points::{
    group_only, names_distinct, views, Access, AccessView, EntryKind, EntryPointDecl,
    EntryPointView, ParameterDecl, ParameterView, ValueType,
};
use crate::group::{
    can_invoke, distributed, lemma_distributed_in_group, lemma_holder_is_admitted, mint_group,
    occurs, valid_group, Context,
};
use crate::principal::Principal;
use crate::resource::admin_group;
use crate::share::Record;
use crate::signal::Signal;
use crate::store::Store;
use crate::token::Token;

verus! {

/// The tokens kept for `key`: its record, or nothing where it has none.
pub open spec fn tokens_of(records: Map<Seq<u8>, Seq<Token>>, key: Seq<u8>) -> Seq<Token> {
    if records.dom().contains(key) {
        records[key]
    } else {
        Seq::empty()
    }
}

/// The records after one token was appended for `key`.
pub open spec fn appended_one(records: Map<Seq<u8>, Seq<Token>>, key: Seq<u8>, token: Token) -> Map<
    Seq<u8>,
    Seq<Token>,
> {
    records.insert(key, tokens_of(records, key).push(token))
}

/// The records after a batch was appended: `tokens[i]` goes to
/// `principals[i]`, and the pairs are taken from the back of the two
/// sequences to the front.
pub open spec fn appended(
    records: Map<Seq<u8>, Seq<Token>>,
    tokens: Seq<Token>,
    principals: Seq<Principal>,
) -> Map<Seq<u8>, Seq<Token>>
    decreases principals.len(),
{
    if principals.len() == 0 || tokens.len() == 0 {
        records
    } else {
        appended(
            appended_one(records, principals.last()@, tokens.last()),
            tokens.drop_last(),
            principals.drop_last(),
        )
    }
}

/// Copies a token sequence.
fn copy_tokens(tokens: &Vec<Token>) -> (copy: Vec<Token>)
    ensures
        copy@ == tokens@,
{
    let mut copy: Vec<Token> = Vec::new();
    let mut i: usize = 0;
    while i < tokens.len()
        invariant
            i <= tokens.len(),
            copy@ == tokens@.take(i as int),
        decreases tokens.len() - i,
    {
        copy.push(tokens[i]);
        assert(tokens@.take(i + 1) =~= tokens@.take(i as int).push(tokens[i as int]));
        i += 1;
    }
    assert(tokens@.take(tokens.len() as int) =~= tokens@);
    copy
}

/// The pairs of a batch in the order in which they are appended: the last
/// token with the last principal first.
pub open spec fn paired_from_back(tokens: Seq<Token>, principals: Seq<Principal>) -> Seq<Record> {
    Seq::new(
        principals.len(),
        |k: int|
            Record {
                principal: principals[principals.len() - 1 - k],
                token: tokens[principals.len() - 1 - k],
            },
    )
}

/// Checks a batch and lays out its pairs in the order in which they are
/// appended. A batch whose two sequences differ in length is refused.
pub fn pair_batch(tokens: &Vec<Token>, principals: &Vec<Principal>) -> (pairs: Result<
    Vec<Record>,
    Signal,
>)
    ensures
        tokens.len() != principals.len() ==> pairs == Err::<Vec<Record>, Signal>(
            Signal::LengthMismatch,
        ),
        tokens.len() == principals.len() ==> pairs is Ok && pairs->Ok_0@ == paired_from_back(
            tokens@,
            principals@,
        ),
{
    if tokens.len() != principals.len() {
        return Err(Signal::LengthMismatch);
    }
    let n = principals.len();
    let mut pairs: Vec<Record> = Vec::new();
    let mut k: usize = 0;
    while k < n
        invariant
            k <= n,
            n == principals.len() == tokens.len(),
            pairs.len() == k,
            forall|j: int|
                0 <= j < k ==> pairs[j] == (Record {
                    principal: principals[n - 1 - j],
                    token: tokens[n - 1 - j],
                }),
        decreases n - k,
    {
        pairs.push(Record { principal: principals[n - 1 - k], token: tokens[n - 1 - k] });
        k += 1;
    }
    assert(pairs@ =~= paired_from_back(tokens@, principals@));
    Ok(pairs)
}

/// The integrated broker: a sequence of tokens per principal.
pub struct BatchBroker {
    store: Store<Vec<Token>>,
}

impl BatchBroker {
    /// The invariant of the records; every operation keeps it.
    pub closed spec fn well_formed(&self) -> bool {
        self.store.well_formed()
    }

    /// The records as a map from a principal's account hash to its tokens.
    pub closed spec fn view(&self) -> Map<Seq<u8>, Seq<Token>> {
        self.store@.map_values(|v: Vec<Token>| v@)
    }

    /// A broker without records.
    pub fn new() -> (broker: BatchBroker)
        ensures
            broker.well_formed(),
            broker@ == Map::<Seq<u8>, Seq<Token>>::empty(),
    {
        let broker = BatchBroker { store: Store::new() };
        assert(broker@ =~= Map::<Seq<u8>, Seq<Token>>::empty());
        broker
    }

    /// Appends one token to the principal's sequence, creating the record
    /// where there is none.
    fn append_one(&mut self, principal: Principal, token: Token)
        requires
            old(self).well_formed(),
        ensures
            final(self).well_formed(),
            final(self)@ == appended_one(old(self)@, principal@, token),
    {
        let mut list = match self.store.get_key(&principal) {
            Some(tokens) => copy_tokens(tokens),
            None => Vec::new(),
        };
        assert(list@ == tokens_of(self@, principal@));
        list.push(token);
        self.store.set_key(principal, list);
        assert(self@ =~= appended_one(old(self)@, principal@, token));
    }

    /// Appends a batch: `tokens[i]` is added to the sequence kept for
    /// `principals[i]`, for every index, from the last pair to the first.
    /// A batch whose two sequences differ in length is refused and leaves
    /// the records as they were.
    pub fn append(&mut self, tokens: Vec<Token>, principals: Vec<Principal>) -> (done: Result<
        (),
        Signal,
    >)
        requires
            old(self).well_formed(),
        ensures
            final(self).well_formed(),
            tokens.len() != principals.len() ==> {
                &&& done == Err::<(), Signal>(Signal::LengthMismatch)
                &&& final(self)@ == old(self)@
            },
            tokens.len() == principals.len() ==> {
                &&& done is Ok
                &&& final(self)@ == appended(old(self)@, tokens@, principals@)
            },
    {
        let ghost n = tokens.len() as int;
        match pair_batch(&tokens, &principals) {
            Err(signal) => Err(signal),
            Ok(pairs) => {
                let mut k: usize = 0;
                assert(tokens@.take(n) =~= tokens@);
                assert(principals@.take(n) =~= principals@);
                while k < pairs.len()
                    invariant
                        k <= pairs.len(),
                        n == tokens.len() == principals.len() == pairs.len(),
                        pairs@ == paired_from_back(tokens@, principals@),
                        self.well_formed(),
                        appended(old(self)@, tokens@, principals@) == appended(
                            self@,
                            tokens@.take(n - k),
                            principals@.take(n - k),
                        ),
                    decreases pairs.len() - k,
                {
                    assert(tokens@.take(n - k).drop_last() =~= tokens@.take(n - k - 1));
                    assert(principals@.take(n - k).drop_last() =~= principals@.take(n - k - 1));
                    self.append_one(pairs[k].principal, pairs[k].token);
                    k += 1;
                }
                Ok(())
            },
        }
    }

    /// Reads the sequence kept for the caller, which stays with the broker.
    /// A caller without a record reads the empty sequence.
    pub fn tokens(&self, caller: &Principal) -> (found: Vec<Token>)
        requires
            self.well_formed(),
        ensures
            found@ == tokens_of(self@, caller@),
    {
        match self.store.get_key(caller) {
            None => Vec::new(),
            Some(tokens) => copy_tokens(tokens),
        }
    }

    /// Returns the caller's own sequence, which stays with the broker. A
    /// caller whose sequence is missing or empty is denied.
    pub fn retrieve_all(&self, caller: &Principal) -> (found: Result<Vec<Token>, Signal>)
        requires
            self.well_formed(),
        ensures
            tokens_of(self@, caller@).len() == 0 ==> found == Err::<Vec<Token>, Signal>(
                Signal::NoGrant,
            ),
            tokens_of(self@, caller@).len() > 0 ==> found is Ok && found->Ok_0@ == tokens_of(
                self@,
                caller@,
            ),
    {
        let tokens = self.tokens(caller);
        if tokens.len() == 0 {
            Err(Signal::NoGrant)
        } else {
            Ok(tokens)
        }
    }
}

/// The local accumulation step of activation: takes the collected tokens
/// into the caller's context, after those it holds. An empty sequence is
/// refused, whatever the broker may have checked before, and leaves the
/// context as it was.
pub fn accumulate(ctx: &mut Context, tokens: Vec<Token>) -> (done: Result<(), Signal>)
    ensures
        tokens.len() == 0 ==> {
            &&& done == Err::<(), Signal>(Signal::EmptyGrant)
            &&& final(ctx)@ == old(ctx)@
        },
        tokens.len() > 0 ==> {
            &&& done is Ok
            &&& final(ctx)@ == old(ctx)@ + tokens@
        },
{
    if tokens.len() == 0 {
        return Err(Signal::EmptyGrant);
    }
    let mut incoming = tokens;
    ctx.tokens.append(&mut incoming);
    Ok(())
}

/// Activates the caller's access: collects the caller's own tokens from the
/// broker and hands them to the local accumulation step. A caller without
/// tokens at the broker is denied and its context stays as it was.
pub fn activate_access(broker: &BatchBroker, caller: &Principal, ctx: &mut Context) -> (done:
    Result<(), Signal>)
    requires
        broker.well_formed(),
    ensures
        tokens_of(broker@, caller@).len() == 0 ==> {
            &&& done == Err::<(), Signal>(Signal::NoGrant)
            &&& final(ctx)@ == old(ctx)@
        },
        tokens_of(broker@, caller@).len() > 0 ==> {
            &&& done is Ok
            &&& final(ctx)@ == old(ctx)@ + tokens_of(broker@, caller@)
        },
{
    match broker.retrieve_all(caller) {
        Err(signal) => Err(signal),
        Ok(tokens) => accumulate(ctx, tokens),
    }
}

/// What setup does with a minted group: the token the authority keeps for
/// itself, and the batch to append at the broker.
#[derive(Debug)]
pub struct AccessBatch {
    pub retained: Token,
    pub principals: Vec<Principal>,
    pub tokens: Vec<Token>,
}

/// Plans the distribution of a freshly minted group among the authorized
/// principals. The group must be valid and one token larger than the list
/// of principals, else nothing is planned. The authority retains the last
/// minted token; the batch holds one token for each principal, and the
/// retained token is not among them.
pub fn prepare_access(principals: Vec<Principal>, minted: Vec<Token>) -> (batch: Option<
    AccessBatch,
>)
    ensures
        batch is Some <==> valid_group(minted@) && minted.len() == principals.len() + 1,
        batch matches Some(b) ==> {
            &&& b.retained == minted@.last()
            &&& b.principals@ == principals@
            &&& b.tokens@ == distributed(minted@)
            &&& b.tokens.len() == b.principals.len()
            &&& forall|i: int| 0 <= i < b.tokens.len() ==> (#[trigger] b.tokens[i]) != b.retained
        },
{
    match mint_group(principals.len(), minted) {
        None => None,
        Some(grants) => {
            proof {
                assert forall|i: int| 0 <= i < grants.distributable.len() implies (
                #[trigger] grants.distributable[i]) != grants.retained by {}
            }
            Some(
                AccessBatch {
                    retained: grants.retained,
                    principals,
                    tokens: grants.distributable,
                },
            )
        },
    }
}

/// Name of the gated entry point.
pub open spec fn gated_name() -> Seq<char> {
    "group_access_only"@
}

/// The entry points of the resource and its broker: the gated operation,
/// open to holders of a token of the admin group only; the local
/// accumulation step, which runs in the caller's own context; and the
/// broker's two operations. All but the first are public.
pub open spec fn entry_point_table() -> Seq<EntryPointView> {
    seq![
        EntryPointView {
            name: gated_name(),
            params: seq![],
            ret: ValueType::Unit,
            access: group_only(admin_group()),
            kind: EntryKind::Contract,
        },
        EntryPointView {
            name: "get_access"@,
            params: seq![ParameterView { name: "urefs"@, value_type: ValueType::TokenList }],
            ret: ValueType::Unit,
            access: AccessView::Public,
            kind: EntryKind::Session,
        },
        EntryPointView {
            name: "retrieve_urefs"@,
            params: seq![],
            ret: ValueType::Unit,
            access: AccessView::Public,
            kind: EntryKind::Contract,
        },
        EntryPointView {
            name: "append_urefs"@,
            params: seq![
                ParameterView { name: "urefs"@, value_type: ValueType::TokenList },
                ParameterView { name: "account_pubkeys"@, value_type: ValueType::PublicKeyList },
            ],
            ret: ValueType::Unit,
            access: AccessView::Public,
            kind: EntryKind::Contract,
        },
    ]
}

/// The four names of the table differ.
pub proof fn lemma_table_names_distinct()
    ensures
        names_distinct(entry_point_table()),
{
    reveal_strlit("group_access_only");
    reveal_strlit("get_access");
    reveal_strlit("retrieve_urefs");
    reveal_strlit("append_urefs");
    assert("group_access_only"@.len() == 17);
    assert("get_access"@.len() == 10);
    assert("retrieve_urefs"@.len() == 14);
    assert("append_urefs"@.len() == 12);
}

/// Returns the entry points of the resource and its broker, the gated one
/// under group security.
pub fn get_entry_points() -> (eps: Vec<EntryPointDecl>)
    ensures
        views(eps@) == entry_point_table(),
        names_distinct(views(eps@)),
        forall|i: int|
            0 <= i < eps.len() ==> ((#[trigger] eps[i])@.access != AccessView::Public
                <==> eps[i]@.name == gated_name()),
{
    let mut eps: Vec<EntryPointDecl> = Vec::new();
    let gated = EntryPointDecl::new(
        "group_access_only",
        Vec::new(),
        ValueType::Unit,
        Access::group("admin"),
        EntryKind::Contract,
    );
    assert(gated@.params =~= seq![]);
    eps.push(gated);
    let mut params: Vec<ParameterDecl> = Vec::new();
    params.push(ParameterDecl::new("urefs", ValueType::TokenList));
    let accumulate = EntryPointDecl::new(
        "get_access",
        params,
        ValueType::Unit,
        Access::Public,
        EntryKind::Session,
    );
    assert(accumulate@.params =~= entry_point_table()[1].params);
    eps.push(accumulate);
    let retrieve = EntryPointDecl::new(
        "retrieve_urefs",
        Vec::new(),
        ValueType::Unit,
        Access::Public,
        EntryKind::Contract,
    );
    assert(retrieve@.params =~= seq![]);
    eps.push(retrieve);
    let mut params: Vec<ParameterDecl> = Vec::new();
    params.push(ParameterDecl::new("urefs", ValueType::TokenList));
    params.push(ParameterDecl::new("account_pubkeys", ValueType::PublicKeyList));
    let append = EntryPointDecl::new(
        "append_urefs",
        params,
        ValueType::Unit,
        Access::Public,
        EntryKind::Contract,
    );
    assert(append@.params =~= entry_point_table()[3].params);
    eps.push(append);
    proof {
        assert(views(eps@) =~= entry_point_table());
        lemma_table_names_distinct();
        assert(views(eps@)[0] == eps[0]@);
        assert(views(eps@)[1] == eps[1]@);
        assert(views(eps@)[2] == eps[2]@);
        assert(views(eps@)[3] == eps[3]@);
    }
    eps
}

/// The name under which the resource and its broker is installed.
pub open spec fn component_name() -> Seq<char> {
    "locked-with-share"@
}

/// Plans the installation or upgrade of the resource and its broker under `name`.
/// `found` is what the lookup of the package-hash name gave: a package that
/// is found is reused, a missing one is created and registered, and over a
/// registration that is no hash nothing is planned.
pub fn install_or_upgrade_contract(name: String, found: Found) -> (steps: Option<Vec<Step>>)
    ensures
        steps is Some <==> found != Found::Other,
        steps matches Some(s) ==> Some(step_views(s@)) == install_plan(
            name@,
            found,
            Component::LockedWithShare,
        ),
{
    plan(name.as_str(), found, Component::LockedWithShare)
}

/// The entry point of the installer: installs or upgrades the resource and its broker
/// under its own name.
pub fn call(found: Found) -> (steps: Option<Vec<Step>>)
    ensures
        steps is Some <==> found != Found::Other,
        steps matches Some(s) ==> Some(step_views(s@)) == install_plan(
            component_name(),
            found,
            Component::LockedWithShare,
        ),
{
    install_or_upgrade_contract(String::from_str("locked-with-share"), found)
}

/// Whether the batch holds `token` for `key` at some position.
pub open spec fn batch_grants(
    tokens: Seq<Token>,
    principals: Seq<Principal>,
    key: Seq<u8>,
    token: Token,
) -> bool {
    exists|i: int|
        0 <= i < principals.len() && (#[trigger] principals[i])@ == key && tokens[i] == token
}

/// What a principal collects is its own sequence, whatever is kept for
/// anyone else: with no record of its own it has nothing to collect, and
/// a token appended for another principal changes nothing for it.
pub proof fn lemma_tokens_are_self_scoped(
    records: Map<Seq<u8>, Seq<Token>>,
    caller: Seq<u8>,
    other: Seq<u8>,
    token: Token,
)
    requires
        other != caller,
    ensures
        !records.dom().contains(caller) ==> tokens_of(records, caller) == Seq::<Token>::empty(),
        tokens_of(appended_one(records, other, token), caller) == tokens_of(records, caller),
{
}

/// Appending a batch removes nothing: a token that was kept for a
/// principal is still kept for it afterwards.
pub proof fn lemma_append_keeps(
    records: Map<Seq<u8>, Seq<Token>>,
    tokens: Seq<Token>,
    principals: Seq<Principal>,
    key: Seq<u8>,
    token: Token,
)
    requires
        tokens.len() == principals.len(),
        occurs(tokens_of(records, key), token),
    ensures
        occurs(tokens_of(appended(records, tokens, principals), key), token),
    decreases principals.len(),
{
    if principals.len() > 0 {
        let next = appended_one(records, principals.last()@, tokens.last());
        let before = tokens_of(records, key);
        let i = choose|i: int| 0 <= i < before.len() && #[trigger] before[i] == token;
        assert(tokens_of(next, key)[i] == token);
        lemma_append_keeps(next, tokens.drop_last(), principals.drop_last(), key, token);
    }
}

/// Appending a batch gives every principal of the batch the token at its
/// own position.
pub proof fn lemma_append_delivers(
    records: Map<Seq<u8>, Seq<Token>>,
    tokens: Seq<Token>,
    principals: Seq<Principal>,
    i: int,
)
    requires
        tokens.len() == principals.len(),
        0 <= i < principals.len(),
    ensures
        occurs(tokens_of(appended(records, tokens, principals), principals[i]@), tokens[i]),
    decreases principals.len(),
{
    let next = appended_one(records, principals.last()@, tokens.last());
    let head_tokens = tokens.drop_last();
    let head_principals = principals.drop_last();
    if i == principals.len() - 1 {
        let now = tokens_of(next, principals[i]@);
        assert(now[now.len() - 1] == tokens[i]);
        lemma_append_keeps(next, head_tokens, head_principals, principals[i]@, tokens[i]);
    } else {
        lemma_append_delivers(next, head_tokens, head_principals, i);
    }
}

/// After a batch was appended, a token kept for a principal was kept for
/// it before or stands in the batch at a position of that principal.
pub proof fn lemma_append_origin(
    records: Map<Seq<u8>, Seq<Token>>,
    tokens: Seq<Token>,
    principals: Seq<Principal>,
    key: Seq<u8>,
    token: Token,
)
    requires
        tokens.len() == principals.len(),
        occurs(tokens_of(appended(records, tokens, principals), key), token),
    ensures
        occurs(tokens_of(records, key), token) || batch_grants(tokens, principals, key, token),
    decreases principals.len(),
{
    if principals.len() > 0 {
        let last = principals.len() - 1;
        let next = appended_one(records, principals.last()@, tokens.last());
        let head_tokens = tokens.drop_last();
        let head_principals = principals.drop_last();
        lemma_append_origin(next, head_tokens, head_principals, key, token);
        if batch_grants(head_tokens, head_principals, key, token) {
            let i = choose|i: int|
                0 <= i < head_principals.len() && (#[trigger] head_principals[i])@ == key
                    && head_tokens[i] == token;
            assert(principals[i]@ == key && tokens[i] == token);
        } else {
            let now = tokens_of(next, key);
            let j = choose|j: int| 0 <= j < now.len() && #[trigger] now[j] == token;
            if key == principals[last]@ && j == now.len() - 1 {
                assert(principals[last]@ == key && tokens[last] == token);
            } else {
                assert(tokens_of(records, key)[j] == token);
            }
        }
    }
}

/// The batch that setup appends for a minted group.
pub open spec fn setup_batch(minted: Seq<Token>) -> Seq<Token> {
    distributed(minted)
}

/// Setup hands out one token less than it minted, one per authorized
/// principal, and the token it retains never appears at the broker: it is
/// kept for no principal after the batch was appended, if it was kept for
/// none before.
pub proof fn lemma_setup_keeps_retained_out(
    principals: Seq<Principal>,
    minted: Seq<Token>,
    records: Map<Seq<u8>, Seq<Token>>,
    key: Seq<u8>,
)
    requires
        valid_group(minted),
        minted.len() == principals.len() + 1,
        forall|k: Seq<u8>| !occurs(#[trigger] tokens_of(records, k), minted.last()),
    ensures
        minted.len() == setup_batch(minted).len() + 1,
        !occurs(
            tokens_of(appended(records, setup_batch(minted), principals), key),
            minted.last(),
        ),
{
    let tokens = setup_batch(minted);
    let retained = minted.last();
    if occurs(tokens_of(appended(records, tokens, principals), key), retained) {
        lemma_append_origin(records, tokens, principals, key, retained);
        assert(!occurs(tokens_of(records, key), retained));
        let i = choose|i: int|
            0 <= i < principals.len() && (#[trigger] principals[i])@ == key && tokens[i]
                == retained;
        lemma_distributed_in_group(minted, i);
    }
}

/// After setup, every authorized principal has tokens to collect, among
/// them a token of the group. Taking them into its context, as activation
/// does, the principal passes the group's membership check, whatever else
/// its context holds.
pub proof fn lemma_granted_principal_is_admitted(
    principals: Seq<Principal>,
    minted: Seq<Token>,
    records: Map<Seq<u8>, Seq<Token>>,
    i: int,
    held: Seq<Token>,
)
    requires
        valid_group(minted),
        minted.len() == principals.len() + 1,
        0 <= i < principals.len(),
    ensures
        tokens_of(appended(records, setup_batch(minted), principals), principals[i]@).len() > 0,
        can_invoke(
            held + tokens_of(appended(records, setup_batch(minted), principals), principals[i]@),
            minted,
        ),
{
    let tokens = setup_batch(minted);
    let mine = tokens_of(appended(records, tokens, principals), principals[i]@);
    lemma_append_delivers(records, tokens, principals, i);
    let j = choose|j: int| 0 <= j < mine.len() && #[trigger] mine[j] == tokens[i];
    lemma_distributed_in_group(minted, i);
    let now = held + mine;
    assert(now[held.len() + j] == mine[j]);
    lemma_holder_is_admitted(now, minted, held.len() + j, minted.len() - 2 - i);
}

/// After setup, a principal that is not authorized and had nothing at the
/// broker has nothing to collect, so that activation denies it and leaves
/// its context as it was.
pub proof fn lemma_ungranted_principal_is_denied(
    principals: Seq<Principal>,
    tokens: Seq<Token>,
    records: Map<Seq<u8>, Seq<Token>>,
    caller: Seq<u8>,
)
    requires
        tokens.len() == principals.len(),
        tokens_of(records, caller).len() == 0,
        forall|i: int| 0 <= i < principals.len() ==> (#[trigger] principals[i])@ != caller,
    ensures
        tokens_of(appended(records, tokens, principals), caller).len() == 0,
{
    let mine = tokens_of(appended(records, tokens, principals), caller);
    if mine.len() > 0 {
        assert(occurs(mine, mine[0]));
        lemma_append_origin(records, tokens, principals, caller, mine[0]);
    }
}

} // verus!
