//! Capability groups: the tokens minted together at setup, and the contexts
//! of the principals that come to hold them.

use vstd::prelude::*;
use crate::token::{lemma_view_injective, sentinel_view, Token};

verus! {

/// Whether `token` occurs in `tokens`.
pub open spec fn occurs(tokens: Seq<Token>, token: Token) -> bool {
    exists|i: int| 0 <= i < tokens.len() && #[trigger] tokens[i] == token
}

/// Whether a minted sequence can serve as a group: no token is the sentinel
/// and no token occurs twice.
pub open spec fn valid_group(tokens: Seq<Token>) -> bool {
    &&& forall|i: int| 0 <= i < tokens.len() ==> (#[trigger] tokens[i])@ != sentinel_view()
    &&& forall|i: int, j: int| 0 <= i < j < tokens.len() ==> tokens[i] != tokens[j]
}

/// Whether a context that holds `held` passes the membership check of the
/// group `group`: it holds at least one of the group's tokens.
pub open spec fn can_invoke(held: Seq<Token>, group: Seq<Token>) -> bool {
    exists|i: int| 0 <= i < held.len() && occurs(group, #[trigger] held[i])
}

/// The size of the group for that many authorized principals: one token
/// each and one more for the issuing authority. `None` where the size does
/// not fit the eight bits in which a group is asked for.
pub fn group_size(principals: usize) -> (size: Option<u8>)
    ensures
        size matches Some(s) ==> s == principals + 1,
        size is None <==> principals + 1 > u8::MAX,
{
    if principals < 255 {
        Some((principals + 1) as u8)
    } else {
        None
    }
}

/// Whether `token` occurs among the first `end` tokens.
fn occurs_before(tokens: &Vec<Token>, end: usize, token: &Token) -> (found: bool)
    requires
        end <= tokens.len(),
    ensures
        found == occurs(tokens@.take(end as int), *token),
{
    let mut i: usize = 0;
    while i < end
        invariant
            i <= end <= tokens.len(),
            forall|j: int| 0 <= j < i ==> tokens[j] != *token,
        decreases end - i,
    {
        if tokens[i] == *token {
            proof {
                lemma_view_injective(tokens[i as int], *token);
                assert(tokens@.take(end as int)[i as int] == *token);
            }
            return true;
        }
        i += 1;
    }
    proof {
        assert forall|j: int| 0 <= j < end implies tokens@.take(end as int)[j] != *token by {
            assert(tokens@.take(end as int)[j] == tokens[j]);
        }
    }
    false
}

/// Whether `token` occurs in `tokens`.
pub fn contains_token(tokens: &Vec<Token>, token: &Token) -> (found: bool)
    ensures
        found == occurs(tokens@, *token),
{
    assert(tokens@.take(tokens.len() as int) =~= tokens@);
    occurs_before(tokens, tokens.len(), token)
}

/// Checks a minted sequence: no sentinel in it and no token twice.
pub fn is_valid_group(tokens: &Vec<Token>) -> (ok: bool)
    ensures
        ok == valid_group(tokens@),
{
    let mut i: usize = 0;
    while i < tokens.len()
        invariant
            i <= tokens.len(),
            valid_group(tokens@.take(i as int)),
        decreases tokens.len() - i,
    {
        let ghost head = tokens@.take(i as int);
        let ghost next = tokens@.take(i + 1);
        if tokens[i].is_sentinel() {
            return false;
        }
        if occurs_before(tokens, i, &tokens[i]) {
            proof {
                let k = choose|k: int| 0 <= k < head.len() && #[trigger] head[k] == tokens[i as int];
                assert(tokens[k] == tokens[i as int]);
            }
            return false;
        }
        proof {
            assert forall|a: int| 0 <= a < next.len() implies (#[trigger] next[a])@
                != sentinel_view() by {
                if a < i {
                    assert(head[a] == next[a]);
                }
            }
            assert forall|a: int, b: int| 0 <= a < b < next.len() implies next[a] != next[b] by {
                if b < i {
                    assert(head[a] == next[a] && head[b] == next[b]);
                } else {
                    assert(head[a] == next[a]);
                }
            }
        }
        i += 1;
    }
    assert(tokens@.take(tokens.len() as int) =~= tokens@);
    true
}

/// What setup yields from a minted group: the token the issuing authority
/// keeps, and one token for each authorized principal, in the principals'
/// order.
#[derive(Debug)]
pub struct Grants {
    pub retained: Token,
    pub distributable: Vec<Token>,
}

/// The tokens handed out from a minted sequence: all but the last, taken
/// from the back, so that the first principal gets the last but one.
pub open spec fn distributed(minted: Seq<Token>) -> Seq<Token> {
    Seq::new((minted.len() - 1) as nat, |i: int| minted[minted.len() - 2 - i])
}

/// Splits a freshly minted group between the issuing authority and the
/// authorized principals. The authority retains the last token; principal
/// `i` is matched with the token `i` places before it. Fails, handing out
/// nothing, where the minted sequence is no valid group or is not one token
/// larger than the number of principals.
pub fn mint_group(principals: usize, minted: Vec<Token>) -> (grants: Option<Grants>)
    ensures
        grants is Some <==> valid_group(minted@) && minted.len() == principals + 1,
        grants matches Some(g) ==> {
            &&& g.retained == minted@.last()
            &&& g.distributable@ == distributed(minted@)
            &&& g.distributable.len() == principals
            &&& !occurs(g.distributable@, g.retained)
            &&& valid_group(g.distributable@)
        },
{
    let n = minted.len();
    if n == 0 || n - 1 != principals || !is_valid_group(&minted) {
        return None;
    }
    let retained = minted[n - 1];
    let mut distributable: Vec<Token> = Vec::new();
    let mut i: usize = 0;
    while i < n - 1
        invariant
            n == minted.len(),
            n >= 1,
            i <= n - 1,
            distributable.len() == i,
            forall|k: int| 0 <= k < i ==> distributable[k] == minted[n - 2 - k],
        decreases n - 1 - i,
    {
        distributable.push(minted[n - 2 - i]);
        i += 1;
    }
    proof {
        assert(distributable@ =~= distributed(minted@));
        assert forall|k: int| 0 <= k < distributable.len() implies distributable[k]
            != retained by {
            assert(minted[n - 2 - k] != minted[n - 1]);
        }
        assert forall|a: int, b: int| 0 <= a < b < distributable.len() implies distributable[a]
            != distributable[b] by {
            assert(minted[n - 2 - b] != minted[n - 2 - a]);
        }
    }
    Some(Grants { retained, distributable })
}

/// The tokens that one principal's own execution context holds.
#[derive(Debug)]
pub struct Context {
    pub tokens: Vec<Token>,
}

impl View for Context {
    type V = Seq<Token>;

    open spec fn view(&self) -> Seq<Token> {
        self.tokens@
    }
}

impl Context {
    /// A context that holds no token.
    pub fn new() -> (ctx: Context)
        ensures
            ctx@ == Seq::<Token>::empty(),
    {
        Context { tokens: Vec::new() }
    }

    /// Puts one token into the context, after those it holds.
    pub fn receive(&mut self, token: Token)
        ensures
            final(self)@ == old(self)@.push(token),
    {
        self.tokens.push(token);
    }

    /// Whether the context holds `token`.
    pub fn holds(&self, token: &Token) -> (b: bool)
        ensures
            b == occurs(self@, *token),
    {
        contains_token(&self.tokens, token)
    }
}

/// The membership check of the host: whether the context holds a token of
/// the group.
pub fn admits(group: &Vec<Token>, ctx: &Context) -> (ok: bool)
    ensures
        ok == can_invoke(ctx@, group@),
{
    let mut i: usize = 0;
    while i < ctx.tokens.len()
        invariant
            i <= ctx.tokens.len(),
            forall|j: int| 0 <= j < i ==> !occurs(group@, #[trigger] ctx@[j]),
        decreases ctx.tokens.len() - i,
    {
        if contains_token(group, &ctx.tokens[i]) {
            return true;
        }
        i += 1;
    }
    false
}

/// A context that holds nothing passes the membership check of no group:
/// a principal that never took a token into its context is turned away.
pub proof fn lemma_empty_context_is_refused(group: Seq<Token>)
    ensures
        !can_invoke(Seq::<Token>::empty(), group),
{
}

/// A context passes the membership check as soon as one of the tokens it
/// holds is a token of the group, whatever else it holds.
pub proof fn lemma_holder_is_admitted(held: Seq<Token>, group: Seq<Token>, i: int, j: int)
    requires
        0 <= i < held.len(),
        0 <= j < group.len(),
        held[i] == group[j],
    ensures
        can_invoke(held, group),
{
    assert(occurs(group, held[i]));
}

/// The issuing authority, which holds the token it retained from the
/// group, passes the group's membership check right after setup.
pub proof fn lemma_authority_is_admitted(held: Seq<Token>, minted: Seq<Token>)
    requires
        minted.len() > 0,
        occurs(held, minted.last()),
    ensures
        can_invoke(held, minted),
{
    let i = choose|i: int| 0 <= i < held.len() && #[trigger] held[i] == minted.last();
    lemma_holder_is_admitted(held, minted, i, minted.len() - 1);
}

/// Every token that is handed out is a token of the minted group.
pub proof fn lemma_distributed_in_group(minted: Seq<Token>, i: int)
    requires
        0 <= i < minted.len() - 1,
    ensures
        distributed(minted)[i] == minted[minted.len() - 2 - i],
        occurs(minted, distributed(minted)[i]),
{
}

} // verus!
