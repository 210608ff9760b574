//! Capability tokens: opaque, fixed-size handles that denote permission.

use vstd::prelude::*;

verus! {

/// An admission token: an address and a bit set of access rights.
///
/// The token carries no data of its own. Two tokens denote the same
/// capability exactly when address and rights agree. The value with the
/// all-zero address and no rights is the sentinel, which stands for
/// "no grant" and is never issued.
#[derive(Clone, Copy, Debug)]
pub struct Token {
    pub addr: [u8; 32],
    pub rights: u8,
}

/// What a token is to a contract: its address bytes and its rights.
pub struct TokenView {
    pub addr: Seq<u8>,
    pub rights: u8,
}

impl View for Token {
    type V = TokenView;

    open spec fn view(&self) -> TokenView {
        TokenView { addr: self.addr@, rights: self.rights }
    }
}

/// The view of the sentinel token.
pub open spec fn sentinel_view() -> TokenView {
    TokenView { addr: Seq::new(32, |i: int| 0u8), rights: 0 }
}

/// Whether a token view is the sentinel.
pub open spec fn is_sentinel_view(t: TokenView) -> bool {
    t == sentinel_view()
}

/// Equal views mean equal tokens: a token holds nothing that its view hides.
pub proof fn lemma_view_injective(a: Token, b: Token)
    requires
        a@ == b@,
    ensures
        a == b,
{
    assert(a.addr@ =~= b.addr@);
    assert(a.addr == b.addr) by {
        vstd::array::array_len_matches_n(&a.addr);
        vstd::array::array_len_matches_n(&b.addr);
        assert forall|i: int| 0 <= i < 32 implies a.addr[i] == b.addr[i] by {
            assert(a.addr@[i] == b.addr@[i]);
        }
        assert(a.addr =~= b.addr);
    }
}

/// Compares two addresses byte by byte.
pub(crate) fn addr_eq(a: &[u8; 32], b: &[u8; 32]) -> (same: bool)
    ensures
        same == (a@ == b@),
{
    let mut i: usize = 0;
    while i < 32
        invariant
            i <= 32,
            forall|j: int| 0 <= j < i ==> a@[j] == b@[j],
        decreases 32 - i,
    {
        if a[i] != b[i] {
            return false;
        }
        i += 1;
    }
    assert(a@ =~= b@);
    true
}

impl Token {
    /// Builds a token from its address and rights.
    pub fn new(addr: [u8; 32], rights: u8) -> (t: Token)
        ensures
            t.addr == addr,
            t.rights == rights,
    {
        Token { addr, rights }
    }

    /// The sentinel: zero address, no rights.
    pub fn sentinel() -> (t: Token)
        ensures
            t@ == sentinel_view(),
    {
        let t = Token { addr: [0u8; 32], rights: 0 };
        assert(t.addr@ =~= sentinel_view().addr);
        t
    }

    /// Whether this token is the sentinel.
    pub fn is_sentinel(&self) -> (b: bool)
        ensures
            b == is_sentinel_view(self@),
    {
        let zero = [0u8; 32];
        assert(zero@ =~= sentinel_view().addr);
        let same = addr_eq(&self.addr, &zero);
        same && self.rights == 0
    }
}

/// Two tokens are equal when they denote the same capability: address and
/// rights agree.
impl PartialEq for Token {
    fn eq(&self, other: &Token) -> (b: bool) {
        addr_eq(&self.addr, &other.addr) && self.rights == other.rights
    }
}

impl Eq for Token {

}

impl vstd::std_specs::cmp::PartialEqSpecImpl for Token {
    open spec fn obeys_eq_spec() -> bool {
        true
    }

    open spec fn eq_spec(&self, other: &Token) -> bool {
        self@ == other@
    }
}

} // verus!
