//! Identities and accounts.
//!
//! A principal is an opaque identity of at most 29 bytes. An account is a
//! principal together with an optional 32-byte subaccount. Both are plain
//! `Copy` values; contracts speak of them through their views.

use vstd::prelude::*;

verus! {

/// Longest byte string that is a principal.
pub const MAX_PRINCIPAL_LEN: usize = 29;

/// A sub-identifier under one owner.
pub type Subaccount = [u8; 32];

/// An opaque identity: a byte string of at most 29 bytes.
#[derive(Clone, Copy, Debug)]
pub struct Principal {
    len: u8,
    bytes: [u8; 29],
}

impl View for Principal {
    type V = Seq<u8>;

    /// The significant bytes of the identity.
    closed spec fn view(&self) -> Seq<u8> {
        Seq::new(self.len as nat, |i: int| if 0 <= i < 29 { self.bytes@[i] } else { 0u8 })
    }
}

/// The bytes of the identity reserved as "anonymous".
pub open spec fn anonymous_view() -> Seq<u8> {
    seq![4u8]
}

/// Calls `candid::Principal::anonymous` and hands back its significant
/// bytes. The contract claims that these are the single byte 4, the tag
/// that the outside crate gives the anonymous identity.
#[verifier::external_body]
fn anonymous_bytes() -> (r: Vec<u8>)
    ensures
        r@ == anonymous_view(),
{
    candid::Principal::anonymous().as_slice().to_vec()
}

impl Principal {
    /// The principal made of `bytes`, or `None` where there are more than 29.
    pub fn try_from_slice(bytes: &[u8]) -> (r: Option<Principal>)
        ensures
            r is Some <==> bytes@.len() <= MAX_PRINCIPAL_LEN,
            r is Some ==> r->0@ == bytes@,
    {
        if bytes.len() > MAX_PRINCIPAL_LEN {
            return None;
        }
        let mut buf: [u8; 29] = [0u8; 29];
        let mut i: usize = 0;
        while i < bytes.len()
            invariant
                i <= bytes@.len() <= 29,
                forall|j: int| 0 <= j < i ==> buf@[j] == bytes@[j],
            decreases bytes@.len() - i,
        {
            buf[i] = bytes[i];
            i = i + 1;
        }
        let p = Principal { len: bytes.len() as u8, bytes: buf };
        assert(p@ =~= bytes@);
        Some(p)
    }

    /// The identity reserved as "anonymous".
    pub fn anonymous() -> (r: Principal)
        ensures
            r@ == anonymous_view(),
    {
        let bytes = anonymous_bytes();
        let mut buf: [u8; 29] = [0u8; 29];
        buf[0] = bytes[0];
        let p = Principal { len: 1, bytes: buf };
        assert(p@ =~= anonymous_view());
        p
    }

    /// Whether this is the anonymous identity.
    pub fn is_anonymous(&self) -> (r: bool)
        ensures
            r == (self@ == anonymous_view()),
    {
        let anon = Principal::anonymous();
        *self == anon
    }

    /// The significant bytes, in a vector of their own.
    pub fn to_vec(&self) -> (r: Vec<u8>)
        ensures
            r@ == self@,
    {
        let n: usize = if self.len <= 29 { self.len as usize } else { 29 };
        let mut out: Vec<u8> = Vec::new();
        let mut i: usize = 0;
        while i < n
            invariant
                i <= n <= 29,
                n == if self.len <= 29 { self.len as int } else { 29 },
                out@.len() == i,
                forall|j: int| 0 <= j < i ==> out@[j] == self.bytes@[j],
            decreases n - i,
        {
            out.push(self.bytes[i]);
            i = i + 1;
        }
        let mut k: usize = n;
        while k < self.len as usize
            invariant
                n <= k <= self.len,
                n == if self.len <= 29 { self.len as int } else { 29 },
                out@.len() == k,
                forall|j: int| 0 <= j < n ==> out@[j] == self.bytes@[j],
                forall|j: int| n <= j < k ==> out@[j] == 0u8,
            decreases self.len - k,
        {
            out.push(0u8);
            k = k + 1;
        }
        assert(out@ =~= self@);
        out
    }
}

/// Whether, of two byte strings, `a` is the lesser at the first place at
/// which they differ.
pub open spec fn lex_before(a: Seq<u8>, b: Seq<u8>) -> bool {
    exists|i: int|
        0 <= i < a.len() && i < b.len() && #[trigger] a[i] < b[i] && forall|j: int|
            0 <= j < i ==> a[j] == b[j]
}

/// The order of principals: the shorter one first, and of two of one
/// length the one that is the lesser at their first difference.
pub open spec fn principal_before(a: Seq<u8>, b: Seq<u8>) -> bool {
    a.len() < b.len() || (a.len() == b.len() && lex_before(a, b))
}

/// No principal comes before itself.
pub proof fn lemma_before_irreflexive(a: Seq<u8>)
    ensures
        !principal_before(a, a),
{
    if lex_before(a, a) {
        let i = choose|i: int|
            0 <= i < a.len() && i < a.len() && #[trigger] a[i] < a[i] && forall|j: int|
                0 <= j < i ==> a[j] == a[j];
        assert(false);
    }
}

proof fn lemma_first_difference(a: Seq<u8>, b: Seq<u8>, n: int)
    requires
        a.len() == b.len(),
        0 <= n <= a.len(),
        forall|j: int| 0 <= j < n ==> a[j] == b[j],
        a != b,
    ensures
        lex_before(a, b) || lex_before(b, a),
    decreases a.len() - n,
{
    if n == a.len() {
        assert(a =~= b);
    } else if a[n] < b[n] {
        assert(a[n] < b[n]);
    } else if b[n] < a[n] {
        assert(b[n] < a[n]);
    } else {
        lemma_first_difference(a, b, n + 1);
    }
}

/// Of two principals that differ one comes before the other.
pub proof fn lemma_before_total(a: Seq<u8>, b: Seq<u8>)
    requires
        a != b,
    ensures
        principal_before(a, b) || principal_before(b, a),
{
    if a.len() == b.len() {
        lemma_first_difference(a, b, 0);
    }
}

/// What comes before a principal comes before all that the principal
/// comes before.
pub proof fn lemma_before_transitive(a: Seq<u8>, b: Seq<u8>, c: Seq<u8>)
    requires
        principal_before(a, b),
        principal_before(b, c),
    ensures
        principal_before(a, c),
{
    if a.len() == b.len() && b.len() == c.len() {
        let i = choose|i: int|
            0 <= i < a.len() && i < b.len() && #[trigger] a[i] < b[i] && forall|j: int|
                0 <= j < i ==> a[j] == b[j];
        let k = choose|k: int|
            0 <= k < b.len() && k < c.len() && #[trigger] b[k] < c[k] && forall|j: int|
                0 <= j < k ==> b[j] == c[j];
        if i <= k {
            assert(a[i] < c[i]);
            assert(forall|j: int| 0 <= j < i ==> a[j] == c[j]);
        } else {
            assert(a[k] < c[k]);
            assert(forall|j: int| 0 <= j < k ==> a[j] == c[j]);
        }
    }
}

impl Principal {
    /// Whether this principal comes before `other` in the order of
    /// principals.
    pub fn before(&self, other: &Principal) -> (r: bool)
        ensures
            r == principal_before(self@, other@),
    {
        if self.len != other.len {
            return self.len < other.len;
        }
        let n: usize = if self.len <= 29 { self.len as usize } else { 29 };
        let mut i: usize = 0;
        while i < n
            invariant
                i <= n <= 29,
                n == if self.len <= 29 { self.len as int } else { 29 },
                self.len == other.len,
                forall|j: int| 0 <= j < i ==> self.bytes@[j] == other.bytes@[j],
            decreases n - i,
        {
            if self.bytes[i] != other.bytes[i] {
                let less: bool = self.bytes[i] < other.bytes[i];
                proof {
                    let a = self@;
                    let b = other@;
                    assert(forall|j: int| 0 <= j < i ==> a[j] == b[j]);
                    if less {
                        assert(a[i as int] < b[i as int]);
                    } else {
                        assert(b[i as int] < a[i as int]);
                        if lex_before(a, b) {
                            let w = choose|w: int|
                                0 <= w < a.len() && w < b.len() && #[trigger] a[w] < b[w]
                                    && forall|j: int| 0 <= j < w ==> a[j] == b[j];
                            if w > i {
                                assert(a[i as int] == b[i as int]);
                            }
                            assert(false);
                        }
                    }
                }
                return less;
            }
            i = i + 1;
        }
        proof {
            assert(self@ =~= other@);
            lemma_before_irreflexive(self@);
        }
        false
    }
}

impl PartialEq for Principal {
    fn eq(&self, other: &Principal) -> (r: bool) {
        if self.len != other.len {
            assert(self@.len() != other@.len());
            return false;
        }
        let n: usize = if self.len <= 29 { self.len as usize } else { 29 };
        let mut i: usize = 0;
        while i < n
            invariant
                i <= n <= 29,
                n == if self.len <= 29 { self.len as int } else { 29 },
                self.len == other.len,
                forall|j: int| 0 <= j < i ==> self.bytes@[j] == other.bytes@[j],
            decreases n - i,
        {
            if self.bytes[i] != other.bytes[i] {
                assert(self@[i as int] != other@[i as int]);
                return false;
            }
            i = i + 1;
        }
        assert(self@ =~= other@);
        true
    }
}

impl vstd::std_specs::cmp::PartialEqSpecImpl for Principal {
    open spec fn obeys_eq_spec() -> bool {
        true
    }

    open spec fn eq_spec(&self, other: &Principal) -> bool {
        self@ == other@
    }
}

impl Eq for Principal {}

/// What an account is: its owner's bytes and, where it has one, the bytes
/// of its subaccount.
pub struct AccountView {
    pub owner: Seq<u8>,
    pub subaccount: Option<Seq<u8>>,
}

/// An identity plus an optional sub-identifier.
#[derive(Clone, Copy, Debug)]
pub struct Account {
    pub owner: Principal,
    pub subaccount: Option<Subaccount>,
}

/// The bytes of an optional subaccount.
pub open spec fn subaccount_view(s: Option<Subaccount>) -> Option<Seq<u8>> {
    match s {
        Some(bytes) => Some(bytes@),
        None => None,
    }
}

impl View for Account {
    type V = AccountView;

    open spec fn view(&self) -> AccountView {
        AccountView { owner: self.owner@, subaccount: subaccount_view(self.subaccount) }
    }
}

/// Whether two optional subaccounts hold the same bytes.
pub fn subaccount_eq(a: &Option<Subaccount>, b: &Option<Subaccount>) -> (r: bool)
    ensures
        r == (subaccount_view(*a) == subaccount_view(*b)),
{
    match a {
        Some(x) => match b {
            Some(y) => {
                let mut i: usize = 0;
                while i < 32
                    invariant
                        i <= 32,
                        *a == Some(*x),
                        *b == Some(*y),
                        forall|j: int| 0 <= j < i ==> x@[j] == y@[j],
                    decreases 32 - i,
                {
                    if x[i] != y[i] {
                        assert(x@[i as int] != y@[i as int]);
                        return false;
                    }
                    i = i + 1;
                }
                assert(x@ =~= y@);
                true
            },
            None => false,
        },
        None => b.is_none(),
    }
}

/// Whether a subaccount is the default one: every byte of it is 0.
pub open spec fn is_default_subaccount(bytes: Seq<u8>) -> bool {
    forall|i: int| 0 <= i < bytes.len() ==> bytes[i] == 0u8
}

/// The subaccount by which an account is recorded: the default
/// subaccount names the same account as no subaccount, and is recorded as
/// none.
pub open spec fn recorded_subaccount(subaccount: Option<Subaccount>) -> Option<Subaccount> {
    match subaccount {
        Some(bytes) => if is_default_subaccount(bytes@) {
            None
        } else {
            Some(bytes)
        },
        None => None,
    }
}

/// The subaccount by which an account is recorded.
pub fn canonical_subaccount(subaccount: Option<Subaccount>) -> (r: Option<Subaccount>)
    ensures
        r == recorded_subaccount(subaccount),
{
    match subaccount {
        Some(bytes) => {
            let mut i: usize = 0;
            while i < 32
                invariant
                    i <= 32,
                    subaccount == Some(bytes),
                    forall|j: int| 0 <= j < i ==> bytes@[j] == 0u8,
                decreases 32 - i,
            {
                if bytes[i] != 0 {
                    assert(bytes@[i as int] != 0u8);
                    return Some(bytes);
                }
                i = i + 1;
            }
            assert(bytes@.len() == 32);
            None
        },
        None => None,
    }
}

impl Account {
    /// The account of `owner` under `subaccount` as the registry records
    /// it: without subaccount where the default one is named.
    pub fn canonical(owner: Principal, subaccount: Option<Subaccount>) -> (r: Account)
        ensures
            r.owner == owner,
            r.subaccount == recorded_subaccount(subaccount),
    {
        Account { owner, subaccount: canonical_subaccount(subaccount) }
    }

    /// The account of `owner` with the given subaccount.
    pub fn new(owner: Principal, subaccount: Option<Subaccount>) -> (r: Account)
        ensures
            r.owner == owner,
            r.subaccount == subaccount,
    {
        Account { owner, subaccount }
    }

    /// Whether the owner of this account is the anonymous identity.
    pub fn is_anonymous(&self) -> (r: bool)
        ensures
            r == (self@.owner == anonymous_view()),
    {
        self.owner.is_anonymous()
    }
}

impl PartialEq for Account {
    fn eq(&self, other: &Account) -> (r: bool) {
        self.owner == other.owner && subaccount_eq(&self.subaccount, &other.subaccount)
    }
}

impl vstd::std_specs::cmp::PartialEqSpecImpl for Account {
    open spec fn obeys_eq_spec() -> bool {
        true
    }

    open spec fn eq_spec(&self, other: &Account) -> bool {
        self@ == other@
    }
}

impl Eq for Account {}

/// Whether two optional accounts are the same: both absent, or both
/// present with the same view.
pub fn option_account_eq(a: &Option<Account>, b: &Option<Account>) -> (r: bool)
    ensures
        r == (option_account_view(*a) == option_account_view(*b)),
{
    match (a, b) {
        (None, None) => true,
        (Some(x), Some(y)) => *x == *y,
        _ => false,
    }
}

/// The view of an optional account.
pub open spec fn option_account_view(a: Option<Account>) -> Option<AccountView> {
    match a {
        Some(x) => Some(x@),
        None => None,
    }
}

} // verus!
