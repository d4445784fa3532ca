//! Account identifiers: opaque names of participants and programs on the host
//! ledger. The host runtime validates identifiers before they reach the
//! contract; this module mirrors that validation so that every `AccountId`
//! value is well formed by construction.

use vstd::prelude::*;
use vstd::string::StrSliceExecFns;

verus! {

/// A character the host ledger accepts inside an account identifier:
/// lower-case ASCII letters, digits, and the separators `.`, `_`, `-`.
pub open spec fn valid_account_char(c: char) -> bool {
    ('a' <= c && c <= 'z') || ('0' <= c && c <= '9') || c == '.' || c == '_' || c == '-'
}

/// A well-formed account identifier: between 2 and 64 characters, all of them
/// from the host ledger's identifier alphabet.
pub open spec fn valid_account_id(s: Seq<char>) -> bool {
    &&& 2 <= s.len() <= 64
    &&& forall|i: int| 0 <= i < s.len() ==> valid_account_char(#[trigger] s[i])
}

/// An account identifier on the host ledger. Values can only be built through
/// [`AccountId::new`], so every `AccountId` satisfies [`valid_account_id`].
pub struct AccountId {
    id: String,
}

impl View for AccountId {
    type V = Seq<char>;

    closed spec fn view(&self) -> Seq<char> {
        self.id@
    }
}

impl AccountId {
    /// Holds of every `AccountId` value: the identifier is well formed.
    #[verifier::type_invariant]
    pub open spec fn wf(self) -> bool {
        valid_account_id(self@)
    }

    /// Validates `id` as the host ledger would; returns the identifier when it
    /// is well formed and `None` otherwise.
    pub fn new(id: String) -> (r: Option<AccountId>)
        ensures
            r is Some <==> valid_account_id(id@),
            r is Some ==> r.unwrap()@ == id@,
    {
        let len = id.as_str().unicode_len();
        if len < 2 || len > 64 {
            return None;
        }
        let mut i: usize = 0;
        while i < len
            invariant
                i <= len,
                len == id@.len(),
                forall|j: int| 0 <= j < i ==> valid_account_char(#[trigger] id@[j]),
            decreases len - i,
        {
            let c = id.as_str().get_char(i);
            let ok = ('a' <= c && c <= 'z') || ('0' <= c && c <= '9') || c == '.' || c == '_'
                || c == '-';
            if !ok {
                return None;
            }
            i = i + 1;
        }
        Some(AccountId { id })
    }

    /// The identifier as a string slice.
    pub fn as_str(&self) -> (r: &str)
        ensures
            r@ == self@,
    {
        self.id.as_str()
    }

    /// The identifier as an owned string.
    pub fn to_text(&self) -> (r: String)
        ensures
            r@ == self@,
    {
        self.id.clone()
    }
}

impl Clone for AccountId {
    fn clone(&self) -> (r: Self)
        ensures
            r@ == self@,
    {
        proof {
            use_type_invariant(self);
        }
        AccountId { id: self.id.clone() }
    }
}

impl PartialEq for AccountId {
    fn eq(&self, other: &AccountId) -> (r: bool) {
        self.id == other.id
    }
}

impl Eq for AccountId {}

impl vstd::std_specs::cmp::PartialEqSpecImpl for AccountId {
    open spec fn obeys_eq_spec() -> bool {
        true
    }

    open spec fn eq_spec(&self, other: &AccountId) -> bool {
        self@ == other@
    }
}

} // verus!
