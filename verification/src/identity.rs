//! Identity handles: opaque byte strings of at most 29 bytes, with a
//! distinguished anonymous value and a textual form.

use vstd::prelude::*;
use vstd::std_specs::cmp::PartialEqSpecImpl;

verus! {

/// The longest byte string that is an identity.
pub const MAX_LENGTH_IN_BYTES: usize = 29;

/// The single byte that makes up the anonymous identity.
pub const ANONYMOUS_TAG: u8 = 4;

/// An identity handle. Its view is the byte string it stands for.
#[derive(Clone, Copy, Debug)]
pub struct Principal {
    len: u8,
    bytes: [u8; 29],
}

impl View for Principal {
    type V = Seq<u8>;

    closed spec fn view(&self) -> Seq<u8> {
        self.bytes@.subrange(0, self.spec_len() as int)
    }
}

/// The textual form that `candid::Principal::to_text` gives to a byte string.
pub uninterp spec fn principal_text(bytes: Seq<u8>) -> Seq<char>;

/// The byte string that `candid::Principal::from_text` reads out of a text,
/// or `None` where it reports an error.
pub uninterp spec fn text_principal(text: Seq<char>) -> Option<Seq<u8>>;

/// The bytes of the anonymous identity.
pub open spec fn anonymous_bytes() -> Seq<u8> {
    seq![ANONYMOUS_TAG]
}

/// Calls `candid::Principal::from_slice` and `Principal::to_text`: the result
/// is the textual form of the bytes, and reading that text back gives the
/// same bytes. Slices longer than 29 bytes, on which `from_slice` panics, are
/// left out.
#[verifier::external_body]
fn encode_text(bytes: &[u8]) -> (text: String)
    requires
        bytes@.len() <= MAX_LENGTH_IN_BYTES,
    ensures
        text@ == principal_text(bytes@),
        text_principal(text@) == Some(bytes@),
{
    candid::Principal::from_slice(bytes).to_text()
}

/// Calls `candid::Principal::from_text`: the bytes of the identity that was
/// read, never more than 29, or `None` where the text was refused.
#[verifier::external_body]
fn decode_text(text: &str) -> (bytes: Option<Vec<u8>>)
    ensures
        match bytes {
            Some(b) => text_principal(text@) == Some(b@) && b@.len() <= MAX_LENGTH_IN_BYTES,
            None => text_principal(text@) is None,
        },
{
    match candid::Principal::from_text(text) {
        Ok(p) => Some(p.as_slice().to_vec()),
        Err(_) => None,
    }
}

/// The identity that stands for a byte string of at most 29 bytes.
pub closed spec fn principal_of(bytes: Seq<u8>) -> Principal {
    choose|p: Principal| p.well_formed() && p@ == bytes
}

impl Principal {
    /// An identity holds at most 29 bytes, and zeros behind them.
    #[verifier::type_invariant]
    pub closed spec fn well_formed(&self) -> bool {
        &&& self.len <= 29
        &&& forall|i: int| self.len <= i < 29 ==> self.bytes@[i] == 0u8
    }

    /// An identity is known by its bytes: two identities with the same
    /// bytes are the same.
    pub proof fn lemma_same_bytes(p: Principal, q: Principal)
        requires
            p.well_formed(),
            q.well_formed(),
            p@ == q@,
        ensures
            p == q,
    {
        assert(p@.len() == p.len && q@.len() == q.len);
        assert forall|i: int| 0 <= i < 29 implies p.bytes[i] == q.bytes[i] by {
            if i < p.len {
                assert(p@[i] == p.bytes@[i]);
                assert(q@[i] == q.bytes@[i]);
            } else {
                assert(p.bytes@[i] == 0u8 && q.bytes@[i] == 0u8);
            }
        }
        assert(p.bytes =~= q.bytes);
    }

    /// Whatever identity a computation holds is the one that stands for its
    /// bytes.
    pub fn known(&self)
        ensures
            *self == principal_of(self@),
            self@.len() <= MAX_LENGTH_IN_BYTES,
    {
        proof {
            use_type_invariant(self);
            let q = principal_of(self@);
            Principal::lemma_same_bytes(*self, q);
        }
    }

    /// Whether two identities are the same.
    pub fn same(&self, other: &Principal) -> (r: bool)
        ensures
            r == (*self == *other),
            r == (self@ == other@),
    {
        self.known();
        other.known();
        *self == *other
    }

    /// The textual form of an identity, for display.
    pub fn whoami(caller: &Principal) -> (text: String)
        ensures
            text@ == principal_text(caller@),
    {
        caller.to_text()
    }

    /// The number of bytes of the identity, never more than 29.
    pub closed spec fn spec_len(&self) -> nat {
        if self.len as nat <= MAX_LENGTH_IN_BYTES as nat {
            self.len as nat
        } else {
            MAX_LENGTH_IN_BYTES as nat
        }
    }

    /// Every identity has at most 29 bytes.
    pub broadcast proof fn lemma_view_len(self)
        ensures
            #[trigger] self@.len() <= MAX_LENGTH_IN_BYTES,
            self@.len() == self.spec_len(),
    {
    }

    /// The identity of the management service, as a value of contracts.
    pub closed spec fn spec_management_canister() -> Principal {
        Principal { len: 0, bytes: vstd::array::spec_array_fill_for_copy_type::<u8, 29>(0u8) }
    }

    /// The management identity is the empty byte string.
    pub proof fn lemma_management_canister_is_empty()
        ensures
            Principal::spec_management_canister()@ == Seq::<u8>::empty(),
    {
        assert(Principal::spec_management_canister()@ =~= Seq::<u8>::empty());
    }

    /// The identity of the management service: the empty byte string.
    pub fn management_canister() -> (p: Principal)
        ensures
            p == Principal::spec_management_canister(),
            p@ == Seq::<u8>::empty(),
    {
        proof {
            Principal::lemma_management_canister_is_empty();
        }
        Principal { len: 0, bytes: [0u8; 29] }
    }

    /// The identity of an unauthenticated caller.
    pub fn anonymous() -> (p: Principal)
        ensures
            p@ == anonymous_bytes(),
            p == principal_of(anonymous_bytes()),
    {
        let mut bytes = [0u8; 29];
        bytes[0] = ANONYMOUS_TAG;
        let p = Principal { len: 1, bytes };
        assert(p@ =~= anonymous_bytes());
        p.known();
        p
    }

    /// The identity that stands for `slice`, or `None` for more than 29 bytes.
    pub fn try_from_slice(slice: &[u8]) -> (r: Option<Principal>)
        ensures
            slice@.len() <= MAX_LENGTH_IN_BYTES ==> r is Some && r->0@ == slice@ && r->0
                == principal_of(slice@),
            slice@.len() > MAX_LENGTH_IN_BYTES ==> r is None,
    {
        if slice.len() > MAX_LENGTH_IN_BYTES {
            return None;
        }
        let mut bytes = [0u8; 29];
        let mut i: usize = 0;
        while i < slice.len()
            invariant
                i <= slice@.len() <= MAX_LENGTH_IN_BYTES,
                forall|j: int| 0 <= j < i ==> bytes@[j] == slice@[j],
                forall|j: int| i <= j < 29 ==> bytes@[j] == 0u8,
            decreases slice@.len() - i,
        {
            bytes[i] = slice[i];
            i += 1;
        }
        let p = Principal { len: slice.len() as u8, bytes };
        assert(p@ =~= slice@);
        p.known();
        Some(p)
    }

    /// The identity that stands for `slice`.
    pub fn from_slice(slice: &[u8]) -> (p: Principal)
        requires
            slice@.len() <= MAX_LENGTH_IN_BYTES,
        ensures
            p@ == slice@,
            p == principal_of(slice@),
    {
        match Principal::try_from_slice(slice) {
            Some(p) => p,
            None => Principal::management_canister(),
        }
    }

    /// The bytes of the identity.
    pub fn as_slice(&self) -> (out: &[u8])
        ensures
            out@ == self@,
    {
        let n: usize = if self.len as usize <= MAX_LENGTH_IN_BYTES {
            self.len as usize
        } else {
            MAX_LENGTH_IN_BYTES
        };
        vstd::slice::slice_subrange(self.bytes.as_slice(), 0, n)
    }

    /// Whether this is the anonymous identity.
    pub fn is_anonymous(&self) -> (r: bool)
        ensures
            r == (self@ == anonymous_bytes()),
    {
        let s = self.as_slice();
        let r = s.len() == 1 && s[0] == ANONYMOUS_TAG;
        assert(r ==> self@ =~= anonymous_bytes());
        r
    }

    /// The textual form of the identity.
    pub fn to_text(&self) -> (text: String)
        ensures
            text@ == principal_text(self@),
            text_principal(text@) == Some(self@),
    {
        proof {
            self.lemma_view_len();
        }
        encode_text(self.as_slice())
    }

    /// Reads an identity from its textual form; `None` where the text is not
    /// the textual form of any identity.
    pub fn from_text(text: &str) -> (r: Option<Principal>)
        ensures
            match r {
                Some(p) => text_principal(text@) == Some(p@) && p == principal_of(p@),
                None => text_principal(text@) is None,
            },
    {
        match decode_text(text) {
            Some(bytes) => Principal::try_from_slice(bytes.as_slice()),
            None => None,
        }
    }
}

impl PartialEq for Principal {
    fn eq(&self, other: &Principal) -> (r: bool) {
        let a = self.as_slice();
        let b = other.as_slice();
        if a.len() != b.len() {
            return false;
        }
        let mut i: usize = 0;
        while i < a.len()
            invariant
                i <= a@.len(),
                a@.len() == b@.len(),
                a@ == self@,
                b@ == other@,
                forall|j: int| 0 <= j < i ==> a@[j] == b@[j],
            decreases a@.len() - i,
        {
            if a[i] != b[i] {
                return false;
            }
            i += 1;
        }
        assert(a@ =~= b@);
        true
    }
}

impl PartialEqSpecImpl for Principal {
    open spec fn obeys_eq_spec() -> bool {
        true
    }

    open spec fn eq_spec(&self, other: &Principal) -> bool {
        self@ == other@
    }
}

impl Eq for Principal {
}

/// Reads an identity from text. Text that is not the textual form of any
/// identity gives the anonymous identity.
pub fn string_to_principal(principal: String) -> (p: Principal)
    ensures
        p@ == parsed_or_anonymous(principal@),
        p == principal_of(parsed_or_anonymous(principal@)),
{
    slice_to_principal(principal.as_str())
}

/// Reads an identity from a string slice, with the same fallback.
pub fn slice_to_principal(principal: &str) -> (p: Principal)
    ensures
        p@ == parsed_or_anonymous(principal@),
        p == principal_of(parsed_or_anonymous(principal@)),
{
    let p = match Principal::from_text(principal) {
        Some(p) => p,
        None => Principal::anonymous(),
    };
    p.known();
    p
}

/// The bytes that a text is read as: those of the identity it is the textual
/// form of, else those of the anonymous identity.
pub open spec fn parsed_or_anonymous(text: Seq<char>) -> Seq<u8> {
    match text_principal(text) {
        Some(bytes) => bytes,
        None => anonymous_bytes(),
    }
}

/// The guard on nearly every operation: an anonymous caller is turned away
/// with a fixed message.
pub fn not_anonymous_caller(caller: &Principal) -> (r: Result<(), String>)
    ensures
        r is Err <==> caller@ == anonymous_bytes(),
        r is Err ==> r->Err_0@ == "Caller is anonymous."@,
{
    if caller.is_anonymous() {
        Err("Caller is anonymous.".to_string())
    } else {
        Ok(())
    }
}

} // verus!
