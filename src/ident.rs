//! Validated identifiers: NSIDs and account identifiers (DIDs).
//!
//! Their syntax is the one `atrium_api` enforces; this module holds the text
//! and answers the questions the checking logic asks of it.

use vstd::prelude::*;
use vstd::string::*;
use crate::error::AppError;
use crate::text::{last_index_of, rfind_char_before, starts_with_text};

verus! {

/// Whether `atrium_api` accepts the text as an NSID.
pub uninterp spec fn nsid_syntax(s: Seq<char>) -> bool;

/// Whether `atrium_api` accepts the text as a DID.
pub uninterp spec fn did_syntax(s: Seq<char>) -> bool;

/// Relies on `atrium_api::types::string::Nsid::new`: it accepts or rejects
/// the text by its characters alone.
#[verifier::external_body]
fn nsid_accepted(s: &str) -> (r: bool)
    ensures
        r == nsid_syntax(s@),
{
    atrium_api::types::string::Nsid::new(s.to_string()).is_ok()
}

/// Relies on `atrium_api::types::string::Did::new`: it accepts or rejects
/// the text by its characters alone.
#[verifier::external_body]
fn did_accepted(s: &str) -> (r: bool)
    ensures
        r == did_syntax(s@),
{
    atrium_api::types::string::Did::new(s.to_string()).is_ok()
}

/// The part of an NSID before its last dot (empty where there is no dot).
pub open spec fn domain_authority_of(s: Seq<char>) -> Seq<char> {
    let i = last_index_of(s, '.');
    if i < 0 {
        Seq::empty()
    } else {
        s.subrange(0, i)
    }
}

/// The namespace reserved for the hosting application, whose NSIDs need no
/// delegation proof.
pub open spec fn reserved_namespace() -> Seq<char> {
    seq!['a', 'p', 'p', '.', 'b', 's', 'k', 'y']
}

/// Whether an NSID's domain authority starts with the reserved namespace.
pub open spec fn is_well_known(s: Seq<char>) -> bool {
    reserved_namespace().is_prefix_of(domain_authority_of(s))
}

/// A namespaced schema identifier, e.g. `community.lexicon.calendar.event`.
#[derive(Debug)]
pub struct Nsid {
    text: String,
}

impl View for Nsid {
    type V = Seq<char>;

    closed spec fn view(&self) -> Seq<char> {
        self.text@
    }
}

impl Nsid {
    #[verifier::type_invariant]
    spec fn inv(self) -> bool {
        nsid_syntax(self.text@)
    }

    /// Parses an NSID; the text is kept as given.
    pub fn new(text: String) -> (r: Result<Nsid, AppError>)
        ensures
            nsid_syntax(text@) <==> r is Ok,
            r matches Ok(n) ==> n@ == text@,
            r is Err ==> (r matches Err(AppError::NsidError(t)) && t@ == text@),
    {
        if nsid_accepted(text.as_str()) {
            Ok(Nsid { text })
        } else {
            Err(AppError::NsidError(text))
        }
    }

    /// The text; it always has the syntax its parser accepts.
    pub fn as_str(&self) -> (r: &str)
        ensures
            r@ == self@,
            nsid_syntax(self@),
    {
        proof {
            use_type_invariant(self);
        }
        self.text.as_str()
    }

    /// The dot-separated prefix before the final name segment.
    pub fn domain_authority(&self) -> (r: &str)
        ensures
            r@ == domain_authority_of(self@),
    {
        let s = self.text.as_str();
        let n = s.unicode_len();
        proof {
            assert(s@.subrange(0, n as int) == s@);
        }
        match rfind_char_before(s, '.', n) {
            Some(i) => s.substring_char(0, i),
            None => {
                let r = "";
                proof {
                    reveal_strlit("");
                    assert(r@ =~= Seq::<char>::empty());
                }
                r
            },
        }
    }

    /// Whether this NSID lies in the reserved application namespace.
    pub fn is_well_known(&self) -> (r: bool)
        ensures
            r == is_well_known(self@),
    {
        let prefix = "app.bsky";
        proof {
            reveal_strlit("app.bsky");
            assert(prefix@ =~= reserved_namespace());
        }
        starts_with_text(self.domain_authority(), prefix)
    }

    /// Whether two NSIDs are the same text.
    pub fn same_as(&self, other: &Nsid) -> (r: bool)
        ensures
            r == (self@ == other@),
    {
        self.text == other.text
    }
}

impl Clone for Nsid {
    fn clone(&self) -> (r: Self)
        ensures
            r@ == self@,
    {
        proof {
            use_type_invariant(self);
        }
        Nsid { text: self.text.clone() }
    }
}

impl PartialEq for Nsid {
    fn eq(&self, other: &Nsid) -> (r: bool) {
        self.text == other.text
    }
}

impl vstd::std_specs::cmp::PartialEqSpecImpl for Nsid {
    open spec fn obeys_eq_spec() -> bool {
        true
    }

    open spec fn eq_spec(&self, other: &Nsid) -> bool {
        self@ == other@
    }
}

impl Eq for Nsid {
}

/// An account identifier (decentralized identifier), e.g. `did:plc:abc`.
#[derive(Debug)]
pub struct Did {
    text: String,
}

impl View for Did {
    type V = Seq<char>;

    closed spec fn view(&self) -> Seq<char> {
        self.text@
    }
}

impl Did {
    #[verifier::type_invariant]
    spec fn inv(self) -> bool {
        did_syntax(self.text@)
    }

    /// Parses an account identifier; the text is kept as given.
    pub fn new(text: String) -> (r: Result<Did, AppError>)
        ensures
            did_syntax(text@) <==> r is Ok,
            r matches Ok(d) ==> d@ == text@,
            r is Err ==> (r matches Err(AppError::DIDError(t)) && t@ == text@),
    {
        if did_accepted(text.as_str()) {
            Ok(Did { text })
        } else {
            Err(AppError::DIDError(text))
        }
    }

    /// The text; it always has the syntax its parser accepts.
    pub fn as_str(&self) -> (r: &str)
        ensures
            r@ == self@,
            did_syntax(self@),
    {
        proof {
            use_type_invariant(self);
        }
        self.text.as_str()
    }
}

impl Clone for Did {
    fn clone(&self) -> (r: Self)
        ensures
            r@ == self@,
    {
        proof {
            use_type_invariant(self);
        }
        Did { text: self.text.clone() }
    }
}

impl PartialEq for Did {
    fn eq(&self, other: &Did) -> (r: bool) {
        self.text == other.text
    }
}

impl vstd::std_specs::cmp::PartialEqSpecImpl for Did {
    open spec fn obeys_eq_spec() -> bool {
        true
    }

    open spec fn eq_spec(&self, other: &Did) -> bool {
        self@ == other@
    }
}

impl Eq for Did {
}

} // verus!
