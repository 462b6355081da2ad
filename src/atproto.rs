//! The repository side: schema records and the NSIDs their addresses name.

use vstd::prelude::*;
use crate::dns::{lexicon_address, nsid_address};
use crate::error::AppError;
use crate::ident::{nsid_syntax, Nsid};
use crate::text::{last_index_of, lemma_last_index_of, rfind_char_before};

verus! {

/// Derives the DNS name at which an NSID's delegation TXT record lives.
pub fn nsid_lexicon_address(nsid: &str) -> (r: String)
    ensures
        r@ == lexicon_address(nsid@),
{
    nsid_address(nsid)
}

/// The text after the final `/` of a record address, where it has one.
pub open spec fn after_last_slash(uri: Seq<char>) -> Option<Seq<char>> {
    let i = last_index_of(uri, '/');
    if i < 0 {
        None
    } else {
        Some(uri.subrange(i + 1, uri.len() as int))
    }
}

/// The NSID that a schema record's address names, where that text is one.
pub open spec fn record_nsid(uri: Seq<char>) -> Option<Seq<char>> {
    match after_last_slash(uri) {
        Some(t) => if nsid_syntax(t) {
            Some(t)
        } else {
            None
        },
        None => None,
    }
}

/// The NSIDs named by a page of record addresses, in order; none where any
/// address fails to name one.
pub open spec fn page_nsids(uris: Seq<Seq<char>>) -> Option<Seq<Seq<char>>> {
    if forall|i: int| 0 <= i < uris.len() ==> (#[trigger] record_nsid(uris[i])) is Some {
        Some(uris.map_values(|u: Seq<char>| record_nsid(u)->Some_0))
    } else {
        None
    }
}

/// Extracts the NSID from a record address such as
/// `at://did:plc:abc/com.atproto.lexicon.schema/blue.2048.verification.stats`:
/// the text after the final `/`, parsed as an NSID.
pub fn aturi_to_nsid(uri: &str) -> (r: Result<Nsid, AppError>)
    ensures
        r is Ok <==> record_nsid(uri@) is Some,
        r matches Ok(n) ==> record_nsid(uri@) == Some(n@),
        r is Err ==> (r matches Err(AppError::NsidError(_))),
{
    let n = uri.unicode_len();
    proof {
        assert(uri@.subrange(0, n as int) == uri@);
        lemma_last_index_of(uri@, '/');
    }
    match rfind_char_before(uri, '/', n) {
        None => Err(AppError::NsidError(uri.to_string())),
        Some(i) => Nsid::new(uri.substring_char(i + 1, n).to_string()),
    }
}

/// One page of the schema collection's records, as the repository sent it.
#[derive(Debug)]
pub struct RecordPage {
    /// The address of each record, in order.
    pub uris: Vec<String>,
    /// Where the next page starts; absent on the last page.
    pub cursor: Option<String>,
}

/// The NSIDs defined on one page of schema records.
#[derive(Debug)]
pub struct FoundLexica {
    pub lexica: Vec<Nsid>,
    pub cursor: Option<String>,
}

/// The views of a list of NSIDs.
pub open spec fn nsid_texts(v: Seq<Nsid>) -> Seq<Seq<char>> {
    v.map_values(|n: Nsid| n@)
}

/// The views of a list of strings.
pub open spec fn string_texts(v: Seq<String>) -> Seq<Seq<char>> {
    v.map_values(|s: String| s@)
}

/// Reads the NSIDs out of a page of schema records; fails where a record's
/// address does not end in an NSID.
pub fn get_lexicon_nsids(page: RecordPage) -> (r: Result<FoundLexica, AppError>)
    ensures
        r is Ok <==> page_nsids(string_texts(page.uris@)) is Some,
        r matches Ok(f) ==> Some(nsid_texts(f.lexica@)) == page_nsids(string_texts(page.uris@))
            && f.cursor == page.cursor,
        r is Err ==> (r matches Err(AppError::NsidError(_))),
{
    let ghost uris = string_texts(page.uris@);
    let mut lexica: Vec<Nsid> = Vec::new();
    let mut i: usize = 0;
    while i < page.uris.len()
        invariant
            i <= page.uris.len(),
            uris == string_texts(page.uris@),
            lexica.len() == i,
            forall|j: int| 0 <= j < i ==> (#[trigger] record_nsid(uris[j])) == Some(lexica@[j]@),
        decreases page.uris.len() - i,
    {
        match aturi_to_nsid(page.uris[i].as_str()) {
            Ok(n) => {
                lexica.push(n);
            },
            Err(e) => {
                proof {
                    assert(record_nsid(uris[i as int]) is None);
                }
                return Err(e);
            },
        }
        i = i + 1;
    }
    proof {
        assert(forall|j: int| 0 <= j < uris.len() ==> (#[trigger] record_nsid(uris[j])) is Some);
        assert(nsid_texts(lexica@) =~= uris.map_values(|u: Seq<char>| record_nsid(u)->Some_0));
    }
    Ok(FoundLexica { lexica, cursor: page.cursor })
}

} // verus!
