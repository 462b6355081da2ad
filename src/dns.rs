//! The DNS side of delegation: where an NSID's TXT record lives.

use vstd::prelude::*;
use vstd::string::*;
use crate::error::AppError;
use crate::ident::{did_syntax, Did};
use crate::text::{last_index_of, lemma_last_index_of, rfind_char_before, starts_with_text};

verus! {

/// The segments of a dot-separated identifier, in order.
pub open spec fn segments(s: Seq<char>) -> Seq<Seq<char>>
    decreases s.len(),
{
    let i = last_index_of(s, '.');
    if i < 0 || i >= s.len() {
        seq![s]
    } else {
        segments(s.subrange(0, i)).push(s.subrange(i + 1, s.len() as int))
    }
}

/// Each segment, last one first, each preceded by a dot.
pub open spec fn dotted_reversed(segs: Seq<Seq<char>>) -> Seq<char>
    decreases segs.len(),
{
    if segs.len() == 0 {
        Seq::empty()
    } else {
        seq!['.'] + segs.last() + dotted_reversed(segs.drop_last())
    }
}

/// The label under which delegation records are published.
pub open spec fn lexicon_label() -> Seq<char> {
    seq!['_', 'l', 'e', 'x', 'i', 'c', 'o', 'n']
}

/// The DNS name of an NSID's delegation record: the name segment dropped, the
/// domain-authority segments reversed, under the `_lexicon` label.
pub open spec fn lexicon_address(nsid: Seq<char>) -> Seq<char> {
    lexicon_label() + dotted_reversed(segments(nsid).drop_last())
}

/// Derives the DNS name at which the delegation TXT record of `nsid` is
/// published, e.g. `community.lexicon.calendar.event` gives
/// `_lexicon.calendar.lexicon.community`.
pub fn nsid_address(nsid: &str) -> (r: String)
    ensures
        r@ == lexicon_address(nsid@),
{
    let mut out = String::from_str("_lexicon");
    proof {
        reveal_strlit("_lexicon");
        assert(out@ == lexicon_label());
    }
    let n = nsid.unicode_len();
    let ghost whole = nsid@;
    assert(whole.subrange(0, n as int) == whole);
    let first = rfind_char_before(nsid, '.', n);
    let mut end: usize = match first {
        None => {
            return out;
        },
        Some(i) => i,
    };
    proof {
        lemma_last_index_of(whole, '.');
        assert(segments(whole) == segments(whole.subrange(0, end as int)).push(
            whole.subrange(end + 1, whole.len() as int),
        ));
        assert(segments(whole).drop_last() =~= segments(whole.subrange(0, end as int)));
    }
    loop
        invariant
            end < n == nsid@.len(),
            whole == nsid@,
            out@ + dotted_reversed(segments(whole.subrange(0, end as int)))
                == lexicon_address(whole),
        decreases end,
    {
        let ghost before = whole.subrange(0, end as int);
        let dot = rfind_char_before(nsid, '.', end);
        proof {
            lemma_last_index_of(before, '.');
        }
        match dot {
            None => {
                out.append(".");
                out.append(nsid.substring_char(0, end));
                proof {
                    reveal_strlit(".");
                    assert(segments(before) == seq![before]);
                    assert(seq![before].drop_last() =~= Seq::<Seq<char>>::empty());
                    assert(dotted_reversed(seq![before]) == seq!['.'] + before
                        + dotted_reversed(Seq::<Seq<char>>::empty()));
                    assert(out@ == lexicon_address(whole)) by {
                        assert(seq!['.'] + before + Seq::<char>::empty() =~= seq!['.'] + before);
                    }
                }
                return out;
            },
            Some(j) => {
                let ghost old_out = out@;
                out.append(".");
                out.append(nsid.substring_char(j + 1, end));
                proof {
                    reveal_strlit(".");
                    let rest = before.subrange(0, j as int);
                    let name = before.subrange(j + 1, end as int);
                    assert(rest =~= whole.subrange(0, j as int));
                    assert(name =~= whole.subrange(j + 1, end as int));
                    assert(segments(before) == segments(rest).push(name));
                    assert(segments(before).drop_last() =~= segments(rest));
                    assert(segments(before).last() == name);
                    assert(old_out + dotted_reversed(segments(before)) =~= out@
                        + dotted_reversed(segments(rest)));
                }
                end = j;
            },
        }
    }
}

/// One answer record of a DNS query, as far as delegation cares.
#[derive(Debug)]
pub enum DnsAnswer {
    /// A TXT record, with its text.
    Txt(String),
    /// A record of any other type.
    Other,
}

/// The prefix that marks a delegation payload.
pub open spec fn did_marker() -> Seq<char> {
    seq!['d', 'i', 'd', '=']
}

/// The account a TXT payload delegates to: the text after the `did=` marker,
/// where the payload starts with the marker and that text is a DID.
pub open spec fn payload_did(payload: Seq<char>) -> Option<Seq<char>> {
    if did_marker().is_prefix_of(payload) && did_syntax(payload.skip(4)) {
        Some(payload.skip(4))
    } else {
        None
    }
}

/// The account delegated to by the answers of a TXT query: the first answer
/// must be a TXT record carrying a delegation payload.
pub open spec fn answers_did(answers: Seq<DnsAnswer>) -> Option<Seq<char>> {
    if answers.len() == 0 {
        None
    } else {
        match answers[0] {
            DnsAnswer::Txt(p) => payload_did(p@),
            DnsAnswer::Other => None,
        }
    }
}

/// Reads the delegated account out of a TXT payload of the form `did=<DID>`.
pub fn txt_did(payload: &str) -> (r: Result<Did, AppError>)
    ensures
        r is Ok <==> payload_did(payload@) is Some,
        r matches Ok(d) ==> payload_did(payload@) == Some(d@),
        r is Err ==> (r matches Err(AppError::DIDError(t)) && t@ == payload@),
{
    let marker = "did=";
    proof {
        reveal_strlit("did=");
        assert(marker@ =~= did_marker());
    }
    if !starts_with_text(payload, marker) {
        return Err(AppError::DIDError(payload.to_string()));
    }
    let n = payload.unicode_len();
    let rest = payload.substring_char(4, n);
    proof {
        assert(rest@ =~= payload@.skip(4));
    }
    match Did::new(rest.to_string()) {
        Ok(d) => Ok(d),
        Err(_) => Err(AppError::DIDError(payload.to_string())),
    }
}

/// Reads the delegated account out of the answers to the TXT query made at
/// `address`; only the first answer counts.
pub fn get_txt_did(address: &str, answers: &Vec<DnsAnswer>) -> (r: Result<Did, AppError>)
    ensures
        r is Ok <==> answers_did(answers@) is Some,
        r matches Ok(d) ==> answers_did(answers@) == Some(d@),
        (answers.len() == 0 || answers[0] is Other) ==> (r matches Err(
            AppError::MissingTXTError(a),
        ) && a@ == address@),
        (answers.len() > 0 && answers[0] is Txt && r is Err) ==> (r matches Err(
            AppError::DIDError(t),
        ) && t@ == answers[0]->Txt_0@),
{
    if answers.len() == 0 {
        return Err(AppError::MissingTXTError(address.to_string()));
    }
    match &answers[0] {
        DnsAnswer::Txt(payload) => txt_did(payload.as_str()),
        DnsAnswer::Other => Err(AppError::MissingTXTError(address.to_string())),
    }
}

} // verus!
