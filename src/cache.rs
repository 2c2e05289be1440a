//! The fetch cache: where a source's entry is kept, and how an entry is
//! written to bytes and read back.
use vstd::prelude::*;

use crate::keywords::{map_of_pairs, pairs_of, pairs_unique, KeywordSet};
use crate::page::{ExtractionResult, ResultModel};
use crate::source::{url_parts, SourceId};
use crate::text::push_char;

verus! {

/// The FxHash of a text, as `Hash` feeds a `str` to `FxHasher` (its value
/// depends on the target's word size and byte order, and on the text alone).
pub uninterp spec fn fx_hash_of(s: Seq<char>) -> u64;

/// Relies on fxhash's `FxHasher`: the hash of a string depends on its
/// characters alone.
#[verifier::external_body]
fn fx_hash_str(s: &str) -> (r: u64)
    ensures
        r == fx_hash_of(s@),
{
    let mut h = fxhash::FxHasher::default();
    std::hash::Hash::hash(s, &mut h);
    std::hash::Hasher::finish(&h)
}

pub open spec fn digit_char(d: nat) -> char {
    if d == 0 {
        '0'
    } else if d == 1 {
        '1'
    } else if d == 2 {
        '2'
    } else if d == 3 {
        '3'
    } else if d == 4 {
        '4'
    } else if d == 5 {
        '5'
    } else if d == 6 {
        '6'
    } else if d == 7 {
        '7'
    } else if d == 8 {
        '8'
    } else {
        '9'
    }
}

/// The decimal digits of `n`, without leading zeros.
pub open spec fn decimal(n: nat) -> Seq<char>
    decreases n,
{
    if n < 10 {
        seq![digit_char(n)]
    } else {
        decimal(n / 10).push(digit_char(n % 10))
    }
}

fn digit(d: u64) -> (c: char)
    requires
        d < 10,
    ensures
        c == digit_char(d as nat),
{
    if d == 0 {
        '0'
    } else if d == 1 {
        '1'
    } else if d == 2 {
        '2'
    } else if d == 3 {
        '3'
    } else if d == 4 {
        '4'
    } else if d == 5 {
        '5'
    } else if d == 6 {
        '6'
    } else if d == 7 {
        '7'
    } else if d == 8 {
        '8'
    } else {
        '9'
    }
}

/// Writes `n` in decimal.
pub fn decimal_string(n: u64) -> (r: String)
    ensures
        r@ == decimal(n as nat),
    decreases n,
{
    if n < 10 {
        let mut r = String::new();
        push_char(&mut r, digit(n));
        assert(r@ =~= decimal(n as nat));
        r
    } else {
        let mut r = decimal_string(n / 10);
        push_char(&mut r, digit(n % 10));
        r
    }
}

/// The name of the file that holds the cache entry of a source: the decimal
/// FxHash of its address. Two addresses may share a name; that risk is
/// accepted.
pub fn cache_file_name(source: &SourceId) -> (r: String)
    ensures
        r@ == decimal(fx_hash_of(source.text@) as nat),
{
    decimal_string(fx_hash_str(source.text.as_str()))
}

/// A cache record as plain values: absent for "no data", else the keyword
/// pairs, the source, the job title and the organisation.
pub type RecordModel = Option<(Seq<(Seq<char>, u64)>, Seq<char>, Seq<char>, Seq<char>)>;

/// A cache record as owned values.
pub type Record = Option<(Vec<(String, u64)>, String, String, String)>;

pub open spec fn record_view(r: Record) -> RecordModel {
    match r {
        Some(x) => Some((pairs_of(x.0@), x.1@, x.2@, x.3@)),
        None => None,
    }
}

pub open spec fn decoded_view(r: Option<Record>) -> Option<RecordModel> {
    match r {
        Some(x) => Some(record_view(x)),
        None => None,
    }
}

/// The bitcode encoding of a record.
pub uninterp spec fn bitcode_of(v: RecordModel) -> Seq<u8>;

/// What bitcode decodes from bytes as a record; `None` where it fails.
pub uninterp spec fn bitcode_decoded(b: Seq<u8>) -> Option<RecordModel>;

/// Relies on `bitcode::encode`: the encoding depends on the values alone.
#[verifier::external_body]
fn encode_record(r: &Record) -> (b: Vec<u8>)
    ensures
        b@ == bitcode_of(record_view(*r)),
{
    bitcode::encode(r)
}

/// Relies on `bitcode::decode`: the bytes that `bitcode::encode` wrote for
/// a value decode to that value.
#[verifier::external_body]
fn decode_record(bytes: &[u8]) -> (r: Option<Record>)
    ensures
        decoded_view(r) == bitcode_decoded(bytes@),
        forall|v: RecordModel| #[trigger] bitcode_of(v) == bytes@ ==> decoded_view(r) == Some(v),
{
    bitcode::decode(bytes).ok()
}

/// A cache entry: a result, or the mark that the source gave no data.
pub enum CacheEntry {
    NoData,
    Data(ExtractionResult),
}

/// Why a cache entry could not be read.
#[derive(Clone, Copy, PartialEq, Eq, Structural, Debug)]
pub enum CacheError {
    /// The bytes are not an entry that this cache wrote.
    Corrupt,
}

impl CacheError {
    /// What the user can do about the error.
    pub fn remedy(&self) -> (r: &'static str)
        ensures
            r@ == "the cache entry is unreadable; consider deleting it"@,
    {
        match self {
            CacheError::Corrupt => "the cache entry is unreadable; consider deleting it",
        }
    }
}

impl CacheEntry {
    pub open spec fn wf(&self) -> bool {
        self matches CacheEntry::Data(r) ==> r.wf()
    }

    pub open spec fn model(&self) -> Option<ResultModel> {
        match self {
            CacheEntry::NoData => None,
            CacheEntry::Data(r) => Some(r@),
        }
    }

    /// Whether the entry's source, if it holds one, is a valid address.
    pub open spec fn source_parses(&self) -> bool {
        self matches CacheEntry::Data(r) ==> url_parts(r.source@) is Some
    }

    /// The record that an entry is written as.
    pub open spec fn record(&self) -> RecordModel {
        match self {
            CacheEntry::NoData => None,
            CacheEntry::Data(r) => Some(
                (r.keywords.entry_seq(), r.source@, r.job_title@, r.company@),
            ),
        }
    }

    /// The bytes of the cache file that holds the entry.
    pub fn encode(&self) -> (r: Vec<u8>)
        ensures
            r@ == bitcode_of(self.record()),
    {
        let rec: Record = match self {
            CacheEntry::NoData => None,
            CacheEntry::Data(x) => Some(
                (x.keywords.to_entries(), x.source.clone(), x.job_title.clone(), x.company.clone()),
            ),
        };
        encode_record(&rec)
    }
}

/// What reading bytes as a cache entry gives.
pub open spec fn decoded_entry(bytes: Seq<u8>) -> Result<Option<ResultModel>, CacheError> {
    match bitcode_decoded(bytes) {
        None => Err(CacheError::Corrupt),
        Some(None) => Ok(None),
        Some(Some((pairs, source, job_title, company))) => if pairs_unique(pairs) && url_parts(
            source,
        ) is Some {
            Ok(
                Some(
                    ResultModel {
                        keywords: map_of_pairs(pairs),
                        source,
                        job_title,
                        company,
                    },
                ),
            )
        } else {
            Err(CacheError::Corrupt)
        },
    }
}

/// Reads the bytes of a cache file as an entry. An entry whose keywords
/// repeat a text, or whose source is not a valid address, is corrupt. Bytes
/// that this cache wrote for an entry with a valid source read back as that
/// entry.
pub fn decode_entry(bytes: &[u8]) -> (r: Result<CacheEntry, CacheError>)
    ensures
        match r {
            Ok(e) => e.wf() && decoded_entry(bytes@) == Ok::<_, CacheError>(e.model()),
            Err(err) => decoded_entry(bytes@) == Err::<Option<ResultModel>, _>(err),
        },
        forall|e: CacheEntry|
            e.wf() && e.source_parses() && #[trigger] bitcode_of(e.record()) == bytes@ ==> (r matches Ok(
                d,
            ) && d.model() == e.model()),
{
    let rec = match decode_record(bytes) {
        Some(rec) => rec,
        None => {
            return Err(CacheError::Corrupt);
        },
    };
    let r = match rec {
        None => Ok(CacheEntry::NoData),
        Some((entries, source, job_title, company)) => match KeywordSet::from_entries(entries) {
            Some(keywords) => {
                proof {
                    keywords.lemma_entries();
                }
                if SourceId::parse(source.as_str()).is_some() {
                    Ok(CacheEntry::Data(ExtractionResult { keywords, source, job_title, company }))
                } else {
                    Err(CacheError::Corrupt)
                }
            },
            None => Err(CacheError::Corrupt),
        },
    };
    assert forall|e: CacheEntry|
        e.wf() && e.source_parses() && #[trigger] bitcode_of(e.record()) == bytes@ implies (r matches Ok(d) && d.model()
            == e.model()) by {
        if let CacheEntry::Data(x) = e {
            x.keywords.lemma_entries();
        }
    }
    r
}

} // verus!
