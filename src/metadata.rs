//! Descriptive records attached to escrows and pools, and the size limits
//! every write of them must respect.

use vstd::prelude::*;
use vstd::string::StrSliceExecFns;

verus! {

/// Most tags an escrow's metadata may carry.
pub const ESCROW_MAX_TAGS: usize = 20;

/// Most custom fields an escrow's metadata may carry.
pub const ESCROW_MAX_FIELDS: usize = 10;

/// Longest text, in characters, anywhere in an escrow's metadata.
pub const ESCROW_MAX_TEXT_LEN: usize = 128;

/// Largest encoded size, in bytes, of an escrow's metadata.
pub const ESCROW_MAX_ENCODED_LEN: usize = 1024;

/// Most tags a program's metadata may carry.
pub const PROGRAM_MAX_TAGS: usize = 30;

/// Most custom fields a program's metadata may carry.
pub const PROGRAM_MAX_FIELDS: usize = 15;

/// Longest text, in characters, anywhere in a program's metadata.
pub const PROGRAM_MAX_TEXT_LEN: usize = 256;

/// Largest encoded size, in bytes, of a program's metadata.
pub const PROGRAM_MAX_ENCODED_LEN: usize = 2048;

/// One entry of a metadata record's key/value extension map.
#[derive(Debug, PartialEq, Eq)]
pub struct CustomField {
    pub key: String,
    pub value: String,
}

impl Clone for CustomField {
    fn clone(&self) -> (r: Self)
        ensures
            r == *self,
    {
        CustomField { key: self.key.clone(), value: self.value.clone() }
    }
}

/// Descriptive data attached to a bounty escrow.
#[derive(Debug, PartialEq, Eq)]
pub struct EscrowMetadata {
    pub repo_id: Option<String>,
    pub issue_id: Option<String>,
    pub bounty_type: Option<String>,
    pub tags: Vec<String>,
    pub custom_fields: Vec<CustomField>,
}

/// Descriptive data attached to a program's payout pool.
#[derive(Debug, PartialEq, Eq)]
pub struct ProgramMetadata {
    pub event_name: Option<String>,
    pub event_type: Option<String>,
    pub start_date: Option<String>,
    pub end_date: Option<String>,
    pub website: Option<String>,
    pub tags: Vec<String>,
    pub custom_fields: Vec<CustomField>,
}

/// `s` has at most `max` characters.
pub open spec fn text_fits(s: String, max: nat) -> bool {
    s@.len() <= max
}

/// `s`, where present, has at most `max` characters.
pub open spec fn optional_text_fits(s: Option<String>, max: nat) -> bool {
    match s {
        Some(t) => text_fits(t, max),
        None => true,
    }
}

/// Every text of `v` has at most `max` characters.
pub open spec fn texts_fit(v: Seq<String>, max: nat) -> bool {
    forall|i: int| 0 <= i < v.len() ==> #[trigger] text_fits(v[i], max)
}

/// Every key and every value of `v` has at most `max` characters.
pub open spec fn fields_fit(v: Seq<CustomField>, max: nat) -> bool {
    forall|i: int|
        0 <= i < v.len() ==> text_fits(#[trigger] v[i].key, max) && text_fits(v[i].value, max)
}

/// No two fields of `v` have the same key.
pub open spec fn keys_unique(v: Seq<CustomField>) -> bool {
    forall|i: int, j: int| 0 <= i < j < v.len() ==> (#[trigger] v[i]).key@ != (#[trigger] v[j]).key@
}

/// `m`, whose encoding takes `encoded_len` bytes, respects every escrow metadata limit.
pub open spec fn escrow_metadata_fits(m: EscrowMetadata, encoded_len: nat) -> bool {
    let max = ESCROW_MAX_TEXT_LEN as nat;
    &&& m.tags@.len() <= ESCROW_MAX_TAGS
    &&& m.custom_fields@.len() <= ESCROW_MAX_FIELDS
    &&& optional_text_fits(m.repo_id, max)
    &&& optional_text_fits(m.issue_id, max)
    &&& optional_text_fits(m.bounty_type, max)
    &&& texts_fit(m.tags@, max)
    &&& fields_fit(m.custom_fields@, max)
    &&& keys_unique(m.custom_fields@)
    &&& encoded_len <= ESCROW_MAX_ENCODED_LEN
}

/// `m`, whose encoding takes `encoded_len` bytes, respects every program metadata limit.
pub open spec fn program_metadata_fits(m: ProgramMetadata, encoded_len: nat) -> bool {
    let max = PROGRAM_MAX_TEXT_LEN as nat;
    &&& m.tags@.len() <= PROGRAM_MAX_TAGS
    &&& m.custom_fields@.len() <= PROGRAM_MAX_FIELDS
    &&& optional_text_fits(m.event_name, max)
    &&& optional_text_fits(m.event_type, max)
    &&& optional_text_fits(m.start_date, max)
    &&& optional_text_fits(m.end_date, max)
    &&& optional_text_fits(m.website, max)
    &&& texts_fit(m.tags@, max)
    &&& fields_fit(m.custom_fields@, max)
    &&& keys_unique(m.custom_fields@)
    &&& encoded_len <= PROGRAM_MAX_ENCODED_LEN
}

fn optional_text_within(s: &Option<String>, max: usize) -> (r: bool)
    ensures
        r == optional_text_fits(*s, max as nat),
{
    match s {
        Some(t) => t.as_str().unicode_len() <= max,
        None => true,
    }
}

fn texts_within(v: &Vec<String>, max: usize) -> (r: bool)
    ensures
        r == texts_fit(v@, max as nat),
{
    let mut i: usize = 0;
    while i < v.len()
        invariant
            i <= v@.len(),
            texts_fit(v@.take(i as int), max as nat),
        decreases v@.len() - i,
    {
        if v[i].as_str().unicode_len() > max {
            assert(!text_fits(v@[i as int], max as nat));
            return false;
        }
        assert(v@.take(i + 1) =~= v@.take(i as int).push(v@[i as int]));
        i += 1;
    }
    assert(v@.take(i as int) =~= v@);
    true
}

fn fields_within(v: &Vec<CustomField>, max: usize) -> (r: bool)
    ensures
        r == fields_fit(v@, max as nat),
{
    let mut i: usize = 0;
    while i < v.len()
        invariant
            i <= v@.len(),
            fields_fit(v@.take(i as int), max as nat),
        decreases v@.len() - i,
    {
        let field = &v[i];
        if field.key.as_str().unicode_len() > max || field.value.as_str().unicode_len() > max {
            assert(!(text_fits(v@[i as int].key, max as nat) && text_fits(
                v@[i as int].value,
                max as nat,
            )));
            return false;
        }
        assert(v@.take(i + 1) =~= v@.take(i as int).push(v@[i as int]));
        i += 1;
    }
    assert(v@.take(i as int) =~= v@);
    true
}

fn keys_distinct(v: &Vec<CustomField>) -> (r: bool)
    ensures
        r == keys_unique(v@),
{
    let mut j: usize = 0;
    while j < v.len()
        invariant
            j <= v@.len(),
            forall|a: int, b: int| 0 <= a < b < j ==> (#[trigger] v@[a]).key@ != (#[trigger] v@[b]).key@,
        decreases v@.len() - j,
    {
        let mut i: usize = 0;
        while i < j
            invariant
                i <= j < v@.len(),
                forall|a: int| 0 <= a < i ==> (#[trigger] v@[a]).key@ != v@[j as int].key@,
            decreases j - i,
        {
            if v[i].key == v[j].key {
                assert(!keys_unique(v@)) by {
                    assert(v@[i as int].key@ == v@[j as int].key@);
                }
                return false;
            }
            i += 1;
        }
        j += 1;
    }
    true
}

/// Checks an escrow's metadata against the escrow limits: at most 20 tags,
/// at most 10 custom fields with distinct keys, every text at most 128
/// characters, and an encoding of at most 1024 bytes (`encoded_len` is the
/// size of the host's encoding of `metadata`).
pub fn validate_metadata_size(metadata: &EscrowMetadata, encoded_len: usize) -> (ok: bool)
    ensures
        ok == escrow_metadata_fits(*metadata, encoded_len as nat),
{
    let max = ESCROW_MAX_TEXT_LEN;
    metadata.tags.len() <= ESCROW_MAX_TAGS
        && metadata.custom_fields.len() <= ESCROW_MAX_FIELDS
        && optional_text_within(&metadata.repo_id, max)
        && optional_text_within(&metadata.issue_id, max)
        && optional_text_within(&metadata.bounty_type, max)
        && texts_within(&metadata.tags, max)
        && fields_within(&metadata.custom_fields, max)
        && keys_distinct(&metadata.custom_fields)
        && encoded_len <= ESCROW_MAX_ENCODED_LEN
}

/// Checks a program's metadata against the program limits: at most 30 tags,
/// at most 15 custom fields with distinct keys, every text at most 256
/// characters, and an encoding of at most 2048 bytes (`encoded_len` is the
/// size of the host's encoding of `metadata`).
pub fn validate_program_metadata_size(metadata: &ProgramMetadata, encoded_len: usize) -> (ok: bool)
    ensures
        ok == program_metadata_fits(*metadata, encoded_len as nat),
{
    let max = PROGRAM_MAX_TEXT_LEN;
    metadata.tags.len() <= PROGRAM_MAX_TAGS
        && metadata.custom_fields.len() <= PROGRAM_MAX_FIELDS
        && optional_text_within(&metadata.event_name, max)
        && optional_text_within(&metadata.event_type, max)
        && optional_text_within(&metadata.start_date, max)
        && optional_text_within(&metadata.end_date, max)
        && optional_text_within(&metadata.website, max)
        && texts_within(&metadata.tags, max)
        && fields_within(&metadata.custom_fields, max)
        && keys_distinct(&metadata.custom_fields)
        && encoded_len <= PROGRAM_MAX_ENCODED_LEN
}

} // verus!
