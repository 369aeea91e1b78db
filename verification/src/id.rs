//! Identifiers: content-derived vigy ids (BLAKE3 of name and program) and
//! uuidv7 run ids.

use vstd::prelude::*;
use vstd::string::StrSliceExecFns;
use crate::error::Error;
use crate::text::chars_of;

verus! {

/// The lowercase hex encoding of the BLAKE3 hash of `data`.
pub uninterp spec fn blake3_hex(data: Seq<u8>) -> Seq<char>;

/// Whether `uuid::Uuid::parse_str` accepts the UTF-8 bytes `input`.
pub uninterp spec fn uuid_parses(input: Seq<u8>) -> bool;

/// A lowercase hex digit, as `blake3::Hash::to_hex` writes them.
pub open spec fn is_lower_hex(c: char) -> bool {
    ('0' <= c <= '9') || ('a' <= c <= 'f')
}

/// An ASCII hex digit of either case, as `char::is_ascii_hexdigit` accepts.
pub open spec fn is_hex(c: char) -> bool {
    ('0' <= c <= '9') || ('a' <= c <= 'f') || ('A' <= c <= 'F')
}

/// The bytes hashed for a vigy id: `name`, a zero byte, then `program`.
pub open spec fn id_input(name: Seq<char>, program: Seq<char>) -> Seq<u8> {
    vstd::utf8::encode_utf8(name) + seq![0u8] + vstd::utf8::encode_utf8(program)
}

/// The id of a vigy named `name` running `program`.
pub open spec fn spec_vigy_id(name: Seq<char>, program: Seq<char>) -> Seq<char> {
    blake3_hex(id_input(name, program)).take(16)
}

/// Whether `s` is accepted as a stored vigy id: 16 bytes, all hex digits.
pub open spec fn valid_vigy_id(s: Seq<char>) -> bool {
    &&& vstd::utf8::encode_utf8(s).len() == 16
    &&& forall|i: int| 0 <= i < s.len() ==> is_hex(#[trigger] s[i])
}

/// Hex digest of BLAKE3 over `data`.
///
/// Calls `blake3::hash` and `Hash::to_hex`; trusted to return the hash's
/// lowercase hex form, 64 characters long.
#[verifier::external_body]
fn blake3_hex_of(data: &[u8]) -> (r: String)
    ensures
        r@ == blake3_hex(data@),
        r@.len() == 64,
        forall|i: int| 0 <= i < r@.len() ==> is_lower_hex(#[trigger] r@[i]),
{
    blake3::hash(data).to_hex().to_string()
}

/// A fresh uuidv7 in hyphenated form.
///
/// Calls `uuid::Uuid::now_v7` and formats it; the value depends on the clock
/// and on randomness, so only its shape is stated: 36 characters, in the
/// hyphenated form that `Uuid::parse_str` reads back, with the version
/// digit `7` at index 14.
#[verifier::external_body]
fn uuid_v7_string() -> (r: String)
    ensures
        r@.len() == 36,
        r@[14] == '7',
        uuid_parses(vstd::utf8::encode_utf8(r@)),
{
    uuid::Uuid::now_v7().to_string()
}

/// Whether `uuid::Uuid::parse_str` accepts `s`.
#[verifier::external_body]
fn uuid_parse_ok(s: &str) -> (r: bool)
    ensures
        r == uuid_parses(vstd::utf8::encode_utf8(s@)),
{
    uuid::Uuid::parse_str(s).is_ok()
}

/// Stable vigy identifier: the first 16 hex characters of
/// BLAKE3(name || 0 || program).
#[derive(Debug, Clone, PartialEq, Eq, Hash)]
pub struct VigyId(String);

impl View for VigyId {
    type V = Seq<char>;

    closed spec fn view(&self) -> Seq<char> {
        self.0@
    }
}

impl VigyId {
    /// The id that `name` and `program` determine.
    pub fn from_name_and_program(name: &str, program: &str) -> (r: VigyId)
        ensures
            r@ == spec_vigy_id(name@, program@),
            r@.len() == 16,
            forall|i: int| 0 <= i < 16 ==> is_lower_hex(#[trigger] r@[i]),
    {
        let mut data: Vec<u8> = Vec::new();
        data.extend_from_slice(name.as_bytes());
        data.push(0u8);
        data.extend_from_slice(program.as_bytes());
        assert(data@ =~= id_input(name@, program@));
        let hex = blake3_hex_of(data.as_slice());
        let short = hex.as_str().substring_char(0, 16);
        VigyId(short.to_owned())
    }

    /// Accepts an existing id: 16 bytes, every one an ASCII hex digit.
    pub fn parse(s: String) -> (r: Result<VigyId, Error>)
        ensures
            valid_vigy_id(s@) ==> (r matches Ok(id) && id@ == s@),
            !valid_vigy_id(s@) ==> (r matches Err(Error::InvalidId { id, reason }) && id@ == s@
                && reason == "must be 16 lowercase hex chars"),
    {
        let n = s.as_str().as_bytes().len();
        let cs = chars_of(s.as_str());
        let mut ok = n == 16;
        let mut i: usize = 0;
        while i < cs.len()
            invariant
                cs@ == s@,
                i <= cs@.len(),
                ok == (n == 16 && forall|j: int| 0 <= j < i ==> is_hex(#[trigger] cs@[j])),
            decreases cs@.len() - i,
        {
            let c = cs[i];
            let h = ('0' <= c && c <= '9') || ('a' <= c && c <= 'f') || ('A' <= c && c <= 'F');
            ok = ok && h;
            proof {
                if !h {
                    assert(!is_hex(cs@[i as int]));
                }
            }
            i += 1;
        }
        if !ok {
            return Err(Error::InvalidId { id: s, reason: "must be 16 lowercase hex chars" });
        }
        Ok(VigyId(s))
    }

    /// The id's text.
    pub fn as_str(&self) -> (r: &str)
        ensures
            r@ == self@,
    {
        self.0.as_str()
    }

    /// A copy of the id.
    pub fn duplicate(&self) -> (r: VigyId)
        ensures
            r@ == self@,
    {
        VigyId(self.0.clone())
    }

    /// Whether two ids are the same.
    pub fn same(&self, other: &VigyId) -> (r: bool)
        ensures
            r == (self@ == other@),
    {
        self.0 == other.0
    }
}

/// Run identifier: a uuidv7, which sorts by creation time.
#[derive(Debug, Clone, PartialEq, Eq, Hash)]
pub struct VigyRunId(String);

impl View for VigyRunId {
    type V = Seq<char>;

    closed spec fn view(&self) -> Seq<char> {
        self.0@
    }
}

impl VigyRunId {
    /// A fresh uuidv7 run id (version digit `7` at index 14); `parse`
    /// accepts it.
    pub fn new() -> (r: VigyRunId)
        ensures
            r@.len() == 36,
            r@[14] == '7',
            uuid_parses(vstd::utf8::encode_utf8(r@)),
    {
        VigyRunId(uuid_v7_string())
    }

    /// Accepts `s` when it is a uuid in one of the forms the `uuid` crate
    /// parses.
    pub fn parse(s: String) -> (r: Result<VigyRunId, Error>)
        ensures
            uuid_parses(vstd::utf8::encode_utf8(s@)) ==> (r matches Ok(id) && id@ == s@),
            !uuid_parses(vstd::utf8::encode_utf8(s@)) ==> (r matches Err(
                Error::InvalidId { id, reason },
            ) && id@ == s@ && reason == "must be a uuid"),
    {
        if !uuid_parse_ok(s.as_str()) {
            return Err(Error::InvalidId { id: s, reason: "must be a uuid" });
        }
        Ok(VigyRunId(s))
    }

    /// The id's text.
    pub fn as_str(&self) -> (r: &str)
        ensures
            r@ == self@,
    {
        self.0.as_str()
    }

    /// A copy of the id.
    pub fn duplicate(&self) -> (r: VigyRunId)
        ensures
            r@ == self@,
    {
        VigyRunId(self.0.clone())
    }
}

/// The same name and program always give the same id.
pub proof fn law_vigy_id_deterministic(n1: Seq<char>, p1: Seq<char>, n2: Seq<char>, p2: Seq<char>)
    requires
        n1 == n2,
        p1 == p2,
    ensures
        spec_vigy_id(n1, p1) == spec_vigy_id(n2, p2),
{
}

/// An id of the shape `from_name_and_program` gives (16 lowercase hex
/// characters) is one that `parse` accepts.
pub proof fn law_generated_id_parses(id: Seq<char>)
    requires
        id.len() == 16,
        forall|i: int| 0 <= i < 16 ==> is_lower_hex(#[trigger] id[i]),
    ensures
        valid_vigy_id(id),
{
    assert(vstd::utf8::is_ascii_chars(id)) by {
        assert forall|i: int| 0 <= i < id.len() implies (#[trigger] id[i]) as nat <= 127 by {
            assert(is_lower_hex(id[i]));
        }
    }
    vstd::utf8::is_ascii_chars_encode_utf8(id);
}

} // verus!
