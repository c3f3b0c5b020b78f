//! The stable identifier of each managed application: the first characters
//! of a digest of the machine identity and the application's name.
use vstd::prelude::*;
use crate::text::joined;

verus! {

/// Characters kept of the digest in an application identifier.
pub const APP_ID_CHARS: usize = 20;

/// The hexadecimal SHA-256 digest of a text.
pub uninterp spec fn sha256_hex(s: Seq<char>) -> Seq<char>;

/// Relies on dusa_collection_utils' `create_hash`: the SHA-256 digest of the
/// text's bytes, written as 64 hexadecimal characters.
#[verifier::external_body]
fn digest_text(s: &String) -> (r: String)
    ensures
        r@ == sha256_hex(s@),
        r@.len() == 64,
{
    dusa_collection_utils::platform::functions::create_hash(s.clone()).to_string()
}

/// The first `n` characters of `s`, or all of it when it is shorter.
pub open spec fn prefix_chars(s: Seq<char>, n: nat) -> Seq<char> {
    if s.len() <= n {
        s
    } else {
        s.subrange(0, n as int)
    }
}

/// Relies on dusa_collection_utils' `truncate`: the text cut after its first
/// `max_chars` characters.
#[verifier::external_body]
fn truncate_chars(s: &String, max_chars: usize) -> (r: String)
    ensures
        r@ == prefix_chars(s@, max_chars as nat),
{
    dusa_collection_utils::platform::functions::truncate(s.clone(), max_chars).to_string()
}

/// The text that is digested for an application's identifier.
pub open spec fn id_source(machine_id: Seq<char>, name: Seq<char>) -> Seq<char> {
    machine_id + seq!['-'] + name
}

/// The identifier of the application `name` on the machine `machine_id`.
pub open spec fn app_id_of(machine_id: Seq<char>, name: Seq<char>) -> Seq<char> {
    prefix_chars(sha256_hex(id_source(machine_id, name)), APP_ID_CHARS as nat)
}

/// The identifier made from a digest: its first characters.
pub fn short_id(digest: &String) -> (r: String)
    ensures
        r@ == prefix_chars(digest@, APP_ID_CHARS as nat),
{
    truncate_chars(digest, APP_ID_CHARS)
}

/// The identifier of the application `name` on the machine `machine_id`.
pub fn app_id(machine_id: &String, name: &String) -> (r: String)
    ensures
        r@ == app_id_of(machine_id@, name@),
{
    let with_dash = joined(machine_id.as_str(), "-");
    let source = joined(with_dash.as_str(), name.as_str());
    proof {
        reveal_strlit("-");
        assert(source@ =~= id_source(machine_id@, name@));
    }
    let digest = digest_text(&source);
    short_id(&digest)
}

} // verus!
