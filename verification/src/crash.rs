//! Keeping crashing inputs: the fingerprint of an input, the artifact that a
//! crash is stored as, and what storing does to the crash directory.

use crate::text::{hex_text, lemma_hex_text_injective, to_hex};
use std::collections::hash_map::DefaultHasher;
use std::hash::Hasher;
use vstd::prelude::*;
use vstd::std_specs::hash::DefaultHasherAdditionalSpecFns;
use vstd::string::StringExecFns;

verus! {

/// The fingerprint of an input: the value of the standard library's default
/// hasher after one write of the input's bytes.
pub open spec fn fingerprint_of(bytes: Seq<u8>) -> u64 {
    DefaultHasher::spec_finish(seq![bytes])
}

/// Computes the fingerprint of `bytes`. Equal inputs have equal fingerprints.
pub fn fingerprint(bytes: &[u8]) -> (print: u64)
    ensures
        print == fingerprint_of(bytes@),
{
    let mut hasher = DefaultHasher::new();
    hasher.write(bytes);
    assert(hasher@ =~= seq![bytes@]);
    hasher.finish()
}

/// The directory that artifacts are stored in, relative to the working
/// directory.
pub fn crash_dir() -> (dir: &'static str)
    ensures
        dir@ == "crashes"@,
{
    "crashes"
}

/// The path of the artifact for a fingerprint: in the crash directory, a
/// file named `crash_` followed by the fingerprint in lower-case hexadecimal.
pub open spec fn artifact_name(print: u64) -> Seq<char> {
    "crashes"@ + "/crash_"@ + hex_text(print as nat)
}

/// A crashing input together with what identifies it on disk.
#[derive(Debug)]
pub struct CrashRecord {
    /// The fingerprint of `bytes`.
    pub fingerprint: u64,
    /// Where the artifact is stored.
    pub file_name: String,
    /// The crashing input, byte for byte.
    pub bytes: Vec<u8>,
}

impl CrashRecord {
    /// Whether this is the record that `record` makes of `bytes`.
    pub open spec fn is_record_of(&self, bytes: Seq<u8>) -> bool {
        &&& self.bytes@ == bytes
        &&& self.fingerprint == fingerprint_of(bytes)
        &&& self.file_name@ == artifact_name(self.fingerprint)
    }
}

/// Makes the record under which a crashing input is kept.
pub fn record(bytes: Vec<u8>) -> (made: CrashRecord)
    ensures
        made.is_record_of(bytes@),
{
    let print = fingerprint(bytes.as_slice());
    let hex = to_hex(print);
    let mut file_name = String::from_str(crash_dir());
    file_name.append("/crash_");
    file_name.append(hex.as_str());
    CrashRecord { fingerprint: print, file_name, bytes }
}

/// What an operator is told of a crash: the target, the seed that the input
/// was derived from, and the fingerprint to find the artifact by.
pub open spec fn notice_text(target: Seq<char>, seed_id: Seq<char>, print: u64) -> Seq<char> {
    "[ "@ + target + " ] Found crash - input `"@ + seed_id + "` - hash "@ + hex_text(print as nat)
}

/// Writes the notification for a crash.
pub fn notice(target: &str, seed_id: &str, print: u64) -> (text: String)
    ensures
        text@ == notice_text(target@, seed_id@, print),
{
    let hex = to_hex(print);
    let mut text = String::from_str("[ ");
    text.append(target);
    text.append(" ] Found crash - input `");
    text.append(seed_id);
    text.append("` - hash ");
    text.append(hex.as_str());
    text
}

/// The crash directory after one more record was stored in it. A directory
/// is a map from file names to file contents; storing overwrites.
pub open spec fn stored(dir: Map<Seq<char>, Seq<u8>>, name: Seq<char>, bytes: Seq<u8>) -> Map<
    Seq<char>,
    Seq<u8>,
> {
    dir.insert(name, bytes)
}

/// The crash directory after the crashing input `bytes` was recorded.
pub open spec fn recorded(dir: Map<Seq<char>, Seq<u8>>, bytes: Seq<u8>) -> Map<
    Seq<char>,
    Seq<u8>,
> {
    stored(dir, artifact_name(fingerprint_of(bytes)), bytes)
}

/// Distinct fingerprints are stored under distinct names.
pub proof fn lemma_artifact_name_injective(a: u64, b: u64)
    requires
        artifact_name(a) == artifact_name(b),
    ensures
        a == b,
{
    let prefix = "crashes"@ + "/crash_"@;
    let tail_a = hex_text(a as nat);
    let tail_b = hex_text(b as nat);
    assert((prefix + tail_a).subrange(prefix.len() as int, (prefix + tail_a).len() as int)
        =~= tail_a);
    assert((prefix + tail_b).subrange(prefix.len() as int, (prefix + tail_b).len() as int)
        =~= tail_b);
    lemma_hex_text_injective(a as nat, b as nat);
}

/// Recording an input leaves exactly one artifact for it, which holds the
/// input byte for byte, and touches no other file.
pub proof fn lemma_recorded_round_trip(dir: Map<Seq<char>, Seq<u8>>, bytes: Seq<u8>)
    ensures
        recorded(dir, bytes).dom() == dir.dom().insert(artifact_name(fingerprint_of(bytes))),
        recorded(dir, bytes)[artifact_name(fingerprint_of(bytes))] == bytes,
        forall|name: Seq<char>|
            name != artifact_name(fingerprint_of(bytes)) && dir.dom().contains(name)
                ==> #[trigger] recorded(dir, bytes)[name] == dir[name],
{
    assert(recorded(dir, bytes).dom() =~= dir.dom().insert(artifact_name(fingerprint_of(bytes))));
}

/// Recording the same input a second time changes nothing: not the number
/// of files, and not a byte of any.
pub proof fn lemma_recorded_idempotent(dir: Map<Seq<char>, Seq<u8>>, bytes: Seq<u8>)
    ensures
        recorded(recorded(dir, bytes), bytes) == recorded(dir, bytes),
{
    assert(recorded(recorded(dir, bytes), bytes) =~= recorded(dir, bytes));
}

/// Recordings of inputs with different fingerprints go to different files,
/// so the order in which they happen does not matter.
pub proof fn lemma_recorded_commutes(dir: Map<Seq<char>, Seq<u8>>, first: Seq<u8>, second: Seq<u8>)
    requires
        fingerprint_of(first) != fingerprint_of(second),
    ensures
        artifact_name(fingerprint_of(first)) != artifact_name(fingerprint_of(second)),
        recorded(recorded(dir, first), second) == recorded(recorded(dir, second), first),
{
    if artifact_name(fingerprint_of(first)) == artifact_name(fingerprint_of(second)) {
        lemma_artifact_name_injective(fingerprint_of(first), fingerprint_of(second));
    }
    assert(recorded(recorded(dir, first), second) =~= recorded(recorded(dir, second), first));
}

} // verus!
