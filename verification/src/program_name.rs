//! Derivation of the program's short name from whatever raw value the
//! platform exposes: a ready-made short name, a possibly path-qualified
//! name, or nothing at all.

use vstd::prelude::*;

use crate::text::decode_utf8_lossy;
use crate::text::lemma_last_occurrence;
use crate::text::lemma_no_last_occurrence;
use crate::text::unknown_name;
use crate::text::unknown_name_text;
use crate::text::utf8_lossy_of;

verus! {

/// The short name inside a possibly path-qualified program name: what
/// follows the last path separator, or the whole text when none occurs.
pub open spec fn short_program_name(full: Seq<char>) -> Seq<char> {
    match full.index_of_last('/') {
        Some(i) => full.skip(i + 1),
        None => full,
    }
}

/// The program name the resolver yields for a raw platform value: the
/// sentinel when the platform exposed nothing, otherwise the decoded
/// value with everything up to and including the last path separator
/// stripped.
pub open spec fn resolved_program_name(raw: Option<Vec<u8>>) -> Seq<char> {
    match raw {
        Some(bytes) => short_program_name(utf8_lossy_of(bytes@)),
        None => unknown_name(),
    }
}

/// Strips everything up to and including the last path separator.
pub fn strip_program_path(full: &str) -> (r: String)
    ensures
        r@ == short_program_name(full@),
{
    let n = full.unicode_len();
    let mut i: usize = 0;
    let mut last_separator: Option<usize> = None;
    while i < n
        invariant
            n == full@.len(),
            i <= n,
            match last_separator {
                Some(k) => k < i && full@[k as int] == '/' && (forall|j: int|
                    k < j < i ==> full@[j] != '/'),
                None => forall|j: int| 0 <= j < i ==> full@[j] != '/',
            },
        decreases n - i,
    {
        if full.get_char(i) == '/' {
            last_separator = Some(i);
        }
        i += 1;
    }
    match last_separator {
        Some(k) => {
            proof {
                lemma_last_occurrence(full@, '/', k as int);
                assert(full@.skip(k + 1) =~= full@.subrange(k as int + 1, n as int));
            }
            full.substring_char(k + 1, n).to_owned()
        },
        None => {
            proof {
                lemma_no_last_occurrence(full@, '/');
            }
            full.to_owned()
        },
    }
}

/// Resolves the program's short name from the raw value the platform
/// exposed, if any. This resolver never fails: for every input it yields
/// text, substituting the sentinel when the platform exposed nothing.
pub fn get_program_name_safely(raw: Option<Vec<u8>>) -> (r: String)
    ensures
        r@ == resolved_program_name(raw),
{
    match raw {
        Some(bytes) => {
            let full = decode_utf8_lossy(&bytes);
            strip_program_path(full.as_str())
        },
        None => unknown_name_text(),
    }
}

} // verus!
