//! Interpretation of the raw outcome of the operating system's host-name
//! query: a status code, the last platform-reported error, and a byte
//! buffer that may or may not hold a terminator within its capacity.

use vstd::prelude::*;

use crate::text::decode_utf8_lossy;
use crate::text::lemma_first_occurrence;
use crate::text::lemma_no_first_occurrence;
use crate::text::utf8_lossy_of;

verus! {

/// Why host-name resolution failed.
#[derive(Debug, Clone, Copy, PartialEq, Eq, Structural)]
pub enum HostNameError {
    /// The query reported failure; carries the last platform-reported
    /// error code.
    OsError(i32),
    /// The query returned a status code outside its documented contract;
    /// carries that raw code for diagnostics.
    UnrecognizedReturnCode(i32),
}

/// The length of the name inside the buffer: the index of the first nul
/// byte, or the buffer's whole length when no nul is present within it.
pub open spec fn nul_bounded_length(bytes: Seq<u8>) -> int {
    match bytes.index_of_first(0u8) {
        Some(i) => i,
        None => bytes.len() as int,
    }
}

/// The text a successful query resolves to: the bytes up to the first nul
/// (bounded by the buffer's capacity), decoded permissively.
pub open spec fn decoded_host_name(bytes: Seq<u8>) -> Seq<char> {
    utf8_lossy_of(bytes.take(nul_bounded_length(bytes)))
}

/// Scans for a terminator strictly within the buffer's bounds: the name's
/// length is the index of the first nul byte, or the full capacity when
/// the name exactly fills the buffer and no terminator was written.
pub fn measured_host_name_length(buffer: &Vec<u8>) -> (n: usize)
    ensures
        n == nul_bounded_length(buffer@),
        n <= buffer@.len(),
{
    let len = buffer.len();
    let mut i: usize = 0;
    while i < len
        invariant
            len == buffer@.len(),
            i <= len,
            forall|j: int| 0 <= j < i ==> buffer@[j] != 0u8,
        decreases len - i,
    {
        if buffer[i] == 0u8 {
            proof {
                lemma_first_occurrence(buffer@, 0u8, i as int);
            }
            return i;
        }
        i += 1;
    }
    proof {
        lemma_no_first_occurrence(buffer@, 0u8);
    }
    len
}

/// Interprets the host-name query's raw outcome. A zero status code means
/// the buffer holds the name, written up to the buffer's capacity and not
/// necessarily terminated; the name is then measured defensively and
/// decoded permissively. A status of -1 surfaces the last
/// platform-reported error; any other status is surfaced as an
/// unrecognized return code.
pub fn get_host_name_safely(return_code: i32, last_os_error: i32, buffer: Vec<u8>) -> (r: Result<
    String,
    HostNameError,
>)
    ensures
        return_code == 0 ==> r is Ok && r->Ok_0@ == decoded_host_name(buffer@),
        return_code == -1 ==> r == Err::<String, HostNameError>(
            HostNameError::OsError(last_os_error),
        ),
        return_code != 0 && return_code != -1 ==> r == Err::<String, HostNameError>(
            HostNameError::UnrecognizedReturnCode(return_code),
        ),
{
    if return_code == 0 {
        let mut name_bytes = buffer;
        let n = measured_host_name_length(&name_bytes);
        name_bytes.truncate(n);
        Ok(decode_utf8_lossy(&name_bytes))
    } else if return_code == -1 {
        Err(HostNameError::OsError(last_os_error))
    } else {
        Err(HostNameError::UnrecognizedReturnCode(return_code))
    }
}

} // verus!
