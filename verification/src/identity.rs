//! The published identity record and its builder: one immutable snapshot
//! of the process id, the host name, the host name with its domain
//! suffix stripped, and the program's short name.

use vstd::prelude::*;

use crate::host_name::decoded_host_name;
use crate::host_name::get_host_name_safely;
use crate::program_name::get_program_name_safely;
use crate::program_name::resolved_program_name;
use crate::text::lemma_first_occurrence;
use crate::text::lemma_no_first_occurrence;
use crate::text::unknown_name;
use crate::text::unknown_name_text;

verus! {

/// The host name truncated at the first `.`: the whole name when no `.`
/// occurs, and the empty text when the name starts with `.`.
pub open spec fn without_domain(h: Seq<char>) -> Seq<char> {
    match h.index_of_first('.') {
        Some(i) => h.take(i),
        None => h,
    }
}

/// The identity facts of the running process, captured once.
#[allow(non_snake_case)]
#[derive(Debug, Clone)]
pub struct Process {
    /// The machine's configured host name, or the sentinel when
    /// resolution failed.
    pub hostName: String,
    /// `hostName` truncated at the first `.`.
    pub hostNameWithoutDomain: String,
    /// The short name of the invoking executable, or the sentinel when
    /// resolution failed.
    pub programName: String,
    /// The identifier the operating system assigned to this process.
    pub pid: i32,
}

impl Process {
    /// The record's internal consistency: the domain-stripped field is
    /// derived from the host-name field.
    pub open spec fn well_formed(self) -> bool {
        self.hostNameWithoutDomain@ == without_domain(self.hostName@)
    }
}

/// Truncates a host name at the first `.` character.
pub fn host_name_without_domain(host_name: &str) -> (r: String)
    ensures
        r@ == without_domain(host_name@),
{
    let n = host_name.unicode_len();
    let mut i: usize = 0;
    while i < n
        invariant
            n == host_name@.len(),
            i <= n,
            forall|j: int| 0 <= j < i ==> host_name@[j] != '.',
        decreases n - i,
    {
        if host_name.get_char(i) == '.' {
            proof {
                lemma_first_occurrence(host_name@, '.', i as int);
                assert(host_name@.take(i as int) =~= host_name@.subrange(0, i as int));
            }
            return host_name.substring_char(0, i).to_owned();
        }
        i += 1;
    }
    proof {
        lemma_no_first_occurrence(host_name@, '.');
    }
    host_name.to_owned()
}

/// Builds the identity record from the raw outcomes of the operating
/// system's queries: the host-name query's status code, last
/// platform-reported error and buffer; the raw program name the platform
/// exposed, if any; and the process id. A failed host-name query
/// degrades to the sentinel; construction itself never fails.
pub fn new(
    return_code: i32,
    last_os_error: i32,
    host_buffer: Vec<u8>,
    program_raw: Option<Vec<u8>>,
    pid: i32,
) -> (p: Process)
    ensures
        return_code == 0 ==> p.hostName@ == decoded_host_name(host_buffer@),
        return_code != 0 ==> p.hostName@ == unknown_name(),
        p.hostNameWithoutDomain@ == without_domain(p.hostName@),
        return_code != 0 ==> p.hostNameWithoutDomain@ == unknown_name(),
        p.programName@ == resolved_program_name(program_raw),
        p.pid == pid,
        p.well_formed(),
{
    let host_name: String = match get_host_name_safely(return_code, last_os_error, host_buffer) {
        Ok(name) => name,
        Err(_) => unknown_name_text(),
    };
    let host_name_stripped = host_name_without_domain(host_name.as_str());
    proof {
        if return_code != 0 {
            lemma_without_domain_unknown();
        }
    }
    let program_name = get_program_name_safely(program_raw);
    Process {
        hostName: host_name,
        hostNameWithoutDomain: host_name_stripped,
        programName: program_name,
        pid,
    }
}

/// The domain-stripped host name is the part of the host name that
/// stands before its first `.`.
pub proof fn lemma_without_domain_before_first_dot(h: Seq<char>, i: int)
    requires
        0 <= i < h.len(),
        h[i] == '.',
        forall|j: int| 0 <= j < i ==> h[j] != '.',
    ensures
        without_domain(h) == h.take(i),
{
    lemma_first_occurrence(h, '.', i);
}

/// A host name that starts with `.` strips to the empty text.
pub proof fn lemma_without_domain_leading_dot(h: Seq<char>)
    requires
        h.len() > 0,
        h[0] == '.',
    ensures
        without_domain(h) == Seq::<char>::empty(),
{
    lemma_first_occurrence(h, '.', 0);
    assert(h.take(0) =~= Seq::<char>::empty());
}

/// A host name with no `.` strips to itself, verbatim.
pub proof fn lemma_without_domain_no_dot(h: Seq<char>)
    requires
        forall|j: int| 0 <= j < h.len() ==> h[j] != '.',
    ensures
        without_domain(h) == h,
{
    lemma_no_first_occurrence(h, '.');
}

/// The domain-stripped host name is always a prefix of the host name,
/// never longer.
pub proof fn lemma_without_domain_is_prefix(h: Seq<char>)
    ensures
        without_domain(h).is_prefix_of(h),
        without_domain(h).len() <= h.len(),
{
    h.index_of_first_ensures('.');
    match h.index_of_first('.') {
        Some(i) => {
            assert(h.take(i) =~= h.subrange(0, h.take(i).len() as int));
        },
        None => {
            assert(h =~= h.subrange(0, h.len() as int));
        },
    }
}

/// The sentinel contains no `.`, so it strips to itself: a snapshot
/// whose host name degraded to the sentinel carries the sentinel in
/// both host-name fields.
pub proof fn lemma_without_domain_unknown()
    ensures
        without_domain(unknown_name()) == unknown_name(),
{
    reveal_strlit("(unknown)");
    assert forall|j: int| 0 <= j < unknown_name().len() implies unknown_name()[j] != '.' by {
        assert(unknown_name().len() == 9);
    }
    lemma_without_domain_no_dot(unknown_name());
}

} // verus!
