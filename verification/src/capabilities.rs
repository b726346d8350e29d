//! Capability names as a run request gives them.

use crate::text::{
    chars_of, chars_starts_with, concat_chars, starts_with, string_of, strs_of, trim, trim_chars,
};
use vstd::prelude::*;
use vstd::string::StringExecFns;

verus! {

/// Whether `caps` knows a capability by this exact name.
pub uninterp spec fn capability_known(name: Seq<char>) -> bool;

/// `name.parse::<caps::Capability>()`, displayed back. The crate's parser
/// accepts exactly the names in its table and displays a capability by that
/// same name; the table itself is not restated here, only named.
#[verifier::external_body]
fn capability_name(name: &str) -> (r: Option<String>)
    ensures
        r is Some == capability_known(name@),
        r matches Some(s) ==> s@ == name@,
{
    match name.parse::<caps::Capability>() {
        Ok(capability) => Some(capability.to_string()),
        Err(_) => None,
    }
}

/// The capability name an entry stands for: the entry trimmed, with `CAP_`
/// put in front unless it is already there.
pub open spec fn capability_entry_name(entry: Seq<char>) -> Seq<char> {
    let t = trim(entry);
    if starts_with(t, "CAP_"@) {
        t
    } else {
        "CAP_"@ + t
    }
}

/// The capabilities of a list of entries, in order; unknown ones are dropped.
pub open spec fn parsed_capabilities(entries: Seq<Seq<char>>) -> Seq<Seq<char>>
    decreases entries.len(),
{
    if entries.len() == 0 {
        Seq::empty()
    } else {
        let rest = parsed_capabilities(entries.drop_last());
        let name = capability_entry_name(entries.last());
        if capability_known(name) {
            rest.push(name)
        } else {
            rest
        }
    }
}

pub fn capability_entry(entry: &str) -> (r: String)
    ensures
        r@ == capability_entry_name(entry@),
{
    let c = chars_of(entry);
    let t = trim_chars(c.as_slice());
    let prefix = chars_of("CAP_");
    proof {
        reveal_strlit("CAP_");
    }
    if chars_starts_with(t.as_slice(), prefix.as_slice()) {
        string_of(t.as_slice())
    } else {
        concat_chars("CAP_", t.as_slice())
    }
}

/// The capabilities that a run request's entries name, as `caps` knows them.
pub fn parse_capabilities(entries: &[String]) -> (r: Vec<String>)
    ensures
        strs_of(r@) == parsed_capabilities(strs_of(entries@)),
{
    let mut r: Vec<String> = Vec::new();
    let mut i: usize = 0;
    while i < entries.len()
        invariant
            i <= entries@.len(),
            strs_of(r@) == parsed_capabilities(strs_of(entries@).take(i as int)),
        decreases entries.len() - i,
    {
        let ghost t = strs_of(entries@).take(i + 1);
        assert(t.drop_last() =~= strs_of(entries@).take(i as int));
        assert(t.last() == entries@[i as int]@);
        let name = capability_entry(entries[i].as_str());
        match capability_name(name.as_str()) {
            Some(known) => {
                let ghost r0 = strs_of(r@);
                r.push(known);
                assert(strs_of(r@) =~= r0.push(capability_entry_name(entries@[i as int]@)));
            },
            None => {},
        }
        i += 1;
    }
    assert(strs_of(entries@).take(entries@.len() as int) =~= strs_of(entries@));
    r
}

} // verus!
