//! Ownership of host-global kernel settings (`net.ipv4.ip_forward` and a
//! bridge's `route_localnet`): the runtime only ever flips `0` to `1`,
//! remembers that it did, and restores `0` only while the value it wrote is
//! still in place.

use crate::error::{ErrorView, RuntimeError};
use crate::text::{concat, str_eq};
use vstd::prelude::*;
use vstd::string::StringExecFns;
use vstd::string::StrSliceExecFns;

verus! {

/// A single textual setting that can be read and written.
pub trait GlobalValueStore {
    /// The value that a read returns.
    spec fn value(&self) -> Seq<char>;

    /// Whether reading the setting fails in this state.
    spec fn read_fails(&self) -> bool;

    /// Whether writing the setting fails in this state.
    spec fn write_fails(&self) -> bool;

    /// The values successfully written so far, oldest first.
    spec fn written(&self) -> Seq<Seq<char>>;

    /// Reads the setting; a read changes neither the value nor whether a
    /// write would fail.
    fn read(&mut self) -> (r: Result<String, RuntimeError>)
        ensures
            final(self).value() == old(self).value(),
            final(self).write_fails() == old(self).write_fails(),
            final(self).written() == old(self).written(),
            r is Err <==> old(self).read_fails(),
            r matches Ok(v) ==> v@ == old(self).value(),
    ;

    /// Writes the setting; a failed write leaves the value as it was.
    fn write(&mut self, value: &str) -> (r: Result<(), RuntimeError>)
        ensures
            r is Err <==> old(self).write_fails(),
            r is Ok ==> final(self).value() == value@,
            r is Ok ==> final(self).written() == old(self).written().push(value@),
            r is Err ==> final(self).value() == old(self).value(),
            r is Err ==> final(self).written() == old(self).written(),
    ;
}

/// A setting held in memory, with the log of values written to it.
#[derive(Debug, Clone)]
pub struct MemoryValueStore {
    pub value: String,
    pub writes: Vec<String>,
}

impl GlobalValueStore for MemoryValueStore {
    open spec fn value(&self) -> Seq<char> {
        self.value@
    }

    open spec fn read_fails(&self) -> bool {
        false
    }

    open spec fn write_fails(&self) -> bool {
        false
    }

    open spec fn written(&self) -> Seq<Seq<char>> {
        crate::text::strs_of(self.writes@)
    }

    /// Returns the held value and changes nothing.
    fn read(&mut self) -> (r: Result<String, RuntimeError>)
        ensures
            r matches Ok(v) && v@ == old(self).value@,
            final(self).value@ == old(self).value@,
            crate::text::strs_of(final(self).writes@) == crate::text::strs_of(old(self).writes@),
    {
        Ok(self.value.clone())
    }

    /// Holds `value` from now on and appends it to the log of writes.
    fn write(&mut self, value: &str) -> (r: Result<(), RuntimeError>)
        ensures
            r is Ok,
            final(self).value@ == value@,
            crate::text::strs_of(final(self).writes@) == crate::text::strs_of(old(self).writes@).push(
                value@,
            ),
    {
        self.value = String::from_str(value);
        let ghost before = crate::text::strs_of(self.writes@);
        self.writes.push(String::from_str(value));
        proof {
            assert(crate::text::strs_of(self.writes@) =~= before.push(value@));
        }
        Ok(())
    }
}

impl MemoryValueStore {
    pub fn new(value: &str) -> (r: Self)
        ensures
            r.value@ == value@,
            r.writes@.len() == 0,
    {
        MemoryValueStore { value: String::from_str(value), writes: Vec::new() }
    }
}

/// The runtime turned a global setting from `previous` to `expected`.
#[derive(Debug, Clone, PartialEq, Eq)]
pub struct GlobalValueOwnership {
    pub previous: String,
    pub expected: String,
}

/// The runtime turned an interface's setting from `previous` to `expected`.
#[derive(Debug, Clone, PartialEq, Eq)]
pub struct InterfaceValueOwnership {
    pub interface: String,
    pub previous: String,
    pub expected: String,
}

/// Enables IP forwarding if it is off and records the transition as owned;
/// leaves an enabled setting alone and owns nothing; refuses any other value.
pub fn acquire_ip_forwarding_with<S: GlobalValueStore>(store: &mut S) -> (r: Result<
    Option<GlobalValueOwnership>,
    RuntimeError,
>)
    ensures
        r is Err ==> final(store).value() == old(store).value(),
        old(store).read_fails() ==> r is Err,
        !old(store).read_fails() && old(store).value() == "1"@ ==> (r matches Ok(o) && o is None)
            && final(store).value() == old(store).value(),
        !old(store).read_fails() && old(store).value() == "0"@ ==> (r is Err
            <==> old(store).write_fails()),
        !old(store).read_fails() && old(store).value() == "0"@ && !old(store).write_fails() ==> (
        r matches Ok(Some(o)) && o.previous@ == "0"@ && o.expected@ == "1"@) && final(store).value()
            == "1"@,
        !old(store).read_fails() && old(store).value() != "0"@ && old(store).value() != "1"@ ==> (
        r matches Err(e) && e@ == ErrorView::Network(
            "refusing to change malformed ip_forward value "@ + debug_text(old(store).value()),
        )),
        final(store).written() == (if !old(store).read_fails() && old(store).value() == "0"@
            && !old(store).write_fails() {
            old(store).written().push("1"@)
        } else {
            old(store).written()
        }),
{
    proof {
        reveal_strlit("0");
        reveal_strlit("1");
        assert("0"@[0] != "1"@[0]);
        assert("0"@ != "1"@);
    }
    let current = store.read()?;
    if str_eq(current.as_str(), "1") {
        return Ok(None);
    }
    if str_eq(current.as_str(), "0") {
        store.write("1")?;
        return Ok(
            Some(
                GlobalValueOwnership {
                    previous: String::from_str("0"),
                    expected: String::from_str("1"),
                },
            ),
        );
    }
    Err(
        RuntimeError::Network(
            concat(
                "refusing to change malformed ip_forward value ",
                debug_quoted(current.as_str()).as_str(),
            ),
        ),
    )
}

/// What `Debug` writes for a string slice: the text in double quotes, with
/// escapes.
pub uninterp spec fn debug_text(s: Seq<char>) -> Seq<char>;

/// `format!("{s:?}")` on a string slice; its text is named, not restated.
#[verifier::external_body]
fn debug_quoted(s: &str) -> (r: String)
    ensures
        r@ == debug_text(s@),
{
    format!("{s:?}")
}

/// A record of the owned `0` to `1` transition.
pub open spec fn global_ownership_wf(o: GlobalValueOwnership) -> bool {
    o.previous@ == "0"@ && o.expected@ == "1"@
}

/// A record of the owned `0` to `1` transition on a named interface.
pub open spec fn interface_ownership_wf(o: InterfaceValueOwnership) -> bool {
    o.previous@ == "0"@ && o.expected@ == "1"@ && o.interface@.len() > 0
}

/// A restore writes `0` back exactly when it reads the `1` it wrote and the
/// write goes through.
pub open spec fn restores_owned_value(read_fails: bool, write_fails: bool, value: Seq<char>) -> bool {
    !read_fails && value == "1"@ && !write_fails
}

/// What restoring an owned transition answers: a failed read fails; `0` is
/// already restored and succeeds with no write; `1` is turned back to `0`
/// and succeeds exactly when the write does; any other value is foreign and
/// refused untouched.
pub open spec fn restore_outcome(
    ok: bool,
    read_fails: bool,
    write_fails: bool,
    before: Seq<char>,
    after: Seq<char>,
) -> bool {
    &&& read_fails ==> !ok
    &&& !read_fails && before == "0"@ ==> ok && after == before
    &&& !read_fails && before == "1"@ ==> (ok <==> !write_fails) && (ok ==> after == "0"@)
    &&& !read_fails && before != "0"@ && before != "1"@ ==> !ok && after == before
}

/// Turns IP forwarding back off, but only while it still holds the value the
/// runtime wrote; an already restored value is left alone and any foreign
/// value is never overwritten.
pub fn restore_ip_forwarding_with<S: GlobalValueStore>(
    ownership: &GlobalValueOwnership,
    store: &mut S,
) -> (r: Result<(), RuntimeError>)
    ensures
        !global_ownership_wf(*ownership) ==> (r matches Err(e) && e@ == ErrorView::Network(
            "malformed persisted ip_forward ownership"@,
        )),
        r is Err ==> final(store).value() == old(store).value(),
        global_ownership_wf(*ownership) ==> restore_outcome(
            r is Ok,
            old(store).read_fails(),
            old(store).write_fails(),
            old(store).value(),
            final(store).value(),
        ),
        global_ownership_wf(*ownership) && !old(store).read_fails() && old(store).value() != "0"@
            && old(store).value() != "1"@ ==> (r matches Err(e) && e@ == ErrorView::Network(
            "ip_forward changed to foreign value "@ + debug_text(old(store).value())
                + "; refusing restoration"@,
        )),
        final(store).written() == (if global_ownership_wf(*ownership) && restores_owned_value(
            old(store).read_fails(),
            old(store).write_fails(),
            old(store).value(),
        ) {
            old(store).written().push("0"@)
        } else {
            old(store).written()
        }),
{
    proof {
        reveal_strlit("0");
        reveal_strlit("1");
        assert("0"@[0] != "1"@[0]);
        assert("0"@ != "1"@);
    }
    if !str_eq(ownership.previous.as_str(), "0") || !str_eq(ownership.expected.as_str(), "1") {
        return Err(
            RuntimeError::Network(String::from_str("malformed persisted ip_forward ownership")),
        );
    }
    let current = store.read()?;
    if str_eq(current.as_str(), ownership.previous.as_str()) {
        return Ok(());
    }
    if !str_eq(current.as_str(), ownership.expected.as_str()) {
        let head = concat("ip_forward changed to foreign value ", debug_quoted(current.as_str()).as_str());
        return Err(RuntimeError::Network(head.concat("; refusing restoration")));
    }
    store.write(ownership.previous.as_str())
}

/// Enables `route_localnet` on `interface` if it is off and records the
/// transition as owned; leaves an enabled setting alone; refuses any other
/// value.
pub fn acquire_route_localnet_with<S: GlobalValueStore>(interface: &str, store: &mut S) -> (r:
    Result<Option<InterfaceValueOwnership>, RuntimeError>)
    ensures
        r is Err ==> final(store).value() == old(store).value(),
        old(store).read_fails() ==> r is Err,
        !old(store).read_fails() && old(store).value() == "1"@ ==> (r matches Ok(o) && o is None)
            && final(store).value() == old(store).value(),
        !old(store).read_fails() && old(store).value() == "0"@ ==> (r is Err
            <==> old(store).write_fails()),
        !old(store).read_fails() && old(store).value() == "0"@ && !old(store).write_fails() ==> (
        r matches Ok(Some(o)) && o.interface@ == interface@ && o.previous@ == "0"@ && o.expected@
            == "1"@) && final(store).value() == "1"@,
        !old(store).read_fails() && old(store).value() != "0"@ && old(store).value() != "1"@ ==> (
        r matches Err(e) && e@ == ErrorView::Network(
            "refusing to change malformed route_localnet value for "@ + interface@ + ": "@
                + debug_text(old(store).value()),
        )),
        final(store).written() == (if !old(store).read_fails() && old(store).value() == "0"@
            && !old(store).write_fails() {
            old(store).written().push("1"@)
        } else {
            old(store).written()
        }),
{
    proof {
        reveal_strlit("0");
        reveal_strlit("1");
        assert("0"@[0] != "1"@[0]);
        assert("0"@ != "1"@);
    }
    let current = store.read()?;
    if str_eq(current.as_str(), "1") {
        return Ok(None);
    }
    if str_eq(current.as_str(), "0") {
        store.write("1")?;
        return Ok(
            Some(
                InterfaceValueOwnership {
                    interface: String::from_str(interface),
                    previous: String::from_str("0"),
                    expected: String::from_str("1"),
                },
            ),
        );
    }
    let head = concat("refusing to change malformed route_localnet value for ", interface);
    let head = head.concat(": ");
    Err(RuntimeError::Network(head.concat(debug_quoted(current.as_str()).as_str())))
}

/// Turns `route_localnet` back off under the same rule as IP forwarding; a
/// record without an interface is refused.
pub fn restore_route_localnet_with<S: GlobalValueStore>(
    ownership: &InterfaceValueOwnership,
    store: &mut S,
) -> (r: Result<(), RuntimeError>)
    ensures
        !interface_ownership_wf(*ownership) ==> (r matches Err(e) && e@ == ErrorView::Network(
            "malformed persisted route_localnet ownership"@,
        )),
        r is Err ==> final(store).value() == old(store).value(),
        interface_ownership_wf(*ownership) ==> restore_outcome(
            r is Ok,
            old(store).read_fails(),
            old(store).write_fails(),
            old(store).value(),
            final(store).value(),
        ),
        interface_ownership_wf(*ownership) && !old(store).read_fails() && old(store).value() != "0"@
            && old(store).value() != "1"@ ==> (r matches Err(e) && e@ == ErrorView::Network(
            "route_localnet for "@ + ownership.interface@ + " changed to foreign value "@
                + debug_text(old(store).value()) + "; refusing restoration"@,
        )),
        final(store).written() == (if interface_ownership_wf(*ownership) && restores_owned_value(
            old(store).read_fails(),
            old(store).write_fails(),
            old(store).value(),
        ) {
            old(store).written().push("0"@)
        } else {
            old(store).written()
        }),
{
    proof {
        reveal_strlit("0");
        reveal_strlit("1");
        assert("0"@[0] != "1"@[0]);
        assert("0"@ != "1"@);
    }
    if !str_eq(ownership.previous.as_str(), "0") || !str_eq(ownership.expected.as_str(), "1")
        || ownership.interface.as_str().unicode_len() == 0 {
        return Err(
            RuntimeError::Network(String::from_str("malformed persisted route_localnet ownership")),
        );
    }
    let current = store.read()?;
    if str_eq(current.as_str(), ownership.previous.as_str()) {
        return Ok(());
    }
    if !str_eq(current.as_str(), ownership.expected.as_str()) {
        let head = concat("route_localnet for ", ownership.interface.as_str());
        let head = head.concat(" changed to foreign value ");
        let head = head.concat(debug_quoted(current.as_str()).as_str());
        return Err(RuntimeError::Network(head.concat("; refusing restoration")));
    }
    store.write(ownership.previous.as_str())
}

} // verus!
