//! Applying and removing a firewall plan.
//!
//! Both walks alternate host work (running a command, capturing the owned
//! firewall state) with decisions. The decisions are step functions here:
//! each takes the outcome of the last host action and names the next one,
//! until the walk is finished.

use crate::error::{ErrorView, RuntimeError};
use crate::firewall::{
    normalize_owned_firewall_state, normalized_firewall_state, resumable_error,
    verify_resumable_firewall_state,
};
use crate::network::NetworkBackend;
use crate::records::{opt_str, opt_string_is};
use crate::error::error_message;
use crate::text::{
    chars_has_infix, chars_of, concat, has_infix, join, join_chars, lines, lines_of, seqs_of,
    string_of, strings_chars, strs_of, trim, trim_chars,
};
use vstd::prelude::*;
use vstd::string::StringExecFns;

verus! {

/// A firewall plan: the commands that install the runtime's owned objects,
/// the commands that undo each of them, and the commands that remove them.
#[derive(Debug, Clone)]
pub struct FirewallPlan {
    /// The name by which the owned firewall objects are found.
    pub firewall_id: Option<String>,
    /// The text that every owned object carries.
    pub ownership_marker: Option<String>,
    pub commands: Vec<Vec<String>>,
    /// For the command at each index, the commands that undo it.
    pub rollback_commands: Vec<Vec<Vec<String>>>,
    pub cleanup_commands: Vec<Vec<String>>,
}

/// A command as the sequence of its arguments.
pub open spec fn command_view(c: Vec<String>) -> Seq<Seq<char>> {
    strs_of(c@)
}

/// A list of commands, each as the sequence of its arguments.
pub open spec fn commands_view(cs: Seq<Vec<String>>) -> Seq<Seq<Seq<char>>> {
    cs.map_values(|c: Vec<String>| command_view(c))
}

impl FirewallPlan {
    /// The commands that undo the command at index `i`.
    pub open spec fn rollback_for(&self, i: int) -> Seq<Seq<Seq<char>>> {
        if 0 <= i < self.rollback_commands@.len() {
            commands_view(self.rollback_commands@[i]@)
        } else {
            Seq::empty()
        }
    }

    /// The undo commands of the first `n` commands, in the order of the commands.
    pub open spec fn rollbacks_before(&self, n: int) -> Seq<Seq<Seq<char>>>
        decreases n,
    {
        if n <= 0 {
            Seq::empty()
        } else {
            self.rollbacks_before(n - 1) + self.rollback_for(n - 1)
        }
    }
}

/// The text of a command: its arguments joined by spaces.
pub open spec fn command_text(c: Seq<Seq<char>>) -> Seq<char> {
    join(c, " "@)
}

pub open spec fn no_ownership_id() -> ErrorView {
    ErrorView::Network("firewall plan has no ownership id"@)
}

pub open spec fn unobservable_mutation(c: Seq<Seq<char>>) -> ErrorView {
    ErrorView::Network(
        "firewall mutation "@ + command_text(c) + " succeeded without an observable owned object"@,
    )
}

pub open spec fn indistinct_mutation(c: Seq<Seq<char>>) -> ErrorView {
    ErrorView::Network(
        "firewall mutation "@ + command_text(c) + " did not acquire a distinct owned object"@,
    )
}

/// How a setup ends once every command was applied: the last captured state,
/// which must carry the plan's ownership marker.
pub open spec fn setup_outcome(previous: Option<Seq<char>>, marker: Option<Seq<char>>) -> Result<
    Seq<char>,
    ErrorView,
> {
    match previous {
        None => Err(ErrorView::Network("firewall setup produced no owned state"@)),
        Some(state) => match marker {
            None => Err(ErrorView::Network("firewall plan has no canonical marker"@)),
            Some(m) => if has_infix(state, m) {
                Ok(state)
            } else {
                Err(ErrorView::Network("created firewall object has no exact ownership marker"@))
            },
        },
    }
}

/// What the setup asks of the host next.
#[derive(Debug)]
pub enum SetupStep {
    /// Capture the owned firewall state.
    Capture,
    /// Run the plan's command at this index.
    Run(usize),
    /// The setup is over: the captured owned state, or why it failed.
    Finished(Result<String, RuntimeError>),
}

/// The progress of a setup.
#[derive(Debug)]
pub struct FirewallSetup {
    /// Whether the state before the first command was captured.
    pub started: bool,
    /// How many commands were applied and seen to create an owned object.
    pub applied: usize,
    /// Whether the command at index `applied` is to be run next.
    pub awaiting_run: bool,
    /// The owned state captured last.
    pub previous: Option<String>,
    /// The undo commands of the applied commands, oldest first.
    pub acquired: Vec<Vec<String>>,
}

impl FirewallSetup {
    /// What holds of a setup between two steps.
    pub open spec fn progress_wf(&self, plan: &FirewallPlan) -> bool {
        &&& self.applied <= plan.commands@.len()
        &&& commands_view(self.acquired@) == plan.rollbacks_before(self.applied as int)
        &&& self.awaiting_run ==> self.started && self.applied < plan.commands@.len()
        &&& !self.started ==> self.applied == 0 && !self.awaiting_run
    }
}

pub open spec fn setup_finished(step: SetupStep, r: Result<Seq<char>, ErrorView>) -> bool {
    match step {
        SetupStep::Finished(Ok(s)) => r == Ok::<Seq<char>, ErrorView>(s@),
        SetupStep::Finished(Err(e)) => r == Err::<Seq<char>, ErrorView>(e@),
        _ => false,
    }
}

/// A copy of a command.
fn copy_command(c: &Vec<String>) -> (r: Vec<String>)
    ensures
        command_view(r) == command_view(*c),
{
    let mut r: Vec<String> = Vec::new();
    let mut i: usize = 0;
    while i < c.len()
        invariant
            i <= c@.len(),
            strs_of(r@) == strs_of(c@).take(i as int),
        decreases c.len() - i,
    {
        let ghost r0 = strs_of(r@);
        r.push(String::from_str(c[i].as_str()));
        assert(strs_of(r@) =~= r0.push(c@[i as int]@));
        assert(strs_of(c@).take(i + 1) =~= strs_of(c@).take(i as int).push(c@[i as int]@));
        i += 1;
    }
    assert(strs_of(c@).take(c@.len() as int) =~= strs_of(c@));
    r
}

/// The text of a command: its arguments joined by spaces.
fn command_string(c: &Vec<String>) -> (r: String)
    ensures
        r@ == command_text(command_view(*c)),
{
    let parts = strings_chars(c.as_slice());
    let sep: Vec<char> = vec![' '];
    proof {
        reveal_strlit(" ");
        assert(sep@ =~= " "@);
    }
    let text = join_chars(&parts, sep.as_slice());
    string_of(text.as_slice())
}

fn finish_setup(plan: &FirewallPlan, st: &FirewallSetup) -> (step: SetupStep)
    ensures
        setup_finished(step, setup_outcome(opt_str(st.previous), opt_str(plan.ownership_marker))),
{
    match &st.previous {
        None => SetupStep::Finished(
            Err(RuntimeError::Network(String::from_str("firewall setup produced no owned state"))),
        ),
        Some(state) => match &plan.ownership_marker {
            None => SetupStep::Finished(
                Err(RuntimeError::Network(String::from_str("firewall plan has no canonical marker"))),
            ),
            Some(marker) => {
                let s = chars_of(state.as_str());
                let m = chars_of(marker.as_str());
                if chars_has_infix(s.as_slice(), m.as_slice()) {
                    SetupStep::Finished(Ok(String::from_str(state.as_str())))
                } else {
                    SetupStep::Finished(
                        Err(
                            RuntimeError::Network(
                                String::from_str(
                                    "created firewall object has no exact ownership marker",
                                ),
                            ),
                        ),
                    )
                }
            },
        },
    }
}

/// Starts applying a plan: the owned state is captured first; a plan without
/// an ownership id is refused before anything is done.
pub fn begin_firewall_setup(plan: &FirewallPlan) -> (r: (FirewallSetup, SetupStep))
    ensures
        r.0.progress_wf(plan),
        !r.0.started,
        plan.firewall_id is None ==> setup_finished(r.1, Err(no_ownership_id())),
        plan.firewall_id is Some ==> r.1 is Capture,
{
    let st = FirewallSetup {
        started: false,
        applied: 0,
        awaiting_run: false,
        previous: None,
        acquired: Vec::new(),
    };
    assert(commands_view(st.acquired@) =~= plan.rollbacks_before(0));
    if plan.firewall_id.is_none() {
        (st, SetupStep::Finished(Err(RuntimeError::Network(String::from_str("firewall plan has no ownership id")))))
    } else {
        (st, SetupStep::Capture)
    }
}

/// The setup's next step once the command at `applied` ran: a failed run
/// ends the setup with its error; otherwise the owned state is captured.
pub fn firewall_setup_after_run(
    plan: &FirewallPlan,
    st: &mut FirewallSetup,
    outcome: Result<(), RuntimeError>,
) -> (step: SetupStep)
    requires
        old(st).progress_wf(plan),
        old(st).awaiting_run,
    ensures
        final(st).progress_wf(plan),
        final(st).started,
        final(st).applied == old(st).applied,
        final(st).acquired@ == old(st).acquired@,
        final(st).previous == old(st).previous,
        outcome matches Err(e) ==> setup_finished(step, Err(e@)),
        outcome is Ok ==> step is Capture && !final(st).awaiting_run,
{
    match outcome {
        Err(e) => SetupStep::Finished(Err(e)),
        Ok(()) => {
            st.awaiting_run = false;
            SetupStep::Capture
        },
    }
}

/// The setup's next step once the owned state was captured.
///
/// The first capture only records the state before any command. Every later
/// capture confirms the command at `applied`: it must show an owned state,
/// and one that differs from the state before the command; then that
/// command's undo commands are acquired. When no command is left, the last
/// captured state must carry the plan's ownership marker.
pub fn firewall_setup_after_capture(
    plan: &FirewallPlan,
    st: &mut FirewallSetup,
    captured: Result<Option<String>, RuntimeError>,
) -> (step: SetupStep)
    requires
        old(st).progress_wf(plan),
        !old(st).awaiting_run,
        old(st).started ==> old(st).applied < plan.commands@.len(),
    ensures
        final(st).progress_wf(plan),
        match captured {
            Err(e) => setup_finished(step, Err(e@)) && final(st).applied == old(st).applied,
            Ok(c) => if !old(st).started {
                // The capture before the first command.
                &&& final(st).started
                &&& final(st).applied == 0
                &&& opt_str(final(st).previous) == opt_str(c)
                &&& 0 < plan.commands@.len() ==> step == SetupStep::Run(0)
                    && final(st).awaiting_run
                &&& plan.commands@.len() == 0 ==> setup_finished(
                    step,
                    setup_outcome(opt_str(c), opt_str(plan.ownership_marker)),
                )
            } else {
                // The capture that confirms the command at `applied`.
                let i = old(st).applied as int;
                let cmd = command_view(plan.commands@[i]);
                match c {
                    None => setup_finished(step, Err(unobservable_mutation(cmd)))
                        && final(st).applied == old(st).applied,
                    Some(cur) => if opt_str(old(st).previous) == Some(cur@) {
                        setup_finished(step, Err(indistinct_mutation(cmd)))
                            && final(st).applied == old(st).applied
                    } else {
                        &&& final(st).applied == i + 1
                        &&& opt_str(final(st).previous) == Some(cur@)
                        &&& commands_view(final(st).acquired@) == commands_view(old(st).acquired@)
                            + plan.rollback_for(i)
                        &&& i + 1 < plan.commands@.len() ==> step == SetupStep::Run(
                            (i + 1) as usize,
                        ) && final(st).awaiting_run
                        &&& i + 1 == plan.commands@.len() ==> setup_finished(
                            step,
                            setup_outcome(Some(cur@), opt_str(plan.ownership_marker)),
                        )
                    },
                }
            },
        },
{
    let current = match captured {
        Err(e) => {
            return SetupStep::Finished(Err(e));
        },
        Ok(c) => c,
    };
    if !st.started {
        st.started = true;
        st.previous = current;
        if st.applied < plan.commands.len() {
            st.awaiting_run = true;
            return SetupStep::Run(st.applied);
        }
        return finish_setup(plan, st);
    }
    let i = st.applied;
    let n = plan.commands.len();
    match current {
        None => {
            let text = command_string(&plan.commands[i]);
            let message = concat(
                concat("firewall mutation ", text.as_str()).as_str(),
                " succeeded without an observable owned object",
            );
            SetupStep::Finished(Err(RuntimeError::Network(message)))
        },
        Some(cur) => {
            if opt_string_is(&st.previous, cur.as_str()) {
                let text = command_string(&plan.commands[i]);
                let message = concat(
                    concat("firewall mutation ", text.as_str()).as_str(),
                    " did not acquire a distinct owned object",
                );
                return SetupStep::Finished(Err(RuntimeError::Network(message)));
            }
            let ghost before = commands_view(st.acquired@);
            if i < plan.rollback_commands.len() {
                let undo = &plan.rollback_commands[i];
                let mut k: usize = 0;
                while k < undo.len()
                    invariant
                        k <= undo@.len(),
                        undo == plan.rollback_commands@[i as int],
                        i < n,
                        n == plan.commands@.len(),
                        st.applied == i,
                        st.started,
                        !st.awaiting_run,
                        commands_view(st.acquired@) == before + commands_view(undo@).take(
                            k as int,
                        ),
                    decreases undo.len() - k,
                {
                    let c = copy_command(&undo[k]);
                    let ghost a0 = st.acquired@;
                    st.acquired.push(c);
                    assert(commands_view(st.acquired@) =~= commands_view(a0).push(command_view(c)));
                    assert(commands_view(undo@).take(k + 1) =~= commands_view(undo@).take(
                        k as int,
                    ).push(command_view(undo@[k as int])));
                    assert(commands_view(st.acquired@) =~= before + commands_view(undo@).take(
                        k + 1,
                    ));
                    k += 1;
                }
                assert(commands_view(undo@).take(undo@.len() as int) =~= commands_view(undo@));
            } else {
                assert(before + plan.rollback_for(i as int) =~= before);
            }
            st.previous = Some(cur);
            st.applied = i + 1;
            if st.applied < plan.commands.len() {
                st.awaiting_run = true;
                SetupStep::Run(st.applied)
            } else {
                finish_setup(plan, st)
            }
        },
    }
}

/// How a cleanup ends once no cleanup command is left: the owned state
/// captured last must be blank.
pub open spec fn cleanup_outcome(live: Seq<char>) -> Result<(), ErrorView> {
    if trim(live).len() == 0 {
        Ok(())
    } else {
        Err(ErrorView::Network("owned firewall cleanup left residual state"@))
    }
}

/// What the cleanup asks of the host next.
#[derive(Debug)]
pub enum CleanupStep {
    /// Capture the owned firewall state.
    Capture,
    /// Run the plan's cleanup command at this index.
    Run(usize),
    /// The cleanup is over.
    Finished(Result<(), RuntimeError>),
}

/// The progress of a cleanup.
#[derive(Debug)]
pub struct FirewallCleanup {
    /// How many cleanup commands ran.
    pub ran: usize,
    /// Whether the cleanup command at index `ran` is to be run next.
    pub awaiting_run: bool,
    /// The owned state captured last.
    pub live: String,
}

impl FirewallCleanup {
    /// What holds of a cleanup between two steps.
    pub open spec fn progress_wf(&self, plan: &FirewallPlan) -> bool {
        &&& self.ran <= plan.cleanup_commands@.len()
        &&& self.awaiting_run ==> self.ran < plan.cleanup_commands@.len()
    }
}

pub open spec fn cleanup_finished(step: CleanupStep, r: Result<(), ErrorView>) -> bool {
    match step {
        CleanupStep::Finished(Ok(())) => r is Ok,
        CleanupStep::Finished(Err(e)) => r == Err::<(), ErrorView>(e@),
        _ => false,
    }
}

/// Starts removing a plan's owned objects: the owned state is captured
/// first; a plan without an ownership id is refused before anything is done.
pub fn begin_firewall_cleanup(plan: &FirewallPlan) -> (r: (FirewallCleanup, CleanupStep))
    ensures
        r.0.progress_wf(plan),
        r.0.ran == 0,
        !r.0.awaiting_run,
        plan.firewall_id is None ==> cleanup_finished(r.1, Err(no_ownership_id())),
        plan.firewall_id is Some ==> r.1 is Capture,
{
    let st = FirewallCleanup { ran: 0, awaiting_run: false, live: String::new() };
    if plan.firewall_id.is_none() {
        (st, CleanupStep::Finished(Err(RuntimeError::Network(String::from_str("firewall plan has no ownership id")))))
    } else {
        (st, CleanupStep::Capture)
    }
}

/// The cleanup's next step once a cleanup command ran: a failed run ends
/// the cleanup with its error; otherwise the owned state is captured again.
pub fn firewall_cleanup_after_run(
    plan: &FirewallPlan,
    st: &mut FirewallCleanup,
    outcome: Result<(), RuntimeError>,
) -> (step: CleanupStep)
    requires
        old(st).progress_wf(plan),
        old(st).awaiting_run,
    ensures
        final(st).progress_wf(plan),
        outcome matches Err(e) ==> cleanup_finished(step, Err(e@)) && final(st).ran == old(st).ran,
        outcome is Ok ==> step is Capture && final(st).ran == old(st).ran + 1
            && !final(st).awaiting_run,
{
    match outcome {
        Err(e) => CleanupStep::Finished(Err(e)),
        Ok(()) => {
            let n = plan.cleanup_commands.len();
            assert(st.ran < n);
            st.ran = st.ran + 1;
            st.awaiting_run = false;
            CleanupStep::Capture
        },
    }
}

/// The cleanup's next step once the owned state was captured.
///
/// No owned state left means the cleanup is done. Owned state holding a line
/// that the runtime did not record stops the cleanup before any further
/// command. Otherwise the next cleanup command runs; when none is left, the
/// state must be blank.
pub fn firewall_cleanup_after_capture(
    plan: &FirewallPlan,
    expected: &str,
    st: &mut FirewallCleanup,
    captured: Result<Option<String>, RuntimeError>,
) -> (step: CleanupStep)
    requires
        old(st).progress_wf(plan),
        !old(st).awaiting_run,
    ensures
        final(st).progress_wf(plan),
        final(st).ran == old(st).ran,
        match captured {
            Err(e) => cleanup_finished(step, Err(e@)),
            Ok(None) => cleanup_finished(step, Ok(())),
            Ok(Some(s)) => match resumable_error(expected@, s@) {
                Some(e) => cleanup_finished(step, Err(e)),
                None => {
                    &&& final(st).live@ == s@
                    &&& old(st).ran < plan.cleanup_commands@.len() ==> step == CleanupStep::Run(
                        old(st).ran,
                    ) && final(st).awaiting_run
                    &&& old(st).ran == plan.cleanup_commands@.len() ==> cleanup_finished(
                        step,
                        cleanup_outcome(s@),
                    )
                },
            },
        },
{
    let live = match captured {
        Err(e) => {
            return CleanupStep::Finished(Err(e));
        },
        Ok(None) => {
            return CleanupStep::Finished(Ok(()));
        },
        Ok(Some(s)) => s,
    };
    match verify_resumable_firewall_state(expected, live.as_str()) {
        Err(e) => {
            return CleanupStep::Finished(Err(e));
        },
        Ok(()) => {},
    }
    st.live = live;
    if st.ran < plan.cleanup_commands.len() {
        st.awaiting_run = true;
        return CleanupStep::Run(st.ran);
    }
    let c = chars_of(st.live.as_str());
    let t = trim_chars(c.as_slice());
    if t.len() == 0 {
        CleanupStep::Finished(Ok(()))
    } else {
        CleanupStep::Finished(
            Err(RuntimeError::Network(String::from_str("owned firewall cleanup left residual state"))),
        )
    }
}

/// The command that lists a backend's firewall state, for the owned
/// objects named `firewall_id`; the eBPF backend owns no firewall state.
pub fn firewall_listing_command(backend: NetworkBackend, firewall_id: &str) -> (r: Option<
    Vec<String>,
>)
    ensures
        backend is Iptables ==> (r matches Some(c) && strs_of(c@) == seq!["iptables-save"@]),
        backend is Nftables ==> (r matches Some(c) && strs_of(c@) == seq![
            "nft"@,
            "list"@,
            "table"@,
            "ip"@,
            firewall_id@,
        ]),
        backend is Ebpf ==> r is None,
{
    match backend {
        NetworkBackend::Iptables => {
            let c = vec![String::from_str("iptables-save")];
            assert(strs_of(c@) =~= seq!["iptables-save"@]);
            Some(c)
        },
        NetworkBackend::Nftables => {
            let c = vec![
                String::from_str("nft"),
                String::from_str("list"),
                String::from_str("table"),
                String::from_str("ip"),
                String::from_str(firewall_id),
            ];
            assert(strs_of(c@) =~= seq!["nft"@, "list"@, "table"@, "ip"@, firewall_id@]);
            Some(c)
        },
        NetworkBackend::Ebpf => None,
    }
}

/// The lines that mention `id`, in order.
pub open spec fn lines_mentioning(ls: Seq<Seq<char>>, id: Seq<char>) -> Seq<Seq<char>>
    decreases ls.len(),
{
    if ls.len() == 0 {
        Seq::empty()
    } else if has_infix(ls.last(), id) {
        lines_mentioning(ls.drop_last(), id).push(ls.last())
    } else {
        lines_mentioning(ls.drop_last(), id)
    }
}

/// Whether a failed `nft list table` only says that the table is absent.
pub open spec fn table_absent(e: ErrorView) -> bool {
    has_infix(error_message(e), "No such file or directory"@) || has_infix(
        error_message(e),
        "does not exist"@,
    )
}

/// The owned firewall state that a listing shows, in its normal form; `None`
/// where the backend holds no owned object.
pub open spec fn owned_state_of(
    backend: NetworkBackend,
    firewall_id: Seq<char>,
    listing: Result<Seq<char>, ErrorView>,
) -> Result<Option<Seq<char>>, ErrorView> {
    match backend {
        NetworkBackend::Ebpf => Err(ErrorView::Network("eBPF backend cannot own firewall state"@)),
        NetworkBackend::Iptables => match listing {
            Err(e) => Err(e),
            Ok(out) => {
                let owned = join(lines_mentioning(lines(out), firewall_id), "\n"@);
                if owned.len() == 0 {
                    Ok(None)
                } else {
                    Ok(Some(normalized_firewall_state(owned)))
                }
            },
        },
        NetworkBackend::Nftables => match listing {
            Err(e) => if table_absent(e) {
                Ok(None)
            } else {
                Err(e)
            },
            Ok(out) => Ok(Some(normalized_firewall_state(out))),
        },
    }
}

pub open spec fn listing_view(l: Result<String, RuntimeError>) -> Result<Seq<char>, ErrorView> {
    match l {
        Ok(s) => Ok(s@),
        Err(e) => Err(e@),
    }
}

pub open spec fn captured_view(c: Result<Option<String>, RuntimeError>) -> Result<
    Option<Seq<char>>,
    ErrorView,
> {
    match c {
        Ok(o) => Ok(opt_str(o)),
        Err(e) => Err(e@),
    }
}

/// The owned firewall state from the output of the listing command (the
/// eBPF backend has none to list).
pub fn owned_firewall_state(
    backend: NetworkBackend,
    firewall_id: &str,
    listing: Result<String, RuntimeError>,
) -> (r: Result<Option<String>, RuntimeError>)
    ensures
        captured_view(r) == owned_state_of(backend, firewall_id@, listing_view(listing)),
{
    match backend {
        NetworkBackend::Ebpf => Err(
            RuntimeError::Network(String::from_str("eBPF backend cannot own firewall state")),
        ),
        NetworkBackend::Iptables => match listing {
            Err(e) => Err(e),
            Ok(out) => {
                let c = chars_of(out.as_str());
                let ls = lines_of(c.as_slice());
                let id = chars_of(firewall_id);
                let mut kept: Vec<Vec<char>> = Vec::new();
                let mut i: usize = 0;
                while i < ls.len()
                    invariant
                        i <= ls@.len(),
                        seqs_of(ls@) == lines(out@),
                        id@ == firewall_id@,
                        seqs_of(kept@) == lines_mentioning(seqs_of(ls@).take(i as int), id@),
                    decreases ls.len() - i,
                {
                    let ghost t = seqs_of(ls@).take(i + 1);
                    assert(t.drop_last() =~= seqs_of(ls@).take(i as int));
                    assert(t.last() == ls@[i as int]@);
                    if chars_has_infix(ls[i].as_slice(), id.as_slice()) {
                        let ghost k0 = seqs_of(kept@);
                        kept.push(ls[i].clone());
                        assert(seqs_of(kept@) =~= k0.push(ls@[i as int]@));
                    }
                    i += 1;
                }
                assert(seqs_of(ls@).take(ls@.len() as int) =~= seqs_of(ls@));
                let nl: Vec<char> = vec!['\n'];
                proof {
                    reveal_strlit("\n");
                    assert(nl@ =~= "\n"@);
                }
                let owned = join_chars(&kept, nl.as_slice());
                if owned.len() == 0 {
                    Ok(None)
                } else {
                    let text = string_of(owned.as_slice());
                    Ok(Some(normalize_owned_firewall_state(text.as_str())))
                }
            },
        },
        NetworkBackend::Nftables => match listing {
            Err(e) => {
                let m = e.message();
                let mc = chars_of(m.as_str());
                let a = chars_of("No such file or directory");
                let b = chars_of("does not exist");
                if chars_has_infix(mc.as_slice(), a.as_slice()) || chars_has_infix(
                    mc.as_slice(),
                    b.as_slice(),
                ) {
                    Ok(None)
                } else {
                    Err(e)
                }
            },
            Ok(out) => Ok(Some(normalize_owned_firewall_state(out.as_str()))),
        },
    }
}

} // verus!
