use ferro_core::error::RuntimeError;
use ferro_core::firewall_plan::{
    begin_firewall_cleanup, begin_firewall_setup, firewall_cleanup_after_capture,
    firewall_cleanup_after_run, firewall_listing_command, firewall_setup_after_capture,
    firewall_setup_after_run, owned_firewall_state, CleanupStep, FirewallPlan, SetupStep,
};
use ferro_core::network::NetworkBackend;

const OWNED_CHAIN: &str = "FERRO-transaction-owner";
const OWNED_FILTER_CHAIN: &str = "FERRO-transaction-owner-F";
const MARKER: &str = "ferro:transaction-owner";

fn cmd(args: &[&str]) -> Vec<String> {
    args.iter().map(|a| a.to_string()).collect()
}

/// An iptables plan: a NAT chain with a DNAT rule, a filter chain with an
/// accept rule, and the jump into the NAT chain.
fn fixture_firewall_plan() -> FirewallPlan {
    let nat_rule = [
        "-p", "tcp", "--dport", "8080", "-j", "DNAT", "--to-destination", "10.0.0.2:80", "-m",
        "comment", "--comment", MARKER,
    ];
    let filter_rule = [
        "-d", "10.0.0.2", "-p", "tcp", "--dport", "80", "-j", "ACCEPT", "-m", "comment",
        "--comment", MARKER,
    ];
    let jump = ["-j", OWNED_CHAIN, "-m", "comment", "--comment", MARKER];
    let with = |head: &[&str], tail: &[&str]| {
        let mut c = cmd(head);
        c.extend(tail.iter().map(|a| a.to_string()));
        c
    };
    let commands = vec![
        cmd(&["iptables", "-t", "nat", "-N", OWNED_CHAIN]),
        with(&["iptables", "-t", "nat", "-A", OWNED_CHAIN], &nat_rule),
        cmd(&["iptables", "-t", "filter", "-N", OWNED_FILTER_CHAIN]),
        with(&["iptables", "-t", "filter", "-A", OWNED_FILTER_CHAIN], &filter_rule),
        with(&["iptables", "-t", "nat", "-I", "PREROUTING", "1"], &jump),
    ];
    let rollback_commands = vec![
        vec![cmd(&["iptables", "-t", "nat", "-X", OWNED_CHAIN])],
        vec![with(&["iptables", "-t", "nat", "-D", OWNED_CHAIN], &nat_rule)],
        vec![cmd(&["iptables", "-t", "filter", "-X", OWNED_FILTER_CHAIN])],
        vec![with(&["iptables", "-t", "filter", "-D", OWNED_FILTER_CHAIN], &filter_rule)],
        vec![with(&["iptables", "-t", "nat", "-D", "PREROUTING"], &jump)],
    ];
    let cleanup_commands = rollback_commands.iter().rev().flatten().cloned().collect();
    FirewallPlan {
        firewall_id: Some(OWNED_CHAIN.to_string()),
        ownership_marker: Some(MARKER.to_string()),
        commands,
        rollback_commands,
        cleanup_commands,
    }
}

/// A host firewall held in memory.
#[derive(Default)]
struct FakeFirewallRunner {
    live: Vec<Vec<String>>,
    calls: Vec<Vec<String>>,
    fail_setup_at: Option<usize>,
    setup_attempts: usize,
    fail_cleanup_at: Option<usize>,
    cleanup_attempts: usize,
}

impl FakeFirewallRunner {
    fn run(&mut self, command: &[String]) -> Result<(), RuntimeError> {
        self.calls.push(command.to_vec());
        let action = command.get(3).map(String::as_str);
        if matches!(action, Some("-N" | "-A" | "-I")) {
            let attempt = self.setup_attempts;
            self.setup_attempts += 1;
            if self.fail_setup_at == Some(attempt) {
                return Err(RuntimeError::Network("injected setup failure".to_string()));
            }
        }
        match action {
            Some("-N") => {
                if self.live.iter().any(|existing| {
                    existing.get(1) == command.get(1)
                        && existing.get(2) == command.get(2)
                        && existing.get(4) == command.get(4)
                }) {
                    return Err(RuntimeError::Network("foreign chain already exists".to_string()));
                }
                self.live.push(command.to_vec());
            }
            Some("-A" | "-I") => self.live.push(command.to_vec()),
            Some("-X" | "-D") => {
                let chain = command.get(4);
                let marker = &command[5..];
                if let Some(index) = self.live.iter().position(|existing| {
                    existing.get(4) == chain
                        && if action == Some("-X") {
                            existing.get(3).map(String::as_str) == Some("-N")
                        } else {
                            existing.get(3).map(String::as_str) == Some("-A")
                                && existing.get(5..).is_some_and(|args| args == marker)
                                || existing.get(3).map(String::as_str) == Some("-I")
                                    && existing.get(6..).is_some_and(|args| args == marker)
                        }
                }) {
                    self.live.remove(index);
                }
            }
            _ => {}
        }
        Ok(())
    }

    fn run_cleanup(&mut self, command: &[String]) -> Result<(), RuntimeError> {
        let attempt = self.cleanup_attempts;
        self.cleanup_attempts += 1;
        if self.fail_cleanup_at == Some(attempt) {
            return Err(RuntimeError::Network("injected cleanup failure".to_string()));
        }
        self.run(command)
    }

    fn capture(&mut self, firewall_id: &str) -> Result<Option<String>, RuntimeError> {
        let state = self
            .live
            .iter()
            .filter(|command| command.iter().any(|argument| argument.contains(firewall_id)))
            .map(|command| command.join(" "))
            .collect::<Vec<_>>()
            .join("\n");
        Ok((!state.is_empty()).then_some(state))
    }
}

fn apply_with(
    plan: &FirewallPlan,
    acquired: &mut Vec<Vec<String>>,
    runner: &mut FakeFirewallRunner,
) -> Result<String, RuntimeError> {
    let id = plan.firewall_id.clone().unwrap();
    let (mut progress, mut step) = begin_firewall_setup(plan);
    loop {
        step = match step {
            SetupStep::Capture => {
                let captured = runner.capture(&id);
                firewall_setup_after_capture(plan, &mut progress, captured)
            }
            SetupStep::Run(index) => {
                let outcome = runner.run(&plan.commands[index]);
                firewall_setup_after_run(plan, &mut progress, outcome)
            }
            SetupStep::Finished(result) => {
                *acquired = progress.acquired;
                return result;
            }
        };
    }
}

fn cleanup_with(
    plan: &FirewallPlan,
    expected: &str,
    runner: &mut FakeFirewallRunner,
) -> Result<(), RuntimeError> {
    let id = plan.firewall_id.clone().unwrap();
    let (mut progress, mut step) = begin_firewall_cleanup(plan);
    loop {
        step = match step {
            CleanupStep::Capture => {
                let captured = runner.capture(&id);
                firewall_cleanup_after_capture(plan, expected, &mut progress, captured)
            }
            CleanupStep::Run(index) => {
                let outcome = runner.run_cleanup(&plan.cleanup_commands[index]);
                firewall_cleanup_after_run(plan, &mut progress, outcome)
            }
            CleanupStep::Finished(result) => return result,
        };
    }
}

#[test]
fn network_backend_firewall_setup_captures_canonical_marker_behaviorally() {
    let plan = fixture_firewall_plan();
    let mut runner = FakeFirewallRunner::default();
    let mut acquired = Vec::new();
    let captured = apply_with(&plan, &mut acquired, &mut runner).unwrap();

    assert!(captured.contains(plan.ownership_marker.as_ref().unwrap()));
    assert_eq!(acquired.len(), plan.commands.len());
    assert_eq!(runner.live.len(), plan.commands.len());
}

#[test]
fn network_backend_foreign_first_chain_failure_performs_zero_cleanup() {
    let plan = fixture_firewall_plan();
    let foreign = plan.commands[0].clone();
    let mut runner = FakeFirewallRunner { live: vec![foreign.clone()], ..FakeFirewallRunner::default() };
    let mut acquired = Vec::new();
    let error = apply_with(&plan, &mut acquired, &mut runner).unwrap_err();

    assert!(error.message().contains("foreign chain"));
    assert!(acquired.is_empty());
    assert_eq!(runner.live, vec![foreign]);
    assert!(runner.calls.iter().all(|command| command[3] != "-X" && command[3] != "-D"));
}

#[test]
fn network_backend_firewall_failure_rolls_back_only_acquired_objects_in_reverse() {
    let plan = fixture_firewall_plan();
    let mut runner = FakeFirewallRunner { fail_setup_at: Some(3), ..FakeFirewallRunner::default() };
    let mut acquired = Vec::new();
    assert!(apply_with(&plan, &mut acquired, &mut runner).is_err());
    assert_eq!(acquired.len(), 3);

    let expected = acquired.iter().rev().cloned().collect::<Vec<_>>();
    let mut observed = Vec::new();
    while let Some(command) = acquired.pop() {
        observed.push(command.clone());
        runner.run(&command).unwrap();
    }
    assert_eq!(observed, expected);
    assert!(runner.live.is_empty());
}

#[test]
fn network_backend_firewall_cleanup_retry_resumes_after_each_owned_deletion() {
    let plan = fixture_firewall_plan();
    let mut runner = FakeFirewallRunner::default();
    let mut acquired = Vec::new();
    let expected = apply_with(&plan, &mut acquired, &mut runner).unwrap();
    let initial = runner.live.len();
    runner.calls.clear();
    runner.fail_cleanup_at = Some(2);

    assert!(cleanup_with(&plan, &expected, &mut runner).is_err());
    assert_eq!(runner.live.len(), initial - 2);

    runner.fail_cleanup_at = None;
    runner.cleanup_attempts = 0;
    cleanup_with(&plan, &expected, &mut runner).unwrap();
    assert!(runner.live.is_empty());
}

#[test]
fn network_backend_firewall_replacement_produces_zero_cleanup_mutations() {
    let plan = fixture_firewall_plan();
    let mut runner = FakeFirewallRunner::default();
    let mut acquired = Vec::new();
    let expected = apply_with(&plan, &mut acquired, &mut runner).unwrap();
    runner.live[0].push("foreign-replacement".to_string());
    runner.calls.clear();

    assert!(cleanup_with(&plan, &expected, &mut runner).is_err());
    assert!(runner.calls.is_empty());
}

#[test]
fn firewall_setup_without_ownership_id_does_nothing() {
    let mut plan = fixture_firewall_plan();
    plan.firewall_id = None;
    let (_, step) = begin_firewall_setup(&plan);
    match step {
        SetupStep::Finished(Err(e)) => {
            assert_eq!(e, RuntimeError::Network("firewall plan has no ownership id".to_string()))
        }
        _ => panic!("setup must refuse a plan without an ownership id"),
    }
    let (_, step) = begin_firewall_cleanup(&plan);
    assert!(matches!(step, CleanupStep::Finished(Err(_))));
}

#[test]
fn firewall_setup_refuses_a_command_that_changes_nothing_visible() {
    let plan = fixture_firewall_plan();
    let (mut progress, step) = begin_firewall_setup(&plan);
    assert!(matches!(step, SetupStep::Capture));
    let step = firewall_setup_after_capture(&plan, &mut progress, Ok(None));
    assert!(matches!(step, SetupStep::Run(0)));
    let step = firewall_setup_after_run(&plan, &mut progress, Ok(()));
    assert!(matches!(step, SetupStep::Capture));
    match firewall_setup_after_capture(&plan, &mut progress, Ok(None)) {
        SetupStep::Finished(Err(e)) => assert_eq!(
            e,
            RuntimeError::Network(format!(
                "firewall mutation iptables -t nat -N {OWNED_CHAIN} succeeded without an observable owned object"
            ))
        ),
        _ => panic!("an unobservable mutation must end the setup"),
    }
    assert!(progress.acquired.is_empty());

    let (mut progress, _) = begin_firewall_setup(&plan);
    firewall_setup_after_capture(&plan, &mut progress, Ok(Some("same".to_string())));
    firewall_setup_after_run(&plan, &mut progress, Ok(()));
    match firewall_setup_after_capture(&plan, &mut progress, Ok(Some("same".to_string()))) {
        SetupStep::Finished(Err(e)) => {
            assert!(e.message().contains("did not acquire a distinct owned object"))
        }
        _ => panic!("an indistinct mutation must end the setup"),
    }
}

#[test]
fn firewall_setup_requires_the_ownership_marker_in_the_final_state() {
    let mut plan = fixture_firewall_plan();
    plan.commands.truncate(1);
    plan.rollback_commands.truncate(1);
    let (mut progress, _) = begin_firewall_setup(&plan);
    firewall_setup_after_capture(&plan, &mut progress, Ok(None));
    firewall_setup_after_run(&plan, &mut progress, Ok(()));
    match firewall_setup_after_capture(&plan, &mut progress, Ok(Some("chain only".to_string()))) {
        SetupStep::Finished(Err(e)) => assert_eq!(
            e,
            RuntimeError::Network("created firewall object has no exact ownership marker".to_string())
        ),
        _ => panic!("a state without the marker must be refused"),
    }
    assert_eq!(progress.acquired, plan.rollback_commands[0]);
}

#[test]
fn firewall_cleanup_requires_a_blank_final_state() {
    let mut plan = fixture_firewall_plan();
    plan.cleanup_commands.clear();
    let (mut progress, _) = begin_firewall_cleanup(&plan);
    match firewall_cleanup_after_capture(&plan, "a\nb", &mut progress, Ok(Some("a".to_string()))) {
        CleanupStep::Finished(Err(e)) => assert_eq!(
            e,
            RuntimeError::Network("owned firewall cleanup left residual state".to_string())
        ),
        _ => panic!("residual state must be reported"),
    }
    let (mut progress, _) = begin_firewall_cleanup(&plan);
    assert!(matches!(
        firewall_cleanup_after_capture(&plan, "a", &mut progress, Ok(None)),
        CleanupStep::Finished(Ok(()))
    ));
}

#[test]
fn owned_firewall_state_keeps_only_owned_lines_in_normal_form() {
    let listing = "*nat\n:PREROUTING ACCEPT [3:120]\n-A PREROUTING -j FERRO-x\n-A OTHER -j DROP\nCOMMIT\n";
    let owned = owned_firewall_state(NetworkBackend::Iptables, "FERRO-x", Ok(listing.to_string()));
    assert_eq!(owned, Ok(Some("-A PREROUTING -j FERRO-x".to_string())));
    assert_eq!(
        owned_firewall_state(NetworkBackend::Iptables, "FERRO-y", Ok(listing.to_string())),
        Ok(None)
    );
    assert_eq!(
        owned_firewall_state(
            NetworkBackend::Nftables,
            "ferro",
            Err(RuntimeError::Network("Error: No such file or directory".to_string()))
        ),
        Ok(None)
    );
    assert_eq!(
        owned_firewall_state(
            NetworkBackend::Nftables,
            "ferro",
            Err(RuntimeError::Network("permission denied".to_string()))
        ),
        Err(RuntimeError::Network("permission denied".to_string()))
    );
    assert!(owned_firewall_state(NetworkBackend::Ebpf, "ferro", Ok(String::new())).is_err());
    assert_eq!(
        firewall_listing_command(NetworkBackend::Nftables, "ferro"),
        Some(cmd(&["nft", "list", "table", "ip", "ferro"]))
    );
    assert_eq!(firewall_listing_command(NetworkBackend::Ebpf, "ferro"), None);
}
