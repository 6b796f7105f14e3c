use ubitix::common::{MapEntry, Mapping, State};
use ubitix::gateway::{Gateway, LineOutcome, Step};
use ubitix::network::Network;
use ubitix::rules::{Direction, RuleAction, RuleCall, RulePair};
use ubitix::run::{Request, Run};

fn prefix(text: &str) -> Network {
    Network::parse(text).expect("a network in CIDR notation")
}

fn link(public: &str, private: &str) -> MapEntry {
    MapEntry { public: prefix(public), private: prefix(private) }
}

fn firewall(action: RuleAction, direction: Direction, entry: MapEntry) -> Request {
    Request::Firewall(RuleCall { action, direction, entry })
}

fn old_a() -> MapEntry {
    link("2001:db8:1234:f::/64", "fd00:a::/64")
}

fn old_b() -> MapEntry {
    link("2001:db8:1234:e::/64", "fd00:b::/64")
}

fn new_a() -> MapEntry {
    link("2001:db8:4321:ff::/64", "fd00:a::/64")
}

fn new_b() -> MapEntry {
    link("2001:db8:4321:fe::/64", "fd00:b::/64")
}

fn transition() -> Vec<Step> {
    let state = State::new(prefix("2001:db8:1234::/60"), Mapping::from_entries(vec![old_a(), old_b()]).unwrap());
    let networks = vec![prefix("fd00:a::/64"), prefix("fd00:b::/64")];
    let mut gateway = Gateway::new("prefix (\\S+)".to_string(), networks, state).unwrap();
    match gateway.handle_line("new prefix 2001:db8:4321::/56".to_string()) {
        LineOutcome::Transition(steps) => steps,
        other => panic!("no transition: {:?}", other),
    }
}

fn drive(steps: Vec<Step>, answers: &[bool]) -> (Vec<Request>, Run) {
    let mut run = Run::new(steps);
    let mut made = Vec::new();
    let mut answers = answers.iter();
    while let Some(request) = run.pending() {
        made.push(request);
        run.report(*answers.next().unwrap_or(&true));
    }
    (made, run)
}

#[test]
fn a_run_asks_for_every_rule_then_notifies_then_persists() {
    let (made, run) = drive(transition(), &[]);
    assert_eq!(
        made,
        vec![
            firewall(RuleAction::Delete, Direction::Egress, old_a()),
            firewall(RuleAction::Delete, Direction::Ingress, old_a()),
            firewall(RuleAction::Delete, Direction::Egress, old_b()),
            firewall(RuleAction::Delete, Direction::Ingress, old_b()),
            firewall(RuleAction::Append, Direction::Egress, new_a()),
            firewall(RuleAction::Append, Direction::Ingress, new_a()),
            firewall(RuleAction::Append, Direction::Egress, new_b()),
            firewall(RuleAction::Append, Direction::Ingress, new_b()),
            Request::Notify,
            Request::Persist,
        ]
    );
    assert!(run.is_finished());
    assert!(!run.failed());
}

#[test]
fn a_failed_firewall_request_ends_its_pair_only() {
    let (made, run) = drive(transition(), &[false, true, false, false, true, false]);
    assert_eq!(
        made,
        vec![
            firewall(RuleAction::Delete, Direction::Egress, old_a()),
            firewall(RuleAction::Delete, Direction::Egress, old_b()),
            firewall(RuleAction::Delete, Direction::Ingress, old_b()),
            firewall(RuleAction::Append, Direction::Egress, new_a()),
            firewall(RuleAction::Append, Direction::Egress, new_b()),
            firewall(RuleAction::Append, Direction::Ingress, new_b()),
            Request::Notify,
            Request::Persist,
        ]
    );
    assert!(run.is_finished());
    assert!(!run.failed());
}

#[test]
fn deletes_come_before_appends_whatever_fails() {
    for pattern in 0u32..256 {
        let answers: Vec<bool> = (0..8).map(|bit| pattern & (1 << bit) != 0).collect();
        let (made, _) = drive(transition(), &answers);
        let last_delete = made
            .iter()
            .rposition(|request| matches!(request, Request::Firewall(call) if call.action == RuleAction::Delete))
            .unwrap();
        let first_append = made
            .iter()
            .position(|request| matches!(request, Request::Firewall(call) if call.action == RuleAction::Append))
            .unwrap();
        assert!(last_delete < first_append);
        assert_eq!(made[made.len() - 2], Request::Notify);
        assert_eq!(made[made.len() - 1], Request::Persist);
    }
}

#[test]
fn a_failed_notification_does_not_stop_the_write() {
    let steps = vec![Step::Notify, Step::Persist];
    let (made, run) = drive(steps, &[false, true]);
    assert_eq!(made, vec![Request::Notify, Request::Persist]);
    assert!(run.is_finished());
    assert!(!run.failed());
}

#[test]
fn a_failed_write_is_the_failure_of_the_run() {
    let steps = vec![Step::Notify, Step::Persist];
    let (made, run) = drive(steps, &[true, false]);
    assert_eq!(made, vec![Request::Notify, Request::Persist]);
    assert!(run.is_finished());
    assert!(run.failed());
}

#[test]
fn an_empty_run_is_over_at_once() {
    let mut run = Run::new(Vec::new());
    assert_eq!(run.pending(), None);
    assert!(run.is_finished());
    run.report(false);
    assert_eq!(run.pending(), None);
    assert!(!run.failed());
}

#[test]
fn a_run_waits_for_the_answer() {
    let pair = RulePair { action: RuleAction::Append, entry: new_a() };
    let mut run = Run::new(vec![Step::Rules(pair), Step::Persist]);
    assert!(!run.is_finished());
    assert_eq!(run.pending(), Some(firewall(RuleAction::Append, Direction::Egress, new_a())));
    assert_eq!(run.pending(), Some(firewall(RuleAction::Append, Direction::Egress, new_a())));
    run.report(true);
    assert_eq!(run.pending(), Some(firewall(RuleAction::Append, Direction::Ingress, new_a())));
    run.report(false);
    assert_eq!(run.pending(), Some(Request::Persist));
    run.report(true);
    assert_eq!(run.pending(), None);
    assert!(run.is_finished());
}
