use ipdater::error::{ProviderError, ReconcileError};
use ipdater::reconcile::{
    create_record, decide, get_dns_record_a_id, get_zone_id, update_record, Action,
    DnsRecordEntry, DomainRun, Next, OutcomeKind, Phase, RecordKind, RecordParams, Write,
};

fn rec(id: &str, kind: RecordKind) -> DnsRecordEntry {
    DnsRecordEntry { id: id.to_string(), kind }
}

fn params(name: &str, address: &str) -> RecordParams {
    RecordParams { name: name.to_string(), address: address.to_string(), ttl: 60, proxied: false }
}

fn zones(ids: &[&str]) -> Vec<String> {
    ids.iter().map(|s| s.to_string()).collect()
}

#[test]
fn decide_without_record_creates() {
    assert_eq!(decide(None), Action::Create);
}

#[test]
fn decide_with_record_updates() {
    assert_eq!(decide(Some("R1".to_string())), Action::Update("R1".to_string()));
    assert_eq!(decide(Some(String::new())), Action::Update(String::new()));
}

#[test]
fn first_zone_wins() {
    assert_eq!(get_zone_id(&zones(&["Z1", "Z2"])), Some("Z1".to_string()));
    assert_eq!(get_zone_id(&zones(&[])), None);
}

#[test]
fn other_record_types_are_passed_over() {
    let records = vec![rec("C1", RecordKind::Other), rec("R1", RecordKind::A), rec("R2", RecordKind::A)];
    assert_eq!(get_dns_record_a_id(&records), Some("R1".to_string()));
    assert_eq!(get_dns_record_a_id(&vec![rec("C1", RecordKind::Other)]), None);
    assert_eq!(get_dns_record_a_id(&vec![]), None);
}

#[test]
fn writes_have_fixed_ttl_and_no_proxy() {
    assert_eq!(
        create_record("Z1", "sub.example.com", "1.2.3.4"),
        Write::Create { zone_id: "Z1".to_string(), record: params("sub.example.com", "1.2.3.4") }
    );
    assert_eq!(
        update_record("Z1", "R1", "sub.example.com", "1.2.3.4"),
        Write::Update {
            zone_id: "Z1".to_string(),
            record_id: "R1".to_string(),
            record: params("sub.example.com", "1.2.3.4"),
        }
    );
}

#[test]
fn run_creates_missing_record() {
    let mut run = DomainRun::start("sub.example.com", "1.2.3.4", false).unwrap();
    assert_eq!(run.root, "example.com");
    assert_eq!(run.phase, Phase::AwaitZones);
    assert_eq!(run.on_zones(&zones(&["Z1"])), Ok(()));
    assert_eq!(run.zone_id, "Z1");
    let expected = Write::Create { zone_id: "Z1".to_string(), record: params("sub.example.com", "1.2.3.4") };
    let next = run.on_records(&vec![rec("T1", RecordKind::Other)]);
    assert_eq!(next, Next::Apply(expected.clone()));
    assert_eq!(run.phase, Phase::AwaitWrite);
    let outcome = run.on_written(expected.clone());
    assert_eq!(outcome.kind, OutcomeKind::Created);
    assert_eq!(outcome.write, expected);
    assert_eq!(run.phase, Phase::Finished);
}

#[test]
fn run_updates_existing_record() {
    let mut run = DomainRun::start("sub.example.com", "1.2.3.4", false).unwrap();
    run.on_zones(&zones(&["Z1"])).unwrap();
    let expected = Write::Update {
        zone_id: "Z1".to_string(),
        record_id: "R1".to_string(),
        record: params("sub.example.com", "1.2.3.4"),
    };
    assert_eq!(run.on_records(&vec![rec("R1", RecordKind::A)]), Next::Apply(expected.clone()));
    let outcome = run.on_written(expected.clone());
    assert_eq!(outcome.kind, OutcomeKind::Updated);
    assert_eq!(outcome.write, expected);
}

#[test]
fn dry_run_reports_without_writing() {
    let mut run = DomainRun::start("sub.example.com", "1.2.3.4", true).unwrap();
    run.on_zones(&zones(&["Z1"])).unwrap();
    match run.on_records(&vec![]) {
        Next::Report(o) => {
            assert_eq!(o.kind, OutcomeKind::WouldCreate);
            assert_eq!(
                o.write,
                Write::Create { zone_id: "Z1".to_string(), record: params("sub.example.com", "1.2.3.4") }
            );
        }
        Next::Apply(_) => panic!("a dry run asked for a write"),
    }
    assert_eq!(run.phase, Phase::Finished);
}

#[test]
fn dry_run_reports_update() {
    let mut run = DomainRun::start("sub.example.com", "1.2.3.4", true).unwrap();
    run.on_zones(&zones(&["Z1"])).unwrap();
    match run.on_records(&vec![rec("R1", RecordKind::A)]) {
        Next::Report(o) => assert_eq!(o.kind, OutcomeKind::WouldUpdate),
        Next::Apply(_) => panic!("a dry run asked for a write"),
    }
}

#[test]
fn missing_zone_fails_only_that_domain() {
    let mut lost = DomainRun::start("x.nosuchzone.tld", "1.2.3.4", false).unwrap();
    assert_eq!(lost.root, "nosuchzone.tld");
    assert_eq!(
        lost.on_zones(&zones(&[])),
        Err(ReconcileError::ZoneNotFound("nosuchzone.tld".to_string()))
    );
    assert_eq!(lost.phase, Phase::Finished);
    let mut other = DomainRun::start("sub.example.com", "1.2.3.4", false).unwrap();
    assert_eq!(other.on_zones(&zones(&["Z1"])), Ok(()));
    assert!(matches!(other.on_records(&vec![]), Next::Apply(Write::Create { .. })));
}

#[test]
fn invalid_domain_does_not_start() {
    assert!(matches!(DomainRun::start("com", "1.2.3.4", false), Err(ReconcileError::InvalidDomain)));
}

#[test]
fn provider_failure_ends_domain() {
    let mut run = DomainRun::start("sub.example.com", "1.2.3.4", false).unwrap();
    let e = ProviderError { status: Some(429), message: "rate limited".to_string() };
    assert_eq!(run.on_provider_error(e.clone()), ReconcileError::Provider(e));
    assert_eq!(run.phase, Phase::Finished);
}

#[test]
fn second_run_updates_what_first_created() {
    let mut listing = vec![rec("T1", RecordKind::Other)];
    let mut first = DomainRun::start("sub.example.com", "1.2.3.4", false).unwrap();
    first.on_zones(&zones(&["Z1"])).unwrap();
    let w = match first.on_records(&listing) {
        Next::Apply(w) => w,
        Next::Report(_) => panic!("live run reported"),
    };
    assert_eq!(first.on_written(w).kind, OutcomeKind::Created);
    listing.push(rec("R9", RecordKind::A));
    let mut second = DomainRun::start("sub.example.com", "1.2.3.4", false).unwrap();
    second.on_zones(&zones(&["Z1"])).unwrap();
    let w2 = match second.on_records(&listing) {
        Next::Apply(w) => w,
        Next::Report(_) => panic!("live run reported"),
    };
    assert!(matches!(&w2, Write::Update { record_id, .. } if record_id == "R9"));
    assert_eq!(second.on_written(w2).kind, OutcomeKind::Updated);
}
