//! The reconciliation of one domain: which zone, which record, which write.
//!
//! The network calls are made by the caller. A `DomainRun` is told what the
//! provider answered and says what comes next, so that every decision of a
//! run is made here.

use vstd::prelude::*;
use vstd::string::*;

use crate::domain::{get_root_domain, has_two_labels, root_of};
use crate::error::{ProviderError, ReconcileError};

verus! {

/// Time to live, in seconds, of every record written.
pub const RECORD_TTL: u32 = 60;

/// The type of a DNS record, as far as reconciliation cares.
#[derive(Debug, Clone, Copy, PartialEq, Eq, Structural)]
pub enum RecordKind {
    /// An IPv4 address record.
    A,
    /// Any other type (alias, text, IPv6 address, ...).
    Other,
}

/// One DNS record of the provider's listing for a name.
#[derive(Debug, Clone, PartialEq, Eq)]
pub struct DnsRecordEntry {
    pub id: String,
    pub kind: RecordKind,
}

/// The identifier of the first address record in `records`.
pub open spec fn first_a_id(records: Seq<DnsRecordEntry>) -> Option<Seq<char>>
    decreases records.len(),
{
    if records.len() == 0 {
        None
    } else if records[0].kind == RecordKind::A {
        Some(records[0].id@)
    } else {
        first_a_id(records.drop_first())
    }
}

/// The zone that owns a root domain: the first of the provider's matches,
/// in the order the provider gave them.
pub fn get_zone_id(zone_ids: &Vec<String>) -> (r: Option<String>)
    ensures
        r is None <==> zone_ids@.len() == 0,
        r matches Some(z) ==> z@ == zone_ids@[0]@,
{
    if zone_ids.len() == 0 {
        None
    } else {
        Some(zone_ids[0].clone())
    }
}

/// The existing address record for a name: the first address record of the
/// provider's listing. Records of other types are passed over.
pub fn get_dns_record_a_id(records: &Vec<DnsRecordEntry>) -> (r: Option<String>)
    ensures
        r is None <==> first_a_id(records@) is None,
        r matches Some(id) ==> first_a_id(records@) == Some(id@),
{
    let mut i: usize = 0;
    assert(records@.subrange(0, records@.len() as int) =~= records@);
    while i < records.len()
        invariant
            i <= records@.len(),
            first_a_id(records@.subrange(i as int, records@.len() as int)) == first_a_id(records@),
        decreases records@.len() - i,
    {
        assert(records@.subrange(i as int, records@.len() as int).drop_first()
            =~= records@.subrange(i + 1, records@.len() as int));
        if records[i].kind == RecordKind::A {
            return Some(records[i].id.clone());
        }
        i = i + 1;
    }
    None
}

/// What to do with a name's address record.
#[derive(Debug, Clone, PartialEq, Eq)]
pub enum Action {
    Create,
    Update(String),
}

/// The write is never skipped: an existing record is updated, a missing one
/// is created.
pub fn decide(existing: Option<String>) -> (r: Action)
    ensures
        existing is None ==> r == Action::Create,
        existing matches Some(id) ==> r == Action::Update(id),
{
    match existing {
        None => Action::Create,
        Some(id) => Action::Update(id),
    }
}

/// The content of an address record to write.
#[derive(Debug, Clone, PartialEq, Eq)]
pub struct RecordParams {
    pub name: String,
    pub address: String,
    pub ttl: u32,
    pub proxied: bool,
}

/// A write to the provider.
#[derive(Debug, Clone, PartialEq, Eq)]
pub enum Write {
    Create { zone_id: String, record: RecordParams },
    Update { zone_id: String, record_id: String, record: RecordParams },
}

/// `p` points `name` at `address`, with the fixed time to live and no proxy.
pub open spec fn record_is(p: RecordParams, name: Seq<char>, address: Seq<char>) -> bool {
    &&& p.name@ == name
    &&& p.address@ == address
    &&& p.ttl == RECORD_TTL
    &&& !p.proxied
}

/// `w` creates the address record of `name` in `zone`.
pub open spec fn is_create(w: Write, zone: Seq<char>, name: Seq<char>, address: Seq<char>) -> bool {
    w matches Write::Create { zone_id, record } && zone_id@ == zone && record_is(
        record,
        name,
        address,
    )
}

/// `w` updates record `id` of `zone` to point `name` at `address`.
pub open spec fn is_update(
    w: Write,
    zone: Seq<char>,
    id: Seq<char>,
    name: Seq<char>,
    address: Seq<char>,
) -> bool {
    w matches Write::Update { zone_id, record_id, record } && zone_id@ == zone && record_id@ == id
        && record_is(record, name, address)
}

/// `w` is the write owed for `name` in `zone`, given the record found.
pub open spec fn is_planned_write(
    w: Write,
    zone: Seq<char>,
    existing: Option<Seq<char>>,
    name: Seq<char>,
    address: Seq<char>,
) -> bool {
    match existing {
        None => is_create(w, zone, name, address),
        Some(id) => is_update(w, zone, id, name, address),
    }
}

/// The creation of an address record for `domain` in zone `zone_id`.
pub fn create_record(zone_id: &str, domain: &str, address: &str) -> (w: Write)
    ensures
        is_create(w, zone_id@, domain@, address@),
{
    Write::Create {
        zone_id: String::from_str(zone_id),
        record: RecordParams {
            name: String::from_str(domain),
            address: String::from_str(address),
            ttl: RECORD_TTL,
            proxied: false,
        },
    }
}

/// The update of record `dns_id` of zone `zone_id` to `address`.
pub fn update_record(zone_id: &str, dns_id: &str, domain: &str, address: &str) -> (w: Write)
    ensures
        is_update(w, zone_id@, dns_id@, domain@, address@),
{
    Write::Update {
        zone_id: String::from_str(zone_id),
        record_id: String::from_str(dns_id),
        record: RecordParams {
            name: String::from_str(domain),
            address: String::from_str(address),
            ttl: RECORD_TTL,
            proxied: false,
        },
    }
}

/// How the reconciliation of a domain ended.
#[derive(Debug, Clone, Copy, PartialEq, Eq, Structural)]
pub enum OutcomeKind {
    Created,
    Updated,
    /// Dry run: the record would have been created.
    WouldCreate,
    /// Dry run: the record would have been updated.
    WouldUpdate,
}

/// The end of a domain's reconciliation: what happened, and the write that
/// was (or, in a dry run, would have been) made.
#[derive(Debug, Clone, PartialEq, Eq)]
pub struct ReconcileOutcome {
    pub kind: OutcomeKind,
    pub write: Write,
}

/// Where a domain's reconciliation stands.
#[derive(Debug, Clone, Copy, PartialEq, Eq, Structural)]
pub enum Phase {
    /// Waiting for the zones that match the root domain.
    AwaitZones,
    /// Waiting for the records of the domain in its zone.
    AwaitRecords,
    /// Waiting for the write to be made.
    AwaitWrite,
    /// Nothing more to do for this domain.
    Finished,
}

/// What the caller does after the records were looked up.
#[derive(Debug, Clone, PartialEq, Eq)]
pub enum Next {
    /// Make this write, then report it with `DomainRun::on_written`.
    Apply(Write),
    /// Dry run: report this outcome; no write is made.
    Report(ReconcileOutcome),
}

/// The reconciliation of one domain, step by step:
/// root domain, zone, existing record, then the write or its report.
#[derive(Debug)]
pub struct DomainRun {
    pub domain: String,
    pub root: String,
    pub address: String,
    pub dry_run: bool,
    pub zone_id: String,
    pub phase: Phase,
}

impl DomainRun {
    /// `self` and `other` are the same run, bar the zone and the phase.
    pub open spec fn same_task(&self, other: &DomainRun) -> bool {
        &&& self.domain@ == other.domain@
        &&& self.root@ == other.root@
        &&& self.address@ == other.address@
        &&& self.dry_run == other.dry_run
    }

    /// Begins the reconciliation of `domain` to `address`: the caller then
    /// asks the provider for the zones named `root`. Fails on a name with
    /// fewer than two labels.
    pub fn start(domain: &str, address: &str, dry_run: bool) -> (r: Result<DomainRun, ReconcileError>)
        ensures
            r is Ok <==> has_two_labels(domain@),
            r is Err ==> r == Err::<DomainRun, ReconcileError>(ReconcileError::InvalidDomain),
            r matches Ok(run) ==> {
                &&& run.domain@ == domain@
                &&& run.root@ == root_of(domain@)
                &&& run.address@ == address@
                &&& run.dry_run == dry_run
                &&& run.phase == Phase::AwaitZones
            },
    {
        let root = get_root_domain(domain)?;
        Ok(DomainRun {
            domain: String::from_str(domain),
            root,
            address: String::from_str(address),
            dry_run,
            zone_id: String::new(),
            phase: Phase::AwaitZones,
        })
    }

    /// Takes the identifiers of the zones named `root`. With none the domain
    /// fails; otherwise the first is its zone, and the caller then lists the
    /// records named `domain` in it.
    pub fn on_zones(&mut self, zone_ids: &Vec<String>) -> (r: Result<(), ReconcileError>)
        requires
            old(self).phase == Phase::AwaitZones,
        ensures
            final(self).same_task(old(self)),
            r is Ok <==> zone_ids@.len() > 0,
            r is Ok ==> final(self).zone_id@ == zone_ids@[0]@ && final(self).phase
                == Phase::AwaitRecords,
            r is Err ==> final(self).phase == Phase::Finished,
            r matches Err(e) ==> (e matches ReconcileError::ZoneNotFound(root) && root@ == old(
                self,
            ).root@),
    {
        match get_zone_id(zone_ids) {
            None => {
                self.phase = Phase::Finished;
                Err(ReconcileError::ZoneNotFound(String::from_str(self.root.as_str())))
            },
            Some(z) => {
                self.zone_id = z;
                self.phase = Phase::AwaitRecords;
                Ok(())
            },
        }
    }

    /// Takes the provider's records named `domain` in the zone and chooses
    /// the write: an update of the first address record, or a creation when
    /// there is none. A dry run reports it instead of asking for it.
    pub fn on_records(&mut self, records: &Vec<DnsRecordEntry>) -> (next: Next)
        requires
            old(self).phase == Phase::AwaitRecords,
        ensures
            final(self).same_task(old(self)),
            final(self).zone_id@ == old(self).zone_id@,
            old(self).dry_run ==> final(self).phase == Phase::Finished,
            !old(self).dry_run ==> final(self).phase == Phase::AwaitWrite,
            match next {
                Next::Apply(w) => !old(self).dry_run && is_planned_write(
                    w,
                    old(self).zone_id@,
                    first_a_id(records@),
                    old(self).domain@,
                    old(self).address@,
                ),
                Next::Report(o) => old(self).dry_run && is_planned_write(
                    o.write,
                    old(self).zone_id@,
                    first_a_id(records@),
                    old(self).domain@,
                    old(self).address@,
                ) && o.kind == (if first_a_id(records@) is None {
                    OutcomeKind::WouldCreate
                } else {
                    OutcomeKind::WouldUpdate
                }),
            },
    {
        let write = match decide(get_dns_record_a_id(records)) {
            Action::Create => create_record(
                self.zone_id.as_str(),
                self.domain.as_str(),
                self.address.as_str(),
            ),
            Action::Update(id) => update_record(
                self.zone_id.as_str(),
                id.as_str(),
                self.domain.as_str(),
                self.address.as_str(),
            ),
        };
        if self.dry_run {
            self.phase = Phase::Finished;
            let kind = match write {
                Write::Create { .. } => OutcomeKind::WouldCreate,
                Write::Update { .. } => OutcomeKind::WouldUpdate,
            };
            Next::Report(ReconcileOutcome { kind, write })
        } else {
            self.phase = Phase::AwaitWrite;
            Next::Apply(write)
        }
    }

    /// The write asked for was made: the domain is done.
    pub fn on_written(&mut self, write: Write) -> (o: ReconcileOutcome)
        requires
            old(self).phase == Phase::AwaitWrite,
        ensures
            final(self).same_task(old(self)),
            final(self).phase == Phase::Finished,
            o.write == write,
            o.kind == (if write is Create {
                OutcomeKind::Created
            } else {
                OutcomeKind::Updated
            }),
    {
        self.phase = Phase::Finished;
        let kind = match write {
            Write::Create { .. } => OutcomeKind::Created,
            Write::Update { .. } => OutcomeKind::Updated,
        };
        ReconcileOutcome { kind, write }
    }

    /// A provider call failed: the domain is done, with that error.
    pub fn on_provider_error(&mut self, error: ProviderError) -> (r: ReconcileError)
        ensures
            final(self).same_task(old(self)),
            final(self).phase == Phase::Finished,
            r == ReconcileError::Provider(error),
    {
        self.phase = Phase::Finished;
        ReconcileError::Provider(error)
    }
}

/// The provider's listing for a name after the write that a live run chose
/// on `listing`: a creation adds the `created` record, an update leaves the
/// set of records as it was.
pub open spec fn listing_after_write(
    listing: Seq<DnsRecordEntry>,
    created: DnsRecordEntry,
) -> Seq<DnsRecordEntry> {
    if first_a_id(listing) is None {
        listing.push(created)
    } else {
        listing
    }
}

proof fn lemma_first_a_id_push(listing: Seq<DnsRecordEntry>, e: DnsRecordEntry)
    requires
        e.kind == RecordKind::A,
    ensures
        first_a_id(listing.push(e)) == (if first_a_id(listing) is None {
            Some(e.id@)
        } else {
            first_a_id(listing)
        }),
    decreases listing.len(),
{
    if listing.len() > 0 {
        assert(listing.push(e).drop_first() =~= listing.drop_first().push(e));
        lemma_first_a_id_push(listing.drop_first(), e);
    }
}

/// Running twice with the same address: whatever the first live run found,
/// the second finds an address record and chooses an update, never a
/// creation; where the first run updated, the second updates the same record.
pub proof fn lemma_rerun_updates(listing: Seq<DnsRecordEntry>, created: DnsRecordEntry)
    requires
        created.kind == RecordKind::A,
    ensures
        first_a_id(listing_after_write(listing, created)) is Some,
        first_a_id(listing) is None ==> first_a_id(listing_after_write(listing, created)) == Some(
            created.id@,
        ),
        first_a_id(listing) is Some ==> first_a_id(listing_after_write(listing, created))
            == first_a_id(listing),
{
    lemma_first_a_id_push(listing, created);
}

} // verus!
