//! One authenticated provider handle per configured domain.

use vstd::prelude::*;
use vstd::string::*;

use cloudflare::framework::auth::Credentials;
use cloudflare::framework::client::async_api::Client;
use cloudflare::framework::client::ClientConfig;
use cloudflare::framework::Environment;

use crate::config::{Config, ZoneConfig};
use crate::error::ReconcileError;

verus! {

#[verifier::external_type_specification]
#[verifier::external_body]
pub struct ExClient(Client);

#[verifier::external_type_specification]
#[verifier::external_body]
pub struct ExFrameworkError(cloudflare::framework::Error);

/// The API token that a handle authenticates with.
pub uninterp spec fn token_of(c: Client) -> Seq<char>;

/// Relies on cloudflare's `async_api::Client::new`: builds a handle for the
/// production API that keeps the credentials it is given, here the API token
/// `token`, with the default settings. It makes no network call; building
/// the HTTP client may fail.
#[verifier::external_body]
fn client_for_token(token: &String) -> (r: Result<Client, cloudflare::framework::Error>)
    ensures
        r matches Ok(c) ==> token_of(c) == token@,
{
    Client::new(
        Credentials::UserAuthToken { token: token.clone() },
        ClientConfig::default(),
        Environment::Production,
    )
}

/// `z` lists `d` among its domains.
pub open spec fn declares(z: ZoneConfig, d: Seq<char>) -> bool {
    exists|j: int| 0 <= j < z.domains@.len() && #[trigger] z.domains@[j]@ == d
}

/// The last of the first `n` zones that declares `d`, or -1.
pub open spec fn last_zone_upto(zones: Seq<ZoneConfig>, n: int, d: Seq<char>) -> int
    decreases n,
{
    if n <= 0 {
        -1
    } else if declares(zones[n - 1], d) {
        n - 1
    } else {
        last_zone_upto(zones, n - 1, d)
    }
}

/// The zone whose credentials serve `d`: the last zone that declares it, or
/// -1 when none does.
pub open spec fn binding_zone(zones: Seq<ZoneConfig>, d: Seq<char>) -> int {
    last_zone_upto(zones, zones.len() as int, d)
}

/// A domain with its handle, and the index of the zone whose credentials
/// built the handle.
pub struct DomainClient {
    pub domain: String,
    pub zone: usize,
    pub client: Client,
}

/// The handles of a run, one per domain.
pub struct DomainClients {
    pub entries: Vec<DomainClient>,
}

impl DomainClients {
    /// No domain has two entries.
    pub open spec fn wf(&self) -> bool {
        forall|i: int, j: int|
            0 <= i < j < self.entries@.len() ==> #[trigger] self.entries@[i].domain@
                != #[trigger] self.entries@[j].domain@
    }

    /// `d` has an entry.
    pub open spec fn has(&self, d: Seq<char>) -> bool {
        exists|i: int| 0 <= i < self.entries@.len() && #[trigger] self.entries@[i].domain@ == d
    }

    /// Each domain that `zones` declare has exactly one entry, made with the
    /// credentials of the last zone that declares it, and no other domain
    /// has one.
    pub open spec fn binds(&self, zones: Seq<ZoneConfig>) -> bool {
        &&& self.wf()
        &&& forall|d: Seq<char>| #[trigger] self.has(d) <==> binding_zone(zones, d) >= 0
        &&& forall|i: int|
            0 <= i < self.entries@.len() ==> #[trigger] self.entries@[i].zone as int
                == binding_zone(zones, self.entries@[i].domain@)
        &&& self.keyed_by(zones)
    }

    /// Each handle authenticates with the key of the zone it names.
    pub open spec fn keyed_by(&self, zones: Seq<ZoneConfig>) -> bool {
        forall|i: int|
            0 <= i < self.entries@.len() ==> self.entries@[i].zone < zones.len() && token_of(
                #[trigger] self.entries@[i].client,
            ) == zones[self.entries@[i].zone as int].credentials.key@
    }

    /// Binds `domain` to `client`, made with the credentials of zone `zone`.
    /// An earlier entry of the domain is replaced in place; otherwise the
    /// entry is added at the end.
    fn bind(&mut self, domain: &String, zone: usize, client: Client)
        requires
            old(self).wf(),
        ensures
            final(self).wf(),
            old(self).has(domain@) ==> final(self).entries@.len() == old(self).entries@.len(),
            !old(self).has(domain@) ==> final(self).entries@.len() == old(self).entries@.len() + 1
                && final(self).entries@.last().domain@ == domain@ && final(self).entries@.last().zone
                == zone && final(self).entries@.last().client == client,
            forall|i: int|
                0 <= i < old(self).entries@.len() ==> (#[trigger] final(self).entries@[i]).domain@
                    == old(self).entries@[i].domain@ && final(self).entries@[i].zone == (if old(
                    self,
                ).entries@[i].domain@ == domain@ {
                    zone
                } else {
                    old(self).entries@[i].zone
                }) && final(self).entries@[i].client == (if old(self).entries@[i].domain@ == domain@ {
                    client
                } else {
                    old(self).entries@[i].client
                }),
    {
        let entry = DomainClient { domain: String::from_str(domain.as_str()), zone, client };
        match self.position(domain.as_str()) {
            Some(i) => {
                self.entries.set(i, entry);
            },
            None => {
                self.entries.push(entry);
            },
        }
    }

    /// The number of domains.
    pub fn len(&self) -> (n: usize)
        ensures
            n == self.entries@.len(),
    {
        self.entries.len()
    }

    /// Where `domain` stands among the entries.
    pub fn position(&self, domain: &str) -> (r: Option<usize>)
        requires
            self.wf(),
        ensures
            r is Some <==> self.has(domain@),
            r matches Some(i) ==> i < self.entries@.len() && self.entries@[i as int].domain@
                == domain@,
    {
        let wanted = String::from_str(domain);
        let mut i: usize = 0;
        while i < self.entries.len()
            invariant
                i <= self.entries@.len(),
                wanted@ == domain@,
                forall|k: int| 0 <= k < i ==> #[trigger] self.entries@[k].domain@ != domain@,
            decreases self.entries@.len() - i,
        {
            if self.entries[i].domain == wanted {
                return Some(i);
            }
            i = i + 1;
        }
        None
    }

    /// The handle that serves `domain`, if it has one.
    pub fn client_for(&self, domain: &str) -> (r: Option<&Client>)
        requires
            self.wf(),
        ensures
            r is Some <==> self.has(domain@),
            r matches Some(c) ==> exists|i: int|
                0 <= i < self.entries@.len() && #[trigger] self.entries@[i].domain@ == domain@
                    && *c == self.entries@[i].client,
    {
        match self.position(domain) {
            Some(i) => Some(&self.entries[i].client),
            None => None,
        }
    }

    /// The index of the zone whose credentials serve `domain`.
    pub fn zone_for(&self, domain: &str) -> (r: Option<usize>)
        requires
            self.wf(),
        ensures
            r is Some <==> self.has(domain@),
            r matches Some(z) ==> exists|i: int|
                0 <= i < self.entries@.len() && #[trigger] self.entries@[i].domain@ == domain@
                    && self.entries@[i].zone == z,
    {
        match self.position(domain) {
            Some(i) => Some(self.entries[i].zone),
            None => None,
        }
    }
}

proof fn lemma_last_zone_is(zones: Seq<ZoneConfig>, d: Seq<char>, j: int, n: int)
    requires
        0 <= j < n <= zones.len(),
        declares(zones[j], d),
        forall|k: int| j < k < zones.len() ==> !declares(#[trigger] zones[k], d),
    ensures
        last_zone_upto(zones, n, d) == j,
    decreases n,
{
    if n - 1 > j {
        lemma_last_zone_is(zones, d, j, n - 1);
    }
}

/// The later zone wins: where zone `j` declares `d` and no later zone does,
/// handles bound from `zones` hold exactly one entry for `d`, and its handle
/// authenticates with zone `j`'s key, whichever earlier zones declare `d` too.
pub proof fn lemma_later_zone_wins(m: DomainClients, zones: Seq<ZoneConfig>, d: Seq<char>, j: int)
    requires
        m.binds(zones),
        0 <= j < zones.len(),
        declares(zones[j], d),
        forall|k: int| j < k < zones.len() ==> !declares(#[trigger] zones[k], d),
    ensures
        exists|i: int|
            0 <= i < m.entries@.len() && #[trigger] m.entries@[i].domain@ == d && m.entries@[i].zone
                == j && token_of(m.entries@[i].client) == zones[j].credentials.key@,
        forall|i: int, k: int|
            0 <= i < m.entries@.len() && 0 <= k < m.entries@.len() && #[trigger] m.entries@[i].domain@
                == d && #[trigger] m.entries@[k].domain@ == d ==> i == k,
{
    lemma_last_zone_is(zones, d, j, zones.len() as int);
    assert(m.has(d));
    let i = choose|i: int| 0 <= i < m.entries@.len() && #[trigger] m.entries@[i].domain@ == d;
    assert(m.entries@[i].zone == j);
    assert forall|a: int, b: int|
        0 <= a < m.entries@.len() && 0 <= b < m.entries@.len() && #[trigger] m.entries@[a].domain@
            == d && #[trigger] m.entries@[b].domain@ == d implies a == b by {
        if a < b {
            assert(m.entries@[a].domain@ != m.entries@[b].domain@);
        } else if b < a {
            assert(m.entries@[b].domain@ != m.entries@[a].domain@);
        }
    }
}

/// The zone that serves `d` once zones `0..zi` and the first `di` domains
/// of zone `zi` are bound.
spec fn bound_at(zones: Seq<ZoneConfig>, zi: int, di: int, d: Seq<char>) -> int {
    if exists|j: int| 0 <= j < di && #[trigger] zones[zi].domains@[j]@ == d {
        zi
    } else {
        last_zone_upto(zones, zi, d)
    }
}

/// Builds a handle for every domain of every zone, with that zone's
/// credentials. A domain that several zones declare is served by the last of
/// them. Fails when a handle cannot be built, naming its domain.
pub fn get_domain_clients(config: &Config) -> (r: Result<DomainClients, ReconcileError>)
    ensures
        r matches Ok(m) ==> m.binds(config.zones@),
        r matches Err(e) ==> (e matches ReconcileError::ClientBuild(d) && exists|i: int|
            0 <= i < config.zones@.len() && declares(#[trigger] config.zones@[i], d@)),
        (forall|i: int| 0 <= i < config.zones@.len() ==> (#[trigger] config.zones@[i]).domains@.len()
            == 0) ==> r is Ok,
{
    let mut map = DomainClients { entries: Vec::new() };
    let mut zi: usize = 0;
    while zi < config.zones.len()
        invariant
            zi <= config.zones@.len(),
            map.wf(),
            forall|d: Seq<char>| #[trigger] map.has(d) <==> last_zone_upto(config.zones@, zi as int, d) >= 0,
            forall|i: int|
                0 <= i < map.entries@.len() ==> #[trigger] map.entries@[i].zone as int
                    == last_zone_upto(config.zones@, zi as int, map.entries@[i].domain@),
            map.keyed_by(config.zones@),
        decreases config.zones@.len() - zi,
    {
        let zone = &config.zones[zi];
        let mut di: usize = 0;
        while di < zone.domains.len()
            invariant
                zi < config.zones@.len(),
                *zone == config.zones@[zi as int],
                di <= zone.domains@.len(),
                map.wf(),
                forall|d: Seq<char>| #[trigger] map.has(d) <==> bound_at(config.zones@, zi as int, di as int, d) >= 0,
                forall|i: int|
                    0 <= i < map.entries@.len() ==> #[trigger] map.entries@[i].zone as int
                        == bound_at(config.zones@, zi as int, di as int, map.entries@[i].domain@),
                map.keyed_by(config.zones@),
            decreases zone.domains@.len() - di,
        {
            let domain = &zone.domains[di];
            let client = match client_for_token(&zone.credentials.key) {
                Ok(c) => c,
                Err(_) => {
                    assert(config.zones@[zi as int].domains@[di as int]@ == domain@);
                    return Err(ReconcileError::ClientBuild(String::from_str(domain.as_str())));
                },
            };
            let ghost before = map;
            map.bind(domain, zi, client);
            proof {
                let zs = config.zones@;
                assert forall|d: Seq<char>|
                    bound_at(zs, zi as int, di + 1, d) == (if d == domain@ {
                        zi as int
                    } else {
                        bound_at(zs, zi as int, di as int, d)
                    }) by {
                    if d == domain@ {
                        assert(zs[zi as int].domains@[di as int]@ == d);
                    }
                    if exists|j: int| 0 <= j < di + 1 && #[trigger] zs[zi as int].domains@[j]@ == d {
                        let j = choose|j: int| 0 <= j < di + 1 && #[trigger] zs[zi as int].domains@[j]@ == d;
                        if j < di {
                            assert(exists|j: int| 0 <= j < di && #[trigger] zs[zi as int].domains@[j]@ == d);
                        }
                    }
                }
                assert forall|d: Seq<char>| #[trigger] map.has(d) <==> bound_at(zs, zi as int, di + 1, d) >= 0 by {
                    if map.has(d) {
                        let i = choose|i: int| 0 <= i < map.entries@.len() && #[trigger] map.entries@[i].domain@ == d;
                        if i < before.entries@.len() {
                            assert(before.entries@[i].domain@ == d);
                            assert(before.has(d));
                        }
                    }
                    if bound_at(zs, zi as int, di + 1, d) >= 0 {
                        if d == domain@ {
                            if before.has(d) {
                                let i = choose|i: int| 0 <= i < before.entries@.len() && #[trigger] before.entries@[i].domain@ == d;
                                assert(map.entries@[i].domain@ == d);
                            } else {
                                assert(map.entries@[map.entries@.len() - 1].domain@ == d);
                            }
                        } else {
                            assert(before.has(d));
                            let i = choose|i: int| 0 <= i < before.entries@.len() && #[trigger] before.entries@[i].domain@ == d;
                            assert(map.entries@[i].domain@ == d);
                        }
                    }
                }
                assert forall|i: int| 0 <= i < map.entries@.len() implies #[trigger] map.entries@[i].zone as int
                    == bound_at(zs, zi as int, di + 1, map.entries@[i].domain@) by {
                    if i < before.entries@.len() {
                        assert(before.entries@[i].zone as int == bound_at(zs, zi as int, di as int, before.entries@[i].domain@));
                    }
                }
            }
            di = di + 1;
        }
        proof {
            let zs = config.zones@;
            assert forall|d: Seq<char>|
                bound_at(zs, zi as int, di as int, d) == last_zone_upto(zs, zi + 1, d) by {
                if declares(zs[zi as int], d) {
                    let j = choose|j: int| 0 <= j < zs[zi as int].domains@.len() && #[trigger] zs[zi as int].domains@[j]@ == d;
                    assert(zs[zi as int].domains@[j]@ == d);
                }
            }
        }
        zi = zi + 1;
    }
    Ok(map)
}

} // verus!
