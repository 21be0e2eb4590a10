//! Building proxy services from definitions, and planning a whole process.
//!
//! A `ProxyService` is one validated definition: the listen address it will
//! bind, the target it dials, and the allow-list it screens peers with. The
//! `ServiceManager` plans one service per enabled definition; a definition
//! whose target does not parse is skipped with its name recorded, and never
//! keeps its siblings from starting.

use vstd::prelude::*;
use vstd::string::StrSliceExecFns;
use crate::addr::{spec_parse_socket_addr, spec_wildcard, parse_socket_addr, SocketAddressV4};
use crate::config::ProxyConfig;
use crate::filter::{spec_names, spec_permit, permit};

verus! {

/// A malformed address in one definition: fatal for that definition only.
#[derive(Debug)]
pub struct AddressError {
    /// The text that failed to parse.
    pub address: String,
}

/// The abstract content of one service: what it binds, dials and permits.
pub struct ServiceModel {
    pub name: Seq<char>,
    pub listen: SocketAddressV4,
    pub target: SocketAddressV4,
    pub allow_list: Seq<Seq<char>>,
}

/// What a valid definition builds: wildcard listen host with the configured
/// port, the parsed target, and the configured allow-list.
pub open spec fn spec_service_model(c: ProxyConfig) -> ServiceModel {
    ServiceModel {
        name: c.name@,
        listen: spec_wildcard(c.listen),
        target: spec_parse_socket_addr(c.target@).unwrap(),
        allow_list: c.spec_allow_names(),
    }
}

/// One proxy instance: owns its definition's validated addresses and
/// allow-list, shared read-only across all connections it screens.
#[derive(Debug)]
pub struct ProxyService {
    /// The definition's name, for logging and attribution.
    pub name: String,
    /// The address the service binds: wildcard host, configured port.
    pub listen: SocketAddressV4,
    /// The address dialed for every permitted client.
    pub target: SocketAddressV4,
    /// Permitted source addresses; empty permits all.
    pub allow_list: Vec<String>,
}

impl View for ProxyService {
    type V = ServiceModel;

    open spec fn view(&self) -> ServiceModel {
        ServiceModel {
            name: self.name@,
            listen: self.listen,
            target: self.target,
            allow_list: spec_names(self.allow_list@),
        }
    }
}

impl ProxyService {
    /// Validate one definition and build its service; no listening socket is
    /// opened here. Fails exactly when the target address does not parse,
    /// and then returns the offending text.
    pub fn new(config: &ProxyConfig) -> (r: Result<ProxyService, AddressError>)
        ensures
            r is Ok <==> spec_parse_socket_addr(config.target@) is Some,
            r matches Ok(s) ==> s@ == spec_service_model(*config),
            r matches Err(e) ==> e.address@ == config.target@,
    {
        match parse_socket_addr(config.target.as_str()) {
            Some(target) => Ok(
                ProxyService {
                    name: config.name.clone(),
                    listen: SocketAddressV4::wildcard(config.listen),
                    target,
                    allow_list: config.allow_list_or_empty(),
                },
            ),
            None => Err(AddressError { address: config.target.clone() }),
        }
    }

    /// Screen a peer's textual address against this service's allow-list.
    pub fn permits(&self, peer_ip: &String) -> (r: bool)
        ensures
            r == spec_permit(self@.allow_list, peer_ip@),
    {
        permit(&self.allow_list, peer_ip)
    }
}

/// What planning a list of definitions yields: the models of the services
/// that start, in definition order, and the names of the enabled definitions
/// whose target was malformed, in the same order.
pub open spec fn spec_plan(cs: Seq<ProxyConfig>) -> (Seq<ServiceModel>, Seq<Seq<char>>)
    decreases cs.len(),
{
    if cs.len() == 0 {
        (Seq::empty(), Seq::empty())
    } else {
        let (services, skipped) = spec_plan(cs.drop_last());
        let c = cs.last();
        if !c.spec_enabled() {
            (services, skipped)
        } else if spec_parse_socket_addr(c.target@) is Some {
            (services.push(spec_service_model(c)), skipped)
        } else {
            (services, skipped.push(c.name@))
        }
    }
}

/// How many definitions of the list are enabled.
pub open spec fn spec_enabled_count(cs: Seq<ProxyConfig>) -> nat
    decreases cs.len(),
{
    if cs.len() == 0 {
        0
    } else {
        spec_enabled_count(cs.drop_last()) + if cs.last().spec_enabled() {
            1nat
        } else {
            0nat
        }
    }
}

/// No definition is lost: every enabled one either starts a service or is
/// skipped under its name, and disabled ones do neither.
pub proof fn lemma_plan_accounts_for_every_definition(cs: Seq<ProxyConfig>)
    ensures
        spec_plan(cs).0.len() + spec_plan(cs).1.len() == spec_enabled_count(cs),
    decreases cs.len(),
{
    if cs.len() > 0 {
        lemma_plan_accounts_for_every_definition(cs.drop_last());
    }
}

/// The set of services planned for one process.
///
/// Instances are fully independent: a skipped definition is reported by name
/// and its siblings still start; only configuration loading, which happens
/// before planning, may stop the whole process.
pub struct ServiceManager {
    /// The services to start, one per enabled and valid definition.
    pub services: Vec<ProxyService>,
    /// The names of enabled definitions skipped for a malformed target.
    pub skipped: Vec<String>,
}

impl ServiceManager {
    /// Plan services for every enabled definition.
    pub fn plan(configs: Vec<ProxyConfig>) -> (m: ServiceManager)
        ensures
            Seq::new(m.services@.len(), |i: int| m.services@[i]@) == spec_plan(configs@).0,
            spec_names(m.skipped@) == spec_plan(configs@).1,
    {
        let mut services: Vec<ProxyService> = Vec::new();
        let mut skipped: Vec<String> = Vec::new();
        let n: usize = configs.len();
        let mut i: usize = 0;
        proof {
            assert(configs@.subrange(0, 0) =~= Seq::<ProxyConfig>::empty());
            assert(Seq::new(services@.len(), |k: int| services@[k]@) =~= spec_plan(
                configs@.subrange(0, 0),
            ).0);
            assert(spec_names(skipped@) =~= spec_plan(configs@.subrange(0, 0)).1);
        }
        while i < n
            invariant
                n == configs@.len(),
                0 <= i <= n,
                Seq::new(services@.len(), |k: int| services@[k]@) == spec_plan(
                    configs@.subrange(0, i as int),
                ).0,
                spec_names(skipped@) == spec_plan(configs@.subrange(0, i as int)).1,
            decreases n - i,
        {
            let ghost prefix = configs@.subrange(0, i as int);
            let ghost next_prefix = configs@.subrange(0, i + 1 as int);
            proof {
                assert(next_prefix.drop_last() =~= prefix);
                assert(next_prefix.last() == configs@[i as int]);
            }
            let c = &configs[i];
            if c.enabled() {
                match ProxyService::new(c) {
                    Ok(s) => {
                        services.push(s);
                        proof {
                            assert(Seq::new(services@.len(), |k: int| services@[k]@) =~= spec_plan(
                                next_prefix,
                            ).0);
                        }
                    },
                    Err(_) => {
                        let name: String = c.name.clone();
                        skipped.push(name);
                        proof {
                            assert(spec_names(skipped@) =~= spec_plan(next_prefix).1);
                        }
                    },
                }
            } else {
                proof {
                    assert(Seq::new(services@.len(), |k: int| services@[k]@) =~= spec_plan(
                        next_prefix,
                    ).0);
                    assert(spec_names(skipped@) =~= spec_plan(next_prefix).1);
                }
            }
            i = i + 1;
        }
        proof {
            assert(configs@.subrange(0, n as int) =~= configs@);
        }
        ServiceManager { services, skipped }
    }

    /// How many services the plan starts.
    pub fn started_count(&self) -> (r: usize)
        ensures
            r == self.services@.len(),
    {
        self.services.len()
    }
}

} // verus!
