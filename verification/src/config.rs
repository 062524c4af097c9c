//! The configuration: hosts, each with the services that are reached through it.
use vstd::prelude::*;

use crate::seqs;
use crate::table::NameSet;
use crate::text;

verus! {

broadcast use crate::seqs::group_views;

/// The hosts, in the order in which they are shown.
#[derive(Debug)]
pub struct Config {
    pub hosts: Vec<Host>,
}

/// A host that is reached by `ssh`.
#[derive(Debug)]
pub struct Host {
    pub name: String,
    /// What is handed to the `ssh` command: an alias or `user@host`.
    pub ssh: String,
    pub services: Vec<Service>,
}

/// A service on a host.
#[derive(Debug)]
pub struct Service {
    pub name: String,
    /// The port on the remote side.
    pub port: u16,
    pub scheme: String,
    pub path: String,
    /// The local port to forward from; an ephemeral one where there is none.
    pub local_port: Option<u16>,
}

pub struct ConfigView {
    pub hosts: Seq<HostView>,
}

pub struct HostView {
    pub name: Seq<char>,
    pub ssh: Seq<char>,
    pub services: Seq<ServiceView>,
}

pub struct ServiceView {
    pub name: Seq<char>,
    pub port: u16,
    pub scheme: Seq<char>,
    pub path: Seq<char>,
    pub local_port: Option<u16>,
}

impl View for Config {
    type V = ConfigView;

    open spec fn view(&self) -> ConfigView {
        ConfigView { hosts: seqs::views(self.hosts@) }
    }
}

impl View for Host {
    type V = HostView;

    open spec fn view(&self) -> HostView {
        HostView { name: self.name@, ssh: self.ssh@, services: seqs::views(self.services@) }
    }
}

impl View for Service {
    type V = ServiceView;

    open spec fn view(&self) -> ServiceView {
        ServiceView {
            name: self.name@,
            port: self.port,
            scheme: self.scheme@,
            path: self.path@,
            local_port: self.local_port,
        }
    }
}

impl Clone for Service {
    fn clone(&self) -> (r: Self)
        ensures
            r@ == self@,
    {
        Service {
            name: self.name.clone(),
            port: self.port,
            scheme: self.scheme.clone(),
            path: self.path.clone(),
            local_port: self.local_port,
        }
    }
}

fn clone_services(services: &Vec<Service>) -> (r: Vec<Service>)
    ensures
        seqs::views(r@) == seqs::views(services@),
{
    let mut r: Vec<Service> = Vec::new();
    let mut i: usize = 0;
    while i < services.len()
        invariant
            i <= services@.len(),
            r@.len() == i,
            forall|j: int| 0 <= j < i ==> (#[trigger] r@[j])@ == services@[j]@,
        decreases services@.len() - i,
    {
        r.push(services[i].clone());
        i = i + 1;
    }
    assert(seqs::views(r@) =~= seqs::views(services@));
    r
}

impl Clone for Host {
    fn clone(&self) -> (r: Self)
        ensures
            r@ == self@,
    {
        Host {
            name: self.name.clone(),
            ssh: self.ssh.clone(),
            services: clone_services(&self.services),
        }
    }
}

impl Clone for Config {
    fn clone(&self) -> (r: Self)
        ensures
            r@ == self@,
    {
        let mut hosts: Vec<Host> = Vec::new();
        let mut i: usize = 0;
        while i < self.hosts.len()
            invariant
                i <= self.hosts@.len(),
                hosts@.len() == i,
                forall|j: int| 0 <= j < i ==> (#[trigger] hosts@[j])@ == self.hosts@[j]@,
            decreases self.hosts@.len() - i,
        {
            hosts.push(self.hosts[i].clone());
            i = i + 1;
        }
        assert(seqs::views(hosts@) =~= seqs::views(self.hosts@));
        Config { hosts }
    }
}

impl Default for Config {
    fn default() -> (r: Self)
        ensures
            r@ == (ConfigView { hosts: Seq::empty() }),
    {
        Config { hosts: Vec::new() }
    }
}

/// The scheme of a service that names none.
pub fn default_scheme() -> (r: String)
    ensures
        r@ == "http"@,
{
    "http".to_string()
}

/// The path of a service that names none.
pub fn default_path() -> (r: String)
    ensures
        r@ == "/"@,
{
    "/".to_string()
}

impl ServiceView {
    /// The path of the service, with a slash in front where it has none.
    pub open spec fn rooted_path(self) -> Seq<char> {
        if self.path.len() > 0 && self.path[0] == '/' {
            self.path
        } else {
            "/"@ + self.path
        }
    }

    /// The address at which the service is found while its tunnel listens on `local_port`.
    pub open spec fn url(self, local_port: u16) -> Seq<char> {
        self.scheme + "://127.0.0.1:"@ + text::decimal(local_port as nat) + self.rooted_path()
    }
}

impl Service {
    /// The address at which the service is found while its tunnel listens on `local_port`.
    pub fn url(&self, local_port: u16) -> (r: String)
        ensures
            r@ == self@.url(local_port),
    {
        let path = if self.path.as_str().unicode_len() > 0 && self.path.as_str().get_char(0)
            == '/' {
            self.path.clone()
        } else {
            text::cat2("/", self.path.as_str())
        };
        let port = text::decimal_text(local_port as usize);
        text::cat4(self.scheme.as_str(), "://127.0.0.1:", port.as_str(), path.as_str())
    }
}

/// Why a configuration is refused.
#[derive(Debug)]
pub enum ConfigError {
    HostNameEmpty,
    DuplicateHost { name: String },
    ServiceNameEmpty { host: String },
    DuplicateService { service: String, host: String },
    InvalidPort { service: String },
}

pub enum ConfigErrorView {
    HostNameEmpty,
    DuplicateHost { name: Seq<char> },
    ServiceNameEmpty { host: Seq<char> },
    DuplicateService { service: Seq<char>, host: Seq<char> },
    InvalidPort { service: Seq<char> },
}

impl View for ConfigError {
    type V = ConfigErrorView;

    open spec fn view(&self) -> ConfigErrorView {
        match self {
            ConfigError::HostNameEmpty => ConfigErrorView::HostNameEmpty,
            ConfigError::DuplicateHost { name } => ConfigErrorView::DuplicateHost { name: name@ },
            ConfigError::ServiceNameEmpty { host } => ConfigErrorView::ServiceNameEmpty {
                host: host@,
            },
            ConfigError::DuplicateService { service, host } => ConfigErrorView::DuplicateService {
                service: service@,
                host: host@,
            },
            ConfigError::InvalidPort { service } => ConfigErrorView::InvalidPort {
                service: service@,
            },
        }
    }
}

impl ConfigErrorView {
    /// The error in words.
    pub open spec fn message(self) -> Seq<char> {
        match self {
            ConfigErrorView::HostNameEmpty => "host name empty"@,
            ConfigErrorView::DuplicateHost { name } => "duplicate host name: "@ + name,
            ConfigErrorView::ServiceNameEmpty { host } => "service name empty in host "@ + host,
            ConfigErrorView::DuplicateService { service, host } => "duplicate service '"@ + service
                + "' in host "@ + host,
            ConfigErrorView::InvalidPort { service } => "invalid port for service '"@ + service
                + "'"@,
        }
    }
}

impl ConfigError {
    /// The error in words.
    pub fn message(&self) -> (r: String)
        ensures
            r@ == self@.message(),
    {
        match self {
            ConfigError::HostNameEmpty => "host name empty".to_string(),
            ConfigError::DuplicateHost { name } => text::cat2(
                "duplicate host name: ",
                name.as_str(),
            ),
            ConfigError::ServiceNameEmpty { host } => text::cat2(
                "service name empty in host ",
                host.as_str(),
            ),
            ConfigError::DuplicateService { service, host } => text::cat4(
                "duplicate service '",
                service.as_str(),
                "' in host ",
                host.as_str(),
            ),
            ConfigError::InvalidPort { service } => text::cat3(
                "invalid port for service '",
                service.as_str(),
                "'",
            ),
        }
    }
}

impl HostView {
    /// Whether an earlier service of the host has the name of service `j`.
    pub open spec fn service_repeats(self, j: int) -> bool {
        exists|k: int| 0 <= k < j && (#[trigger] self.services[k]).name == self.services[j].name
    }

    /// What is wrong with service `j` of the host.
    pub open spec fn service_fault(self, j: int) -> Option<ConfigErrorView> {
        let s = self.services[j];
        if text::blank(s.name) {
            Some(ConfigErrorView::ServiceNameEmpty { host: self.name })
        } else if self.service_repeats(j) {
            Some(ConfigErrorView::DuplicateService { service: s.name, host: self.name })
        } else if s.port == 0 {
            Some(ConfigErrorView::InvalidPort { service: s.name })
        } else {
            None
        }
    }

    /// The first thing wrong with the services of the host from service `j` on.
    pub open spec fn services_fault(self, j: int) -> Option<ConfigErrorView>
        decreases self.services.len() - j,
    {
        if j >= self.services.len() {
            None
        } else if self.service_fault(j) is Some {
            self.service_fault(j)
        } else {
            self.services_fault(j + 1)
        }
    }

    /// Every service of the host has a name that is not blank and that no other service of the
    /// host has, and a port that is not zero.
    pub open spec fn valid(self) -> bool {
        &&& !text::blank(self.name)
        &&& forall|j: int| #![trigger self.services[j]]
            0 <= j < self.services.len() ==> !text::blank(self.services[j].name)
                && self.services[j].port != 0
        &&& forall|j: int, k: int|
            0 <= j < k < self.services.len() ==> (#[trigger] self.services[j]).name != (
            #[trigger] self.services[k]).name
    }
}

impl ConfigView {
    /// Whether an earlier host has the name of host `i`.
    pub open spec fn host_repeats(self, i: int) -> bool {
        exists|k: int| 0 <= k < i && (#[trigger] self.hosts[k]).name == self.hosts[i].name
    }

    /// The first thing wrong with host `i`.
    pub open spec fn host_fault(self, i: int) -> Option<ConfigErrorView> {
        let h = self.hosts[i];
        if text::blank(h.name) {
            Some(ConfigErrorView::HostNameEmpty)
        } else if self.host_repeats(i) {
            Some(ConfigErrorView::DuplicateHost { name: h.name })
        } else {
            h.services_fault(0)
        }
    }

    /// The first thing wrong with the hosts from host `i` on.
    pub open spec fn hosts_fault(self, i: int) -> Option<ConfigErrorView>
        decreases self.hosts.len() - i,
    {
        if i >= self.hosts.len() {
            None
        } else if self.host_fault(i) is Some {
            self.host_fault(i)
        } else {
            self.hosts_fault(i + 1)
        }
    }

    /// The first thing wrong with the configuration.
    pub open spec fn fault(self) -> Option<ConfigErrorView> {
        self.hosts_fault(0)
    }

    /// Every host is valid, and no two hosts share a name.
    pub open spec fn valid(self) -> bool {
        &&& forall|i: int| 0 <= i < self.hosts.len() ==> (#[trigger] self.hosts[i]).valid()
        &&& forall|i: int, k: int|
            0 <= i < k < self.hosts.len() ==> (#[trigger] self.hosts[i]).name != (
            #[trigger] self.hosts[k]).name
    }
}

proof fn lemma_services_fault(h: HostView, j: int)
    requires
        0 <= j <= h.services.len(),
    ensures
        h.services_fault(j) is None <==> forall|m: int|
            j <= m < h.services.len() ==> #[trigger] h.service_fault(m) is None,
    decreases h.services.len() - j,
{
    if j < h.services.len() {
        lemma_services_fault(h, j + 1);
        if h.services_fault(j) is None {
            assert forall|m: int| j <= m < h.services.len() implies #[trigger] h.service_fault(
                m,
            ) is None by {}
        }
    }
}

proof fn lemma_hosts_fault(c: ConfigView, i: int)
    requires
        0 <= i <= c.hosts.len(),
    ensures
        c.hosts_fault(i) is None <==> forall|m: int|
            i <= m < c.hosts.len() ==> #[trigger] c.host_fault(m) is None,
    decreases c.hosts.len() - i,
{
    if i < c.hosts.len() {
        lemma_hosts_fault(c, i + 1);
        if c.hosts_fault(i) is None {
            assert forall|m: int| i <= m < c.hosts.len() implies #[trigger] c.host_fault(
                m,
            ) is None by {}
        }
    }
}

proof fn lemma_host_valid(h: HostView)
    ensures
        h.valid() <==> !text::blank(h.name) && h.services_fault(0) is None,
{
    lemma_services_fault(h, 0);
    if h.valid() {
        assert forall|m: int| 0 <= m < h.services.len() implies #[trigger] h.service_fault(
            m,
        ) is None by {
            assert(!text::blank(h.services[m].name));
            if h.service_repeats(m) {
                let k = choose|k: int|
                    0 <= k < m && (#[trigger] h.services[k]).name == h.services[m].name;
                assert(h.services[k].name != h.services[m].name);
            }
        }
    }
    if !text::blank(h.name) && h.services_fault(0) is None {
        assert forall|j: int| #![trigger h.services[j]] 0 <= j < h.services.len() implies (
        !text::blank(h.services[j].name) && h.services[j].port != 0) by {
            assert(h.service_fault(j) is None);
        }
        assert forall|j: int, k: int| 0 <= j < k < h.services.len() implies (
        #[trigger] h.services[j]).name != (#[trigger] h.services[k]).name by {
            assert(h.service_fault(k) is None);
            if h.services[j].name == h.services[k].name {
                assert(h.service_repeats(k));
            }
        }
    }
}

/// Nothing is wrong with a configuration exactly where all names are there, no name is given
/// twice in one place and no port is zero.
pub proof fn faultless_iff_valid(c: ConfigView)
    ensures
        c.fault() is None <==> c.valid(),
{
    lemma_hosts_fault(c, 0);
    assert forall|m: int| 0 <= m < c.hosts.len() implies (#[trigger] c.hosts[m]).valid() == (
    !text::blank(c.hosts[m].name) && c.hosts[m].services_fault(0) is None) by {
        lemma_host_valid(c.hosts[m]);
    }
    if c.valid() {
        assert forall|m: int| 0 <= m < c.hosts.len() implies #[trigger] c.host_fault(
            m,
        ) is None by {
            assert(c.hosts[m].valid());
            if c.host_repeats(m) {
                let k = choose|k: int|
                    0 <= k < m && (#[trigger] c.hosts[k]).name == c.hosts[m].name;
                assert(c.hosts[k].name != c.hosts[m].name);
            }
        }
    }
    if c.fault() is None {
        assert forall|m: int| 0 <= m < c.hosts.len() implies (#[trigger] c.hosts[m]).valid() by {
            assert(c.host_fault(m) is None);
        }
        assert forall|i: int, k: int| 0 <= i < k < c.hosts.len() implies (
        #[trigger] c.hosts[i]).name != (#[trigger] c.hosts[k]).name by {
            assert(c.host_fault(k) is None);
            if c.hosts[i].name == c.hosts[k].name {
                assert(c.host_repeats(k));
            }
        }
    }
}

fn is_blank(s: &str) -> (r: bool)
    ensures
        r == text::blank(s@),
{
    proof {
        text::trimmed_is_empty_iff_blank(s@);
    }
    text::trim(s).as_str().is_empty()
}

fn validate_services(h: &Host) -> (r: Result<(), ConfigError>)
    ensures
        match r {
            Ok(_) => h@.services_fault(0) is None,
            Err(e) => h@.services_fault(0) == Some(e@),
        },
{
    let mut seen = NameSet::new();
    let mut j: usize = 0;
    while j < h.services.len()
        invariant
            j <= h.services@.len(),
            h@.services_fault(0) == h@.services_fault(j as int),
            forall|n: Seq<char>| #[trigger]
                seen@.contains(n) <==> exists|k: int|
                    0 <= k < j && (#[trigger] h@.services[k]).name == n,
        decreases h.services@.len() - j,
    {
        let s = &h.services[j];
        assert(h@.services[j as int] == s@);
        if is_blank(s.name.as_str()) {
            return Err(ConfigError::ServiceNameEmpty { host: h.name.clone() });
        }
        if seen.contains(s.name.as_str()) {
            return Err(
                ConfigError::DuplicateService { service: s.name.clone(), host: h.name.clone() },
            );
        }
        let ghost before = seen@;
        seen.insert(s.name.clone());
        if s.port == 0 {
            return Err(ConfigError::InvalidPort { service: s.name.clone() });
        }
        proof {
            assert forall|n: Seq<char>| #[trigger]
                seen@.contains(n) <==> exists|k: int|
                    0 <= k < j + 1 && (#[trigger] h@.services[k]).name == n by {
                if n == s.name@ {
                    assert(h@.services[j as int].name == n);
                } else if before.contains(n) {
                    let k = choose|k: int| 0 <= k < j && (#[trigger] h@.services[k]).name == n;
                    assert(h@.services[k].name == n);
                }
            }
        }
        j = j + 1;
    }
    Ok(())
}

/// Checks a configuration: every name has to be there, no two hosts and no two services of a host
/// may share a name, and no port may be zero. The first thing that is wrong is reported.
pub fn validate(cfg: &Config) -> (r: Result<(), ConfigError>)
    ensures
        r is Ok <==> cfg@.valid(),
        r matches Err(e) ==> cfg@.fault() == Some(e@),
{
    proof {
        faultless_iff_valid(cfg@);
    }
    let mut seen = NameSet::new();
    let mut i: usize = 0;
    while i < cfg.hosts.len()
        invariant
            i <= cfg.hosts@.len(),
            cfg@.fault() is None <==> cfg@.valid(),
            cfg@.fault() == cfg@.hosts_fault(i as int),
            forall|n: Seq<char>| #[trigger]
                seen@.contains(n) <==> exists|k: int|
                    0 <= k < i && (#[trigger] cfg@.hosts[k]).name == n,
        decreases cfg.hosts@.len() - i,
    {
        let h = &cfg.hosts[i];
        assert(cfg@.hosts[i as int] == h@);
        if is_blank(h.name.as_str()) {
            return Err(ConfigError::HostNameEmpty);
        }
        if seen.contains(h.name.as_str()) {
            return Err(ConfigError::DuplicateHost { name: h.name.clone() });
        }
        let ghost before = seen@;
        seen.insert(h.name.clone());
        match validate_services(h) {
            Ok(_) => {},
            Err(e) => {
                return Err(e);
            },
        }
        proof {
            assert forall|n: Seq<char>| #[trigger]
                seen@.contains(n) <==> exists|k: int|
                    0 <= k < i + 1 && (#[trigger] cfg@.hosts[k]).name == n by {
                if n == h.name@ {
                    assert(cfg@.hosts[i as int].name == n);
                } else if before.contains(n) {
                    let k = choose|k: int| 0 <= k < i && (#[trigger] cfg@.hosts[k]).name == n;
                    assert(cfg@.hosts[k].name == n);
                }
            }
        }
        i = i + 1;
    }
    Ok(())
}

/// The hosts that are called `name`.
pub open spec fn host_named(name: Seq<char>) -> spec_fn(HostView) -> bool {
    |h: HostView| h.name == name
}

/// The services that are called `name`.
pub open spec fn service_named(name: Seq<char>) -> spec_fn(ServiceView) -> bool {
    |s: ServiceView| s.name == name
}

impl HostView {
    /// Where the first service called `name` is.
    pub open spec fn find_service(self, name: Seq<char>) -> Option<int> {
        seqs::find(self.services, service_named(name))
    }
}

impl ConfigView {
    /// Where the first host called `name` is.
    pub open spec fn find_host(self, name: Seq<char>) -> Option<int> {
        seqs::find(self.hosts, host_named(name))
    }

    /// The first service called `svc` of the first host called `host`, and that host.
    pub open spec fn lookup(self, host: Seq<char>, svc: Seq<char>) -> Option<
        (HostView, ServiceView),
    > {
        match self.find_host(host) {
            Some(i) => match self.hosts[i].find_service(svc) {
                Some(j) => Some((self.hosts[i], self.hosts[i].services[j])),
                None => None,
            },
            None => None,
        }
    }
}

impl ConfigView {
    /// What is looked up has the names that it was looked up by.
    pub proof fn lemma_lookup(self, host: Seq<char>, svc: Seq<char>)
        ensures
            self.lookup(host, svc) matches Some(p) ==> p.0.name == host && p.1.name == svc,
    {
        seqs::lemma_find(self.hosts, host_named(host));
        if let Some(i) = self.find_host(host) {
            seqs::lemma_find(self.hosts[i].services, service_named(svc));
        }
    }
}

impl Host {
    /// Where the first service called `name` is.
    pub fn find_service(&self, name: &str) -> (r: Option<usize>)
        ensures
            match r {
                Some(j) => self@.find_service(name@) == Some(j as int) && j < self.services@.len(),
                None => self@.find_service(name@) is None,
            },
    {
        let ghost p = service_named(name@);
        let mut j: usize = 0;
        while j < self.services.len()
            invariant
                j <= self.services@.len(),
                p == service_named(name@),
                forall|k: int| 0 <= k < j ==> !p(#[trigger] self@.services[k]),
            decreases self.services@.len() - j,
        {
            assert(self@.services[j as int] == self.services@[j as int]@);
            if text::same(self.services[j].name.as_str(), name) {
                proof {
                    seqs::lemma_find_at(self@.services, p, j as int);
                }
                return Some(j);
            }
            j = j + 1;
        }
        proof {
            seqs::lemma_find(self@.services, p);
        }
        None
    }
}

impl Config {
    /// Where the first host called `name` is.
    pub fn find_host(&self, name: &str) -> (r: Option<usize>)
        ensures
            match r {
                Some(i) => self@.find_host(name@) == Some(i as int) && i < self.hosts@.len(),
                None => self@.find_host(name@) is None,
            },
    {
        let ghost p = host_named(name@);
        let mut i: usize = 0;
        while i < self.hosts.len()
            invariant
                i <= self.hosts@.len(),
                p == host_named(name@),
                forall|k: int| 0 <= k < i ==> !p(#[trigger] self@.hosts[k]),
            decreases self.hosts@.len() - i,
        {
            assert(self@.hosts[i as int] == self.hosts@[i as int]@);
            if text::same(self.hosts[i].name.as_str(), name) {
                proof {
                    seqs::lemma_find_at(self@.hosts, p, i as int);
                }
                return Some(i);
            }
            i = i + 1;
        }
        proof {
            seqs::lemma_find(self@.hosts, p);
        }
        None
    }

    /// The first service called `svc` of the first host called `host`, and what that host is
    /// reached by.
    pub fn lookup(&self, host: &str, svc: &str) -> (r: Option<(String, Service)>)
        ensures
            match r {
                Some(p) => self@.lookup(host@, svc@) matches Some(q) && p.0@ == q.0.ssh && p.1@
                    == q.1,
                None => self@.lookup(host@, svc@) is None,
            },
    {
        match self.find_host(host) {
            Some(i) => match self.hosts[i].find_service(svc) {
                Some(j) => Some(
                    (self.hosts[i].ssh.clone(), self.hosts[i].services[j].clone()),
                ),
                None => None,
            },
            None => None,
        }
    }
}

/// The hosts that are not called `name`.
pub open spec fn host_not_named(name: Seq<char>) -> spec_fn(HostView) -> bool {
    |h: HostView| h.name != name
}

/// The services that are not called `name`.
pub open spec fn service_not_named(name: Seq<char>) -> spec_fn(ServiceView) -> bool {
    |s: ServiceView| s.name != name
}

impl Host {
    /// Takes out every service called `name`.
    pub fn drop_services(&mut self, name: &str)
        ensures
            final(self)@ == (HostView {
                services: old(self)@.services.filter(service_not_named(name@)),
                ..old(self)@
            }),
    {
        let ghost all = self@.services;
        let ghost p = service_not_named(name@);
        let ghost mut seen: int = 0;
        let mut j: usize = 0;
        assert(all.take(0).filter(p) =~= Seq::<ServiceView>::empty()) by {
            assert(all.take(0) =~= Seq::<ServiceView>::empty());
            reveal(Seq::filter);
        }
        assert(all.skip(0) =~= all);
        while j < self.services.len()
            invariant
                p == service_not_named(name@),
                0 <= seen <= all.len(),
                j == all.take(seen).filter(p).len(),
                seqs::views(self.services@) == all.take(seen).filter(p) + all.skip(seen),
                self.name@ == old(self).name@,
                self.ssh@ == old(self).ssh@,
            decreases self.services@.len() - j,
        {
            let ghost kept = all.take(seen).filter(p);
            assert(seqs::views(self.services@)[j as int] == all[seen]);
            assert(all.take(seen + 1) =~= all.take(seen).push(all[seen]));
            proof {
                all.take(seen).lemma_filter_push(all[seen], p);
            }
            if text::same(self.services[j].name.as_str(), name) {
                let ghost before = self.services@;
                let _ = self.services.remove(j);
                assert(seqs::views(self.services@) =~= kept + all.skip(seen + 1)) by {
                    assert(seqs::views(self.services@) =~= seqs::views(before).remove(j as int));
                }
            } else {
                assert(seqs::views(self.services@) =~= kept.push(all[seen]) + all.skip(seen + 1));
                j = j + 1;
            }
            proof {
                seen = seen + 1;
            }
        }
        assert(all.take(seen) =~= all) by {
            assert(seqs::views(self.services@).len() == j + (all.len() - seen));
        }
        assert(seqs::views(self.services@) =~= all.filter(p));
    }
}

impl Config {
    /// Takes out every host called `name`.
    pub fn drop_hosts(&mut self, name: &str)
        ensures
            final(self)@ == (ConfigView {
                hosts: old(self)@.hosts.filter(host_not_named(name@)),
            }),
    {
        let ghost all = self@.hosts;
        let ghost p = host_not_named(name@);
        let ghost mut seen: int = 0;
        let mut i: usize = 0;
        assert(all.take(0).filter(p) =~= Seq::<HostView>::empty()) by {
            assert(all.take(0) =~= Seq::<HostView>::empty());
            reveal(Seq::filter);
        }
        assert(all.skip(0) =~= all);
        while i < self.hosts.len()
            invariant
                p == host_not_named(name@),
                0 <= seen <= all.len(),
                i == all.take(seen).filter(p).len(),
                seqs::views(self.hosts@) == all.take(seen).filter(p) + all.skip(seen),
            decreases self.hosts@.len() - i,
        {
            let ghost kept = all.take(seen).filter(p);
            assert(seqs::views(self.hosts@)[i as int] == all[seen]);
            assert(all.take(seen + 1) =~= all.take(seen).push(all[seen]));
            proof {
                all.take(seen).lemma_filter_push(all[seen], p);
            }
            if text::same(self.hosts[i].name.as_str(), name) {
                let ghost before = self.hosts@;
                let _ = self.hosts.remove(i);
                assert(seqs::views(self.hosts@) =~= kept + all.skip(seen + 1)) by {
                    assert(seqs::views(self.hosts@) =~= seqs::views(before).remove(i as int));
                }
            } else {
                assert(seqs::views(self.hosts@) =~= kept.push(all[seen]) + all.skip(seen + 1));
                i = i + 1;
            }
            proof {
                seen = seen + 1;
            }
        }
        assert(all.take(seen) =~= all) by {
            assert(seqs::views(self.hosts@).len() == i + (all.len() - seen));
        }
        assert(seqs::views(self.hosts@) =~= all.filter(p));
    }
}

/// Where the configuration is kept by default: the names to go down by from the directory for
/// configurations, where there is such a directory.
pub fn default_config_path<P>(base: Option<P>) -> (r: Result<(P, Vec<String>), String>)
    ensures
        match base {
            Some(b) => r matches Ok(p) && p.0 == b && seqs::views(p.1@) == seq![
                "pgun"@,
                "config.toml"@,
            ],
            None => r matches Err(e) && e@ == "no config dir"@,
        },
{
    match base {
        Some(b) => {
            let mut names: Vec<String> = Vec::new();
            names.push("pgun".to_string());
            names.push("config.toml".to_string());
            assert(seqs::views(names@) =~= seq!["pgun"@, "config.toml"@]);
            Ok((b, names))
        },
        None => Err("no config dir".to_string()),
    }
}

/// What is found where a configuration is kept.
#[derive(Debug)]
pub enum Found {
    /// There is no file.
    Missing,
    /// There is a file that cannot be read.
    Unreadable,
    /// There is a file whose text is no configuration.
    Unparsable,
    /// There is a file that holds this configuration.
    Parsed(Config),
}

/// Why a configuration is not loaded.
#[derive(Debug)]
pub enum LoadError {
    Read { path: String },
    Parse { path: String },
    Invalid(ConfigError),
}

pub enum FoundView {
    Missing,
    Unreadable,
    Unparsable,
    Parsed(ConfigView),
}

pub enum LoadErrorView {
    Read { path: Seq<char> },
    Parse { path: Seq<char> },
    Invalid(ConfigErrorView),
}

impl View for Found {
    type V = FoundView;

    open spec fn view(&self) -> FoundView {
        match self {
            Found::Missing => FoundView::Missing,
            Found::Unreadable => FoundView::Unreadable,
            Found::Unparsable => FoundView::Unparsable,
            Found::Parsed(c) => FoundView::Parsed(c@),
        }
    }
}

impl View for LoadError {
    type V = LoadErrorView;

    open spec fn view(&self) -> LoadErrorView {
        match self {
            LoadError::Read { path } => LoadErrorView::Read { path: path@ },
            LoadError::Parse { path } => LoadErrorView::Parse { path: path@ },
            LoadError::Invalid(e) => LoadErrorView::Invalid(e@),
        }
    }
}

impl LoadErrorView {
    /// The error in words.
    pub open spec fn message(self) -> Seq<char> {
        match self {
            LoadErrorView::Read { path } => "read "@ + path,
            LoadErrorView::Parse { path } => "parse "@ + path,
            LoadErrorView::Invalid(e) => e.message(),
        }
    }
}

impl LoadError {
    /// The error in words.
    pub fn message(&self) -> (r: String)
        ensures
            r@ == self@.message(),
    {
        match self {
            LoadError::Read { path } => text::cat2("read ", path.as_str()),
            LoadError::Parse { path } => text::cat2("parse ", path.as_str()),
            LoadError::Invalid(e) => e.message(),
        }
    }
}

/// What loading gives of what is found at `path`: no file is an empty configuration, and only a
/// valid configuration is accepted.
pub open spec fn loaded(path: Seq<char>, found: FoundView) -> Result<ConfigView, LoadErrorView> {
    match found {
        FoundView::Missing => Ok(ConfigView { hosts: Seq::empty() }),
        FoundView::Unreadable => Err(LoadErrorView::Read { path }),
        FoundView::Unparsable => Err(LoadErrorView::Parse { path }),
        FoundView::Parsed(c) => match c.fault() {
            None => Ok(c),
            Some(e) => Err(LoadErrorView::Invalid(e)),
        },
    }
}

/// Loads a configuration from what was found at `path`.
pub fn load(path: &str, found: Found) -> (r: Result<Config, LoadError>)
    ensures
        match r {
            Ok(c) => loaded(path@, found@) == Ok::<ConfigView, LoadErrorView>(c@) && c@.valid(),
            Err(e) => loaded(path@, found@) == Err::<ConfigView, LoadErrorView>(e@),
        },
{
    match found {
        Found::Missing => Ok(Config::default()),
        Found::Unreadable => Err(LoadError::Read { path: path.to_string() }),
        Found::Unparsable => Err(LoadError::Parse { path: path.to_string() }),
        Found::Parsed(c) => {
            proof {
                faultless_iff_valid(c@);
            }
            match validate(&c) {
                Ok(_) => Ok(c),
                Err(e) => Err(LoadError::Invalid(e)),
            }
        },
    }
}

/// What is left to do to save a configuration, by the next thing to do.
#[derive(Debug, Clone, Copy, PartialEq, Eq, Structural)]
pub enum SaveStep {
    /// Make the directory that holds the file.
    MakeDir,
    /// Turn the configuration into text.
    Encode,
    /// Write the text to a file beside the one to be replaced.
    WriteTemp,
    /// Put the written file in the place of the old one.
    Rename,
    /// Nothing.
    Done,
}

/// Begins to save a configuration. One that is not valid is refused before anything is touched;
/// for a valid one the answer is the first thing to do, which is to make the directory where the
/// file has one.
pub fn save(cfg: &Config, has_parent: bool) -> (r: Result<SaveStep, ConfigError>)
    ensures
        r is Ok <==> cfg@.valid(),
        r matches Err(e) ==> cfg@.fault() == Some(e@),
        r matches Ok(step) ==> step == if has_parent {
            SaveStep::MakeDir
        } else {
            SaveStep::Encode
        },
{
    match validate(cfg) {
        Ok(_) => if has_parent {
            Ok(SaveStep::MakeDir)
        } else {
            Ok(SaveStep::Encode)
        },
        Err(e) => Err(e),
    }
}

/// The extension of the file beside the one to be replaced; it takes the place of the extension
/// that the file itself has.
pub fn temp_extension() -> (r: String)
    ensures
        r@ == "toml.tmp"@,
{
    "toml.tmp".to_string()
}

/// A place on disk that saving a configuration has to do with.
#[derive(Debug, Clone, Copy, PartialEq, Eq, Structural)]
pub enum SavePlace {
    /// The directory that holds the file.
    Parent,
    /// The file beside the one to be replaced.
    Temp,
    /// The file itself.
    File,
}

impl SaveStep {
    /// The place that this step makes, fills or replaces.
    pub open spec fn touched(self) -> Option<SavePlace> {
        match self {
            SaveStep::MakeDir => Some(SavePlace::Parent),
            SaveStep::Encode => None,
            SaveStep::WriteTemp => Some(SavePlace::Temp),
            SaveStep::Rename => Some(SavePlace::File),
            SaveStep::Done => None,
        }
    }

    /// The place that this step makes, fills or replaces, and that is named where it fails.
    pub fn touches(self) -> (r: Option<SavePlace>)
        ensures
            r == self.touched(),
    {
        match self {
            SaveStep::MakeDir => Some(SavePlace::Parent),
            SaveStep::Encode => None,
            SaveStep::WriteTemp => Some(SavePlace::Temp),
            SaveStep::Rename => Some(SavePlace::File),
            SaveStep::Done => None,
        }
    }

    /// What comes after this step.
    pub open spec fn following(self) -> SaveStep {
        match self {
            SaveStep::MakeDir => SaveStep::Encode,
            SaveStep::Encode => SaveStep::WriteTemp,
            SaveStep::WriteTemp => SaveStep::Rename,
            SaveStep::Rename => SaveStep::Done,
            SaveStep::Done => SaveStep::Done,
        }
    }

    /// What comes after this step has been done.
    pub fn next(self) -> (r: SaveStep)
        ensures
            r == self.following(),
    {
        match self {
            SaveStep::MakeDir => SaveStep::Encode,
            SaveStep::Encode => SaveStep::WriteTemp,
            SaveStep::WriteTemp => SaveStep::Rename,
            SaveStep::Rename => SaveStep::Done,
            SaveStep::Done => SaveStep::Done,
        }
    }

    /// What is said where this step fails on `place`.
    pub open spec fn failure_text(self, place: Seq<char>) -> Seq<char> {
        match self {
            SaveStep::MakeDir => "mkdir "@ + place,
            SaveStep::Encode => "serialize config"@,
            SaveStep::WriteTemp => "write "@ + place,
            SaveStep::Rename => "rename to "@ + place,
            SaveStep::Done => Seq::empty(),
        }
    }

    /// What is said where this step fails on `place`: the directory, the file beside or the file
    /// itself. Where nothing is left to do nothing fails, and nothing is said.
    pub fn failure(self, place: &str) -> (r: String)
        ensures
            r@ == self.failure_text(place@),
    {
        match self {
            SaveStep::MakeDir => text::cat2("mkdir ", place),
            SaveStep::Encode => "serialize config".to_string(),
            SaveStep::WriteTemp => text::cat2("write ", place),
            SaveStep::Rename => text::cat2("rename to ", place),
            SaveStep::Done => String::new(),
        }
    }
}

/// What the file and the file beside it hold.
pub struct Disk {
    pub temp: Option<Seq<char>>,
    pub file: Option<Seq<char>>,
}

impl Disk {
    /// What they hold after `step` has been done, where `text` is the configuration as text.
    pub open spec fn after(self, step: SaveStep, text: Seq<char>) -> Disk {
        match step {
            SaveStep::WriteTemp => Disk { temp: Some(text), ..self },
            SaveStep::Rename => Disk { temp: None, file: self.temp },
            _ => self,
        }
    }

    /// What they hold, and which step comes next, after `n` steps from `step` on.
    pub open spec fn after_steps(self, step: SaveStep, n: nat, text: Seq<char>) -> (Disk, SaveStep)
        decreases n,
    {
        if n == 0 {
            (self, step)
        } else {
            let (disk, next) = self.after_steps(step, (n - 1) as nat, text);
            (disk.after(next, text), next.following())
        }
    }
}

/// A save is done whole or not at all: however far it comes, the file holds what it held before
/// until the last step, and the whole text after it; and it ends after at most four steps.
pub proof fn save_is_whole_or_nothing(disk: Disk, has_parent: bool, n: nat, text: Seq<char>)
    ensures
        ({
            let first = if has_parent {
                SaveStep::MakeDir
            } else {
                SaveStep::Encode
            };
            let (after, next) = disk.after_steps(first, n, text);
            &&& after.file == if next == SaveStep::Done {
                Some(text)
            } else {
                disk.file
            }
            &&& next == SaveStep::Rename ==> after.temp == Some(text)
            &&& n >= 4 ==> next == SaveStep::Done
            &&& next == SaveStep::Done ==> n >= 3
        }),
    decreases n,
{
    let first = if has_parent {
        SaveStep::MakeDir
    } else {
        SaveStep::Encode
    };
    reveal_with_fuel(Disk::after_steps, 5);
    if n > 4 {
        save_is_whole_or_nothing(disk, has_parent, (n - 1) as nat, text);
    }
}

/// The file itself is replaced in the last step alone: any other step leaves it as it was, and one
/// that does not fill the file beside it leaves that as it was too.
pub proof fn only_the_last_step_changes_the_file(disk: Disk, step: SaveStep, text: Seq<char>)
    ensures
        step.touched() == Some(SavePlace::File) <==> step == SaveStep::Rename,
        step.touched() != Some(SavePlace::File) ==> disk.after(step, text).file == disk.file,
        step.touched() != Some(SavePlace::File) && step.touched() != Some(SavePlace::Temp)
            ==> disk.after(step, text) == disk,
{
}

/// What a save accepts, a load of the same configuration gives back.
pub proof fn saved_configuration_loads_back(c: ConfigView, path: Seq<char>)
    requires
        c.valid(),
    ensures
        loaded(path, FoundView::Parsed(c)) == Ok::<ConfigView, LoadErrorView>(c),
{
    faultless_iff_valid(c);
}

/// Whatever is loaded is valid, so it can be saved again.
pub proof fn loaded_configuration_is_valid(path: Seq<char>, found: FoundView)
    ensures
        loaded(path, found) matches Ok(c) ==> c.valid(),
{
    if let FoundView::Parsed(c) = found {
        faultless_iff_valid(c);
    }
}


/// An address is the scheme, the loopback address, the port, and then a path that begins with a
/// slash: the path of the service where that begins with one, and else a slash and that path.
pub proof fn address_has_a_rooted_path(s: ServiceView, local_port: u16)
    ensures
        ({
            let front = s.scheme + "://127.0.0.1:"@ + text::decimal(local_port as nat);
            let url = s.url(local_port);
            let rest = url.skip(front.len() as int);
            &&& url == front + rest
            &&& rest.len() > 0
            &&& rest[0] == '/'
            &&& s.path.len() > 0 && s.path[0] == '/' ==> rest == s.path
            &&& s.path.len() == 0 || s.path[0] != '/' ==> rest == seq!['/'] + s.path
        }),
{
    reveal_strlit("/");
    let front = s.scheme + "://127.0.0.1:"@ + text::decimal(local_port as nat);
    let url = s.url(local_port);
    assert("/"@ =~= seq!['/']);
    assert(url.skip(front.len() as int) =~= s.rooted_path());
    assert(url =~= front + s.rooted_path());
}

/// Nothing is wrong with a configuration exactly where every host and every service has a name
/// that is more than white space, no two hosts share a name, no two services of a host share a
/// name, and no port is zero.
pub proof fn accepted_iff_in_order(c: ConfigView)
    ensures
        c.fault() is None <==> {
            &&& forall|i: int|
                0 <= i < c.hosts.len() ==> text::trimmed((#[trigger] c.hosts[i]).name).len() > 0
            &&& forall|i: int, k: int|
                0 <= i < k < c.hosts.len() ==> (#[trigger] c.hosts[i]).name != (
                #[trigger] c.hosts[k]).name
            &&& forall|i: int, j: int|
                0 <= i < c.hosts.len() && 0 <= j < c.hosts[i].services.len() ==> text::trimmed(
                    (#[trigger] c.hosts[i].services[j]).name,
                ).len() > 0 && c.hosts[i].services[j].port != 0
            &&& forall|i: int, j: int, k: int|
                0 <= i < c.hosts.len() && 0 <= j < k < c.hosts[i].services.len() ==> (
                #[trigger] c.hosts[i].services[j]).name != (
                #[trigger] c.hosts[i].services[k]).name
        },
        c.fault() is None <==> c.valid(),
{
    faultless_iff_valid(c);
    assert forall|s: Seq<char>| #[trigger] text::trimmed(s).len() > 0 <==> !text::blank(s) by {
        text::trimmed_is_empty_iff_blank(s);
    }
    if c.valid() {
        assert forall|i: int| 0 <= i < c.hosts.len() implies text::trimmed(
            (#[trigger] c.hosts[i]).name,
        ).len() > 0 by {
            assert(c.hosts[i].valid());
        }
        assert forall|i: int, j: int|
            0 <= i < c.hosts.len() && 0 <= j < c.hosts[i].services.len() implies text::trimmed(
            (#[trigger] c.hosts[i].services[j]).name,
        ).len() > 0 && c.hosts[i].services[j].port != 0 by {
            assert(c.hosts[i].valid());
        }
        assert forall|i: int, j: int, k: int|
            0 <= i < c.hosts.len() && 0 <= j < k < c.hosts[i].services.len() implies (
        #[trigger] c.hosts[i].services[j]).name != (#[trigger] c.hosts[i].services[k]).name by {
            assert(c.hosts[i].valid());
        }
    }
    if ({
        &&& forall|i: int|
            0 <= i < c.hosts.len() ==> text::trimmed((#[trigger] c.hosts[i]).name).len() > 0
        &&& forall|i: int, k: int|
            0 <= i < k < c.hosts.len() ==> (#[trigger] c.hosts[i]).name != (
            #[trigger] c.hosts[k]).name
        &&& forall|i: int, j: int|
            0 <= i < c.hosts.len() && 0 <= j < c.hosts[i].services.len() ==> text::trimmed(
                (#[trigger] c.hosts[i].services[j]).name,
            ).len() > 0 && c.hosts[i].services[j].port != 0
        &&& forall|i: int, j: int, k: int|
            0 <= i < c.hosts.len() && 0 <= j < k < c.hosts[i].services.len() ==> (
            #[trigger] c.hosts[i].services[j]).name != (#[trigger] c.hosts[i].services[k]).name
    }) {
        assert forall|i: int| 0 <= i < c.hosts.len() implies (#[trigger] c.hosts[i]).valid() by {
            let h = c.hosts[i];
            assert forall|j: int| #![trigger h.services[j]] 0 <= j < h.services.len() implies (
            !text::blank(h.services[j].name) && h.services[j].port != 0) by {
                assert(text::trimmed(c.hosts[i].services[j].name).len() > 0);
            }
            assert forall|j: int, k: int| 0 <= j < k < h.services.len() implies (
            #[trigger] h.services[j]).name != (#[trigger] h.services[k]).name by {
                assert(c.hosts[i].services[j].name != c.hosts[i].services[k].name);
            }
        }
    }
}

proof fn lemma_first_service_fault(h: HostView, j: int) -> (k: int)
    requires
        0 <= j <= h.services.len(),
        h.services_fault(j) is Some,
        forall|m: int| 0 <= m < j ==> #[trigger] h.service_fault(m) is None,
    ensures
        0 <= k < h.services.len(),
        h.services_fault(j) == h.service_fault(k),
        h.service_fault(k) is Some,
        forall|m: int| 0 <= m < k ==> #[trigger] h.service_fault(m) is None,
    decreases h.services.len() - j,
{
    if h.service_fault(j) is Some {
        j
    } else {
        lemma_first_service_fault(h, j + 1)
    }
}

proof fn lemma_first_host_fault(c: ConfigView, i: int) -> (k: int)
    requires
        0 <= i <= c.hosts.len(),
        c.hosts_fault(i) is Some,
        forall|m: int| 0 <= m < i ==> #[trigger] c.host_fault(m) is None,
    ensures
        0 <= k < c.hosts.len(),
        c.hosts_fault(i) == c.host_fault(k),
        c.host_fault(k) is Some,
        forall|m: int| 0 <= m < k ==> #[trigger] c.host_fault(m) is None,
    decreases c.hosts.len() - i,
{
    if c.host_fault(i) is Some {
        i
    } else {
        lemma_first_host_fault(c, i + 1)
    }
}

/// Whether `i` and `j` are where what `e` names is wrong: a host or a service without a name, one
/// whose name came before in the same place, or a service without a port that has neither fault.
pub open spec fn wrong_at(c: ConfigView, e: ConfigErrorView, i: int, j: int) -> bool {
    let h = c.hosts[i];
    let s = h.services[j];
    &&& 0 <= i < c.hosts.len()
    &&& match e {
        ConfigErrorView::HostNameEmpty => text::trimmed(h.name).len() == 0,
        ConfigErrorView::DuplicateHost { name } => {
            &&& h.name == name
            &&& text::trimmed(name).len() > 0
            &&& exists|k: int| 0 <= k < i && (#[trigger] c.hosts[k]).name == name
        },
        ConfigErrorView::ServiceNameEmpty { host } => {
            &&& 0 <= j < h.services.len()
            &&& h.name == host
            &&& text::trimmed(s.name).len() == 0
        },
        ConfigErrorView::DuplicateService { service, host } => {
            &&& 0 <= j < h.services.len()
            &&& h.name == host
            &&& s.name == service
            &&& text::trimmed(service).len() > 0
            &&& exists|k: int| 0 <= k < j && (#[trigger] h.services[k]).name == service
        },
        ConfigErrorView::InvalidPort { service } => {
            &&& 0 <= j < h.services.len()
            &&& s.name == service
            &&& s.port == 0
            &&& text::trimmed(service).len() > 0
            &&& forall|k: int| 0 <= k < j ==> (#[trigger] h.services[k]).name != service
        },
    }
}

/// Whether `e` is about a host as a whole.
pub open spec fn about_host(e: ConfigErrorView) -> bool {
    e is HostNameEmpty || e is DuplicateHost
}

/// What is reported of a configuration is truly wrong with it, and is the first thing that is:
/// nothing is wrong with the hosts before, nor, where it is about a service, with the
/// configuration that ends just before that service.
pub proof fn first_fault_is_reported(c: ConfigView)
    requires
        c.fault() is Some,
    ensures
        exists|i: int, j: int| #[trigger]
            wrong_at(c, c.fault()->0, i, j) && (ConfigView { hosts: c.hosts.take(i) }).fault()
                is None && (about_host(c.fault()->0) || (ConfigView {
                hosts: c.hosts.take(i).push(
                    HostView { services: c.hosts[i].services.take(j), ..c.hosts[i] },
                ),
            }).fault() is None),
{
    let e = c.fault()->0;
    let i = lemma_first_host_fault(c, 0);
    let h = c.hosts[i];
    let before = ConfigView { hosts: c.hosts.take(i) };
    assert forall|s: Seq<char>| #[trigger] text::trimmed(s).len() > 0 <==> !text::blank(s) by {
        text::trimmed_is_empty_iff_blank(s);
    }
    assert forall|m: int| 0 <= m < i implies #[trigger] before.host_fault(m) is None by {
        assert(c.host_fault(m) is None);
        assert(before.hosts[m] == c.hosts[m]);
        if before.host_repeats(m) {
            let k = choose|k: int|
                0 <= k < m && (#[trigger] before.hosts[k]).name == before.hosts[m].name;
            assert(c.hosts[k].name == c.hosts[m].name);
            assert(c.host_repeats(m));
        }
    }
    lemma_hosts_fault(before, 0);
    if text::blank(h.name) {
        assert(wrong_at(c, e, i, 0));
    } else if c.host_repeats(i) {
        assert(wrong_at(c, e, i, 0));
    } else {
        let j = lemma_first_service_fault(h, 0);
        assert(wrong_at(c, e, i, j)) by {
            if !text::blank(h.services[j].name) && !h.service_repeats(j) {
                assert forall|k: int| 0 <= k < j implies (#[trigger] h.services[k]).name
                    != h.services[j].name by {
                    if h.services[k].name == h.services[j].name {
                        assert(h.service_repeats(j));
                    }
                }
            }
        }
        let cut = HostView { services: h.services.take(j), ..h };
        let upto = ConfigView { hosts: c.hosts.take(i).push(cut) };
        assert forall|m: int| 0 <= m < j implies #[trigger] cut.service_fault(m) is None by {
            assert(h.service_fault(m) is None);
            assert(cut.services[m] == h.services[m]);
            if cut.service_repeats(m) {
                let k = choose|k: int|
                    0 <= k < m && (#[trigger] cut.services[k]).name == cut.services[m].name;
                assert(h.services[k].name == h.services[m].name);
                assert(h.service_repeats(m));
            }
        }
        lemma_services_fault(cut, 0);
        assert forall|m: int| 0 <= m < upto.hosts.len() implies #[trigger] upto.host_fault(
            m,
        ) is None by {
            if m < i {
                assert(c.host_fault(m) is None);
                assert(upto.hosts[m] == c.hosts[m]);
            } else {
                assert(upto.hosts[m] == cut);
            }
            if upto.host_repeats(m) {
                let k = choose|k: int|
                    0 <= k < m && (#[trigger] upto.hosts[k]).name == upto.hosts[m].name;
                assert(c.hosts[k].name == c.hosts[m].name);
                assert(c.host_repeats(m));
            }
        }
        lemma_hosts_fault(upto, 0);
    }
}

/// Each error says what is wrong and where.
pub proof fn errors_say_what_is_wrong(name: Seq<char>, host: Seq<char>)
    ensures
        ConfigErrorView::HostNameEmpty.message() == "host name empty"@,
        (ConfigErrorView::DuplicateHost { name }).message() == "duplicate host name: "@ + name,
        (ConfigErrorView::ServiceNameEmpty { host }).message() == "service name empty in host "@
            + host,
        (ConfigErrorView::DuplicateService { service: name, host }).message()
            == "duplicate service '"@ + name + "' in host "@ + host,
        (ConfigErrorView::InvalidPort { service: name }).message()
            == "invalid port for service '"@ + name + "'"@,
{
}

/// Where there is no file the configuration is empty; a file that cannot be read or is no
/// configuration is told by its path; and what a file holds is taken as it is where nothing is
/// wrong with it, and refused for what is wrong with it otherwise.
pub proof fn loading_takes_only_what_is_in_order(path: Seq<char>, c: ConfigView)
    ensures
        loaded(path, FoundView::Missing) matches Ok(d) && d.hosts.len() == 0,
        loaded(path, FoundView::Unreadable) matches Err(e) && e.message() == "read "@ + path,
        loaded(path, FoundView::Unparsable) matches Err(e) && e.message() == "parse "@ + path,
        match c.fault() {
            None => loaded(path, FoundView::Parsed(c)) matches Ok(d) && d == c,
            Some(f) => loaded(path, FoundView::Parsed(c)) matches Err(e) && e.message()
                == f.message(),
        },
{
}

/// What is found by name is the first of that name, among hosts as among the services of a host,
/// and nothing is found only where there is none; what is looked up is the service that is found
/// on the host that is found.
pub proof fn looked_up_is_the_first_of_its_name(
    c: ConfigView,
    h: HostView,
    host: Seq<char>,
    svc: Seq<char>,
)
    ensures
        match c.find_host(host) {
            Some(i) => {
                &&& 0 <= i < c.hosts.len()
                &&& c.hosts[i].name == host
                &&& forall|j: int| 0 <= j < i ==> (#[trigger] c.hosts[j]).name != host
            },
            None => forall|j: int| 0 <= j < c.hosts.len() ==> (#[trigger] c.hosts[j]).name != host,
        },
        match h.find_service(svc) {
            Some(i) => {
                &&& 0 <= i < h.services.len()
                &&& h.services[i].name == svc
                &&& forall|j: int| 0 <= j < i ==> (#[trigger] h.services[j]).name != svc
            },
            None => forall|j: int|
                0 <= j < h.services.len() ==> (#[trigger] h.services[j]).name != svc,
        },
        match c.lookup(host, svc) {
            Some(p) => {
                &&& c.find_host(host) is Some
                &&& p.0 == c.hosts[c.find_host(host)->0]
                &&& p.0.find_service(svc) is Some
                &&& p.1 == p.0.services[p.0.find_service(svc)->0]
            },
            None => c.find_host(host) is None || c.hosts[c.find_host(host)->0].find_service(
                svc,
            ) is None,
        },
{
    let p = host_named(host);
    let q = service_named(svc);
    seqs::lemma_find(c.hosts, p);
    seqs::lemma_find(h.services, q);
    let n = match c.find_host(host) {
        Some(i) => i,
        None => c.hosts.len() as int,
    };
    assert forall|j: int| 0 <= j < n implies (#[trigger] c.hosts[j]).name != host by {
        assert(!p(c.hosts[j]));
    }
    let m = match h.find_service(svc) {
        Some(i) => i,
        None => h.services.len() as int,
    };
    assert forall|j: int| 0 <= j < m implies (#[trigger] h.services[j]).name != svc by {
        assert(!q(h.services[j]));
    }
}

/// A step of a save that fails says what could not be done, and where.
pub proof fn failed_steps_name_their_place(place: Seq<char>)
    ensures
        SaveStep::MakeDir.failure_text(place) == "mkdir "@ + place,
        SaveStep::Encode.failure_text(place) == "serialize config"@,
        SaveStep::WriteTemp.failure_text(place) == "write "@ + place,
        SaveStep::Rename.failure_text(place) == "rename to "@ + place,
        SaveStep::Done.failure_text(place).len() == 0,
{
}

} // verus!
