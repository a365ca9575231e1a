//! A registry whose hosts carry a typed network address, and the place where
//! such a registry is kept on disk.

use crate::configurations::ConfigurationsError;
use crate::registry::{
    absorb, dedup, dedup_step, has_ip, has_nickname, is_deduped, is_first_with_ip,
    is_first_with_nickname, lemma_dedup_is_deduped, lemma_dedup_last, HostRecord,
};
use crate::text::{same_text, text_view};
use vstd::prelude::*;

verus! {

/// A network address, held as the number that its octets spell in network
/// order. The registry only ever compares addresses.
#[derive(Debug, Clone, Copy, PartialEq, Eq, Structural)]
pub enum IpAddress {
    /// An IPv4 address.
    V4(u32),
    /// An IPv6 address.
    V6(u128),
}

/// One registry entry: a hardware address, the network address it was
/// registered with, and an optional nickname to call it by.
#[derive(Debug)]
pub struct HostConfig {
    pub nickname: Option<String>,
    pub ip: IpAddress,
    pub mac: String,
}

impl View for HostConfig {
    type V = HostRecord<IpAddress>;

    open spec fn view(&self) -> HostRecord<IpAddress> {
        HostRecord { nickname: text_view(self.nickname), ip: self.ip, mac: self.mac@ }
    }
}

impl Clone for HostConfig {
    fn clone(&self) -> (r: HostConfig)
        ensures
            r == *self,
    {
        let nickname = match &self.nickname {
            Some(name) => Some(name.clone()),
            None => None,
        };
        HostConfig { nickname, ip: self.ip, mac: self.mac.clone() }
    }
}

impl HostConfig {
    /// The entry that is left when this one meets `dropped`, which names the
    /// same host: this one, under the nickname of `dropped` if it has none.
    fn absorb(self, dropped: HostConfig) -> (r: HostConfig)
        ensures
            r@ == absorb(self@, dropped@),
    {
        if self.nickname.is_none() {
            HostConfig { nickname: dropped.nickname, ip: self.ip, mac: self.mac }
        } else {
            self
        }
    }
}

impl PartialEq for HostConfig {
    /// Two entries are equal when they name the same hardware address.
    fn eq(&self, other: &HostConfig) -> (r: bool) {
        self.mac == other.mac
    }
}

impl vstd::std_specs::cmp::PartialEqSpecImpl for HostConfig {
    open spec fn obeys_eq_spec() -> bool {
        true
    }

    open spec fn eq_spec(&self, other: &HostConfig) -> bool {
        self.mac@ == other.mac@
    }
}

/// The registry: hosts in the order in which they were added.
#[derive(Debug)]
pub struct Config {
    pub hosts: Vec<HostConfig>,
}

/// What a sequence of entries says, entry by entry.
pub open spec fn records(hosts: Seq<HostConfig>) -> Seq<HostRecord<IpAddress>> {
    hosts.map_values(|h: HostConfig| h@)
}

impl View for Config {
    type V = Seq<HostRecord<IpAddress>>;

    open spec fn view(&self) -> Seq<HostRecord<IpAddress>> {
        records(self.hosts@)
    }
}

impl Clone for Config {
    fn clone(&self) -> (r: Config)
        ensures
            r.hosts@ == self.hosts@,
    {
        let hosts = self.hosts.clone();
        assert(hosts@ =~= self.hosts@);
        Config { hosts }
    }
}

impl PartialEq for Config {
    /// Two registries are equal when they hold the same hosts in the same order.
    fn eq(&self, other: &Config) -> (r: bool) {
        self.hosts == other.hosts
    }
}

impl vstd::std_specs::cmp::PartialEqSpecImpl for Config {
    open spec fn obeys_eq_spec() -> bool {
        true
    }

    open spec fn eq_spec(&self, other: &Config) -> bool {
        &&& self.hosts@.len() == other.hosts@.len()
        &&& forall|i: int|
            0 <= i < self.hosts@.len() ==> (#[trigger] self.hosts@[i]).mac@ == other.hosts@[i].mac@
    }
}

impl Default for Config {
    /// The empty registry.
    fn default() -> (r: Config)
        ensures
            r@ == Seq::<HostRecord<IpAddress>>::empty(),
    {
        let r = Config { hosts: Vec::new() };
        assert(r@ =~= Seq::<HostRecord<IpAddress>>::empty());
        r
    }
}

impl Config {
    /// The registry file of the user whose home directory is `home`.
    pub fn path(home: &str) -> (r: String)
        ensures
            r@ == home@ + "/.wol-rs.toml"@,
    {
        let mut r = home.to_owned();
        r.append("/.wol-rs.toml");
        r
    }

    /// Finds the first host registered with the network address `ip`.
    pub fn get_host_by_ip(&self, ip: IpAddress) -> (r: Result<&HostConfig, ConfigurationsError>)
        ensures
            match r {
                Ok(host) => exists|i: int|
                    #[trigger] is_first_with_ip(self@, ip, i) && *host == self.hosts@[i],
                Err(e) => e == ConfigurationsError::HostNotFound && !has_ip(self@, ip),
            },
    {
        let mut i: usize = 0;
        while i < self.hosts.len()
            invariant
                i <= self.hosts@.len(),
                forall|j: int| 0 <= j < i ==> (#[trigger] self@[j]).ip != ip,
            decreases self.hosts@.len() - i,
        {
            if self.hosts[i].ip == ip {
                assert(is_first_with_ip(self@, ip, i as int));
                return Ok(&self.hosts[i]);
            }
            i += 1;
        }
        Err(ConfigurationsError::HostNotFound)
    }

    /// Finds the first host that has a nickname and whose nickname is `nickname`,
    /// character for character.
    pub fn get_host_by_nickname(&self, nickname: &str) -> (r: Result<
        &HostConfig,
        ConfigurationsError,
    >)
        ensures
            match r {
                Ok(host) => exists|i: int|
                    #[trigger] is_first_with_nickname(self@, nickname@, i) && *host
                        == self.hosts@[i],
                Err(e) => e == ConfigurationsError::HostNotFound && !has_nickname(
                    self@,
                    nickname@,
                ),
            },
            self@.len() == 0 ==> r == Err::<&HostConfig, _>(ConfigurationsError::HostNotFound),
    {
        let mut i: usize = 0;
        while i < self.hosts.len()
            invariant
                i <= self.hosts@.len(),
                forall|j: int| 0 <= j < i ==> (#[trigger] self@[j]).nickname != Some(nickname@),
            decreases self.hosts@.len() - i,
        {
            let found = match &self.hosts[i].nickname {
                Some(name) => same_text(name.as_str(), nickname),
                None => false,
            };
            if found {
                assert(is_first_with_nickname(self@, nickname@, i as int));
                return Ok(&self.hosts[i]);
            }
            i += 1;
        }
        Err(ConfigurationsError::HostNotFound)
    }

    /// Appends `hosts` to the registry, in their order. Nothing is merged here.
    pub fn add_hosts(&mut self, hosts: Vec<HostConfig>)
        ensures
            final(self).hosts@ == old(self).hosts@ + hosts@,
            final(self)@ == old(self)@ + records(hosts@),
    {
        let ghost added = hosts@;
        let mut hosts = hosts;
        self.hosts.append(&mut hosts);
        assert(self@ =~= old(self)@ + records(added));
    }

    /// Collapses every run of neighbouring entries with the same hardware
    /// address into the first entry of the run. Where that entry has no
    /// nickname it takes the first one found in the run.
    pub fn dedup_hosts(&mut self)
        ensures
            final(self)@ == dedup(old(self)@),
            is_deduped(final(self)@),
            final(self)@.len() <= old(self)@.len(),
    {
        let mut pending: Vec<HostConfig> = Vec::new();
        core::mem::swap(&mut self.hosts, &mut pending);
        let ghost before = records(pending@);
        let mut survivors: Vec<HostConfig> = Vec::new();
        for host in it: pending.into_iter()
            invariant
                records(it.seq()) == before,
                records(survivors@) == dedup(before.take(it.index() as int)),
        {
            let ghost seen = before.take(it.index() as int);
            let ghost merged = records(survivors@);
            proof {
                assert(before.take(it.index() + 1).drop_last() =~= seen);
            }
            match survivors.pop() {
                Some(last) => {
                    if last == host {
                        survivors.push(last.absorb(host));
                    } else {
                        survivors.push(last);
                        survivors.push(host);
                    }
                },
                None => {
                    survivors.push(host);
                },
            }
            assert(records(survivors@) =~= dedup_step(merged, host@));
        }
        proof {
            assert(before.take(before.len() as int) =~= before);
            lemma_dedup_is_deduped(before);
            lemma_dedup_last(before);
        }
        self.hosts = survivors;
    }
}

} // verus!
