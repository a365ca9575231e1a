//! A registry whose hosts carry their network address as free text.

use crate::registry::{
    absorb, dedup, dedup_step, has_ip, has_nickname, is_deduped, is_first_with_ip,
    is_first_with_nickname, lemma_dedup_is_deduped, lemma_dedup_last, HostRecord,
};
use crate::text::{same_text, text_view};
use vstd::prelude::*;

verus! {

/// One registry entry: a hardware address, the network address it was
/// registered with, and an optional nickname to call it by.
#[derive(Debug)]
pub struct Host {
    pub nickname: Option<String>,
    pub ip: String,
    pub mac: String,
}

impl View for Host {
    type V = HostRecord<Seq<char>>;

    open spec fn view(&self) -> HostRecord<Seq<char>> {
        HostRecord { nickname: text_view(self.nickname), ip: self.ip@, mac: self.mac@ }
    }
}

impl Clone for Host {
    fn clone(&self) -> (r: Host)
        ensures
            r == *self,
    {
        let nickname = match &self.nickname {
            Some(name) => Some(name.clone()),
            None => None,
        };
        Host { nickname, ip: self.ip.clone(), mac: self.mac.clone() }
    }
}

impl Host {
    /// The entry that is left when this one meets `dropped`, which names the
    /// same host: this one, under the nickname of `dropped` if it has none.
    fn absorb(self, dropped: Host) -> (r: Host)
        ensures
            r@ == absorb(self@, dropped@),
    {
        if self.nickname.is_none() {
            Host { nickname: dropped.nickname, ip: self.ip, mac: self.mac }
        } else {
            self
        }
    }
}

impl PartialEq for Host {
    /// Two entries are equal when they name the same hardware address.
    fn eq(&self, other: &Host) -> (r: bool) {
        self.mac == other.mac
    }
}

impl vstd::std_specs::cmp::PartialEqSpecImpl for Host {
    open spec fn obeys_eq_spec() -> bool {
        true
    }

    open spec fn eq_spec(&self, other: &Host) -> bool {
        self.mac@ == other.mac@
    }
}

/// Why a registry operation failed.
#[derive(Debug, Clone, Copy, PartialEq, Eq, Structural)]
pub enum ConfigurationsError {
    /// No entry of the registry matches what was looked for.
    HostNotFound,
}

/// The registry: hosts in the order in which they were added.
#[derive(Debug)]
pub struct Configurations {
    pub hosts: Vec<Host>,
}

/// What a sequence of entries says, entry by entry.
pub open spec fn records(hosts: Seq<Host>) -> Seq<HostRecord<Seq<char>>> {
    hosts.map_values(|h: Host| h@)
}

impl View for Configurations {
    type V = Seq<HostRecord<Seq<char>>>;

    open spec fn view(&self) -> Seq<HostRecord<Seq<char>>> {
        records(self.hosts@)
    }
}

impl Default for Configurations {
    /// The empty registry.
    fn default() -> (r: Configurations)
        ensures
            r@ == Seq::<HostRecord<Seq<char>>>::empty(),
    {
        let r = Configurations { hosts: Vec::new() };
        assert(r@ =~= Seq::<HostRecord<Seq<char>>>::empty());
        r
    }
}

impl Configurations {
    /// The registry file of the user whose home directory is `home`.
    pub fn path(home: &str) -> (r: String)
        ensures
            r@ == home@ + "/.wol-rs.toml"@,
    {
        let mut r = home.to_owned();
        r.append("/.wol-rs.toml");
        r
    }

    /// Finds the first host registered with the network address `ip`.
    pub fn get_host_by_ip(&self, ip: &str) -> (r: Result<&Host, ConfigurationsError>)
        ensures
            match r {
                Ok(host) => exists|i: int|
                    #[trigger] is_first_with_ip(self@, ip@, i) && *host == self.hosts@[i],
                Err(e) => e == ConfigurationsError::HostNotFound && !has_ip(self@, ip@),
            },
    {
        let mut i: usize = 0;
        while i < self.hosts.len()
            invariant
                i <= self.hosts@.len(),
                forall|j: int| 0 <= j < i ==> (#[trigger] self@[j]).ip != ip@,
            decreases self.hosts@.len() - i,
        {
            if same_text(self.hosts[i].ip.as_str(), ip) {
                assert(is_first_with_ip(self@, ip@, i as int));
                return Ok(&self.hosts[i]);
            }
            i += 1;
        }
        Err(ConfigurationsError::HostNotFound)
    }

    /// Finds the first host that has a nickname and whose nickname is `nickname`,
    /// character for character.
    pub fn get_host_by_nickname(&self, nickname: String) -> (r: Result<&Host, ConfigurationsError>)
        ensures
            match r {
                Ok(host) => exists|i: int|
                    #[trigger] is_first_with_nickname(self@, nickname@, i) && *host
                        == self.hosts@[i],
                Err(e) => e == ConfigurationsError::HostNotFound && !has_nickname(
                    self@,
                    nickname@,
                ),
            },
            self@.len() == 0 ==> r == Err::<&Host, _>(ConfigurationsError::HostNotFound),
    {
        let mut i: usize = 0;
        while i < self.hosts.len()
            invariant
                i <= self.hosts@.len(),
                forall|j: int| 0 <= j < i ==> (#[trigger] self@[j]).nickname != Some(nickname@),
            decreases self.hosts@.len() - i,
        {
            let found = match &self.hosts[i].nickname {
                Some(name) => *name == nickname,
                None => false,
            };
            if found {
                assert(is_first_with_nickname(self@, nickname@, i as int));
                return Ok(&self.hosts[i]);
            }
            i += 1;
        }
        Err(ConfigurationsError::HostNotFound)
    }

    /// Appends `hosts` to the registry, in their order. Nothing is merged here.
    pub fn add_hosts(&mut self, hosts: Vec<Host>)
        ensures
            final(self).hosts@ == old(self).hosts@ + hosts@,
            final(self)@ == old(self)@ + records(hosts@),
    {
        let ghost added = hosts@;
        let mut hosts = hosts;
        self.hosts.append(&mut hosts);
        assert(self@ =~= old(self)@ + records(added));
    }

    /// Collapses every run of neighbouring entries with the same hardware
    /// address into the first entry of the run. Where that entry has no
    /// nickname it takes the first one found in the run.
    pub fn dedup_hosts(&mut self)
        ensures
            final(self)@ == dedup(old(self)@),
            is_deduped(final(self)@),
            final(self)@.len() <= old(self)@.len(),
    {
        let mut pending: Vec<Host> = Vec::new();
        core::mem::swap(&mut self.hosts, &mut pending);
        let ghost before = records(pending@);
        let mut survivors: Vec<Host> = Vec::new();
        for host in it: pending.into_iter()
            invariant
                records(it.seq()) == before,
                records(survivors@) == dedup(before.take(it.index() as int)),
        {
            let ghost seen = before.take(it.index() as int);
            let ghost merged = records(survivors@);
            proof {
                assert(before.take(it.index() + 1).drop_last() =~= seen);
            }
            match survivors.pop() {
                Some(last) => {
                    if last == host {
                        survivors.push(last.absorb(host));
                    } else {
                        survivors.push(last);
                        survivors.push(host);
                    }
                },
                None => {
                    survivors.push(host);
                },
            }
            assert(records(survivors@) =~= dedup_step(merged, host@));
        }
        proof {
            assert(before.take(before.len() as int) =~= before);
            lemma_dedup_is_deduped(before);
            lemma_dedup_last(before);
        }
        self.hosts = survivors;
    }
}

} // verus!
