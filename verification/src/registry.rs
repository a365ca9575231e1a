//! The mathematical model of a host registry: an ordered sequence of records,
//! looked up by a linear scan and deduplicated by merging neighbours that
//! carry the same hardware address.

use vstd::prelude::*;

verus! {

/// What a registry entry says, with its texts as character sequences. `Ip` is
/// whatever the registry uses as its network address; the model only ever
/// compares it.
pub ghost struct HostRecord<Ip> {
    pub nickname: Option<Seq<char>>,
    pub ip: Ip,
    pub mac: Seq<char>,
}

/// Two records describe the same host exactly when their hardware addresses
/// agree; nickname and network address play no part.
pub open spec fn same_host<Ip>(a: HostRecord<Ip>, b: HostRecord<Ip>) -> bool {
    a.mac == b.mac
}

/// The record that survives when `kept` meets a duplicate `dropped`: it is
/// `kept`, which takes over the nickname of `dropped` only if it has none.
pub open spec fn absorb<Ip>(kept: HostRecord<Ip>, dropped: HostRecord<Ip>) -> HostRecord<Ip> {
    if kept.nickname is None {
        HostRecord { nickname: dropped.nickname, ip: kept.ip, mac: kept.mac }
    } else {
        kept
    }
}

/// One step of deduplication: `next` either merges into the last survivor or
/// becomes a survivor itself.
pub open spec fn dedup_step<Ip>(survivors: Seq<HostRecord<Ip>>, next: HostRecord<Ip>) -> Seq<
    HostRecord<Ip>,
> {
    if survivors.len() > 0 && same_host(survivors.last(), next) {
        survivors.drop_last().push(absorb(survivors.last(), next))
    } else {
        survivors.push(next)
    }
}

/// Deduplication of a registry: reading from the front, every run of
/// neighbouring records of the same host collapses into its first record,
/// which inherits the first nickname found in the run if it has none. Records
/// of the same host that are apart are left alone.
pub open spec fn dedup<Ip>(hosts: Seq<HostRecord<Ip>>) -> Seq<HostRecord<Ip>>
    decreases hosts.len(),
{
    if hosts.len() == 0 {
        hosts
    } else {
        dedup_step(dedup(hosts.drop_last()), hosts.last())
    }
}

/// No two neighbours in `hosts` are the same host.
pub open spec fn is_deduped<Ip>(hosts: Seq<HostRecord<Ip>>) -> bool {
    forall|i: int| 0 <= i && i + 1 < hosts.len() ==> !same_host(#[trigger] hosts[i], hosts[i + 1])
}

/// `i` is the place of the first record in `hosts` whose network address is `ip`.
pub open spec fn is_first_with_ip<Ip>(hosts: Seq<HostRecord<Ip>>, ip: Ip, i: int) -> bool {
    &&& 0 <= i < hosts.len()
    &&& hosts[i].ip == ip
    &&& forall|j: int| 0 <= j < i ==> (#[trigger] hosts[j]).ip != ip
}

/// `i` is the place of the first record in `hosts` that has a nickname and
/// whose nickname is exactly `name`.
pub open spec fn is_first_with_nickname<Ip>(
    hosts: Seq<HostRecord<Ip>>,
    name: Seq<char>,
    i: int,
) -> bool {
    &&& 0 <= i < hosts.len()
    &&& hosts[i].nickname == Some(name)
    &&& forall|j: int| 0 <= j < i ==> (#[trigger] hosts[j]).nickname != Some(name)
}

/// Some record in `hosts` has the network address `ip`.
pub open spec fn has_ip<Ip>(hosts: Seq<HostRecord<Ip>>, ip: Ip) -> bool {
    exists|i: int| 0 <= i < hosts.len() && (#[trigger] hosts[i]).ip == ip
}

/// Some record in `hosts` has the nickname `name`.
pub open spec fn has_nickname<Ip>(hosts: Seq<HostRecord<Ip>>, name: Seq<char>) -> bool {
    exists|i: int| 0 <= i < hosts.len() && (#[trigger] hosts[i]).nickname == Some(name)
}

/// Deduplication never ends on another host than the registry did, and never
/// makes a registry longer or empties one that held a record.
pub proof fn lemma_dedup_last<Ip>(hosts: Seq<HostRecord<Ip>>)
    ensures
        dedup(hosts).len() <= hosts.len(),
        hosts.len() > 0 ==> dedup(hosts).len() > 0 && same_host(dedup(hosts).last(), hosts.last()),
    decreases hosts.len(),
{
    if hosts.len() > 0 {
        lemma_dedup_last(hosts.drop_last());
    }
}

/// After deduplication no two neighbours are the same host.
pub proof fn lemma_dedup_is_deduped<Ip>(hosts: Seq<HostRecord<Ip>>)
    ensures
        is_deduped(dedup(hosts)),
    decreases hosts.len(),
{
    if hosts.len() > 0 {
        lemma_dedup_is_deduped(hosts.drop_last());
    }
}

/// Deduplication leaves a registry as it is when no two neighbours are the
/// same host, however often a host occurs in it.
pub proof fn lemma_dedup_keeps_distant_duplicates<Ip>(hosts: Seq<HostRecord<Ip>>)
    requires
        is_deduped(hosts),
    ensures
        dedup(hosts) == hosts,
    decreases hosts.len(),
{
    if hosts.len() > 0 {
        let front = hosts.drop_last();
        lemma_dedup_keeps_distant_duplicates(front);
        if front.len() > 0 {
            assert(!same_host(hosts[front.len() - 1], hosts[front.len() - 1 + 1]));
        }
        assert(front.push(hosts.last()) =~= hosts);
    }
}

/// Two neighbours that are the same host collapse into the first of them,
/// which keeps its own nickname if it has one and takes the other's if not.
pub proof fn lemma_dedup_merges_neighbours<Ip>(kept: HostRecord<Ip>, dropped: HostRecord<Ip>)
    requires
        same_host(kept, dropped),
    ensures
        dedup(seq![kept, dropped]) == seq![absorb(kept, dropped)],
{
    let pair = seq![kept, dropped];
    assert(pair.drop_last() =~= seq![kept]);
    assert(seq![kept].drop_last() =~= Seq::<HostRecord<Ip>>::empty());
    assert(dedup(seq![kept]) =~= seq![kept]) by {
        reveal_with_fuel(dedup, 2);
    }
    assert(dedup(pair) =~= seq![absorb(kept, dropped)]);
}

/// All records in `hosts` are the same host.
pub open spec fn is_run<Ip>(hosts: Seq<HostRecord<Ip>>) -> bool {
    forall|i: int| 0 <= i < hosts.len() ==> same_host(hosts[0], #[trigger] hosts[i])
}

/// The nickname of the first record in `hosts` that has one.
pub open spec fn first_nickname<Ip>(hosts: Seq<HostRecord<Ip>>) -> Option<Seq<char>>
    decreases hosts.len(),
{
    if hosts.len() == 0 {
        None
    } else if first_nickname(hosts.drop_last()) is Some {
        first_nickname(hosts.drop_last())
    } else {
        hosts.last().nickname
    }
}

/// The first record of `hosts`, under the first nickname that `hosts` holds.
pub open spec fn run_survivor<Ip>(hosts: Seq<HostRecord<Ip>>) -> HostRecord<Ip> {
    HostRecord { nickname: first_nickname(hosts), ip: hosts[0].ip, mac: hosts[0].mac }
}

/// A run collapses into one record: its first, under the first nickname that
/// the run holds.
pub proof fn lemma_dedup_collapses_run<Ip>(hosts: Seq<HostRecord<Ip>>)
    requires
        hosts.len() > 0,
        is_run(hosts),
    ensures
        dedup(hosts) == seq![run_survivor(hosts)],
    decreases hosts.len(),
{
    let front = hosts.drop_last();
    if front.len() == 0 {
        assert(dedup(front) =~= Seq::<HostRecord<Ip>>::empty());
        assert(first_nickname(front) is None);
    } else {
        assert(is_run(front)) by {
            assert forall|i: int| 0 <= i < front.len() implies same_host(
                front[0],
                #[trigger] front[i],
            ) by {
                assert(same_host(hosts[0], hosts[i]));
            }
        }
        lemma_dedup_collapses_run(front);
        assert(same_host(hosts[0], hosts[hosts.len() - 1]));
    }
    assert(dedup(hosts) =~= seq![run_survivor(hosts)]);
}

/// Where one host ends and another begins, deduplication works on either
/// side by itself.
pub proof fn lemma_dedup_splits_between_hosts<Ip>(
    front: Seq<HostRecord<Ip>>,
    back: Seq<HostRecord<Ip>>,
)
    requires
        front.len() > 0 && back.len() > 0 ==> !same_host(front.last(), back.first()),
    ensures
        dedup(front + back) == dedup(front) + dedup(back),
    decreases back.len(),
{
    if back.len() == 0 {
        assert(front + back =~= front);
        assert(dedup(front) + dedup(back) =~= dedup(front));
    } else {
        let rest = back.drop_last();
        assert((front + back).drop_last() =~= front + rest);
        if rest.len() > 0 {
            assert(rest.first() == back.first());
        }
        lemma_dedup_splits_between_hosts(front, rest);
        lemma_dedup_last(front);
        lemma_dedup_last(rest);
        assert(dedup(front + back) =~= dedup(front) + dedup(back));
    }
}

/// Deduplicating twice gives what deduplicating once gives.
pub proof fn lemma_dedup_idempotent<Ip>(hosts: Seq<HostRecord<Ip>>)
    ensures
        dedup(dedup(hosts)) == dedup(hosts),
{
    lemma_dedup_is_deduped(hosts);
    lemma_dedup_keeps_distant_duplicates(dedup(hosts));
}

} // verus!
