//! Resolve-and-pin for the sandbox's name lookups: what a store's lookups
//! resolved, kept in both directions so a connect to an IP can recover the
//! name the guest dialed.
use vstd::prelude::*;
use vstd::slice::slice_to_vec;
use crate::assoc::{assoc_map, has_key, keys_distinct, lemma_assoc_entry, lemma_assoc_push,
    lemma_assoc_remove, lemma_assoc_update};
use crate::netaddr::{canonical, IpAddress};
use crate::text::str_eq;

verus! {

broadcast use vstd::seq_lib::group_seq_properties;

/// What this store's lookups pinned: `name -> IPs` and `IP -> name`.
///
/// Names are stored as given (callers lowercase them first) and IPs as given
/// (callers canonicalise them first). Re-resolving a name replaces its entry
/// wholesale, unpinning the IPs it no longer maps to; when two names share an
/// IP, the most recent resolution owns the `IP -> name` side.
pub struct PinState {
    by_name: Vec<(String, Vec<IpAddress>)>,
    by_ip: Vec<(IpAddress, String)>,
}

/// The reverse pins after `name` resolved to `ips`, given the pins and the
/// forward entries before: every IP of `ips` now names `name`; an IP the old
/// resolution of `name` mapped, and whose reverse pin still named `name`, is
/// unpinned; every other pin stays.
pub open spec fn recorded_pins(
    pins: Map<IpAddress, Seq<char>>,
    names: Map<Seq<char>, Seq<IpAddress>>,
    name: Seq<char>,
    ips: Seq<IpAddress>,
) -> Map<IpAddress, Seq<char>> {
    Map::new(
        |ip: IpAddress|
            ips.contains(ip) || (pins.dom().contains(ip) && !(names.dom().contains(name)
                && names[name].contains(ip) && pins[ip] == name)),
        |ip: IpAddress|
            if ips.contains(ip) {
                name
            } else {
                pins[ip]
            },
    )
}

spec fn name_entries_of(v: Seq<(String, Vec<IpAddress>)>) -> Seq<(Seq<char>, Seq<IpAddress>)> {
    v.map_values(|e: (String, Vec<IpAddress>)| (e.0@, e.1@))
}

spec fn ip_entries_of(v: Seq<(IpAddress, String)>) -> Seq<(IpAddress, Seq<char>)> {
    v.map_values(|e: (IpAddress, String)| (e.0, e.1@))
}

/// Every reverse pin names a name whose forward entry lists that IP: no
/// stale pin survives a re-resolution.
pub open spec fn pins_consistent(
    pins: Map<IpAddress, Seq<char>>,
    names: Map<Seq<char>, Seq<IpAddress>>,
) -> bool {
    forall|ip: IpAddress|
        #[trigger] pins.dom().contains(ip) ==> names.dom().contains(pins[ip]) && names[pins[
            ip
        ]].contains(ip)
}

impl PinState {
    /// The forward side: each pinned name and the IPs it last resolved to.
    pub closed spec fn names(self) -> Map<Seq<char>, Seq<IpAddress>> {
        assoc_map(name_entries_of(self.by_name@))
    }

    /// The reverse side: each pinned IP and the name that owns it.
    pub closed spec fn pins(self) -> Map<IpAddress, Seq<char>> {
        assoc_map(ip_entries_of(self.by_ip@))
    }

    /// Well-formedness: both sides are maps, and every reverse pin agrees
    /// with its name's forward entry.
    pub closed spec fn wf(self) -> bool {
        &&& keys_distinct(name_entries_of(self.by_name@))
        &&& keys_distinct(ip_entries_of(self.by_ip@))
        &&& pins_consistent(self.pins(), self.names())
    }

    /// A well-formed state's pins are consistent with its names.
    pub proof fn lemma_wf_consistent(self)
        requires
            self.wf(),
        ensures
            pins_consistent(self.pins(), self.names()),
    {
    }

    /// No pins at all.
    pub fn new() -> (p: PinState)
        ensures
            p.wf(),
            p.names() == Map::<Seq<char>, Seq<IpAddress>>::empty(),
            p.pins() == Map::<IpAddress, Seq<char>>::empty(),
    {
        let p = PinState { by_name: Vec::new(), by_ip: Vec::new() };
        assert(p.names() =~= Map::<Seq<char>, Seq<IpAddress>>::empty());
        assert(p.pins() =~= Map::<IpAddress, Seq<char>>::empty());
        p
    }

    fn find_name(&self, name: &str) -> (r: Option<usize>)
        ensures
            match r {
                Some(i) => i < self.by_name@.len() && self.by_name@[i as int].0@ == name@,
                None => !has_key(name_entries_of(self.by_name@), name@),
            },
    {
        let mut i: usize = 0;
        while i < self.by_name.len()
            invariant
                i <= self.by_name@.len(),
                forall|k: int| 0 <= k < i ==> self.by_name@[k].0@ != name@,
            decreases self.by_name@.len() - i,
        {
            if str_eq(self.by_name[i].0.as_str(), name) {
                return Some(i);
            }
            i = i + 1;
        }
        let ghost s = name_entries_of(self.by_name@);
        assert forall|k: int| 0 <= k < s.len() implies #[trigger] s[k].0 != name@ by {
            assert(s[k].0 == self.by_name@[k].0@);
        }
        None
    }

    fn find_ip(&self, ip: IpAddress) -> (r: Option<usize>)
        ensures
            match r {
                Some(i) => i < self.by_ip@.len() && self.by_ip@[i as int].0 == ip,
                None => !has_key(ip_entries_of(self.by_ip@), ip),
            },
    {
        let mut i: usize = 0;
        while i < self.by_ip.len()
            invariant
                i <= self.by_ip@.len(),
                forall|k: int| 0 <= k < i ==> self.by_ip@[k].0 != ip,
            decreases self.by_ip@.len() - i,
        {
            if self.by_ip[i].0 == ip {
                return Some(i);
            }
            i = i + 1;
        }
        let ghost s = ip_entries_of(self.by_ip@);
        assert forall|k: int| 0 <= k < s.len() implies #[trigger] s[k].0 != ip by {
            assert(s[k].0 == self.by_ip@[k].0);
        }
        None
    }

    /// Records one completed resolution of `name` (already lowercased) to
    /// `ips` (already canonicalised), replacing any earlier resolution of
    /// `name`.
    pub fn record(&mut self, name: &str, ips: &[IpAddress])
        requires
            old(self).wf(),
        ensures
            final(self).wf(),
            final(self).names() == old(self).names().insert(name@, ips@),
            final(self).pins() == recorded_pins(old(self).pins(), old(self).names(), name@, ips@),
    {
        let ghost pins0 = self.pins();
        let ghost names0 = self.names();
        let ghost mut old_ips: Seq<IpAddress> = Seq::empty();
        let found = self.find_name(name);
        let ghost found_any = found is Some;
        // Forward side: drop the old entry, unpinning what still points here.
        match found {
            Some(i) => {
                proof {
                    lemma_assoc_entry(name_entries_of(self.by_name@), i as int);
                    lemma_assoc_remove(name_entries_of(self.by_name@), i as int);
                    assert(name_entries_of(self.by_name@).remove(i as int) =~= name_entries_of(
                        self.by_name@.remove(i as int),
                    ));
                }
                let (_, olds) = self.by_name.remove(i);
                proof {
                    old_ips = olds@;
                }
                let mut k: usize = 0;
                while k < olds.len()
                    invariant
                        k <= olds@.len(),
                        old_ips == olds@,
                        names0.dom().contains(name@),
                        names0[name@] == old_ips,
                        keys_distinct(ip_entries_of(self.by_ip@)),
                        keys_distinct(name_entries_of(self.by_name@)),
                        self.names() == names0.remove(name@),
                        self.pins() =~= Map::new(
                            |ip: IpAddress|
                                pins0.dom().contains(ip) && !(old_ips.take(k as int).contains(ip)
                                    && pins0[ip] == name@),
                            |ip: IpAddress| pins0[ip],
                        ),
                    decreases olds@.len() - k,
                {
                    let x = olds[k];
                    let ghost before = self.pins();
                    assert(old_ips.take(k as int + 1) =~= old_ips.take(k as int).push(x));
                    match self.find_ip(x) {
                        Some(j) => {
                            proof {
                                lemma_assoc_entry(ip_entries_of(self.by_ip@), j as int);
                            }
                            if str_eq(self.by_ip[j].1.as_str(), name) {
                                proof {
                                    lemma_assoc_remove(ip_entries_of(self.by_ip@), j as int);
                                    assert(ip_entries_of(self.by_ip@).remove(j as int)
                                        =~= ip_entries_of(self.by_ip@.remove(j as int)));
                                }
                                self.by_ip.remove(j);
                            }
                        },
                        None => {},
                    }
                    proof {
                        assert(self.pins() =~= Map::new(
                            |ip: IpAddress|
                                pins0.dom().contains(ip) && !(old_ips.take(k as int + 1).contains(
                                    ip,
                                ) && pins0[ip] == name@),
                            |ip: IpAddress| pins0[ip],
                        ));
                    }
                    k = k + 1;
                }
                assert(old_ips.take(olds@.len() as int) =~= old_ips);
            },
            None => {
                proof {
                    assert(!names0.dom().contains(name@));
                    assert(self.pins() =~= Map::new(
                        |ip: IpAddress|
                            pins0.dom().contains(ip) && !(old_ips.contains(ip) && pins0[ip]
                                == name@),
                        |ip: IpAddress| pins0[ip],
                    ));
                    assert(names0.remove(name@) =~= names0);
                }
            },
        }
        let ghost mid = self.pins();
        assert(mid =~= Map::new(
            |ip: IpAddress|
                pins0.dom().contains(ip) && !(names0.dom().contains(name@) && names0[name@].contains(
                    ip,
                ) && pins0[ip] == name@),
            |ip: IpAddress| pins0[ip],
        ));
        // Forward side: the new entry.
        proof {
            assert(!has_key(name_entries_of(self.by_name@), name@)) by {
                if has_key(name_entries_of(self.by_name@), name@) {
                    let w = choose|w: int|
                        0 <= w < name_entries_of(self.by_name@).len() && #[trigger] name_entries_of(
                            self.by_name@,
                        )[w].0 == name@;
                    lemma_assoc_entry(name_entries_of(self.by_name@), w);
                }
            }
            lemma_assoc_push(name_entries_of(self.by_name@), name@, ips@);
        }
        let entry = (String::from_str(name), slice_to_vec(ips));
        proof {
            assert(name_entries_of(self.by_name@).push((name@, ips@)) =~= name_entries_of(
                self.by_name@.push(entry),
            ));
        }
        self.by_name.push(entry);
        assert(self.names() == names0.insert(name@, ips@));
        // Reverse side: every new IP now names `name`.
        let mut k: usize = 0;
        while k < ips.len()
            invariant
                k <= ips@.len(),
                keys_distinct(ip_entries_of(self.by_ip@)),
                keys_distinct(name_entries_of(self.by_name@)),
                self.names() == names0.insert(name@, ips@),
                self.pins() =~= Map::new(
                    |ip: IpAddress| ips@.take(k as int).contains(ip) || mid.dom().contains(ip),
                    |ip: IpAddress|
                        if ips@.take(k as int).contains(ip) {
                            name@
                        } else {
                            mid[ip]
                        },
                ),
            decreases ips@.len() - k,
        {
            let x = ips[k];
            assert(ips@.take(k as int + 1) =~= ips@.take(k as int).push(x));
            match self.find_ip(x) {
                Some(j) => {
                    proof {
                        lemma_assoc_update(ip_entries_of(self.by_ip@), j as int, name@);
                    }
                    let e = (x, String::from_str(name));
                    proof {
                        assert(ip_entries_of(self.by_ip@).update(j as int, (x, name@))
                            =~= ip_entries_of(self.by_ip@.update(j as int, e)));
                    }
                    self.by_ip.set(j, e);
                },
                None => {
                    proof {
                        lemma_assoc_push(ip_entries_of(self.by_ip@), x, name@);
                    }
                    let e = (x, String::from_str(name));
                    proof {
                        assert(ip_entries_of(self.by_ip@).push((x, name@)) =~= ip_entries_of(
                            self.by_ip@.push(e),
                        ));
                    }
                    self.by_ip.push(e);
                },
            }
            k = k + 1;
        }
        assert(ips@.take(ips@.len() as int) =~= ips@);
        assert(self.pins() =~= recorded_pins(pins0, names0, name@, ips@));
        proof {
            assert forall|ip: IpAddress| #[trigger] self.pins().dom().contains(ip) implies self.names().dom().contains(
                self.pins()[ip],
            ) && self.names()[self.pins()[ip]].contains(ip) by {
                if !ips@.contains(ip) {
                    assert(pins0.dom().contains(ip));
                }
            }
        }
    }

    /// The name this store's lookups most recently resolved to `ip`
    /// (canonicalise before calling), if any.
    pub fn host_for(&self, ip: &IpAddress) -> (r: Option<String>)
        requires
            self.wf(),
        ensures
            match r {
                Some(n) => self.pins().dom().contains(*ip) && n@ == self.pins()[*ip],
                None => !self.pins().dom().contains(*ip),
            },
    {
        match self.find_ip(*ip) {
            Some(j) => {
                proof {
                    lemma_assoc_entry(ip_entries_of(self.by_ip@), j as int);
                }
                Some(self.by_ip[j].1.clone())
            },
            None => None,
        }
    }
}

/// What one guest name lookup turns into.
#[derive(Debug)]
pub enum LookupPlan {
    /// The embedder's policy refused the lookup: the guest sees a resolver
    /// failure, and nothing is resolved or pinned.
    Denied,
    /// The name was an IP literal: it resolves to itself (canonical) and pins
    /// nothing, since the guest did not dial by name.
    Literal(IpAddress),
    /// Resolve this lowercased name host-side, then pin what it resolved to.
    Resolve(String),
}

/// Decides a lookup of `lowered` (the dialed name, already lowercased):
/// a policy refusal wins, then an IP literal resolves to itself, and anything
/// else is resolved and pinned.
pub fn plan_lookup(lowered: String, dns_denied: bool, literal: Option<IpAddress>) -> (p: LookupPlan)
    ensures
        dns_denied ==> p is Denied,
        !dns_denied && literal is Some ==> p == LookupPlan::Literal(canonical(literal->0)),
        !dns_denied && literal is None ==> (p matches LookupPlan::Resolve(n) && n@ == lowered@),
{
    if dns_denied {
        return LookupPlan::Denied;
    }
    match literal {
        Some(ip) => LookupPlan::Literal(ip.to_canonical()),
        None => LookupPlan::Resolve(lowered),
    }
}

/// Canonicalises what `name` resolved to, pins it, and returns the
/// canonical addresses in resolution order (what the guest then sees).
pub fn pin_resolution(pins: &mut PinState, name: &str, resolved: &[IpAddress]) -> (r: Vec<IpAddress>)
    requires
        old(pins).wf(),
    ensures
        r@ == resolved@.map_values(|ip: IpAddress| canonical(ip)),
        final(pins).wf(),
        final(pins).names() == old(pins).names().insert(name@, r@),
        final(pins).pins() == recorded_pins(old(pins).pins(), old(pins).names(), name@, r@),
{
    let mut out: Vec<IpAddress> = Vec::new();
    let mut i: usize = 0;
    while i < resolved.len()
        invariant
            i <= resolved@.len(),
            out@ == resolved@.take(i as int).map_values(|ip: IpAddress| canonical(ip)),
        decreases resolved@.len() - i,
    {
        out.push(resolved[i].to_canonical());
        assert(resolved@.take(i as int + 1) =~= resolved@.take(i as int).push(resolved@[i as int]));
        i += 1;
    }
    assert(resolved@.take(resolved@.len() as int) =~= resolved@);
    pins.record(name, out.as_slice());
    out
}

/// After `name` resolves to `ips`, each of those IPs is pinned to `name`.
pub proof fn lemma_resolution_pins_every_address(
    pins: Map<IpAddress, Seq<char>>,
    names: Map<Seq<char>, Seq<IpAddress>>,
    name: Seq<char>,
    ips: Seq<IpAddress>,
)
    ensures
        forall|ip: IpAddress|
            #[trigger] ips.contains(ip) ==> recorded_pins(pins, names, name, ips).dom().contains(ip)
                && recorded_pins(pins, names, name, ips)[ip] == name,
{
}

/// Re-resolving a name replaces it wholesale: from consistent pins, the only
/// IPs that name `name` afterwards are the ones it just resolved to, so a
/// stale address can no longer authorize a connect under that name.
pub proof fn lemma_re_resolution_unpins_stale_addresses(
    pins: Map<IpAddress, Seq<char>>,
    names: Map<Seq<char>, Seq<IpAddress>>,
    name: Seq<char>,
    ips: Seq<IpAddress>,
)
    requires
        pins_consistent(pins, names),
    ensures
        forall|ip: IpAddress|
            #[trigger] recorded_pins(pins, names, name, ips).dom().contains(ip) && recorded_pins(
                pins,
                names,
                name,
                ips,
            )[ip] == name ==> ips.contains(ip),
{
}

/// Resolving one name never takes an IP away from another name, unless the
/// new resolution claims that IP itself (the most recent resolution wins).
pub proof fn lemma_resolution_keeps_other_names_pins(
    pins: Map<IpAddress, Seq<char>>,
    names: Map<Seq<char>, Seq<IpAddress>>,
    name: Seq<char>,
    ips: Seq<IpAddress>,
)
    ensures
        forall|ip: IpAddress|
            #[trigger] pins.dom().contains(ip) && pins[ip] != name && !ips.contains(ip)
                ==> recorded_pins(pins, names, name, ips).dom().contains(ip) && recorded_pins(
                pins,
                names,
                name,
                ips,
            )[ip] == pins[ip],
{
}

impl Default for PinState {
    fn default() -> (p: PinState)
        ensures
            p.wf(),
            p.names() == Map::<Seq<char>, Seq<IpAddress>>::empty(),
            p.pins() == Map::<IpAddress, Seq<char>>::empty(),
    {
        PinState::new()
    }
}

} // verus!
