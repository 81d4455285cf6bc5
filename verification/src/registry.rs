use std::collections::{HashMap, HashSet};
use vstd::prelude::*;
use vstd::std_specs::iter::IteratorSpec;

verus! {

broadcast use vstd::std_specs::hash::group_hash_axioms;

/// What the registry knows of one subscriber: its ISSI and the GSSIs it is
/// affiliated with.
pub type MemberView = (u32, Set<u32>);

/// Some member of `members` is affiliated with `gssi`.
pub open spec fn any_member_has(members: Map<u32, MemberView>, gssi: u32) -> bool {
    exists|k: u32| #[trigger] members.contains_key(k) && members[k].1.contains(gssi)
}

/// The member that `issi` has, or a fresh one with no groups.
pub open spec fn member_or_fresh(members: Map<u32, MemberView>, issi: u32) -> MemberView {
    if members.contains_key(issi) {
        members[issi]
    } else {
        (issi, Set::empty())
    }
}

/// The registry's invariant: every member is filed under its own ISSI, and
/// the set of groups with local members is exactly the union of the
/// members' groups.
pub open spec fn registry_wf(members: Map<u32, MemberView>, groups: Set<u32>) -> bool {
    &&& forall|k: u32| #[trigger] members.contains_key(k) ==> members[k].0 == k
    &&& forall|g: u32| #[trigger] groups.contains(g) <==> any_member_has(members, g)
}

/// Members and group set after `issi` is deregistered: its entry is removed,
/// and each of its groups that no remaining member has leaves the group set.
pub open spec fn after_deregister(members: Map<u32, MemberView>, groups: Set<u32>, issi: u32) -> (
    Map<u32, MemberView>,
    Set<u32>,
) {
    if members.contains_key(issi) {
        let rest = members.remove(issi);
        let left = members[issi].1;
        (rest, groups.filter(|g: u32| !(left.contains(g) && !any_member_has(rest, g))))
    } else {
        (members, groups)
    }
}

/// Members and group set after `issi` is registered afresh.
pub open spec fn after_register(members: Map<u32, MemberView>, groups: Set<u32>, issi: u32) -> (
    Map<u32, MemberView>,
    Set<u32>,
) {
    let d = after_deregister(members, groups, issi);
    (d.0.insert(issi, (issi, Set::empty())), d.1)
}

/// Members and group set after `issi` affiliates with `gssi`.
pub open spec fn after_affiliate(
    members: Map<u32, MemberView>,
    groups: Set<u32>,
    issi: u32,
    gssi: u32,
) -> (Map<u32, MemberView>, Set<u32>) {
    let s = member_or_fresh(members, issi);
    (members.insert(issi, (s.0, s.1.insert(gssi))), groups.insert(gssi))
}

/// Members and group set after `issi` deaffiliates from `gssi`. An ISSI that
/// was not registered is entered with no groups.
pub open spec fn after_deaffiliate(
    members: Map<u32, MemberView>,
    groups: Set<u32>,
    issi: u32,
    gssi: u32,
) -> (Map<u32, MemberView>, Set<u32>) {
    let s = member_or_fresh(members, issi);
    if s.1.contains(gssi) {
        let m2 = members.insert(issi, (s.0, s.1.remove(gssi)));
        (m2, if any_member_has(m2, gssi) {
            groups
        } else {
            groups.remove(gssi)
        })
    } else {
        (members.insert(issi, s), groups)
    }
}

/// A locally registered subscriber.
#[derive(Debug)]
pub struct Subscriber {
    pub issi: u32,
    /// GSSIs this subscriber is affiliated with.
    pub attached_groups: HashSet<u32>,
}

impl Subscriber {
    /// The ISSI and group set of this subscriber.
    pub open spec fn member_view(&self) -> MemberView {
        (self.issi, self.attached_groups@)
    }
}

/// A copy of a group set.
fn copy_groups(src: &HashSet<u32>) -> (dst: HashSet<u32>)
    ensures
        dst@ == src@,
{
    let mut dst: HashSet<u32> = HashSet::new();
    let ghost keys = src.iter().remaining();
    for g in it: src.iter()
        invariant
            it.seq() == keys,
            keys.unref().to_set() == src@,
            forall|x: u32| #[trigger] dst@.contains(x) <==> exists|j: int| 0 <= j < it.index() && *keys[j] == x,
    {
        dst.insert(*g);
        proof {
            assert forall|x: u32| #[trigger] dst@.contains(x) <==> exists|j: int| 0 <= j < it.index() + 1 && *keys[j] == x by {
                if x == *g {
                    assert(*keys[it.index() as int] == x);
                }
            }
        }
    }
    proof {
        assert forall|x: u32| #[trigger] src@.contains(x) implies dst@.contains(x) by {
            assert(keys.unref().to_set().contains(x));
            let j = choose|j: int| 0 <= j < keys.unref().len() && keys.unref()[j] == x;
            assert(*keys[j] == x);
        }
        assert forall|x: u32| #[trigger] dst@.contains(x) implies src@.contains(x) by {
            let j = choose|j: int| 0 <= j < keys.len() && *keys[j] == x;
            assert(keys.unref()[j] == x);
            assert(keys.unref().contains(x));
            assert(keys.unref().to_set().contains(x));
        }
        assert(dst@ =~= src@);
    }
    dst
}

impl Clone for Subscriber {
    fn clone(&self) -> (c: Self)
        ensures
            c.member_view() == self.member_view(),
    {
        Subscriber { issi: self.issi, attached_groups: copy_groups(&self.attached_groups) }
    }
}

/// Registry of locally registered ISSIs and their group affiliations.
#[derive(Debug)]
pub struct SubscriberRegistry {
    /// Registered ISSI -> subscriber.
    subscribers: HashMap<u32, Subscriber>,
    /// GSSIs with at least one local affiliate.
    all_attached_groups: HashSet<u32>,
}

impl SubscriberRegistry {
    /// Registered members: ISSI -> (ISSI recorded in the entry, groups).
    pub closed spec fn members(&self) -> Map<u32, MemberView> {
        self.subscribers@.map_values(|s: Subscriber| s.member_view())
    }

    /// GSSIs that the registry reports as having local members.
    pub closed spec fn groups(&self) -> Set<u32> {
        self.all_attached_groups@
    }

    /// An empty registry.
    pub fn new() -> (r: Self)
        ensures
            r.members() == Map::<u32, MemberView>::empty(),
            r.groups() == Set::<u32>::empty(),
    {
        let r = SubscriberRegistry { subscribers: HashMap::new(), all_attached_groups: HashSet::new() };
        assert(r.members() =~= Map::<u32, MemberView>::empty());
        r
    }

    /// Whether `issi` is registered.
    pub fn is_registered(&self, issi: u32) -> (b: bool)
        ensures
            b == self.members().contains_key(issi),
    {
        self.subscribers.contains_key(&issi)
    }

    /// Whether any member is affiliated with `gssi`, by a walk over the members.
    fn member_has_group(&self, gssi: u32) -> (b: bool)
        ensures
            b == any_member_has(self.members(), gssi),
    {
        let ghost m = self.members();
        let ghost vals = self.subscribers.values().remaining();
        assert forall|k: u32| #[trigger] self.subscribers@.contains_key(k) implies vals.unref().contains(
            self.subscribers@[k],
        ) by {
            assert(self.subscribers@.values().contains(self.subscribers@[k]));
            assert(vals.unref().to_set().contains(self.subscribers@[k]));
        }
        for s in it: self.subscribers.values()
            invariant
                m == self.members(),
                it.seq() == vals,
                forall|k: u32|
                    #[trigger] m.contains_key(k) && m[k].1.contains(gssi) ==> exists|j: int|
                        it.index() <= j < vals.len() && *vals[j] == self.subscribers@[k],
        {
            if s.attached_groups.contains(&gssi) {
                proof {
                    let j = it.index();
                    assert(*s == *vals[j]);
                    assert(vals.unref().contains(*s));
                    assert(vals.unref().to_set().contains(*s));
                    assert(self.subscribers@.values().contains(*s));
                    let k = choose|k: u32| self.subscribers@.contains_key(k) && self.subscribers@[k] == *s;
                    assert(m.contains_key(k));
                }
                return true;
            }
        }
        false
    }

    /// Deregisters `issi`: removes it, and drops from the group set each of
    /// its groups that no remaining member has. Nothing happens if `issi`
    /// was not registered.
    pub fn deregister(&mut self, issi: u32)
        ensures
            (final(self).members(), final(self).groups()) == after_deregister(
                old(self).members(),
                old(self).groups(),
                issi,
            ),
    {
        let ghost m0 = self.members();
        let ghost g0 = self.groups();
        if let Some(subscriber) = self.subscribers.remove(&issi) {
            let ghost rest = self.members();
            assert(rest =~= m0.remove(issi));
            let ghost left = subscriber.attached_groups@;
            assert(left == m0[issi].1);
            for gssi in it: subscriber.attached_groups.iter()
                invariant
                    self.members() == rest,
                    it.seq().unref().to_set() == left,
                    it.seq().no_duplicates(),
                    forall|g: u32|
                        #[trigger] self.all_attached_groups@.contains(g) <==> (g0.contains(g) && !(
                        left.contains(g) && !(exists|j: int|
                            it.index() <= j < it.seq().len() && *it.seq()[j] == g)
                            && !any_member_has(rest, g))),
            {
                let still_has_members = self.member_has_group(*gssi);
                if !still_has_members {
                    self.all_attached_groups.remove(gssi);
                }
            }
            proof {
                let target = g0.filter(|g: u32| !(left.contains(g) && !any_member_has(rest, g)));
                assert(self.all_attached_groups@ =~= target);
            }
        }
    }

    /// Registers `issi` afresh: any earlier registration is first removed
    /// (as `deregister` does), then `issi` is entered with no groups.
    pub fn register(&mut self, issi: u32)
        ensures
            (final(self).members(), final(self).groups()) == after_register(
                old(self).members(),
                old(self).groups(),
                issi,
            ),
    {
        self.deregister(issi);
        let ghost m1 = self.members();
        self.subscribers.insert(issi, Subscriber { issi, attached_groups: HashSet::new() });
        assert(self.members() =~= m1.insert(issi, (issi, Set::empty())));
    }

    /// The subscriber filed under `issi`; one with no groups is entered first
    /// if `issi` is not registered. What the caller writes through the
    /// reference becomes the registry's entry for `issi`; the group set is
    /// left as it is.
    pub fn get_subscriber_mut(&mut self, issi: u32) -> (s: &mut Subscriber)
        ensures
            s.member_view() == member_or_fresh(old(self).members(), issi),
            final(self).members() == old(self).members().insert(issi, final(s).member_view()),
            final(self).groups() == old(self).groups(),
    {
        let s = self.subscribers.entry(issi).or_insert(Subscriber { issi, attached_groups: HashSet::new() });
        s
    }

    /// Affiliates `issi` with `gssi` (entering `issi` if it is not
    /// registered) and marks `gssi` as having local members.
    pub fn affiliate(&mut self, issi: u32, gssi: u32)
        ensures
            (final(self).members(), final(self).groups()) == after_affiliate(
                old(self).members(),
                old(self).groups(),
                issi,
                gssi,
            ),
    {
        let subscriber = self.get_subscriber_mut(issi);
        subscriber.attached_groups.insert(gssi);
        self.all_attached_groups.insert(gssi);
    }

    /// Removes `gssi` from the groups of `issi` (entering `issi` if it is not
    /// registered). When no member is left in `gssi`, it leaves the group set.
    pub fn deaffiliate(&mut self, issi: u32, gssi: u32)
        ensures
            (final(self).members(), final(self).groups()) == after_deaffiliate(
                old(self).members(),
                old(self).groups(),
                issi,
                gssi,
            ),
    {
        let ghost m0 = self.members();
        let ghost fresh = member_or_fresh(m0, issi);
        let subscriber = self.get_subscriber_mut(issi);
        let removed = subscriber.attached_groups.remove(&gssi);
        proof {
            if removed {
                assert(self.members() =~= m0.insert(issi, (fresh.0, fresh.1.remove(gssi))));
            } else {
                assert(fresh.1.remove(gssi) =~= fresh.1);
                assert(self.members() =~= m0.insert(issi, fresh));
            }
        }
        if removed {
            let still_has_members = self.member_has_group(gssi);
            if !still_has_members {
                self.all_attached_groups.remove(&gssi);
            }
        }
    }

    /// Whether the group set holds `gssi`.
    pub fn has_group_members(&self, gssi: u32) -> (b: bool)
        ensures
            b == self.groups().contains(gssi),
    {
        self.all_attached_groups.contains(&gssi)
    }
}

impl Clone for SubscriberRegistry {
    fn clone(&self) -> (c: Self)
        ensures
            c.members() == self.members(),
            c.groups() == self.groups(),
    {
        let mut subscribers: HashMap<u32, Subscriber> = HashMap::new();
        let ghost m = self.members();
        let ghost entries = self.subscribers.iter().remaining();
        for kv in it: self.subscribers.iter()
            invariant
                it.seq() == entries,
                m == self.members(),
                entries.len() == self.subscribers@.dom().len(),
                forall|i: int|
                    0 <= i < entries.len() ==> self.subscribers@.contains_key(*(#[trigger] entries[i]).0)
                        && self.subscribers@[*entries[i].0] == *entries[i].1,
                forall|k: u32| #[trigger] self.subscribers@.contains_key(k) ==> entries.contains((&k, &self.subscribers@[k])),
                forall|k: u32|
                    #[trigger] subscribers@.contains_key(k) <==> exists|j: int| 0 <= j < it.index() && *entries[j].0 == k,
                forall|k: u32|
                    #[trigger] subscribers@.contains_key(k) ==> subscribers@[k].member_view() == m[k],
        {
            let (k, v) = kv;
            subscribers.insert(*k, v.clone());
            proof {
                assert forall|x: u32| #[trigger] subscribers@.contains_key(x) <==> exists|j: int| 0 <= j < it.index() + 1 && *entries[j].0 == x by {
                    if x == *k {
                        assert(*entries[it.index() as int].0 == x);
                    }
                }
            }
        }
        let ghost out = subscribers@.map_values(|s: Subscriber| s.member_view());
        proof {
            assert forall|k: u32| #[trigger] self.subscribers@.contains_key(k) implies subscribers@.contains_key(k) by {
                assert(entries.contains((&k, &self.subscribers@[k])));
                let j = choose|j: int| 0 <= j < entries.len() && entries[j] == (&k, &self.subscribers@[k]);
                assert(*entries[j].0 == k);
            }
            assert(out =~= m);
        }
        SubscriberRegistry { subscribers, all_attached_groups: copy_groups(&self.all_attached_groups) }
    }
}

/// A member that had `g` either is `issi` or is still there once `issi`
/// is removed.
proof fn lemma_any_member_remove(members: Map<u32, MemberView>, issi: u32, g: u32)
    ensures
        any_member_has(members, g) <==> (any_member_has(members.remove(issi), g) || (
        members.contains_key(issi) && members[issi].1.contains(g))),
{
    let rest = members.remove(issi);
    if any_member_has(members, g) {
        let k = choose|k: u32| #[trigger] members.contains_key(k) && members[k].1.contains(g);
        if k != issi {
            assert(rest.contains_key(k));
        }
    }
    if any_member_has(rest, g) {
        let k = choose|k: u32| #[trigger] rest.contains_key(k) && rest[k].1.contains(g);
        assert(members.contains_key(k));
    }
}

/// Replacing the entry of `issi` by `v`: a member has `g` iff `v` has it or
/// some other member has it.
proof fn lemma_any_member_insert(members: Map<u32, MemberView>, issi: u32, v: MemberView, g: u32)
    ensures
        any_member_has(members.insert(issi, v), g) <==> (v.1.contains(g) || any_member_has(
            members.remove(issi),
            g,
        )),
{
    let m2 = members.insert(issi, v);
    let rest = members.remove(issi);
    if any_member_has(m2, g) {
        let k = choose|k: u32| #[trigger] m2.contains_key(k) && m2[k].1.contains(g);
        if k != issi {
            assert(rest.contains_key(k));
        }
    }
    if v.1.contains(g) {
        assert(m2.contains_key(issi));
    }
    if any_member_has(rest, g) {
        let k = choose|k: u32| #[trigger] rest.contains_key(k) && rest[k].1.contains(g);
        assert(m2.contains_key(k));
    }
}

/// A new registry is well formed.
pub proof fn law_new_is_wf()
    ensures
        registry_wf(Map::<u32, MemberView>::empty(), Set::<u32>::empty()),
{
}

/// Deregistering keeps the registry well formed.
pub proof fn law_deregister_keeps_wf(members: Map<u32, MemberView>, groups: Set<u32>, issi: u32)
    requires
        registry_wf(members, groups),
    ensures
        registry_wf(after_deregister(members, groups, issi).0, after_deregister(members, groups, issi).1),
{
    let r = after_deregister(members, groups, issi);
    if members.contains_key(issi) {
        assert forall|g: u32| #[trigger] r.1.contains(g) <==> any_member_has(r.0, g) by {
            lemma_any_member_remove(members, issi, g);
        }
    }
}

/// Registering keeps the registry well formed.
pub proof fn law_register_keeps_wf(members: Map<u32, MemberView>, groups: Set<u32>, issi: u32)
    requires
        registry_wf(members, groups),
    ensures
        registry_wf(after_register(members, groups, issi).0, after_register(members, groups, issi).1),
{
    let d = after_deregister(members, groups, issi);
    law_deregister_keeps_wf(members, groups, issi);
    let r = after_register(members, groups, issi);
    assert forall|g: u32| #[trigger] r.1.contains(g) <==> any_member_has(r.0, g) by {
        lemma_any_member_insert(d.0, issi, (issi, Set::empty()), g);
        assert(d.0.remove(issi) =~= d.0);
    }
}

/// Affiliating keeps the registry well formed.
pub proof fn law_affiliate_keeps_wf(
    members: Map<u32, MemberView>,
    groups: Set<u32>,
    issi: u32,
    gssi: u32,
)
    requires
        registry_wf(members, groups),
    ensures
        registry_wf(
            after_affiliate(members, groups, issi, gssi).0,
            after_affiliate(members, groups, issi, gssi).1,
        ),
{
    let s = member_or_fresh(members, issi);
    let r = after_affiliate(members, groups, issi, gssi);
    assert forall|g: u32| #[trigger] r.1.contains(g) <==> any_member_has(r.0, g) by {
        lemma_any_member_insert(members, issi, (s.0, s.1.insert(gssi)), g);
        lemma_any_member_remove(members, issi, g);
    }
}

/// Deaffiliating keeps the registry well formed.
pub proof fn law_deaffiliate_keeps_wf(
    members: Map<u32, MemberView>,
    groups: Set<u32>,
    issi: u32,
    gssi: u32,
)
    requires
        registry_wf(members, groups),
    ensures
        registry_wf(
            after_deaffiliate(members, groups, issi, gssi).0,
            after_deaffiliate(members, groups, issi, gssi).1,
        ),
{
    let s = member_or_fresh(members, issi);
    let r = after_deaffiliate(members, groups, issi, gssi);
    if s.1.contains(gssi) {
        assert forall|g: u32| #[trigger] r.1.contains(g) <==> any_member_has(r.0, g) by {
            lemma_any_member_insert(members, issi, (s.0, s.1.remove(gssi)), g);
            lemma_any_member_remove(members, issi, g);
        }
    } else {
        assert forall|g: u32| #[trigger] r.1.contains(g) <==> any_member_has(r.0, g) by {
            lemma_any_member_insert(members, issi, s, g);
            lemma_any_member_remove(members, issi, g);
        }
    }
}

/// After `register(issi)`, `issi` is registered with no groups, and every
/// other registered ISSI keeps its entry.
pub proof fn law_register_gives_fresh_entry(members: Map<u32, MemberView>, groups: Set<u32>, issi: u32)
    ensures
        after_register(members, groups, issi).0.contains_key(issi),
        after_register(members, groups, issi).0[issi] == (issi, Set::<u32>::empty()),
        forall|k: u32|
            k != issi ==> (#[trigger] after_register(members, groups, issi).0.contains_key(k)
                <==> members.contains_key(k)),
        forall|k: u32|
            k != issi && members.contains_key(k) ==> #[trigger] after_register(
                members,
                groups,
                issi,
            ).0[k] == members[k],
{
}

/// After `deregister(issi)`, `issi` is no longer registered.
pub proof fn law_deregister_removes(members: Map<u32, MemberView>, groups: Set<u32>, issi: u32)
    ensures
        !after_deregister(members, groups, issi).0.contains_key(issi),
{
}

/// After `affiliate(issi, gssi)`, `issi` is in `gssi` and `gssi` has members.
pub proof fn law_affiliate_gives_members(
    members: Map<u32, MemberView>,
    groups: Set<u32>,
    issi: u32,
    gssi: u32,
)
    ensures
        after_affiliate(members, groups, issi, gssi).1.contains(gssi),
        after_affiliate(members, groups, issi, gssi).0[issi].1.contains(gssi),
{
}

/// In a well formed registry, after `deaffiliate(issi, gssi)` the group
/// `gssi` has members exactly when some other ISSI is in it.
pub proof fn law_deaffiliate_members(
    members: Map<u32, MemberView>,
    groups: Set<u32>,
    issi: u32,
    gssi: u32,
)
    requires
        registry_wf(members, groups),
    ensures
        after_deaffiliate(members, groups, issi, gssi).1.contains(gssi) <==> any_member_has(
            members.remove(issi),
            gssi,
        ),
{
    let s = member_or_fresh(members, issi);
    law_deaffiliate_keeps_wf(members, groups, issi, gssi);
    let r = after_deaffiliate(members, groups, issi, gssi);
    if s.1.contains(gssi) {
        lemma_any_member_insert(members, issi, (s.0, s.1.remove(gssi)), gssi);
    } else {
        lemma_any_member_insert(members, issi, s, gssi);
    }
}

/// After `affiliate(issi, gssi)`: `issi` is registered, its groups are its
/// groups before (none if it was not registered) plus `gssi`, every other
/// ISSI keeps its entry, and the group set is the one before plus `gssi`.
pub proof fn law_affiliate_adds_one_group(members: Map<u32, MemberView>, groups: Set<u32>, issi: u32, gssi: u32)
    ensures
        after_affiliate(members, groups, issi, gssi).0.contains_key(issi),
        after_affiliate(members, groups, issi, gssi).0[issi].0 == (if members.contains_key(issi) {
            members[issi].0
        } else {
            issi
        }),
        forall|g: u32|
            #[trigger] after_affiliate(members, groups, issi, gssi).0[issi].1.contains(g) <==> (g == gssi || (
            members.contains_key(issi) && members[issi].1.contains(g))),
        forall|k: u32|
            k != issi ==> (#[trigger] after_affiliate(members, groups, issi, gssi).0.contains_key(k)
                <==> members.contains_key(k)),
        forall|k: u32|
            k != issi && members.contains_key(k) ==> #[trigger] after_affiliate(members, groups, issi, gssi).0[k]
                == members[k],
        forall|g: u32| #[trigger] after_affiliate(members, groups, issi, gssi).1.contains(g) <==> (g == gssi
            || groups.contains(g)),
{
}

/// After `deaffiliate(issi, gssi)`: `issi` is registered, its groups are
/// its groups before (none if it was not registered) without `gssi`, every
/// other ISSI keeps its entry, and the group set loses at most `gssi`.
pub proof fn law_deaffiliate_removes_one_group(
    members: Map<u32, MemberView>,
    groups: Set<u32>,
    issi: u32,
    gssi: u32,
)
    ensures
        after_deaffiliate(members, groups, issi, gssi).0.contains_key(issi),
        after_deaffiliate(members, groups, issi, gssi).0[issi].0 == (if members.contains_key(issi) {
            members[issi].0
        } else {
            issi
        }),
        forall|g: u32|
            #[trigger] after_deaffiliate(members, groups, issi, gssi).0[issi].1.contains(g) <==> (g != gssi && (
            members.contains_key(issi) && members[issi].1.contains(g))),
        forall|k: u32|
            k != issi ==> (#[trigger] after_deaffiliate(members, groups, issi, gssi).0.contains_key(k)
                <==> members.contains_key(k)),
        forall|k: u32|
            k != issi && members.contains_key(k) ==> #[trigger] after_deaffiliate(members, groups, issi, gssi).0[k]
                == members[k],
        forall|g: u32|
            g != gssi ==> (#[trigger] after_deaffiliate(members, groups, issi, gssi).1.contains(g)
                <==> groups.contains(g)),
        after_deaffiliate(members, groups, issi, gssi).1.contains(gssi) ==> groups.contains(gssi),
{
}

/// In a well formed registry, after `deregister(issi)` the other ISSIs keep
/// their entries, `issi` has none, and a group keeps members exactly when
/// some other ISSI is affiliated with it. `register(issi)` leaves the same
/// groups and gives `issi` a fresh entry with no groups.
pub proof fn law_deregister_keeps_other_members_groups(members: Map<u32, MemberView>, groups: Set<u32>, issi: u32)
    requires
        registry_wf(members, groups),
    ensures
        !after_deregister(members, groups, issi).0.contains_key(issi),
        forall|k: u32|
            k != issi ==> (#[trigger] after_deregister(members, groups, issi).0.contains_key(k)
                <==> members.contains_key(k)),
        forall|k: u32|
            k != issi && members.contains_key(k) ==> #[trigger] after_deregister(members, groups, issi).0[k]
                == members[k],
        forall|g: u32|
            #[trigger] after_deregister(members, groups, issi).1.contains(g) <==> exists|k: u32|
                k != issi && #[trigger] members.contains_key(k) && members[k].1.contains(g),
        forall|g: u32|
            #[trigger] after_register(members, groups, issi).1.contains(g) <==> exists|k: u32|
                k != issi && #[trigger] members.contains_key(k) && members[k].1.contains(g),
        after_register(members, groups, issi).0[issi] == (issi, Set::<u32>::empty()),
{
    let r = after_deregister(members, groups, issi);
    let rest = members.remove(issi);
    assert forall|g: u32| #[trigger] r.1.contains(g) <==> exists|k: u32|
        k != issi && #[trigger] members.contains_key(k) && members[k].1.contains(g) by {
        lemma_any_member_remove(members, issi, g);
        if any_member_has(rest, g) {
            let k = choose|k: u32| #[trigger] rest.contains_key(k) && rest[k].1.contains(g);
            assert(k != issi && members.contains_key(k) && members[k].1.contains(g));
        }
        if exists|k: u32| k != issi && #[trigger] members.contains_key(k) && members[k].1.contains(g) {
            let k = choose|k: u32| k != issi && #[trigger] members.contains_key(k) && members[k].1.contains(g);
            assert(rest.contains_key(k));
        }
    }
}

/// One call that changes a registry. `Access(issi, v)` is a call of
/// `get_subscriber_mut(issi)` after which the caller left the subscriber's
/// view at `v`.
pub enum RegistryCall {
    Register(u32),
    Deregister(u32),
    Affiliate(u32, u32),
    Deaffiliate(u32, u32),
    Access(u32, MemberView),
}

/// Members and group set after `call`, as the contracts of the registry's
/// operations state them.
pub open spec fn after_call(members: Map<u32, MemberView>, groups: Set<u32>, call: RegistryCall) -> (
    Map<u32, MemberView>,
    Set<u32>,
) {
    match call {
        RegistryCall::Register(i) => after_register(members, groups, i),
        RegistryCall::Deregister(i) => after_deregister(members, groups, i),
        RegistryCall::Affiliate(i, g) => after_affiliate(members, groups, i, g),
        RegistryCall::Deaffiliate(i, g) => after_deaffiliate(members, groups, i, g),
        RegistryCall::Access(i, v) => (members.insert(i, v), groups),
    }
}

/// Members and group set of a new registry after `calls`.
pub open spec fn after_calls(calls: Seq<RegistryCall>) -> (Map<u32, MemberView>, Set<u32>)
    decreases calls.len(),
{
    if calls.len() == 0 {
        (Map::empty(), Set::empty())
    } else {
        let r = after_calls(calls.drop_last());
        after_call(r.0, r.1, calls.last())
    }
}

/// `issi` is registered after `calls`: the last call naming `issi` exists
/// and is not a deregistration.
pub open spec fn registered_by(calls: Seq<RegistryCall>, issi: u32) -> bool
    decreases calls.len(),
{
    if calls.len() == 0 {
        false
    } else {
        match calls.last() {
            RegistryCall::Deregister(i) if i == issi => false,
            RegistryCall::Register(i) if i == issi => true,
            RegistryCall::Affiliate(i, _) if i == issi => true,
            RegistryCall::Deaffiliate(i, _) if i == issi => true,
            RegistryCall::Access(i, _) if i == issi => true,
            _ => registered_by(calls.drop_last(), issi),
        }
    }
}

/// No call of `calls` is an access through `get_subscriber_mut`.
pub open spec fn only_operations(calls: Seq<RegistryCall>) -> bool {
    forall|k: int| 0 <= k < calls.len() ==> !(#[trigger] calls[k] is Access)
}

/// A registry reached from a new one by any calls has `issi` registered
/// exactly when the last call naming `issi` registers, affiliates,
/// deaffiliates or accesses it; calls naming other ISSIs do not change
/// this.
pub proof fn law_registration_follows_last_call(calls: Seq<RegistryCall>, issi: u32)
    ensures
        after_calls(calls).0.contains_key(issi) == registered_by(calls, issi),
    decreases calls.len(),
{
    if calls.len() > 0 {
        law_registration_follows_last_call(calls.drop_last(), issi);
    }
}

/// A registry reached from a new one by registrations, deregistrations,
/// affiliations and deaffiliations is well formed: every member is filed
/// under its own ISSI, and a group has members exactly when some registered
/// ISSI is affiliated with it.
pub proof fn law_reachable_registry_is_wf(calls: Seq<RegistryCall>)
    requires
        only_operations(calls),
    ensures
        registry_wf(after_calls(calls).0, after_calls(calls).1),
        forall|g: u32|
            #[trigger] after_calls(calls).1.contains(g) <==> exists|i: u32|
                #[trigger] after_calls(calls).0.contains_key(i) && after_calls(calls).0[i].1.contains(g),
    decreases calls.len(),
{
    if calls.len() > 0 {
        let p = calls.drop_last();
        assert forall|k: int| 0 <= k < p.len() implies !(#[trigger] p[k] is Access) by {
            assert(p[k] == calls[k]);
        }
        law_reachable_registry_is_wf(p);
        let r = after_calls(p);
        assert(!(calls[calls.len() - 1] is Access));
        match calls.last() {
            RegistryCall::Register(i) => law_register_keeps_wf(r.0, r.1, i),
            RegistryCall::Deregister(i) => law_deregister_keeps_wf(r.0, r.1, i),
            RegistryCall::Affiliate(i, g) => law_affiliate_keeps_wf(r.0, r.1, i, g),
            RegistryCall::Deaffiliate(i, g) => law_deaffiliate_keeps_wf(r.0, r.1, i, g),
            RegistryCall::Access(_, _) => {},
        }
    }
}

} // verus!
