//! Members and the registry that holds them by address.
use vstd::prelude::*;

use crate::account::AccountId;
use crate::utils::{all_nonneg, lemma_sum_ge_elem, lemma_sum_nonneg, lemma_sum_push, lemma_sum_update, sum};

verus! {

/// A member of the guild.
#[derive(Clone, Copy, Debug, PartialEq, Eq, Structural)]
pub struct Member {
    /// The key that submits, sponsors and votes for this member.
    pub delegate_key: AccountId,
    /// Voting shares.
    pub shares: u128,
    /// Non-voting shares, redeemed on ragequit like shares.
    pub loot: u128,
    /// Always true once the member has been created.
    pub exists: bool,
    /// The highest queue index on which the member voted Yes.
    pub highest_index_yes_vote: u128,
    /// The queue index of the guildkick proposal that jailed the member; 0 if none.
    pub jailed: u128,
}

impl Member {
    /// A fresh member with one share, delegating to `delegate_key`.
    pub fn new(delegate_key: AccountId) -> (r: Member)
        ensures
            r == (Member { delegate_key, shares: 1, loot: 0, exists: true, highest_index_yes_vote: 0, jailed: 0 }),
    {
        Member { delegate_key, shares: 1, loot: 0, exists: true, highest_index_yes_vote: 0, jailed: 0 }
    }
}

/// A member together with its address.
#[derive(Clone, Copy, Debug, PartialEq, Eq, Structural)]
pub struct MemberEntry {
    pub address: AccountId,
    pub member: Member,
}

/// The member at address `a` in a sequence of entries.
pub open spec fn lookup(s: Seq<MemberEntry>, a: AccountId) -> Option<Member>
    decreases s.len(),
{
    if s.len() == 0 {
        None
    } else if s.last().address == a {
        Some(s.last().member)
    } else {
        lookup(s.drop_last(), a)
    }
}

pub open spec fn addresses_unique(s: Seq<MemberEntry>) -> bool {
    forall|i: int, j: int| 0 <= i < j < s.len() ==> s[i].address != s[j].address
}

pub open spec fn shares_of(s: Seq<MemberEntry>) -> Seq<int> {
    s.map_values(|e: MemberEntry| e.member.shares as int)
}

pub open spec fn loot_of(s: Seq<MemberEntry>) -> Seq<int> {
    s.map_values(|e: MemberEntry| e.member.loot as int)
}

proof fn lemma_lookup_absent(s: Seq<MemberEntry>, a: AccountId)
    requires
        forall|i: int| 0 <= i < s.len() ==> s[i].address != a,
    ensures
        lookup(s, a) is None,
    decreases s.len(),
{
    if s.len() > 0 {
        assert(s.last().address != a);
        lemma_lookup_absent(s.drop_last(), a);
    }
}

proof fn lemma_lookup_at(s: Seq<MemberEntry>, i: int)
    requires
        addresses_unique(s),
        0 <= i < s.len(),
    ensures
        lookup(s, s[i].address) == Some(s[i].member),
    decreases s.len(),
{
    if i < s.len() - 1 {
        assert(s.last().address != s[i].address);
        lemma_lookup_at(s.drop_last(), i);
    }
}

proof fn lemma_lookup_found(s: Seq<MemberEntry>, a: AccountId)
    requires
        lookup(s, a) is Some,
    ensures
        exists|i: int| 0 <= i < s.len() && s[i].address == a && s[i].member == lookup(s, a).unwrap(),
    decreases s.len(),
{
    if s.last().address != a {
        lemma_lookup_found(s.drop_last(), a);
        let i = choose|i: int| 0 <= i < s.drop_last().len() && s.drop_last()[i].address == a && s.drop_last()[i].member == lookup(s.drop_last(), a).unwrap();
        assert(s[i] == s.drop_last()[i]);
    } else {
        assert(s[s.len() - 1] == s.last());
    }
}

proof fn lemma_lookup_update(s: Seq<MemberEntry>, i: int, m: Member)
    requires
        addresses_unique(s),
        0 <= i < s.len(),
    ensures
        forall|w: AccountId|
            #![auto]
            lookup(s.update(i, MemberEntry { address: s[i].address, member: m }), w) == if w == s[i].address {
                Some(m)
            } else {
                lookup(s, w)
            },
    decreases s.len(),
{
    let e = MemberEntry { address: s[i].address, member: m };
    let t = s.update(i, e);
    if i == s.len() - 1 {
        assert(t.drop_last() =~= s.drop_last());
        assert forall|w: AccountId| #![auto] lookup(t, w) == if w == s[i].address {
            Some(m)
        } else {
            lookup(s, w)
        } by {
            if w != s[i].address {
                assert(lookup(t, w) == lookup(t.drop_last(), w));
            }
        }
    } else {
        let d = s.drop_last();
        assert(addresses_unique(d));
        lemma_lookup_update(d, i, m);
        assert(t.drop_last() =~= d.update(i, e));
        assert(d[i].address == s[i].address);
        assert(t.last() == s.last());
        assert(s.last().address != s[i].address);
        assert forall|w: AccountId| #![auto] lookup(t, w) == if w == s[i].address {
            Some(m)
        } else {
            lookup(s, w)
        } by {
            if w != s.last().address {
                assert(lookup(t, w) == lookup(t.drop_last(), w));
                assert(lookup(s, w) == lookup(d, w));
            }
        }
    }
}

/// The registry of members, each held once under its address.
pub struct Members {
    pub entries: Vec<MemberEntry>,
}

impl Members {
    pub open spec fn wf(&self) -> bool {
        addresses_unique(self.entries@)
    }

    /// The member at address `a`, if any.
    pub open spec fn get(&self, a: AccountId) -> Option<Member> {
        lookup(self.entries@, a)
    }

    /// Whether `a` is the address of a member.
    pub open spec fn contains(&self, a: AccountId) -> bool {
        self.get(a) is Some
    }

    /// The sum of the shares of all members.
    pub open spec fn share_sum(&self) -> int {
        sum(shares_of(self.entries@))
    }

    /// The sum of the loot of all members.
    pub open spec fn loot_sum(&self) -> int {
        sum(loot_of(self.entries@))
    }

    /// No two members share a delegate key, and no member's delegate key is
    /// another member's address.
    pub open spec fn delegates_unique(&self) -> bool {
        forall|a: AccountId, b: AccountId|
            #![trigger self.get(a), self.get(b)]
            self.contains(a) && self.contains(b) && a != b ==> self.get(a).unwrap().delegate_key != self.get(b).unwrap().delegate_key
                && self.get(a).unwrap().delegate_key != b
    }

    /// An empty registry.
    pub fn new() -> (r: Members)
        ensures
            r.wf(),
            forall|a: AccountId| #[trigger] r.get(a) is None,
            r.share_sum() == 0,
            r.loot_sum() == 0,
    {
        let r = Members { entries: Vec::new() };
        assert(shares_of(r.entries@) =~= Seq::<int>::empty());
        assert(loot_of(r.entries@) =~= Seq::<int>::empty());
        r
    }

    /// A member's shares and loot are at most the sums over all members.
    pub proof fn lemma_member_bounded(&self, a: AccountId)
        requires
            self.wf(),
            self.contains(a),
        ensures
            self.get(a).unwrap().shares <= self.share_sum(),
            self.get(a).unwrap().loot <= self.loot_sum(),
            self.get(a).unwrap().shares + self.get(a).unwrap().loot <= self.share_sum() + self.loot_sum(),
    {
        lemma_lookup_found(self.entries@, a);
        let i = choose|i: int| 0 <= i < self.entries@.len() && self.entries@[i].address == a && self.entries@[i].member == self.get(a).unwrap();
        assert(all_nonneg(shares_of(self.entries@)));
        assert(all_nonneg(loot_of(self.entries@)));
        lemma_sum_ge_elem(shares_of(self.entries@), i);
        lemma_sum_ge_elem(loot_of(self.entries@), i);
    }

    /// The sums of shares and of loot are not negative.
    pub proof fn lemma_sums_nonneg(&self)
        ensures
            self.share_sum() >= 0,
            self.loot_sum() >= 0,
    {
        assert(all_nonneg(shares_of(self.entries@)));
        assert(all_nonneg(loot_of(self.entries@)));
        lemma_sum_nonneg(shares_of(self.entries@));
        lemma_sum_nonneg(loot_of(self.entries@));
    }

    fn find(&self, a: AccountId) -> (r: Option<usize>)
        ensures
            r matches Some(i) ==> i < self.entries@.len() && self.entries@[i as int].address == a,
            r is None ==> forall|i: int| 0 <= i < self.entries@.len() ==> #[trigger] self.entries@[i].address != a,
    {
        let mut i: usize = 0;
        while i < self.entries.len()
            invariant
                i <= self.entries@.len(),
                forall|j: int| 0 <= j < i ==> #[trigger] self.entries@[j].address != a,
            decreases self.entries@.len() - i,
        {
            if self.entries[i].address == a {
                return Some(i);
            }
            i = i + 1;
        }
        None
    }

    /// The member at address `a`, if any.
    pub fn get_member(&self, a: AccountId) -> (r: Option<Member>)
        requires
            self.wf(),
        ensures
            r == self.get(a),
    {
        match self.find(a) {
            Some(i) => {
                proof {
                    lemma_lookup_at(self.entries@, i as int);
                }
                Some(self.entries[i].member)
            },
            None => {
                proof {
                    lemma_lookup_absent(self.entries@, a);
                }
                None
            },
        }
    }

    /// The address of the member whose delegate key is `key`, if any.
    pub fn address_by_delegate_key(&self, key: AccountId) -> (r: Option<AccountId>)
        requires
            self.wf(),
        ensures
            r matches Some(a) ==> self.contains(a) && self.get(a).unwrap().delegate_key == key,
            r is None ==> forall|a: AccountId| #[trigger] self.contains(a) ==> self.get(a).unwrap().delegate_key != key,
    {
        let mut i: usize = 0;
        while i < self.entries.len()
            invariant
                self.wf(),
                i <= self.entries@.len(),
                forall|j: int| 0 <= j < i ==> #[trigger] self.entries@[j].member.delegate_key != key,
            decreases self.entries@.len() - i,
        {
            if self.entries[i].member.delegate_key == key {
                proof {
                    lemma_lookup_at(self.entries@, i as int);
                }
                return Some(self.entries[i].address);
            }
            i = i + 1;
        }
        proof {
            assert forall|a: AccountId| #[trigger] self.contains(a) implies self.get(a).unwrap().delegate_key != key by {
                lemma_lookup_found(self.entries@, a);
            }
        }
        None
    }

    /// Replaces the record of the existing member `a` by `m`.
    pub fn set(&mut self, a: AccountId, m: Member)
        requires
            old(self).wf(),
            old(self).contains(a),
        ensures
            final(self).wf(),
            final(self).get(a) == Some(m),
            forall|w: AccountId| w != a ==> #[trigger] final(self).get(w) == old(self).get(w),
            final(self).share_sum() == old(self).share_sum() - old(self).get(a).unwrap().shares + m.shares,
            final(self).loot_sum() == old(self).loot_sum() - old(self).get(a).unwrap().loot + m.loot,
            old(self).delegates_unique() && m.delegate_key == old(self).get(a).unwrap().delegate_key
                ==> final(self).delegates_unique(),
            old(self).delegates_unique() && m.delegate_key == a ==> final(self).delegates_unique(),
            old(self).delegates_unique() && (forall|b: AccountId|
                #[trigger] old(self).contains(b) && b != a ==> old(self).get(b).unwrap().delegate_key != m.delegate_key
                    && b != m.delegate_key) ==> final(self).delegates_unique(),
    {
        match self.find(a) {
            Some(i) => {
                let e = MemberEntry { address: a, member: m };
                proof {
                    let s = self.entries@;
                    lemma_lookup_at(s, i as int);
                    lemma_lookup_update(s, i as int, m);
                    lemma_sum_update(shares_of(s), i as int, m.shares as int);
                    lemma_sum_update(loot_of(s), i as int, m.loot as int);
                    assert(shares_of(s.update(i as int, e)) =~= shares_of(s).update(i as int, m.shares as int));
                    assert(loot_of(s.update(i as int, e)) =~= loot_of(s).update(i as int, m.loot as int));
                }
                self.entries.set(i, e);
                proof {
                    let o = old(self);
                    if o.delegates_unique() && (forall|b: AccountId|
                        #[trigger] o.contains(b) && b != a ==> o.get(b).unwrap().delegate_key != m.delegate_key
                            && b != m.delegate_key) {
                        assert forall|x: AccountId, y: AccountId|
                            #![trigger self.get(x), self.get(y)]
                            self.contains(x) && self.contains(y) && x != y implies self.get(x).unwrap().delegate_key
                            != self.get(y).unwrap().delegate_key && self.get(x).unwrap().delegate_key != y by {
                            assert(o.contains(x) && o.contains(y));
                            assert(o.contains(a));
                            if x == a {
                                assert(o.get(y).unwrap().delegate_key != m.delegate_key);
                            } else if y == a {
                                assert(o.get(x).unwrap().delegate_key != a);
                            } else {
                                assert(o.get(x).unwrap().delegate_key == self.get(x).unwrap().delegate_key);
                                assert(o.get(y).unwrap().delegate_key == self.get(y).unwrap().delegate_key);
                            }
                        }
                    }
                    if o.delegates_unique() && m.delegate_key == a {
                        assert forall|x: AccountId, y: AccountId|
                            #![trigger self.get(x), self.get(y)]
                            self.contains(x) && self.contains(y) && x != y implies self.get(x).unwrap().delegate_key
                            != self.get(y).unwrap().delegate_key && self.get(x).unwrap().delegate_key != y by {
                            assert(o.contains(x) && o.contains(y));
                            assert(o.contains(a));
                            if x == a {
                                assert(o.get(y).unwrap().delegate_key != a);
                            } else if y == a {
                                assert(o.get(x).unwrap().delegate_key != a);
                            } else {
                                assert(o.get(x).unwrap().delegate_key == self.get(x).unwrap().delegate_key);
                                assert(o.get(y).unwrap().delegate_key == self.get(y).unwrap().delegate_key);
                            }
                        }
                    }
                    if o.delegates_unique() && m.delegate_key == o.get(a).unwrap().delegate_key {
                        assert forall|x: AccountId, y: AccountId|
                            #![trigger self.get(x), self.get(y)]
                            self.contains(x) && self.contains(y) && x != y implies self.get(x).unwrap().delegate_key
                            != self.get(y).unwrap().delegate_key && self.get(x).unwrap().delegate_key != y by {
                            assert(o.contains(x) && o.contains(y));
                            assert(o.get(x).unwrap().delegate_key == self.get(x).unwrap().delegate_key);
                            assert(o.get(y).unwrap().delegate_key == self.get(y).unwrap().delegate_key);
                        }
                    }
                }
            },
            None => {
                proof {
                    lemma_lookup_absent(self.entries@, a);
                }
            },
        }
    }

    /// Adds `m` under the new address `a`.
    pub fn insert(&mut self, a: AccountId, m: Member)
        requires
            old(self).wf(),
            !old(self).contains(a),
        ensures
            final(self).wf(),
            final(self).get(a) == Some(m),
            forall|w: AccountId| w != a ==> #[trigger] final(self).get(w) == old(self).get(w),
            final(self).share_sum() == old(self).share_sum() + m.shares,
            final(self).loot_sum() == old(self).loot_sum() + m.loot,
            old(self).delegates_unique() && m.delegate_key == a && (forall|b: AccountId|
                #[trigger] old(self).contains(b) ==> old(self).get(b).unwrap().delegate_key != a)
                ==> final(self).delegates_unique(),
    {
        let e = MemberEntry { address: a, member: m };
        proof {
            let s = self.entries@;
            assert forall|i: int| 0 <= i < s.len() implies s[i].address != a by {
                if s[i].address == a {
                    lemma_lookup_at(s, i);
                }
            }
            assert(s.push(e).drop_last() =~= s);
            lemma_sum_push(shares_of(s), m.shares as int);
            lemma_sum_push(loot_of(s), m.loot as int);
            assert(shares_of(s.push(e)) =~= shares_of(s).push(m.shares as int));
            assert(loot_of(s.push(e)) =~= loot_of(s).push(m.loot as int));
        }
        self.entries.push(e);
        proof {
            let o = old(self);
            assert(self.entries@.drop_last() =~= o.entries@);
            assert forall|w: AccountId| #[trigger] self.get(w) == if w == a {
                Some(m)
            } else {
                o.get(w)
            } by {}
            if o.delegates_unique() && m.delegate_key == a && (forall|b: AccountId|
                #[trigger] o.contains(b) ==> o.get(b).unwrap().delegate_key != a) {
                assert forall|x: AccountId, y: AccountId|
                    #![trigger self.get(x), self.get(y)]
                    self.contains(x) && self.contains(y) && x != y implies self.get(x).unwrap().delegate_key
                    != self.get(y).unwrap().delegate_key && self.get(x).unwrap().delegate_key != y by {
                    if x == a {
                        assert(o.contains(y));
                    } else if y == a {
                        assert(o.contains(x));
                    } else {
                        assert(o.contains(x) && o.contains(y));
                    }
                }
            }
        }
    }

    /// With `a` the only member, the sums of shares and loot are its own.
    pub proof fn lemma_sole_member(&self, a: AccountId)
        requires
            self.wf(),
            self.contains(a),
            forall|b: AccountId| b != a ==> !#[trigger] self.contains(b),
        ensures
            self.share_sum() == self.get(a).unwrap().shares,
            self.loot_sum() == self.get(a).unwrap().loot,
    {
        let s = self.entries@;
        assert forall|i: int| 0 <= i < s.len() implies #[trigger] s[i].address == a by {
            lemma_lookup_at(s, i);
            assert(self.contains(s[i].address));
        }
        lemma_lookup_found(s, a);
        if s.len() > 1 {
            assert(s[0].address == s[1].address);
        }
        assert(s.len() == 1);
        lemma_lookup_at(s, 0);
        assert(shares_of(s).drop_last() =~= Seq::<int>::empty());
        assert(loot_of(s).drop_last() =~= Seq::<int>::empty());
        assert(sum(shares_of(s).drop_last()) == 0);
        assert(sum(loot_of(s).drop_last()) == 0);
        assert(shares_of(s).last() == s[0].member.shares);
        assert(loot_of(s).last() == s[0].member.loot);
    }
}

} // verus!
