use vstd::prelude::*;
use crate::device::{Device, DeviceModel, with_min, with_max, with_removal};

verus! {

/// Error returned by `Registry::commit` when an entry already bears the
/// draft's name. It is informational only: the caller recovers by choosing
/// another name.
#[derive(Debug)]
pub struct DuplicateName;

/// True when some entry of `s` bears the name `n` (exact, case-sensitive).
pub open spec fn has_name(s: Seq<DeviceModel>, n: Seq<char>) -> bool {
    exists|i: int| 0 <= i < s.len() && s[i].name == n
}

/// True when no two entries of `s` share a name.
pub open spec fn names_unique(s: Seq<DeviceModel>) -> bool {
    forall|i: int, j: int| 0 <= i < j < s.len() ==> s[i].name != s[j].name
}

/// The entries of `s` that survive a compaction pass (those whose removal
/// flag is down), in their original order.
pub open spec fn survivors(s: Seq<DeviceModel>) -> Seq<DeviceModel>
    decreases s.len(),
{
    if s.len() == 0 {
        Seq::empty()
    } else if s.last().pending_removal {
        survivors(s.drop_last())
    } else {
        survivors(s.drop_last()).push(s.last())
    }
}

/// Where an unmarked entry at index `i` of `s` stands after compaction: the
/// number of unmarked entries before it.
pub open spec fn compact_position(s: Seq<DeviceModel>, i: int) -> int {
    survivors(s.take(i)).len() as int
}

/// The ordered sequence of committed devices. Insertion order is preserved;
/// uniqueness of names is a validation-time check made by `commit`, not a
/// structural invariant.
pub struct Registry {
    pub devices: Vec<Device>,
}

impl View for Registry {
    type V = Seq<DeviceModel>;

    open spec fn view(&self) -> Seq<DeviceModel> {
        self.devices@.map_values(|d: Device| d@)
    }
}

impl Registry {
    /// An empty registry.
    pub fn new() -> (r: Registry)
        ensures
            r@ == Seq::<DeviceModel>::empty(),
    {
        let r = Registry { devices: Vec::new() };
        proof {
            assert(r@ =~= Seq::<DeviceModel>::empty());
        }
        r
    }

    /// How many devices are committed.
    pub fn len(&self) -> (n: usize)
        ensures
            n == self@.len(),
    {
        self.devices.len()
    }

    /// A committed device, by position.
    pub fn get(&self, index: usize) -> (d: &Device)
        requires
            index < self@.len(),
        ensures
            d@ == self@[index as int],
    {
        &self.devices[index]
    }

    /// Whether some committed device bears `name`.
    pub fn contains_name(&self, name: &String) -> (r: bool)
        ensures
            r == has_name(self@, name@),
    {
        let mut i: usize = 0;
        while i < self.devices.len()
            invariant
                i <= self.devices.len(),
                forall|k: int| 0 <= k < i ==> self@[k].name != name@,
            decreases self.devices.len() - i,
        {
            if self.devices[i].name == *name {
                proof {
                    assert(self@[i as int].name == name@);
                }
                return true;
            }
            i += 1;
        }
        false
    }

    /// Appends `draft` iff no committed entry already bears its name; on
    /// failure the registry is left exactly as it was. A registry whose names
    /// were unique stays so.
    pub fn commit(&mut self, draft: Device) -> (r: Result<(), DuplicateName>)
        ensures
            r is Ok <==> !has_name(old(self)@, draft@.name),
            r is Ok ==> final(self)@ == old(self)@.push(draft@),
            r is Err ==> *final(self) == *old(self),
            names_unique(old(self)@) ==> names_unique(final(self)@),
    {
        if self.contains_name(&draft.name) {
            return Err(DuplicateName);
        }
        proof {
            if names_unique(self@) {
                lemma_push_fresh_name(self@, draft@);
            }
        }
        let ghost pre = self@;
        self.devices.push(draft);
        proof {
            assert(self@ =~= pre.push(draft@));
        }
        Ok(())
    }

    /// Removes, in one pass, every entry whose removal flag is set,
    /// preserving the relative order of the survivors.
    pub fn compact(&mut self)
        ensures
            final(self)@ == survivors(old(self)@),
    {
        let mut kept: Vec<Device> = Vec::new();
        let mut i: usize = 0;
        while i < self.devices.len()
            invariant
                i <= self.devices.len(),
                *self == *old(self),
                kept@.map_values(|d: Device| d@) == survivors(self@.take(i as int)),
            decreases self.devices.len() - i,
        {
            let ghost pre_kept = kept@.map_values(|d: Device| d@);
            if !self.devices[i].pending_removal {
                let d = self.devices[i].clone();
                kept.push(d);
            }
            proof {
                assert(self@.take(i as int + 1) =~= self@.take(i as int).push(self@[i as int]));
                lemma_survivors_push(self@.take(i as int), self@[i as int]);
                assert(kept@.map_values(|d: Device| d@) =~= survivors(self@.take(i as int + 1)));
            }
            i += 1;
        }
        proof {
            assert(self@.take(self.devices.len() as int) =~= self@);
        }
        self.devices = kept;
    }

    /// Raises the removal flag of the entry at `index`; the entry itself
    /// stays in place until the next `compact`.
    pub fn mark_for_removal(&mut self, index: usize)
        requires
            index < old(self)@.len(),
        ensures
            final(self)@ == old(self)@.update(index as int, with_removal(old(self)@[index as int])),
    {
        let mut d = self.devices[index].clone();
        d.pending_removal = true;
        let ghost pre = self@;
        self.devices[index] = d;
        proof {
            assert(self@ =~= pre.update(index as int, with_removal(pre[index as int])));
        }
    }

    /// Replaces the minimum frequency bound of the entry at `index`.
    pub fn set_frequency_min(&mut self, index: usize, value: u32)
        requires
            index < old(self)@.len(),
        ensures
            final(self)@ == old(self)@.update(index as int, with_min(old(self)@[index as int], value)),
    {
        let mut d = self.devices[index].clone();
        d.frequency_min = value;
        let ghost pre = self@;
        self.devices[index] = d;
        proof {
            assert(self@ =~= pre.update(index as int, with_min(pre[index as int], value)));
        }
    }

    /// Replaces the maximum frequency bound of the entry at `index`.
    pub fn set_frequency_max(&mut self, index: usize, value: u32)
        requires
            index < old(self)@.len(),
        ensures
            final(self)@ == old(self)@.update(index as int, with_max(old(self)@[index as int], value)),
    {
        let mut d = self.devices[index].clone();
        d.frequency_max = value;
        let ghost pre = self@;
        self.devices[index] = d;
        proof {
            assert(self@ =~= pre.update(index as int, with_max(pre[index as int], value)));
        }
    }
}

/// Appending a device whose name is fresh keeps the names unique.
pub proof fn lemma_push_fresh_name(s: Seq<DeviceModel>, d: DeviceModel)
    requires
        names_unique(s),
        !has_name(s, d.name),
    ensures
        names_unique(s.push(d)),
{
    let t = s.push(d);
    assert forall|i: int, j: int| 0 <= i < j < t.len() implies t[i].name != t[j].name by {
        if j == s.len() as int {
            assert(t[i] == s[i]);
            assert(!(0 <= i < s.len() && s[i].name == d.name));
        } else {
            assert(t[i] == s[i] && t[j] == s[j]);
        }
    }
}

/// Replacing an entry by one with the same name keeps the names unique.
pub proof fn lemma_update_same_name(s: Seq<DeviceModel>, i: int, d: DeviceModel)
    requires
        names_unique(s),
        0 <= i < s.len(),
        d.name == s[i].name,
    ensures
        names_unique(s.update(i, d)),
{
    let t = s.update(i, d);
    assert forall|p: int, q: int| 0 <= p < q < t.len() implies t[p].name != t[q].name by {
        assert(t[p].name == s[p].name && t[q].name == s[q].name);
    }
}

/// How `survivors` grows by one element at the end.
pub proof fn lemma_survivors_push(s: Seq<DeviceModel>, d: DeviceModel)
    ensures
        survivors(s.push(d)) == (if d.pending_removal {
            survivors(s)
        } else {
            survivors(s).push(d)
        }),
{
    assert(s.push(d).drop_last() =~= s);
    assert(s.push(d).last() == d);
}

/// Every survivor appears in the original sequence.
proof fn lemma_survivors_come_from(s: Seq<DeviceModel>)
    ensures
        forall|k: int| 0 <= k < survivors(s).len() ==> s.contains(#[trigger] survivors(s)[k]),
    decreases s.len(),
{
    if s.len() > 0 {
        lemma_survivors_come_from(s.drop_last());
        assert forall|k: int| 0 <= k < survivors(s).len() implies s.contains(
            #[trigger] survivors(s)[k],
        ) by {
            let t = survivors(s.drop_last());
            if !s.last().pending_removal && k == t.len() {
                assert(s[s.len() - 1] == survivors(s)[k]);
            } else {
                assert(survivors(s)[k] == t[k]);
                assert(s.drop_last().contains(t[k]));
                let i = choose|i: int| 0 <= i < s.drop_last().len() && s.drop_last()[i] == t[k];
                assert(s[i] == t[k]);
            }
        }
    }
}

/// Compaction keeps the names unique.
pub proof fn lemma_compact_preserves_uniqueness(s: Seq<DeviceModel>)
    requires
        names_unique(s),
    ensures
        names_unique(survivors(s)),
    decreases s.len(),
{
    if s.len() > 0 {
        let pre = s.drop_last();
        assert(names_unique(pre));
        lemma_compact_preserves_uniqueness(pre);
        if !s.last().pending_removal {
            let t = survivors(pre);
            lemma_survivors_come_from(pre);
            assert forall|k: int| 0 <= k < t.len() implies t[k].name != s.last().name by {
                let i = choose|i: int| 0 <= i < pre.len() && pre[i] == t[k];
                assert(s[i] == t[k]);
                assert(s[i].name != s[s.len() - 1].name);
            }
            assert forall|i: int, j: int| 0 <= i < j < survivors(s).len() implies survivors(
                s,
            )[i].name != survivors(s)[j].name by {
                if j < t.len() {
                    assert(survivors(s)[i] == t[i] && survivors(s)[j] == t[j]);
                } else {
                    assert(survivors(s)[i] == t[i] && survivors(s)[j] == s.last());
                }
            }
        }
    }
}

/// Compacting twice with nothing marked in between is the same as compacting
/// once: every survivor has its flag down, so a second pass keeps them all.
pub proof fn lemma_compact_idempotent(s: Seq<DeviceModel>)
    ensures
        survivors(survivors(s)) == survivors(s),
    decreases s.len(),
{
    if s.len() > 0 {
        lemma_compact_idempotent(s.drop_last());
        if !s.last().pending_removal {
            lemma_survivors_push(survivors(s.drop_last()), s.last());
        }
    }
}

/// `survivors` of a longer prefix extends `survivors` of a shorter one.
proof fn lemma_survivors_take_mono(s: Seq<DeviceModel>, a: int, b: int)
    requires
        0 <= a <= b <= s.len(),
    ensures
        survivors(s.take(a)).is_prefix_of(survivors(s.take(b))),
    decreases b - a,
{
    if a < b {
        lemma_survivors_take_mono(s, a, b - 1);
        assert(s.take(b) =~= s.take(b - 1).push(s[b - 1]));
        lemma_survivors_push(s.take(b - 1), s[b - 1]);
        assert(survivors(s.take(a)).is_prefix_of(survivors(s.take(b))));
    } else {
        assert(survivors(s.take(a)).is_prefix_of(survivors(s.take(b))));
    }
}

/// An unmarked entry lands at `compact_position`.
pub proof fn lemma_compact_keeps_entry(s: Seq<DeviceModel>, i: int)
    requires
        0 <= i < s.len(),
        !s[i].pending_removal,
    ensures
        0 <= compact_position(s, i) < survivors(s).len(),
        survivors(s)[compact_position(s, i)] == s[i],
{
    let p = compact_position(s, i);
    assert(s.take(i + 1) =~= s.take(i).push(s[i]));
    lemma_survivors_push(s.take(i), s[i]);
    assert(survivors(s.take(i + 1))[p] == s[i]);
    lemma_survivors_take_mono(s, i + 1, s.len() as int);
    assert(s.take(s.len() as int) =~= s);
    assert(survivors(s)[p] == survivors(s.take(i + 1))[p]);
}

/// Compaction preserves the relative order of the entries it keeps: two
/// unmarked entries reappear, at increasing positions.
pub proof fn lemma_compact_preserves_order(s: Seq<DeviceModel>, i: int, j: int)
    requires
        0 <= i < j < s.len(),
        !s[i].pending_removal,
        !s[j].pending_removal,
    ensures
        0 <= compact_position(s, i) < compact_position(s, j) < survivors(s).len(),
        survivors(s)[compact_position(s, i)] == s[i],
        survivors(s)[compact_position(s, j)] == s[j],
{
    lemma_compact_keeps_entry(s, i);
    lemma_compact_keeps_entry(s, j);
    assert(s.take(i + 1) =~= s.take(i).push(s[i]));
    lemma_survivors_push(s.take(i), s[i]);
    lemma_survivors_take_mono(s, i + 1, j);
}

} // verus!
