use vstd::prelude::*;

use crate::bytes_eq;
use crate::derivation::canonical_derivation;
use crate::states::{Chapter, ChapterV};

verus! {

/// One allocated storage slot: a 32-byte address and the record living there.
pub struct Slot {
    pub address: Vec<u8>,
    pub record: Chapter,
}

/// The host's account space, modeled: every allocated record, keyed by the
/// address it was allocated at.  The host guarantee that the initializer
/// leans on — an allocation is refused where an account already lives —
/// is carried here by the address-uniqueness invariant.
pub struct Ledger {
    pub slots: Vec<Slot>,
}

/// A slot whose bump is the canonical one of some derivation that
/// produced the slot's address.
pub open spec fn canonical_slot(slot: Slot) -> bool {
    exists|label: Seq<u8>, program: Seq<u8>|
        canonical_derivation(label, slot.record.user@, program) == Some((slot.address@, slot.record.bump))
}

/// The map from addresses to record contents that a sequence of slots holds.
pub open spec fn slots_map(s: Seq<Slot>) -> Map<Seq<u8>, ChapterV>
    decreases s.len(),
{
    if s.len() == 0 {
        Map::empty()
    } else {
        slots_map(s.drop_last()).insert(s.last().address@, s.last().record@)
    }
}

impl View for Ledger {
    type V = Map<Seq<u8>, ChapterV>;

    open spec fn view(&self) -> Map<Seq<u8>, ChapterV> {
        slots_map(self.slots@)
    }
}

proof fn lemma_slots_map_dom(s: Seq<Slot>, address: Seq<u8>)
    ensures
        slots_map(s).dom().contains(address) <==> exists|i: int|
            0 <= i < s.len() && #[trigger] s[i].address@ == address,
    decreases s.len(),
{
    if s.len() > 0 {
        lemma_slots_map_dom(s.drop_last(), address);
        assert(forall|i: int| 0 <= i < s.len() - 1 ==> #[trigger] s.drop_last()[i] == s[i]);
        if slots_map(s).dom().contains(address) {
            if s.last().address@ == address {
                assert(s[s.len() - 1].address@ == address);
            }
        }
        if exists|i: int| 0 <= i < s.len() && #[trigger] s[i].address@ == address {
            let i = choose|i: int| 0 <= i < s.len() && #[trigger] s[i].address@ == address;
            if i < s.len() - 1 {
                assert(s.drop_last()[i].address@ == address);
            }
        }
    }
}

proof fn lemma_slots_map_at(s: Seq<Slot>, i: int)
    requires
        0 <= i < s.len(),
        forall|a: int, b: int| 0 <= a < b < s.len() ==> s[a].address@ != s[b].address@,
    ensures
        slots_map(s).dom().contains(s[i].address@),
        slots_map(s)[s[i].address@] == s[i].record@,
    decreases s.len(),
{
    if i < s.len() - 1 {
        assert(forall|a: int, b: int| 0 <= a < b < s.len() - 1 ==> s.drop_last()[a].address@ != s.drop_last()[b].address@);
        lemma_slots_map_at(s.drop_last(), i);
        assert(s.drop_last()[i] == s[i]);
        assert(s[i].address@ != s[s.len() - 1].address@);
    }
}

impl Ledger {
    /// Well-formedness: addresses are 32 bytes long and pairwise distinct,
    /// every stored record is well formed, and every stored bump is the
    /// canonical one of a derivation that produced the slot's address.
    pub open spec fn wf(&self) -> bool {
        &&& forall|i: int, j: int| 0 <= i < j < self.slots@.len() ==> self.slots@[i].address@ != self.slots@[j].address@
        &&& forall|i: int| 0 <= i < self.slots@.len() ==> (#[trigger] self.slots@[i]).address@.len() == 32
        &&& forall|i: int| 0 <= i < self.slots@.len() ==> (#[trigger] self.slots@[i]).record.wf()
        &&& forall|i: int| 0 <= i < self.slots@.len() ==> canonical_slot(#[trigger] self.slots@[i])
    }

    /// A fresh, empty account space: nothing is initialized yet.
    pub fn new() -> (l: Ledger)
        ensures
            l.wf(),
            l@ == Map::<Seq<u8>, ChapterV>::empty(),
    {
        Ledger { slots: Vec::new() }
    }

    fn find_index(&self, address: &Vec<u8>) -> (r: Option<usize>)
        ensures
            match r {
                Some(i) => i < self.slots@.len() && self.slots@[i as int].address@ == address@,
                None => forall|i: int| 0 <= i < self.slots@.len() ==> (#[trigger] self.slots@[i]).address@ != address@,
            },
    {
        let mut i: usize = 0;
        while i < self.slots.len()
            invariant
                i <= self.slots@.len(),
                forall|k: int| 0 <= k < i ==> (#[trigger] self.slots@[k]).address@ != address@,
            decreases self.slots@.len() - i,
        {
            if bytes_eq(&self.slots[i].address, address) {
                return Some(i);
            }
            i += 1;
        }
        None
    }

    /// Says whether a record has already been allocated at an address.
    pub fn contains_address(&self, address: &Vec<u8>) -> (b: bool)
        ensures
            b == self@.dom().contains(address@),
    {
        proof {
            lemma_slots_map_dom(self.slots@, address@);
        }
        match self.find_index(address) {
            Some(_) => true,
            None => false,
        }
    }

    /// Reads the record stored at an address, where one exists.
    pub fn get_record(&self, address: &Vec<u8>) -> (r: Option<&Chapter>)
        requires
            self.wf(),
        ensures
            match r {
                Some(c) => self@.dom().contains(address@) && c@ == self@[address@],
                None => !self@.dom().contains(address@),
            },
    {
        proof {
            lemma_slots_map_dom(self.slots@, address@);
        }
        match self.find_index(address) {
            Some(i) => {
                proof {
                    lemma_slots_map_at(self.slots@, i as int);
                }
                Some(&self.slots[i].record)
            },
            None => None,
        }
    }

    /// Allocates a record at a still-free address; the one mutation the
    /// account space admits.
    pub(crate) fn allocate(&mut self, address: Vec<u8>, record: Chapter)
        requires
            old(self).wf(),
            address@.len() == 32,
            record.wf(),
            !old(self)@.dom().contains(address@),
            exists|label: Seq<u8>, program: Seq<u8>|
                canonical_derivation(label, record.user@, program) == Some((address@, record.bump)),
        ensures
            final(self).wf(),
            final(self)@ == old(self)@.insert(address@, record@),
    {
        let ghost pre = self.slots@;
        let ghost addr_view = address@;
        let ghost rec = record;
        proof {
            lemma_slots_map_dom(pre, addr_view);
        }
        self.slots.push(Slot { address, record });
        proof {
            let s = self.slots@;
            let n = s.len();
            assert(s.drop_last() =~= pre);
            assert(forall|i: int| 0 <= i < n - 1 ==> #[trigger] s[i] == pre[i]);
            assert(s[n - 1].address@ == addr_view);
            assert(s[n - 1].record == rec);
            assert forall|i: int, j: int| 0 <= i < j < n implies s[i].address@ != s[j].address@ by {
                if j < n - 1 {
                    assert(pre[i].address@ != pre[j].address@);
                } else {
                    assert(!(pre[i].address@ == addr_view));
                }
            }
            assert forall|i: int| 0 <= i < n implies canonical_slot(#[trigger] s[i]) by {
                if i < n - 1 {
                    assert(s[i] == pre[i]);
                    assert(canonical_slot(pre[i]));
                } else {
                    let (l, p) = choose|l: Seq<u8>, p: Seq<u8>|
                        canonical_derivation(l, rec.user@, p) == Some((addr_view, rec.bump));
                    assert(canonical_derivation(l, s[i].record.user@, p)
                        == Some((s[i].address@, s[i].record.bump)));
                }
            }
        }
    }
}

} // verus!
