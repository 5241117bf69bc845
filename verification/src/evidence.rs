//! The evidence database: observations gathered about a device, of which the
//! memory-mapped reads and writes carry an address.

use vstd::prelude::*;

verus! {

/// What one piece of evidence observed.
#[derive(Debug, Clone, Copy, PartialEq, Eq, Structural)]
pub enum EvidenceType {
    MmioWrite { address: u64, value: Option<u64> },
    MmioRead { address: u64 },
    /// Any observation without a bus address.
    Other,
}

/// One piece of evidence.
#[derive(Debug)]
pub struct EvidenceEntry {
    pub id: String,
    pub evidence_type: EvidenceType,
    /// Free-form notes about where the observation was made.
    pub context: std::collections::HashMap<String, String>,
}

/// The evidence gathered about one device, in insertion order.
#[derive(Debug)]
pub struct EvidenceDb {
    pub name: String,
    pub entries: Vec<EvidenceEntry>,
}

/// The bus address of a memory-mapped observation.
pub open spec fn mmio_address(t: EvidenceType) -> Option<u64> {
    match t {
        EvidenceType::MmioWrite { address, .. } => Some(address),
        EvidenceType::MmioRead { address } => Some(address),
        EvidenceType::Other => None,
    }
}

/// The set of bus addresses that the evidence observed.
pub open spec fn mmio_addresses(entries: Seq<EvidenceEntry>) -> Set<u64> {
    Set::new(
        |a: u64|
            exists|i: int|
                0 <= i < entries.len() && mmio_address((#[trigger] entries[i]).evidence_type)
                    == Some(a),
    )
}

/// The observed bus addresses, each once, in order of first observation.
pub open spec fn first_seen_addresses(entries: Seq<EvidenceEntry>) -> Seq<u64>
    decreases entries.len(),
{
    if entries.len() == 0 {
        seq![]
    } else {
        let earlier = first_seen_addresses(entries.drop_last());
        match mmio_address(entries.last().evidence_type) {
            Some(a) => if earlier.contains(a) {
                earlier
            } else {
                earlier.push(a)
            },
            None => earlier,
        }
    }
}

impl EvidenceDb {
    /// An empty database for the named device.
    pub fn new(name: &str) -> (db: EvidenceDb)
        ensures
            db.name@ == name@,
            db.entries@.len() == 0,
    {
        EvidenceDb { name: String::from_str(name), entries: Vec::new() }
    }

    /// Adds a piece of evidence at the end.
    pub fn add(&mut self, entry: EvidenceEntry)
        ensures
            final(self).name == old(self).name,
            final(self).entries@ == old(self).entries@.push(entry),
    {
        self.entries.push(entry);
    }

    /// How many pieces of evidence there are.
    pub fn count(&self) -> (n: usize)
        ensures
            n == self.entries@.len(),
    {
        self.entries.len()
    }

    /// The distinct bus addresses observed, in order of first observation.
    pub fn unique_mmio_addresses(&self) -> (v: Vec<u64>)
        ensures
            v@ == first_seen_addresses(self.entries@),
            v@.no_duplicates(),
            v@.to_set() == mmio_addresses(self.entries@),
    {
        let mut v: Vec<u64> = Vec::new();
        let mut i: usize = 0;
        while i < self.entries.len()
            invariant
                i <= self.entries@.len(),
                v@.no_duplicates(),
                v@.to_set() == mmio_addresses(self.entries@.take(i as int)),
                v@ == first_seen_addresses(self.entries@.take(i as int)),
            decreases self.entries@.len() - i,
        {
            let ghost before = v@;
            assert(self.entries@.take(i as int + 1).drop_last() =~= self.entries@.take(i as int));
            let addr = match self.entries[i].evidence_type {
                EvidenceType::MmioWrite { address, .. } => Some(address),
                EvidenceType::MmioRead { address } => Some(address),
                EvidenceType::Other => None,
            };
            match addr {
                Some(a) => {
                    let mut seen = false;
                    let mut j: usize = 0;
                    while j < v.len()
                        invariant
                            j <= v@.len(),
                            v@ == before,
                            seen <==> exists|k: int| 0 <= k < j && v@[k] == a,
                        decreases v@.len() - j,
                    {
                        if v[j] == a {
                            seen = true;
                        }
                        j = j + 1;
                    }
                    if !seen {
                        v.push(a);
                        assert(v@.no_duplicates()) by {
                            assert forall|p: int, q: int|
                                0 <= p < v@.len() && 0 <= q < v@.len() && p != q implies v@[p]
                                != v@[q] by {
                                if p < before.len() && q < before.len() {
                                } else if p == before.len() {
                                    assert(v@[q] == before[q]);
                                } else {
                                    assert(v@[p] == before[p]);
                                }
                            }
                        }
                    }
                },
                None => {},
            }
            let ghost prefix = self.entries@.take(i as int + 1);
            assert(v@.to_set() =~= mmio_addresses(prefix)) by {
                assert forall|x: u64| v@.to_set().contains(x) implies mmio_addresses(
                    prefix,
                ).contains(x) by {
                    if before.to_set().contains(x) {
                        let w = choose|k: int|
                            0 <= k < i && mmio_address(
                                (#[trigger] self.entries@.take(i as int)[k]).evidence_type,
                            ) == Some(x);
                        assert(prefix[w] == self.entries@.take(i as int)[w]);
                    } else {
                        assert(prefix[i as int] == self.entries@[i as int]);
                    }
                }
                assert forall|x: u64| mmio_addresses(prefix).contains(x) implies v@.to_set().contains(
                    x,
                ) by {
                    let w = choose|k: int|
                        0 <= k < prefix.len() && mmio_address((#[trigger] prefix[k]).evidence_type)
                            == Some(x);
                    if w < i {
                        assert(self.entries@.take(i as int)[w] == prefix[w]);
                        assert(mmio_addresses(self.entries@.take(i as int)).contains(x));
                        assert(before.to_set().contains(x));
                        let k = choose|k: int| 0 <= k < before.len() && before[k] == x;
                        assert(v@[k] == x);
                    } else {
                        assert(prefix[w] == self.entries@[i as int]);
                        if exists|k: int| 0 <= k < before.len() && before[k] == x {
                            let k = choose|k: int| 0 <= k < before.len() && before[k] == x;
                            assert(v@[k] == x);
                        } else {
                            assert(v@[before.len() as int] == x);
                        }
                    }
                }
            }
            i = i + 1;
        }
        assert(self.entries@.take(i as int) =~= self.entries@);
        v
    }
}

} // verus!
