use vstd::prelude::*;
use crate::boundary_symbol::{BoundarySymbol, BoundaryType, RankedColor};

verus! {

/// A cell of the display, by column and line.
#[derive(Clone, Copy, Debug, PartialEq, Eq, Structural, Hash)]
pub struct Coordinates {
    pub x: usize,
    pub y: usize,
}

impl Coordinates {
    pub fn new(x: usize, y: usize) -> (c: Self)
        ensures
            c == (Coordinates { x, y }),
    {
        Coordinates { x, y }
    }
}

/// A change made to every symbol at once.
#[derive(Clone, Copy, Debug)]
pub enum SymbolUpdate {
    /// Give every symbol this colour.
    Recolor(Option<RankedColor>),
    /// Draw plain vertical lines heavy.
    HeavyVerticals,
}

pub open spec fn updated_symbol(update: SymbolUpdate, s: BoundarySymbol) -> BoundarySymbol {
    match update {
        SymbolUpdate::Recolor(color) => BoundarySymbol { color, ..s },
        SymbolUpdate::HeavyVerticals => if s.boundary_type == BoundaryType::Vertical {
            BoundarySymbol { boundary_type: BoundaryType::HeavyVertical, ..s }
        } else {
            s
        },
    }
}

fn apply_update(update: SymbolUpdate, s: BoundarySymbol) -> (r: BoundarySymbol)
    ensures
        r == updated_symbol(update, s),
{
    match update {
        SymbolUpdate::Recolor(color) => BoundarySymbol { color, ..s },
        SymbolUpdate::HeavyVerticals => match s.boundary_type {
            BoundaryType::Vertical => BoundarySymbol {
                boundary_type: BoundaryType::HeavyVertical,
                ..s
            },
            _ => s,
        },
    }
}

/// Some cell of the map holds the symbol.
pub open spec fn holds_symbol(m: Map<Coordinates, BoundarySymbol>, s: BoundarySymbol) -> bool {
    exists|k: Coordinates| m.dom().contains(k) && m[k] == s
}

/// The boundary symbols drawn so far, at most one per cell. A cell is named by two machine
/// words, which no single integer key holds without bounding the viewport's size, and a hash map
/// keyed by a struct of two words has no specification to reason with; so the symbols are kept
/// in a vector, each cell once, with the map they stand for as ghost state. Their order in the
/// vector is not part of the map, as a hash map's walking order is not.
pub struct BoundaryMap {
    entries: Vec<(Coordinates, BoundarySymbol)>,
    map: Ghost<Map<Coordinates, BoundarySymbol>>,
}

impl View for BoundaryMap {
    type V = Map<Coordinates, BoundarySymbol>;

    closed spec fn view(&self) -> Map<Coordinates, BoundarySymbol> {
        self.map@
    }
}

impl BoundaryMap {
    /// The entry list holds each cell once and agrees with the map.
    pub closed spec fn wf(&self) -> bool {
        &&& forall|i: int|
            0 <= i < self.entries@.len() ==> #[trigger] self.map@.dom().contains(
                self.entries@[i].0,
            ) && self.map@[self.entries@[i].0] == self.entries@[i].1
        &&& forall|k: Coordinates| #[trigger]
            self.map@.dom().contains(k) ==> exists|i: int|
                0 <= i < self.entries@.len() && #[trigger] self.entries@[i].0 == k
        &&& forall|i: int, j: int|
            0 <= i < self.entries@.len() && 0 <= j < self.entries@.len() && i != j
                ==> #[trigger] self.entries@[i].0 != #[trigger] self.entries@[j].0
    }

    pub fn new() -> (m: Self)
        ensures
            m.wf(),
            m@ == Map::<Coordinates, BoundarySymbol>::empty(),
    {
        BoundaryMap { entries: Vec::new(), map: Ghost(Map::empty()) }
    }

    fn find(&self, coordinates: &Coordinates) -> (r: Option<usize>)
        requires
            self.wf(),
        ensures
            match r {
                Some(i) => i < self.entries@.len() && self.entries@[i as int].0 == *coordinates,
                None => !self@.dom().contains(*coordinates),
            },
    {
        let mut i: usize = 0;
        while i < self.entries.len()
            invariant
                self.wf(),
                i <= self.entries@.len(),
                forall|j: int| 0 <= j < i ==> self.entries@[j].0 != *coordinates,
            decreases self.entries@.len() - i,
        {
            if self.entries[i].0 == *coordinates {
                return Some(i);
            }
            i += 1;
        }
        assert(!self@.dom().contains(*coordinates)) by {
            if self@.dom().contains(*coordinates) {
                let j = choose|j: int|
                    0 <= j < self.entries@.len() && #[trigger] self.entries@[j].0 == *coordinates;
                assert(self.entries@[j].0 == *coordinates);
            }
        }
        None
    }

    /// The number of cells that hold a symbol.
    pub fn len(&self) -> (n: usize)
        requires
            self.wf(),
        ensures
            n == self@.dom().len(),
    {
        proof {
            self.lemma_len();
        }
        self.entries.len()
    }

    proof fn lemma_len(&self)
        requires
            self.wf(),
        ensures
            self@.dom().len() == self.entries@.len(),
            self@.dom().finite(),
    {
        let keys = self.entries@.map_values(|e: (Coordinates, BoundarySymbol)| e.0);
        assert forall|i: int, j: int| 0 <= i < keys.len() && 0 <= j < keys.len() && i != j
            implies keys[i] != keys[j] by {
            assert(self.entries@[i].0 != self.entries@[j].0);
        }
        assert(keys.no_duplicates());
        assert(keys.to_set() =~= self@.dom()) by {
            assert forall|k: Coordinates| keys.to_set().contains(k) <==> self@.dom().contains(
                k,
            ) by {
                if self@.dom().contains(k) {
                    let i = choose|i: int|
                        0 <= i < self.entries@.len() && #[trigger] self.entries@[i].0 == k;
                    assert(keys[i] == k);
                }
                if keys.to_set().contains(k) {
                    let i = choose|i: int| 0 <= i < keys.len() && keys[i] == k;
                    assert(self.map@.dom().contains(self.entries@[i].0));
                }
            }
        }
        keys.unique_seq_to_set();
    }

    pub fn get(&self, coordinates: &Coordinates) -> (r: Option<&BoundarySymbol>)
        requires
            self.wf(),
        ensures
            r == if self@.dom().contains(*coordinates) {
                Some(&self@[*coordinates])
            } else {
                None
            },
    {
        match self.find(coordinates) {
            Some(i) => Some(&self.entries[i].1),
            None => None,
        }
    }

    pub fn contains_key(&self, coordinates: &Coordinates) -> (r: bool)
        requires
            self.wf(),
        ensures
            r == self@.dom().contains(*coordinates),
    {
        self.find(coordinates).is_some()
    }

    /// Puts a symbol in a cell; hands back the one it replaced.
    pub fn insert(&mut self, coordinates: Coordinates, symbol: BoundarySymbol) -> (r: Option<
        BoundarySymbol,
    >)
        requires
            old(self).wf(),
        ensures
            final(self).wf(),
            final(self)@ == old(self)@.insert(coordinates, symbol),
            r == if old(self)@.dom().contains(coordinates) {
                Some(old(self)@[coordinates])
            } else {
                None
            },
    {
        match self.find(&coordinates) {
            Some(i) => {
                let previous = self.entries[i].1;
                let ghost old_entries = self.entries@;
                self.entries.set(i, (coordinates, symbol));
                proof {
                    self.map@ = self.map@.insert(coordinates, symbol);
                }
                assert forall|j: int| 0 <= j < self.entries@.len() implies #[trigger] self.map@.dom().contains(
                    self.entries@[j].0,
                ) && self.map@[self.entries@[j].0] == self.entries@[j].1 by {
                    if j != i {
                        assert(old_entries[j].0 != old_entries[i as int].0);
                        assert(old(self).map@.dom().contains(old_entries[j].0));
                    }
                }
                assert forall|a: int, b: int|
                    0 <= a < self.entries@.len() && 0 <= b < self.entries@.len() && a != b
                        implies #[trigger] self.entries@[a].0 != #[trigger] self.entries@[b].0 by {
                    assert(old_entries[a].0 != old_entries[b].0);
                }
                assert forall|k: Coordinates| #[trigger]
                    self.map@.dom().contains(k) implies exists|j: int|
                        0 <= j < self.entries@.len() && #[trigger] self.entries@[j].0 == k by {
                    if k != coordinates {
                        let j = choose|j: int|
                            0 <= j < old(self).entries@.len() && #[trigger] old(
                                self,
                            ).entries@[j].0 == k;
                        assert(self.entries@[j].0 == k);
                    } else {
                        assert(self.entries@[i as int].0 == k);
                    }
                }
                Some(previous)
            },
            None => {
                self.entries.push((coordinates, symbol));
                proof {
                    self.map@ = self.map@.insert(coordinates, symbol);
                }
                assert forall|k: Coordinates| #[trigger]
                    self.map@.dom().contains(k) implies exists|j: int|
                        0 <= j < self.entries@.len() && #[trigger] self.entries@[j].0 == k by {
                    if k != coordinates {
                        let j = choose|j: int|
                            0 <= j < old(self).entries@.len() && #[trigger] old(
                                self,
                            ).entries@[j].0 == k;
                        assert(self.entries@[j].0 == k);
                    } else {
                        assert(self.entries@[old(self).entries@.len() as int].0 == k);
                    }
                }
                assert forall|i: int, j: int|
                    0 <= i < self.entries@.len() && 0 <= j < self.entries@.len() && i != j
                        implies #[trigger] self.entries@[i].0 != #[trigger] self.entries@[j].0 by {
                    let n = old(self).entries@.len() as int;
                    if i == n {
                        assert(old(self).map@.dom().contains(old(self).entries@[j].0));
                    } else if j == n {
                        assert(old(self).map@.dom().contains(old(self).entries@[i].0));
                    }
                }
                None
            },
        }
    }

    /// Takes the symbol out of a cell, if there is one.
    pub fn remove(&mut self, coordinates: &Coordinates) -> (r: Option<BoundarySymbol>)
        requires
            old(self).wf(),
        ensures
            final(self).wf(),
            final(self)@ == old(self)@.remove(*coordinates),
            r == if old(self)@.dom().contains(*coordinates) {
                Some(old(self)@[*coordinates])
            } else {
                None
            },
    {
        match self.find(coordinates) {
            Some(i) => {
                let removed = self.entries.remove(i);
                proof {
                    self.map@ = self.map@.remove(*coordinates);
                }
                let ghost old_entries = old(self).entries@;
                assert forall|j: int| 0 <= j < self.entries@.len() implies #[trigger] self.map@.dom().contains(
                    self.entries@[j].0,
                ) && self.map@[self.entries@[j].0] == self.entries@[j].1 by {
                    let oj = if j < i { j } else { j + 1 };
                    assert(self.entries@[j] == old_entries[oj]);
                    assert(old_entries[oj].0 != old_entries[i as int].0);
                    assert(old(self).map@.dom().contains(old_entries[oj].0));
                }
                assert forall|k: Coordinates| #[trigger]
                    self.map@.dom().contains(k) implies exists|j: int|
                        0 <= j < self.entries@.len() && #[trigger] self.entries@[j].0 == k by {
                    let oj = choose|oj: int|
                        0 <= oj < old_entries.len() && #[trigger] old_entries[oj].0 == k;
                    assert(oj != i);
                    let j = if oj < i { oj } else { oj - 1 };
                    assert(self.entries@[j] == old_entries[oj]);
                }
                assert forall|a: int, b: int|
                    0 <= a < self.entries@.len() && 0 <= b < self.entries@.len() && a != b
                        implies #[trigger] self.entries@[a].0 != #[trigger] self.entries@[b].0 by {
                    let oa = if a < i { a } else { a + 1 };
                    let ob = if b < i { b } else { b + 1 };
                    assert(self.entries@[a] == old_entries[oa]);
                    assert(self.entries@[b] == old_entries[ob]);
                    assert(old_entries[oa].0 != old_entries[ob].0);
                }
                Some(removed.1)
            },
            None => {
                assert(self@ =~= old(self)@.remove(*coordinates));
                None
            },
        }
    }

    /// The cells and their symbols, each cell once.
    pub fn iter_entries(&self) -> (r: Vec<(Coordinates, BoundarySymbol)>)
        requires
            self.wf(),
        ensures
            r@.len() == self@.dom().len(),
            forall|i: int|
                0 <= i < r@.len() ==> #[trigger] self@.dom().contains(r@[i].0) && self@[r@[i].0]
                    == r@[i].1,
            forall|k: Coordinates| #[trigger]
                self@.dom().contains(k) ==> exists|i: int| 0 <= i < r@.len() && #[trigger] r@[i].0 == k,
            forall|i: int, j: int|
                0 <= i < r@.len() && 0 <= j < r@.len() && i != j ==> #[trigger] r@[i].0
                    != #[trigger] r@[j].0,
    {
        proof {
            self.lemma_len();
        }
        let mut entries: Vec<(Coordinates, BoundarySymbol)> = Vec::new();
        let mut i: usize = 0;
        while i < self.entries.len()
            invariant
                self.wf(),
                i <= self.entries@.len(),
                entries@ == self.entries@.take(i as int),
            decreases self.entries@.len() - i,
        {
            entries.push(self.entries[i]);
            i += 1;
            assert(entries@ =~= self.entries@.take(i as int));
        }
        assert(entries@ =~= self.entries@);
        entries
    }

    /// The symbols, one per cell.
    pub fn values(&self) -> (r: Vec<BoundarySymbol>)
        requires
            self.wf(),
        ensures
            r@.len() == self@.dom().len(),
            forall|i: int| 0 <= i < r@.len() ==> holds_symbol(self@, #[trigger] r@[i]),
    {
        proof {
            self.lemma_len();
        }
        let mut values: Vec<BoundarySymbol> = Vec::new();
        let mut i: usize = 0;
        while i < self.entries.len()
            invariant
                self.wf(),
                i <= self.entries@.len(),
                values@.len() == i,
                forall|j: int| 0 <= j < i ==> #[trigger] values@[j] == self.entries@[j].1,
            decreases self.entries@.len() - i,
        {
            values.push(self.entries[i].1);
            i += 1;
        }
        assert forall|j: int| 0 <= j < values@.len() implies holds_symbol(self@, #[trigger] values@[j]) by {
            let k = self.entries@[j].0;
            assert(self@.dom().contains(k) && self@[k] == values@[j]);
        }
        values
    }

    /// Applies one change to every symbol.
    pub fn update_all(&mut self, update: SymbolUpdate)
        requires
            old(self).wf(),
        ensures
            final(self).wf(),
            final(self)@.dom() == old(self)@.dom(),
            forall|k: Coordinates| #[trigger]
                final(self)@.dom().contains(k) ==> final(self)@[k] == updated_symbol(
                    update,
                    old(self)@[k],
                ),
    {
        let ghost old_map = self.map@;
        let mut i: usize = 0;
        while i < self.entries.len()
            invariant
                self.wf(),
                i <= self.entries@.len(),
                self.map@.dom() == old_map.dom(),
                forall|j: int|
                    0 <= j < i ==> #[trigger] self.map@[self.entries@[j].0] == updated_symbol(
                        update,
                        old_map[self.entries@[j].0],
                    ),
                forall|j: int|
                    i <= j < self.entries@.len() ==> #[trigger] self.map@[self.entries@[j].0]
                        == old_map[self.entries@[j].0],
            decreases self.entries@.len() - i,
        {
            let ghost entries_before = self.entries@;
            let ghost map_before = self.map@;
            let (coordinates, old_symbol) = self.entries[i];
            assert(self.map@.dom().contains(self.entries@[i as int].0));
            assert(self.map@[coordinates] == old_map[coordinates]);
            assert(self.map@[coordinates] == old_symbol);
            let symbol = apply_update(update, old_symbol);
            self.entries.set(i, (coordinates, symbol));
            proof {
                self.map@ = self.map@.insert(coordinates, symbol);
                assert forall|j: int| i < j < self.entries@.len() implies #[trigger] self.map@[self.entries@[j].0]
                    == old_map[self.entries@[j].0] by {
                    assert(entries_before[j].0 != entries_before[i as int].0);
                }
                assert forall|j: int| 0 <= j < i + 1 implies #[trigger] self.map@[self.entries@[j].0]
                    == updated_symbol(update, old_map[self.entries@[j].0]) by {
                    if j < i {
                        assert(entries_before[j].0 != entries_before[i as int].0);
                    }
                }
                assert forall|j: int| 0 <= j < self.entries@.len() implies #[trigger] self.map@.dom().contains(
                    self.entries@[j].0,
                ) && self.map@[self.entries@[j].0] == self.entries@[j].1 by {
                    if j != i {
                        assert(entries_before[j].0 != entries_before[i as int].0);
                        assert(map_before.dom().contains(entries_before[j].0));
                    }
                }
                assert forall|a: int, b: int|
                    0 <= a < self.entries@.len() && 0 <= b < self.entries@.len() && a != b
                        implies #[trigger] self.entries@[a].0 != #[trigger] self.entries@[b].0 by {
                    assert(entries_before[a].0 != entries_before[b].0);
                }
                assert forall|k: Coordinates| #[trigger]
                    self.map@.dom().contains(k) implies exists|j: int|
                        0 <= j < self.entries@.len() && #[trigger] self.entries@[j].0 == k by {
                    let j = choose|j: int|
                        0 <= j < entries_before.len() && #[trigger] entries_before[j].0 == k;
                    assert(self.entries@[j].0 == k);
                }
            }
            i += 1;
        }
        assert forall|k: Coordinates| #[trigger] self.map@.dom().contains(k) implies self.map@[k]
            == updated_symbol(update, old_map[k]) by {
            let j = choose|j: int|
                0 <= j < self.entries@.len() && #[trigger] self.entries@[j].0 == k;
            assert(self.map@[self.entries@[j].0] == updated_symbol(update, old_map[self.entries@[j].0]));
        }
    }
}

} // verus!
