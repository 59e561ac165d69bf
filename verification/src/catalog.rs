//! The catalog of placeable components and the selection within it.

use vstd::prelude::*;
use vstd::arithmetic::div_mod::{
    lemma_add_mod_noop,
    lemma_mod_bound,
    lemma_mod_multiples_vanish,
    lemma_small_mod,
    lemma_sub_mod_noop,
};
use vstd::string::*;
use crate::model::component::{ComponentKind, FuelKind};
use crate::units::{max_int, max_of, UNIT};

verus! {

/// One offer of the catalog.
#[derive(Debug, Clone, PartialEq, Eq)]
pub struct ComponentSpec {
    /// Where the offer stands in the shop.
    pub index: usize,
    pub name: String,
    pub kind: ComponentKind,
    /// The price, in millionths of a unit.
    pub cost: i64,
}

/// Mathematical content of an offer.
pub struct SpecView {
    pub index: usize,
    pub name: Seq<char>,
    pub kind: ComponentKind,
    pub cost: i64,
}

impl View for ComponentSpec {
    type V = SpecView;

    open spec fn view(&self) -> SpecView {
        SpecView { index: self.index, name: self.name@, kind: self.kind, cost: self.cost }
    }
}

/// What the catalog reads of an external component definition.
#[derive(Debug, Clone, PartialEq, Eq)]
pub struct CatalogEntry {
    pub name: String,
    pub field_index: u32,
    pub cost: i64,
}

/// Mathematical content of a definition.
pub struct EntryView {
    pub name: Seq<char>,
    pub field_index: u32,
    pub cost: i64,
}

impl View for CatalogEntry {
    type V = EntryView;

    open spec fn view(&self) -> EntryView {
        EntryView { name: self.name@, field_index: self.field_index, cost: self.cost }
    }
}

/// The slot of the catalog that is selected.
#[derive(Debug, Clone, Copy, PartialEq, Eq, Structural)]
pub struct SelectionState {
    pub index: usize,
}

impl Default for SelectionState {
    fn default() -> (s: Self)
        ensures
            s.index == 0,
    {
        SelectionState { index: 0 }
    }
}

/// The offer that a definition makes: its name, the kind that the name
/// stands for, its field index as position and its cost, not below zero.
/// A definition with an unknown name makes no offer.
pub open spec fn offer_of(entry: EntryView) -> Option<SpecView> {
    match ComponentKind::spec_from_name(entry.name) {
        Some(kind) => Some(
            SpecView {
                index: entry.field_index as usize,
                name: entry.name,
                kind,
                cost: max_int(entry.cost as int, 0) as i64,
            },
        ),
        None => None,
    }
}

/// A list ordered by position with one more offer put in its place: behind
/// every offer whose position is not greater.
pub open spec fn arranged_with(offers: Seq<SpecView>, added: SpecView) -> Seq<SpecView>
    decreases offers.len(),
{
    if offers.len() > 0 && added.index < offers.last().index {
        arranged_with(offers.drop_last(), added).push(offers.last())
    } else {
        offers.push(added)
    }
}

/// The offers that a list of definitions makes, ordered by position;
/// offers of the same position keep the order of their definitions.
pub open spec fn arranged(entries: Seq<EntryView>) -> Seq<SpecView>
    decreases entries.len(),
{
    if entries.len() == 0 {
        Seq::<SpecView>::empty()
    } else {
        let rest = arranged(entries.drop_last());
        match offer_of(entries.last()) {
            Some(offer) => arranged_with(rest, offer),
            None => rest,
        }
    }
}

/// The built-in offers: uranium fuel, a tier-1 vent and a tier-1 coolant.
pub open spec fn fallback_offers() -> Seq<SpecView> {
    seq![
        SpecView {
            index: 0,
            name: "Fuel1-1"@,
            kind: ComponentKind::Fuel(FuelKind::Uranium),
            cost: 24_000_000,
        },
        SpecView { index: 1, name: "Vent1"@, kind: ComponentKind::Vent { tier: 1 }, cost: 14_000_000 },
        SpecView {
            index: 2,
            name: "Coolant1"@,
            kind: ComponentKind::Coolant { tier: 1 },
            cost: 18_000_000,
        },
    ]
}

/// The catalog for a list of definitions: their offers in order, or the
/// built-in offers where the definitions make none.
pub open spec fn catalog_of(entries: Seq<EntryView>) -> Seq<SpecView> {
    if arranged(entries).len() == 0 {
        fallback_offers()
    } else {
        arranged(entries)
    }
}

/// The first offer of a kind.
pub open spec fn offer_for(offers: Seq<SpecView>, kind: ComponentKind) -> Option<SpecView>
    decreases offers.len(),
{
    if offers.len() == 0 {
        None
    } else {
        match offer_for(offers.drop_last(), kind) {
            Some(offer) => Some(offer),
            None => if offers.last().kind == kind {
                Some(offers.last())
            } else {
                None
            },
        }
    }
}

/// The slot that a request for `index` selects: the index itself, or the
/// last slot where the index lies beyond it; slot zero in an empty catalog.
pub open spec fn clamped_slot(len: nat, index: usize) -> usize {
    if len == 0 {
        0
    } else if index < len {
        index
    } else {
        (len - 1) as usize
    }
}

/// The slot that lies `delta` steps from `index`, going round the catalog
/// in either direction; slot zero in an empty catalog.
pub open spec fn stepped_slot(len: nat, index: usize, delta: isize) -> usize {
    if len == 0 {
        0
    } else {
        ((index + delta) % (len as int)) as usize
    }
}

/// What a sale of an offer refunds: its cost times the ratio, the ratio
/// kept between nothing and everything.
pub open spec fn refund_of(cost: i64, refund_ratio: i64) -> i64 {
    let ratio = if refund_ratio < 0 {
        0
    } else if refund_ratio > UNIT {
        UNIT as int
    } else {
        refund_ratio as int
    };
    ((cost * ratio) / (UNIT as int)) as i64
}

/// The offers that can be placed, ordered by their position in the shop.
#[derive(Debug)]
pub struct ComponentCatalog {
    specs: Vec<ComponentSpec>,
}

impl View for ComponentCatalog {
    type V = Seq<SpecView>;

    closed spec fn view(&self) -> Seq<SpecView> {
        Seq::new(self.specs@.len(), |i: int| self.specs@[i]@)
    }
}

/// No offer of a list costs less than nothing.
pub open spec fn costs_nonneg(offers: Seq<SpecView>) -> bool {
    forall|i: int| 0 <= i < offers.len() ==> (#[trigger] offers[i]).cost >= 0
}

proof fn lemma_arranged_with_at(offers: Seq<SpecView>, added: SpecView, p: int)
    requires
        0 <= p <= offers.len(),
        forall|k: int| p <= k < offers.len() ==> added.index < (#[trigger] offers[k]).index,
        p == 0 || !(added.index < offers[p - 1].index),
    ensures
        arranged_with(offers, added) == offers.insert(p, added),
    decreases offers.len() - p,
{
    if p < offers.len() {
        lemma_arranged_with_at(offers.drop_last(), added, p);
        assert(offers.drop_last().insert(p, added).push(offers.last()) =~= offers.insert(p, added));
    } else {
        assert(offers.push(added) =~= offers.insert(p, added));
    }
}

fn fallback_specs() -> (specs: Vec<ComponentSpec>)
    ensures
        Seq::new(specs@.len(), |i: int| specs@[i]@) == fallback_offers(),
        forall|k: int| 0 <= k < specs@.len() ==> (#[trigger] specs@[k]).cost >= 0,
{
    let mut specs: Vec<ComponentSpec> = Vec::new();
    specs.push(
        ComponentSpec {
            index: 0,
            name: String::from_str("Fuel1-1"),
            kind: ComponentKind::Fuel(FuelKind::Uranium),
            cost: 24_000_000,
        },
    );
    specs.push(
        ComponentSpec {
            index: 1,
            name: String::from_str("Vent1"),
            kind: ComponentKind::Vent { tier: 1 },
            cost: 14_000_000,
        },
    );
    specs.push(
        ComponentSpec {
            index: 2,
            name: String::from_str("Coolant1"),
            kind: ComponentKind::Coolant { tier: 1 },
            cost: 18_000_000,
        },
    );
    assert(Seq::new(specs@.len(), |i: int| specs@[i]@) =~= fallback_offers());
    specs
}

impl Default for ComponentCatalog {
    /// The catalog of the built-in offers.
    fn default() -> (catalog: Self)
        ensures
            catalog@ == fallback_offers(),
    {
        ComponentCatalog { specs: fallback_specs() }
    }
}

impl ComponentCatalog {
    #[verifier::type_invariant]
    spec fn inv(self) -> bool {
        forall|i: int| 0 <= i < self.specs@.len() ==> (#[trigger] self.specs@[i]).cost >= 0
    }

    /// Builds the catalog from external definitions.
    pub fn from_definitions(definitions: &Vec<CatalogEntry>) -> (catalog: Self)
        ensures
            catalog@ == catalog_of(Seq::new(definitions@.len(), |i: int| definitions@[i]@)),
            costs_nonneg(catalog@),
    {
        let ghost entries = Seq::new(definitions@.len(), |i: int| definitions@[i]@);
        let n: usize = definitions.len();
        let mut specs: Vec<ComponentSpec> = Vec::new();
        let mut i: usize = 0;
        while i < n
            invariant
                i <= n,
                n == definitions@.len(),
                entries == Seq::new(definitions@.len(), |i: int| definitions@[i]@),
                Seq::new(specs@.len(), |k: int| specs@[k]@) == arranged(entries.take(i as int)),
                forall|k: int| 0 <= k < specs@.len() ==> (#[trigger] specs@[k]).cost >= 0,
            decreases n - i,
        {
            let definition = &definitions[i];
            proof {
                assert(entries.take(i + 1).drop_last() =~= entries.take(i as int));
                assert(entries.take(i + 1).last() == definition@);
            }
            if let Some(kind) = ComponentKind::from_name(definition.name.as_str()) {
                let spec = ComponentSpec {
                    index: definition.field_index as usize,
                    name: definition.name.clone(),
                    kind,
                    cost: max_of(definition.cost, 0),
                };
                let ghost before = Seq::new(specs@.len(), |k: int| specs@[k]@);
                let mut p: usize = specs.len();
                while p > 0 && spec.index < specs[p - 1].index
                    invariant
                        p <= specs@.len(),
                        before == Seq::new(specs@.len(), |k: int| specs@[k]@),
                        forall|k: int|
                            p <= k < specs@.len() ==> spec.index < (#[trigger] before[k]).index,
                    decreases p,
                {
                    p = p - 1;
                }
                proof {
                    lemma_arranged_with_at(before, spec@, p as int);
                }
                specs.insert(p, spec);
                assert(Seq::new(specs@.len(), |k: int| specs@[k]@) =~= before.insert(
                    p as int,
                    spec@,
                ));
            }
            i = i + 1;
        }
        assert(entries.take(n as int) =~= entries);
        if specs.len() == 0 {
            return ComponentCatalog { specs: fallback_specs() };
        }
        ComponentCatalog { specs }
    }

    /// All offers, in order.
    pub fn all_specs(&self) -> (specs: &Vec<ComponentSpec>)
        ensures
            Seq::new(specs@.len(), |i: int| specs@[i]@) == self@,
            costs_nonneg(self@),
    {
        proof {
            use_type_invariant(self);
        }
        &self.specs
    }

    /// The number of offers.
    pub fn len(&self) -> (n: usize)
        ensures
            n == self@.len(),
    {
        self.specs.len()
    }

    /// The selected offer, if the selection points at one.
    pub fn selected(&self, selection: &SelectionState) -> (found: Option<&ComponentSpec>)
        ensures
            match found {
                Some(spec) => selection.index < self@.len() && spec@ == self@[selection.index as int],
                None => selection.index >= self@.len(),
            },
    {
        if selection.index < self.specs.len() {
            Some(&self.specs[selection.index])
        } else {
            None
        }
    }

    /// Selects a slot, or the last one where the index lies beyond it.
    pub fn set_selection_index(&self, selection: &mut SelectionState, index: usize)
        ensures
            final(selection).index == clamped_slot(self@.len(), index),
    {
        if self.specs.len() == 0 {
            selection.index = 0;
            return ;
        }
        selection.index = if index < self.specs.len() {
            index
        } else {
            self.specs.len() - 1
        };
    }

    /// Moves the selection by `delta` slots, going round the catalog.
    pub fn step_selection(&self, selection: &mut SelectionState, delta: isize)
        ensures
            final(selection).index == stepped_slot(self@.len(), old(selection).index, delta),
    {
        let len: usize = self.specs.len();
        if len == 0 {
            selection.index = 0;
            return ;
        }
        let len_wide: u128 = len as u128;
        let base: u128 = (selection.index as u128) % len_wide;
        let offset: u128 = if delta >= 0 {
            (delta as u128) % len_wide
        } else {
            let back: u128 = ((-(delta as i128)) as u128) % len_wide;
            proof {
                let n = len as int;
                lemma_sub_mod_noop(0, -(delta as int), n);
                lemma_small_mod(0, len as nat);
                lemma_mod_multiples_vanish(1, -(back as int), n);
                if back > 0 {
                    lemma_small_mod((n - back) as nat, len as nat);
                } else {
                    lemma_small_mod(0, len as nat);
                }
            }
            if back == 0 {
                0
            } else {
                len_wide - back
            }
        };
        assert(offset == (delta as int) % (len as int));
        let sum: u128 = base + offset;
        let next: u128 = if sum >= len_wide {
            sum - len_wide
        } else {
            sum
        };
        proof {
            let n = len as int;
            lemma_add_mod_noop(old(selection).index as int, delta as int, n);
            lemma_mod_bound(old(selection).index + delta, n);
            if sum >= len_wide {
                lemma_mod_multiples_vanish(1, sum - n, n);
                lemma_small_mod((sum - n) as nat, len as nat);
            } else {
                lemma_small_mod(sum as nat, len as nat);
            }
        }
        selection.index = next as usize;
    }

    /// The first offer of a kind.
    pub fn spec_for_kind(&self, kind: ComponentKind) -> (found: Option<&ComponentSpec>)
        ensures
            match found {
                Some(spec) => offer_for(self@, kind) == Some(spec@),
                None => offer_for(self@, kind) is None,
            },
            costs_nonneg(self@),
    {
        proof {
            use_type_invariant(self);
        }
        let n: usize = self.specs.len();
        let mut i: usize = 0;
        assert(costs_nonneg(self@));
        while i < n
            invariant
                i <= n,
                n == self.specs@.len(),
                costs_nonneg(self@),
                offer_for(self@.take(i as int), kind) is None,
            decreases n - i,
        {
            proof {
                assert(self@.take(i + 1).drop_last() =~= self@.take(i as int));
                assert(self@.take(i + 1).last() == self.specs@[i as int]@);
            }
            if self.specs[i].kind == kind {
                proof {
                    lemma_offer_for_prefix(self@, kind, i + 1);
                }
                return Some(&self.specs[i]);
            }
            i = i + 1;
        }
        assert(self@.take(n as int) =~= self@);
        None
    }

    /// What selling a component of a kind refunds: the cost of its offer
    /// times the ratio, which is kept between zero and one; nothing for a
    /// kind without an offer. The ratio is in millionths.
    pub fn sell_value(&self, kind: ComponentKind, refund_ratio: i64) -> (value: i64)
        ensures
            value == (match offer_for(self@, kind) {
                Some(offer) => refund_of(offer.cost, refund_ratio),
                None => 0,
            }),
    {
        let ratio: i64 = if refund_ratio < 0 {
            0
        } else if refund_ratio > UNIT {
            UNIT
        } else {
            refund_ratio
        };
        match self.spec_for_kind(kind) {
            Some(spec) => {
                proof {
                    lemma_offer_is_listed(self@, kind);
                }
                assert(0 <= spec.cost * ratio <= spec.cost * UNIT) by (nonlinear_arith)
                    requires
                        spec.cost >= 0,
                        0 <= ratio <= UNIT,
                ;
                assert(spec.cost * UNIT / (UNIT as int) == spec.cost) by (nonlinear_arith);
                assert((spec.cost * ratio) / (UNIT as int) <= spec.cost * UNIT / (UNIT as int))
                    by (nonlinear_arith)
                    requires
                        0 <= spec.cost * ratio <= spec.cost * UNIT,
                        UNIT > 0,
                ;
                ((spec.cost as i128 * ratio as i128) / (UNIT as i128)) as i64
            },
            None => 0,
        }
    }
}

/// An offer found in a prefix of a list is the offer found in the list.
proof fn lemma_offer_for_prefix(offers: Seq<SpecView>, kind: ComponentKind, k: int)
    requires
        0 <= k <= offers.len(),
        offer_for(offers.take(k), kind) is Some,
    ensures
        offer_for(offers, kind) == offer_for(offers.take(k), kind),
    decreases offers.len() - k,
{
    if k < offers.len() {
        assert(offers.take(k + 1).drop_last() =~= offers.take(k));
        lemma_offer_for_prefix(offers, kind, k + 1);
    } else {
        assert(offers.take(k) =~= offers);
    }
}

/// The offer found for a kind is one of the list.
proof fn lemma_offer_is_listed(offers: Seq<SpecView>, kind: ComponentKind)
    ensures
        offer_for(offers, kind) is Some ==> exists|i: int|
            0 <= i < offers.len() && offers[i] == offer_for(offers, kind)->0,
    decreases offers.len(),
{
    if offers.len() > 0 {
        lemma_offer_is_listed(offers.drop_last(), kind);
        if offer_for(offers.drop_last(), kind) is Some {
            let i = choose|i: int|
                0 <= i < offers.drop_last().len() && offers.drop_last()[i] == offer_for(
                    offers.drop_last(),
                    kind,
                )->0;
            assert(offers[i] == offers.drop_last()[i]);
        } else if offers.last().kind == kind {
            assert(offers[offers.len() - 1] == offers.last());
        }
    }
}

/// The 32-bit FNV-1a hash of a byte string: start from the offset basis,
/// and for every byte take the exclusive or with it and multiply by the
/// FNV prime, keeping the low 32 bits.
pub open spec fn name_hash(bytes: Seq<u8>) -> u32
    decreases bytes.len(),
{
    if bytes.len() == 0 {
        2166136261u32
    } else {
        (((name_hash(bytes.drop_last()) ^ (bytes.last() as u32)) * 16777619) % 0x1_0000_0000) as u32
    }
}

/// The three colour channels that a hash stands for: its three low bytes.
pub open spec fn channels_of(hash: u32) -> (u8, u8, u8) {
    ((hash & 0xFF) as u8, ((hash >> 8) & 0xFF) as u8, ((hash >> 16) & 0xFF) as u8)
}

/// The colour channels (red, green, blue) that a sprite name is drawn in,
/// each from 0 to 255.
pub fn color_from_name(name: &str) -> (channels: (u8, u8, u8))
    ensures
        channels == channels_of(name_hash(name.spec_bytes())),
{
    let bytes = name.as_bytes();
    let n: usize = bytes.len();
    let mut hash: u32 = 2166136261;
    let mut i: usize = 0;
    while i < n
        invariant
            i <= n,
            n == bytes@.len(),
            hash == name_hash(bytes@.take(i as int)),
        decreases n - i,
    {
        assert(bytes@.take(i + 1).drop_last() =~= bytes@.take(i as int));
        let mixed: u32 = hash ^ (bytes[i] as u32);
        assert(mixed * 16777619 <= 0xFFFF_FFFF * 16777619) by (nonlinear_arith)
            requires
                mixed <= 0xFFFF_FFFF,
        ;
        hash = ((mixed as u64 * 16777619u64) % 0x1_0000_0000u64) as u32;
        i = i + 1;
    }
    assert(bytes@.take(n as int) =~= bytes@);
    let red: u32 = hash & 0xFF;
    let green: u32 = (hash >> 8) & 0xFF;
    let blue: u32 = (hash >> 16) & 0xFF;
    assert(red <= 0xFF && green <= 0xFF && blue <= 0xFF) by (bit_vector)
        requires
            red == hash & 0xFF,
            green == (hash >> 8) & 0xFF,
            blue == (hash >> 16) & 0xFF,
    ;
    (red as u8, green as u8, blue as u8)
}

} // verus!
