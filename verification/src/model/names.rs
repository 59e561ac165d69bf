//! Canonical names of component kinds, and reading a kind back from a name.

use vstd::prelude::*;
use vstd::string::*;
use crate::model::component::{ComponentKind, FuelKind};
use crate::text::{
    append_decimal,
    chars_of,
    dash_or_end,
    decimal_text,
    has_prefix,
    is_digit,
    is_space,
    lemma_decimal_text,
    lemma_parse_decimal_text,
    lemma_until_dash_scan,
    parse_u8_between,
    spec_parse_u8,
    starts_with,
    trim_bounds,
    trimmed,
    until_dash,
};

verus! {

/// The tier written after `prefix`, if `value` begins with `prefix` and a
/// number between 0 and 255 makes up the rest.
pub open spec fn spec_tier_after(value: Seq<char>, prefix: Seq<char>) -> Option<u8> {
    if starts_with(value, prefix) {
        spec_parse_u8(value.skip(prefix.len() as int))
    } else {
        None
    }
}

fn tier_between(chars: &Vec<char>, from: usize, to: usize, prefix: &str) -> (tier: Option<u8>)
    requires
        from <= to <= chars@.len(),
    ensures
        tier == spec_tier_after(chars@.subrange(from as int, to as int), prefix@),
{
    if !has_prefix(chars, from, to, prefix) {
        return None;
    }
    let len: usize = prefix.unicode_len();
    assert(chars@.subrange(from as int, to as int).skip(len as int) =~= chars@.subrange(
        from + len,
        to as int,
    ));
    parse_u8_between(chars, from + len, to)
}

fn text_is(chars: &Vec<char>, from: usize, to: usize, word: &str) -> (b: bool)
    requires
        from <= to <= chars@.len(),
    ensures
        b == (chars@.subrange(from as int, to as int) == word@),
{
    let ghost s = chars@.subrange(from as int, to as int);
    if word.unicode_len() != to - from {
        return false;
    }
    let same: bool = has_prefix(chars, from, to, word);
    assert(s.take(s.len() as int) =~= s);
    same
}

/// Reads the tier that follows `prefix` in `value`.
pub fn parse_tier_component(value: &str, prefix: &str) -> (tier: Option<u8>)
    ensures
        tier == spec_tier_after(value@, prefix@),
{
    let chars = chars_of(value);
    assert(chars@.subrange(0, chars@.len() as int) =~= chars@);
    tier_between(&chars, 0, chars.len(), prefix)
}

impl FuelKind {
    /// `Fuel`, the grade's position in the ladder, and `-1`.
    pub open spec fn spec_canonical_name(self) -> Seq<char> {
        "Fuel"@ + decimal_text(self.spec_grade() as nat) + "-1"@
    }

    pub fn canonical_name(self) -> (name: &'static str)
        ensures
            name@ == self.spec_canonical_name(),
    {
        proof {
            reveal_strlit("Fuel");
            reveal_strlit("-1");
            reveal_strlit("Fuel1-1");
            reveal_strlit("Fuel2-1");
            reveal_strlit("Fuel3-1");
            reveal_strlit("Fuel4-1");
            reveal_strlit("Fuel5-1");
            reveal_strlit("Fuel6-1");
            reveal_strlit("Fuel7-1");
            reveal_strlit("Fuel8-1");
            reveal_strlit("Fuel9-1");
            reveal_strlit("Fuel10-1");
            reveal_strlit("Fuel11-1");
            reveal_with_fuel(decimal_text, 2);
        }
        let name: &'static str = match self {
            FuelKind::Uranium => "Fuel1-1",
            FuelKind::Plutonium => "Fuel2-1",
            FuelKind::Thorium => "Fuel3-1",
            FuelKind::Seaborgium => "Fuel4-1",
            FuelKind::Dolorium => "Fuel5-1",
            FuelKind::Nefastium => "Fuel6-1",
            FuelKind::Protium => "Fuel7-1",
            FuelKind::Monastium => "Fuel8-1",
            FuelKind::Kymium => "Fuel9-1",
            FuelKind::Discurrium => "Fuel10-1",
            FuelKind::Stavrium => "Fuel11-1",
        };
        assert(name@ =~= self.spec_canonical_name());
        name
    }

    /// The grade that a name stands for: `Fuel`, then a number from 1 to 11
    /// that ends at the first `-` or at the end of the name.
    pub open spec fn spec_from_name(name: Seq<char>) -> Option<FuelKind> {
        if starts_with(name, "Fuel"@) {
            match spec_parse_u8(until_dash(name.skip("Fuel"@.len() as int))) {
                Some(grade) => Self::spec_from_grade(grade),
                None => None,
            }
        } else {
            None
        }
    }

    pub fn from_name(name: &str) -> (kind: Option<Self>)
        ensures
            kind == Self::spec_from_name(name@),
    {
        let chars = chars_of(name);
        assert(chars@.subrange(0, chars@.len() as int) =~= chars@);
        fuel_between(&chars, 0, chars.len())
    }

    fn from_grade(grade: u8) -> (kind: Option<Self>)
        ensures
            kind == Self::spec_from_grade(grade),
    {
        match grade {
            1 => Some(FuelKind::Uranium),
            2 => Some(FuelKind::Plutonium),
            3 => Some(FuelKind::Thorium),
            4 => Some(FuelKind::Seaborgium),
            5 => Some(FuelKind::Dolorium),
            6 => Some(FuelKind::Nefastium),
            7 => Some(FuelKind::Protium),
            8 => Some(FuelKind::Monastium),
            9 => Some(FuelKind::Kymium),
            10 => Some(FuelKind::Discurrium),
            11 => Some(FuelKind::Stavrium),
            _ => None,
        }
    }

    /// Reading a grade's canonical name gives the grade back.
    pub proof fn lemma_name_round_trip(self)
        ensures
            Self::spec_from_name(self.spec_canonical_name()) == Some(self),
    {
        reveal_strlit("Fuel");
        reveal_strlit("-1");
        let grade = self.spec_grade();
        let digits = decimal_text(grade as nat);
        let name = self.spec_canonical_name();
        lemma_decimal_text(grade as nat);
        lemma_parse_decimal_text(grade);
        assert(name.take(4) =~= "Fuel"@);
        let rest = name.skip(4);
        assert(rest =~= digits + "-1"@);
        assert forall|j: int| 0 <= j < digits.len() implies #[trigger] rest[j] != '-' by {
            assert(is_digit(digits[j]));
        }
        assert(rest[digits.len() as int] == '-');
        lemma_until_dash_scan(rest, digits.len() as int);
        assert(rest.take(digits.len() as int) =~= digits);
    }
}

fn fuel_between(chars: &Vec<char>, from: usize, to: usize) -> (kind: Option<FuelKind>)
    requires
        from <= to <= chars@.len(),
    ensures
        kind == FuelKind::spec_from_name(chars@.subrange(from as int, to as int)),
{
    proof {
        reveal_strlit("Fuel");
    }
    if !has_prefix(chars, from, to, "Fuel") {
        return None;
    }
    let end: usize = dash_or_end(chars, from + 4, to);
    assert(chars@.subrange(from as int, to as int).skip(4) =~= chars@.subrange(from + 4, to as int));
    match parse_u8_between(chars, from + 4, end) {
        Some(grade) => FuelKind::from_grade(grade),
        None => None,
    }
}

impl ComponentKind {
    /// The stable name of a kind: the fuel grade's name, the family name
    /// followed by the tier, or the plain name of a part without tiers.
    pub open spec fn spec_canonical_name(self) -> Seq<char> {
        match self {
            ComponentKind::Fuel(fuel) => fuel.spec_canonical_name(),
            ComponentKind::Vent { tier } => "Vent"@ + decimal_text(tier as nat),
            ComponentKind::Coolant { tier } => "Coolant"@ + decimal_text(tier as nat),
            ComponentKind::Capacitor { tier } => "Capacitor"@ + decimal_text(tier as nat),
            ComponentKind::Reflector { tier } => "Reflector"@ + decimal_text(tier as nat),
            ComponentKind::Plating { tier } => "Plate"@ + decimal_text(tier as nat),
            ComponentKind::Inlet { tier } => "Inlet"@ + decimal_text(tier as nat),
            ComponentKind::Outlet { tier } => "Outlet"@ + decimal_text(tier as nat),
            ComponentKind::Exchanger { tier } => "Exchanger"@ + decimal_text(tier as nat),
            ComponentKind::Clock => "Clock"@,
            ComponentKind::GenericHeat => "GenericHeat"@,
            ComponentKind::GenericPower => "GenericPower"@,
            ComponentKind::GenericInfinity => "GenericInfinity"@,
        }
    }

    pub fn canonical_name(self) -> (name: String)
        ensures
            name@ == self.spec_canonical_name(),
    {
        match self {
            ComponentKind::Fuel(fuel) => String::from_str(fuel.canonical_name()),
            ComponentKind::Vent { tier } => tiered_name("Vent", tier),
            ComponentKind::Coolant { tier } => tiered_name("Coolant", tier),
            ComponentKind::Capacitor { tier } => tiered_name("Capacitor", tier),
            ComponentKind::Reflector { tier } => tiered_name("Reflector", tier),
            ComponentKind::Plating { tier } => tiered_name("Plate", tier),
            ComponentKind::Inlet { tier } => tiered_name("Inlet", tier),
            ComponentKind::Outlet { tier } => tiered_name("Outlet", tier),
            ComponentKind::Exchanger { tier } => tiered_name("Exchanger", tier),
            ComponentKind::Clock => String::from_str("Clock"),
            ComponentKind::GenericHeat => String::from_str("GenericHeat"),
            ComponentKind::GenericPower => String::from_str("GenericPower"),
            ComponentKind::GenericInfinity => String::from_str("GenericInfinity"),
        }
    }

    /// The kind that a name stands for, white space around it ignored. A
    /// fuel name is tried first, then each family name with its tier
    /// (`Plating` is accepted beside `Plate`), then the parts without tiers.
    /// Any other name stands for nothing.
    pub open spec fn spec_from_name(name: Seq<char>) -> Option<ComponentKind> {
        let t = trimmed(name);
        if t.len() == 0 {
            None
        } else if FuelKind::spec_from_name(t) is Some {
            Some(ComponentKind::Fuel(FuelKind::spec_from_name(t)->0))
        } else if spec_tier_after(t, "Vent"@) is Some {
            Some(ComponentKind::Vent { tier: spec_tier_after(t, "Vent"@)->0 })
        } else if spec_tier_after(t, "Coolant"@) is Some {
            Some(ComponentKind::Coolant { tier: spec_tier_after(t, "Coolant"@)->0 })
        } else if spec_tier_after(t, "Capacitor"@) is Some {
            Some(ComponentKind::Capacitor { tier: spec_tier_after(t, "Capacitor"@)->0 })
        } else if spec_tier_after(t, "Reflector"@) is Some {
            Some(ComponentKind::Reflector { tier: spec_tier_after(t, "Reflector"@)->0 })
        } else if spec_tier_after(t, "Plate"@) is Some {
            Some(ComponentKind::Plating { tier: spec_tier_after(t, "Plate"@)->0 })
        } else if spec_tier_after(t, "Plating"@) is Some {
            Some(ComponentKind::Plating { tier: spec_tier_after(t, "Plating"@)->0 })
        } else if spec_tier_after(t, "Inlet"@) is Some {
            Some(ComponentKind::Inlet { tier: spec_tier_after(t, "Inlet"@)->0 })
        } else if spec_tier_after(t, "Outlet"@) is Some {
            Some(ComponentKind::Outlet { tier: spec_tier_after(t, "Outlet"@)->0 })
        } else if spec_tier_after(t, "Exchanger"@) is Some {
            Some(ComponentKind::Exchanger { tier: spec_tier_after(t, "Exchanger"@)->0 })
        } else if t == "Clock"@ {
            Some(ComponentKind::Clock)
        } else if t == "GenericHeat"@ {
            Some(ComponentKind::GenericHeat)
        } else if t == "GenericPower"@ {
            Some(ComponentKind::GenericPower)
        } else if t == "GenericInfinity"@ {
            Some(ComponentKind::GenericInfinity)
        } else {
            None
        }
    }

    pub fn from_name(name: &str) -> (kind: Option<Self>)
        ensures
            kind == Self::spec_from_name(name@),
    {
        let chars = chars_of(name);
        let (from, to) = trim_bounds(&chars);
        if from == to {
            return None;
        }
        if let Some(fuel) = fuel_between(&chars, from, to) {
            return Some(ComponentKind::Fuel(fuel));
        }
        if let Some(tier) = tier_between(&chars, from, to, "Vent") {
            return Some(ComponentKind::Vent { tier });
        }
        if let Some(tier) = tier_between(&chars, from, to, "Coolant") {
            return Some(ComponentKind::Coolant { tier });
        }
        if let Some(tier) = tier_between(&chars, from, to, "Capacitor") {
            return Some(ComponentKind::Capacitor { tier });
        }
        if let Some(tier) = tier_between(&chars, from, to, "Reflector") {
            return Some(ComponentKind::Reflector { tier });
        }
        if let Some(tier) = tier_between(&chars, from, to, "Plate") {
            return Some(ComponentKind::Plating { tier });
        }
        if let Some(tier) = tier_between(&chars, from, to, "Plating") {
            return Some(ComponentKind::Plating { tier });
        }
        if let Some(tier) = tier_between(&chars, from, to, "Inlet") {
            return Some(ComponentKind::Inlet { tier });
        }
        if let Some(tier) = tier_between(&chars, from, to, "Outlet") {
            return Some(ComponentKind::Outlet { tier });
        }
        if let Some(tier) = tier_between(&chars, from, to, "Exchanger") {
            return Some(ComponentKind::Exchanger { tier });
        }
        if text_is(&chars, from, to, "Clock") {
            return Some(ComponentKind::Clock);
        }
        if text_is(&chars, from, to, "GenericHeat") {
            return Some(ComponentKind::GenericHeat);
        }
        if text_is(&chars, from, to, "GenericPower") {
            return Some(ComponentKind::GenericPower);
        }
        if text_is(&chars, from, to, "GenericInfinity") {
            return Some(ComponentKind::GenericInfinity);
        }
        None
    }
}

fn tiered_name(family: &str, tier: u8) -> (name: String)
    ensures
        name@ == family@ + decimal_text(tier as nat),
{
    let mut name = String::from_str(family);
    append_decimal(&mut name, tier);
    name
}

/// A text that differs from `prefix` at some position does not begin with
/// it.
proof fn lemma_differs_at(name: Seq<char>, prefix: Seq<char>, i: int)
    requires
        0 <= i < prefix.len(),
        i < name.len() ==> name[i] != prefix[i],
    ensures
        !starts_with(name, prefix),
        spec_tier_after(name, prefix) is None,
        name != prefix,
{
    if prefix.len() <= name.len() {
        assert(name.take(prefix.len() as int)[i] == name[i]);
    }
}

/// A text that begins and ends with something else than white space is
/// its own trimmed form.
proof fn lemma_trimmed_is_self(name: Seq<char>)
    requires
        name.len() > 0,
        !is_space(name[0]),
        !is_space(name.last()),
    ensures
        trimmed(name) == name,
{
}

/// A family name followed by a tier reads back as that tier.
proof fn lemma_tiered_name(family: Seq<char>, tier: u8)
    requires
        family.len() > 0,
        !is_space(family[0]),
    ensures
        trimmed(family + decimal_text(tier as nat)) == family + decimal_text(tier as nat),
        spec_tier_after(family + decimal_text(tier as nat), family) == Some(tier),
        (family + decimal_text(tier as nat)).len() > family.len(),
        (family + decimal_text(tier as nat))[0] == family[0],
        family.len() > 1 ==> (family + decimal_text(tier as nat))[1] == family[1],
{
    let digits = decimal_text(tier as nat);
    let name = family + digits;
    lemma_decimal_text(tier as nat);
    lemma_parse_decimal_text(tier);
    assert(name.last() == digits.last());
    assert(is_digit(digits[digits.len() - 1]));
    lemma_trimmed_is_self(name);
    assert(name.take(family.len() as int) =~= family);
    assert(name.skip(family.len() as int) =~= digits);
}

impl ComponentKind {
    /// Reading a kind's canonical name gives the kind back.
    pub proof fn lemma_name_round_trip(self)
        ensures
            Self::spec_from_name(self.spec_canonical_name()) == Some(self),
    {
        reveal_strlit("Fuel");
        reveal_strlit("-1");
        reveal_strlit("Vent");
        reveal_strlit("Coolant");
        reveal_strlit("Capacitor");
        reveal_strlit("Reflector");
        reveal_strlit("Plate");
        reveal_strlit("Plating");
        reveal_strlit("Inlet");
        reveal_strlit("Outlet");
        reveal_strlit("Exchanger");
        reveal_strlit("Clock");
        reveal_strlit("GenericHeat");
        reveal_strlit("GenericPower");
        reveal_strlit("GenericInfinity");
        let name = self.spec_canonical_name();
        match self {
            ComponentKind::Fuel(fuel) => {
                fuel.lemma_name_round_trip();
                lemma_decimal_text(fuel.spec_grade() as nat);
                assert(name.last() == '1');
                assert(name[0] == 'F');
                lemma_trimmed_is_self(name);
            },
            ComponentKind::Vent { tier } => {
                lemma_tiered_name("Vent"@, tier);
                lemma_differs_at(name, "Fuel"@, 0);
            },
            ComponentKind::Coolant { tier } => {
                lemma_tiered_name("Coolant"@, tier);
                lemma_differs_at(name, "Fuel"@, 0);
                lemma_differs_at(name, "Vent"@, 0);
            },
            ComponentKind::Capacitor { tier } => {
                lemma_tiered_name("Capacitor"@, tier);
                lemma_differs_at(name, "Fuel"@, 0);
                lemma_differs_at(name, "Vent"@, 0);
                lemma_differs_at(name, "Coolant"@, 1);
            },
            ComponentKind::Reflector { tier } => {
                lemma_tiered_name("Reflector"@, tier);
                lemma_differs_at(name, "Fuel"@, 0);
                lemma_differs_at(name, "Vent"@, 0);
                lemma_differs_at(name, "Coolant"@, 0);
                lemma_differs_at(name, "Capacitor"@, 0);
            },
            ComponentKind::Plating { tier } => {
                lemma_tiered_name("Plate"@, tier);
                lemma_differs_at(name, "Fuel"@, 0);
                lemma_differs_at(name, "Vent"@, 0);
                lemma_differs_at(name, "Coolant"@, 0);
                lemma_differs_at(name, "Capacitor"@, 0);
                lemma_differs_at(name, "Reflector"@, 0);
            },
            ComponentKind::Inlet { tier } => {
                lemma_tiered_name("Inlet"@, tier);
                lemma_differs_at(name, "Fuel"@, 0);
                lemma_differs_at(name, "Vent"@, 0);
                lemma_differs_at(name, "Coolant"@, 0);
                lemma_differs_at(name, "Capacitor"@, 0);
                lemma_differs_at(name, "Reflector"@, 0);
                lemma_differs_at(name, "Plate"@, 0);
                lemma_differs_at(name, "Plating"@, 0);
            },
            ComponentKind::Outlet { tier } => {
                lemma_tiered_name("Outlet"@, tier);
                lemma_differs_at(name, "Fuel"@, 0);
                lemma_differs_at(name, "Vent"@, 0);
                lemma_differs_at(name, "Coolant"@, 0);
                lemma_differs_at(name, "Capacitor"@, 0);
                lemma_differs_at(name, "Reflector"@, 0);
                lemma_differs_at(name, "Plate"@, 0);
                lemma_differs_at(name, "Plating"@, 0);
                lemma_differs_at(name, "Inlet"@, 0);
            },
            ComponentKind::Exchanger { tier } => {
                lemma_tiered_name("Exchanger"@, tier);
                lemma_differs_at(name, "Fuel"@, 0);
                lemma_differs_at(name, "Vent"@, 0);
                lemma_differs_at(name, "Coolant"@, 0);
                lemma_differs_at(name, "Capacitor"@, 0);
                lemma_differs_at(name, "Reflector"@, 0);
                lemma_differs_at(name, "Plate"@, 0);
                lemma_differs_at(name, "Plating"@, 0);
                lemma_differs_at(name, "Inlet"@, 0);
                lemma_differs_at(name, "Outlet"@, 0);
            },
            ComponentKind::Clock => {
                lemma_trimmed_is_self(name);
                lemma_differs_at(name, "Fuel"@, 0);
                lemma_differs_at(name, "Vent"@, 0);
                lemma_differs_at(name, "Coolant"@, 1);
                lemma_differs_at(name, "Capacitor"@, 1);
                lemma_differs_at(name, "Reflector"@, 0);
                lemma_differs_at(name, "Plate"@, 0);
                lemma_differs_at(name, "Plating"@, 0);
                lemma_differs_at(name, "Inlet"@, 0);
                lemma_differs_at(name, "Outlet"@, 0);
                lemma_differs_at(name, "Exchanger"@, 0);
            },
            _ => {
                assert(name[0] == 'G');
                lemma_trimmed_is_self(name);
                lemma_differs_at(name, "Fuel"@, 0);
                lemma_differs_at(name, "Vent"@, 0);
                lemma_differs_at(name, "Coolant"@, 0);
                lemma_differs_at(name, "Capacitor"@, 0);
                lemma_differs_at(name, "Reflector"@, 0);
                lemma_differs_at(name, "Plate"@, 0);
                lemma_differs_at(name, "Plating"@, 0);
                lemma_differs_at(name, "Inlet"@, 0);
                lemma_differs_at(name, "Outlet"@, 0);
                lemma_differs_at(name, "Exchanger"@, 0);
                lemma_differs_at(name, "Clock"@, 0);
                if self is GenericPower {
                    lemma_differs_at(name, "GenericHeat"@, 7);
                }
                if self is GenericInfinity {
                    lemma_differs_at(name, "GenericHeat"@, 7);
                    lemma_differs_at(name, "GenericPower"@, 7);
                }
            },
        }
    }
}

} // verus!
