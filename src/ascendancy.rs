//! The ascendancies of the game, their names and their indices.
use vstd::prelude::*;

verus! {

/// Number of ascendancies this library knows.
pub const ASCENDANCY_COUNT: usize = 32;

/// An ascendancy: a named sub-tree gated behind a class choice.
#[derive(Debug, Clone, Copy, PartialEq, Eq, Structural, Hash)]
pub enum Ascendancy {
    Ascendant,
    Juggernaut,
    Berserker,
    Chieftain,
    Raider,
    Deadeye,
    Pathfinder,
    Occultist,
    Elementalist,
    Necromancer,
    Slayer,
    Gladiator,
    Champion,
    Inquisitor,
    Hierophant,
    Guardian,
    Assassin,
    Trickster,
    Saboteur,
    // Selectable by every class.
    Warden,
    Warlock,
    Primalist,
    // Later additions.
    Aul,
    Breachlord,
    Catarina,
    Delirious,
    Farrul,
    KingInTheMists,
    Lycia,
    Olroth,
    Oshabi,
    Trialmaster,
}

/// The position of an ascendancy in the list above.
pub open spec fn asc_index(a: Ascendancy) -> int {
    match a {
        Ascendancy::Ascendant => 0,
        Ascendancy::Juggernaut => 1,
        Ascendancy::Berserker => 2,
        Ascendancy::Chieftain => 3,
        Ascendancy::Raider => 4,
        Ascendancy::Deadeye => 5,
        Ascendancy::Pathfinder => 6,
        Ascendancy::Occultist => 7,
        Ascendancy::Elementalist => 8,
        Ascendancy::Necromancer => 9,
        Ascendancy::Slayer => 10,
        Ascendancy::Gladiator => 11,
        Ascendancy::Champion => 12,
        Ascendancy::Inquisitor => 13,
        Ascendancy::Hierophant => 14,
        Ascendancy::Guardian => 15,
        Ascendancy::Assassin => 16,
        Ascendancy::Trickster => 17,
        Ascendancy::Saboteur => 18,
        Ascendancy::Warden => 19,
        Ascendancy::Warlock => 20,
        Ascendancy::Primalist => 21,
        Ascendancy::Aul => 22,
        Ascendancy::Breachlord => 23,
        Ascendancy::Catarina => 24,
        Ascendancy::Delirious => 25,
        Ascendancy::Farrul => 26,
        Ascendancy::KingInTheMists => 27,
        Ascendancy::Lycia => 28,
        Ascendancy::Olroth => 29,
        Ascendancy::Oshabi => 30,
        Ascendancy::Trialmaster => 31,
    }
}

/// The ascendancy at a position of the list.
pub open spec fn asc_at(i: int) -> Ascendancy {
    if i <= 0 { Ascendancy::Ascendant }
    else if i == 1 { Ascendancy::Juggernaut }
    else if i == 2 { Ascendancy::Berserker }
    else if i == 3 { Ascendancy::Chieftain }
    else if i == 4 { Ascendancy::Raider }
    else if i == 5 { Ascendancy::Deadeye }
    else if i == 6 { Ascendancy::Pathfinder }
    else if i == 7 { Ascendancy::Occultist }
    else if i == 8 { Ascendancy::Elementalist }
    else if i == 9 { Ascendancy::Necromancer }
    else if i == 10 { Ascendancy::Slayer }
    else if i == 11 { Ascendancy::Gladiator }
    else if i == 12 { Ascendancy::Champion }
    else if i == 13 { Ascendancy::Inquisitor }
    else if i == 14 { Ascendancy::Hierophant }
    else if i == 15 { Ascendancy::Guardian }
    else if i == 16 { Ascendancy::Assassin }
    else if i == 17 { Ascendancy::Trickster }
    else if i == 18 { Ascendancy::Saboteur }
    else if i == 19 { Ascendancy::Warden }
    else if i == 20 { Ascendancy::Warlock }
    else if i == 21 { Ascendancy::Primalist }
    else if i == 22 { Ascendancy::Aul }
    else if i == 23 { Ascendancy::Breachlord }
    else if i == 24 { Ascendancy::Catarina }
    else if i == 25 { Ascendancy::Delirious }
    else if i == 26 { Ascendancy::Farrul }
    else if i == 27 { Ascendancy::KingInTheMists }
    else if i == 28 { Ascendancy::Lycia }
    else if i == 29 { Ascendancy::Olroth }
    else if i == 30 { Ascendancy::Oshabi }
    else { Ascendancy::Trialmaster }
}

/// The name under which an ascendancy appears in game data.
pub open spec fn name_of(a: Ascendancy) -> Seq<char> {
    match a {
        Ascendancy::Ascendant => "Ascendant"@,
        Ascendancy::Juggernaut => "Juggernaut"@,
        Ascendancy::Berserker => "Berserker"@,
        Ascendancy::Chieftain => "Chieftain"@,
        Ascendancy::Raider => "Raider"@,
        Ascendancy::Deadeye => "Deadeye"@,
        Ascendancy::Pathfinder => "Pathfinder"@,
        Ascendancy::Occultist => "Occultist"@,
        Ascendancy::Elementalist => "Elementalist"@,
        Ascendancy::Necromancer => "Necromancer"@,
        Ascendancy::Slayer => "Slayer"@,
        Ascendancy::Gladiator => "Gladiator"@,
        Ascendancy::Champion => "Champion"@,
        Ascendancy::Inquisitor => "Inquisitor"@,
        Ascendancy::Hierophant => "Hierophant"@,
        Ascendancy::Guardian => "Guardian"@,
        Ascendancy::Assassin => "Assassin"@,
        Ascendancy::Trickster => "Trickster"@,
        Ascendancy::Saboteur => "Saboteur"@,
        Ascendancy::Warden => "Warden"@,
        Ascendancy::Warlock => "Warlock"@,
        Ascendancy::Primalist => "Primalist"@,
        Ascendancy::Aul => "Aul"@,
        Ascendancy::Breachlord => "Breachlord"@,
        Ascendancy::Catarina => "Catarina"@,
        Ascendancy::Delirious => "Delirious"@,
        Ascendancy::Farrul => "Farrul"@,
        Ascendancy::KingInTheMists => "KingInTheMists"@,
        Ascendancy::Lycia => "Lycia"@,
        Ascendancy::Olroth => "Olroth"@,
        Ascendancy::Oshabi => "Oshabi"@,
        Ascendancy::Trialmaster => "Trialmaster"@,
    }
}

/// The first ascendancy, from position `i` on, whose name is `s`.
pub open spec fn parse_from(s: Seq<char>, i: int) -> Option<Ascendancy>
    decreases 32 - i,
{
    if i < 0 || i >= 32 {
        None
    } else if name_of(asc_at(i)) == s {
        Some(asc_at(i))
    } else {
        parse_from(s, i + 1)
    }
}

/// The ascendancy whose name is `s`, if any.
pub open spec fn parse_ascendancy(s: Seq<char>) -> Option<Ascendancy> {
    parse_from(s, 0)
}

/// Ascendancies that every class may pick, besides its own.
pub open spec fn is_alternate_spec(a: Ascendancy) -> bool {
    a == Ascendancy::Warden || a == Ascendancy::Warlock || a == Ascendancy::Primalist
}

impl Ascendancy {
    pub fn is_alternate(self) -> (r: bool)
        ensures
            r == is_alternate_spec(self),
    {
        matches!(self, Ascendancy::Warden | Ascendancy::Warlock | Ascendancy::Primalist)
    }

    /// The position of this ascendancy in the list.
    pub fn index(self) -> (r: usize)
        ensures
            r == asc_index(self),
            r < ASCENDANCY_COUNT,
            asc_at(r as int) == self,
    {
        match self {
            Ascendancy::Ascendant => 0,
            Ascendancy::Juggernaut => 1,
            Ascendancy::Berserker => 2,
            Ascendancy::Chieftain => 3,
            Ascendancy::Raider => 4,
            Ascendancy::Deadeye => 5,
            Ascendancy::Pathfinder => 6,
            Ascendancy::Occultist => 7,
            Ascendancy::Elementalist => 8,
            Ascendancy::Necromancer => 9,
            Ascendancy::Slayer => 10,
            Ascendancy::Gladiator => 11,
            Ascendancy::Champion => 12,
            Ascendancy::Inquisitor => 13,
            Ascendancy::Hierophant => 14,
            Ascendancy::Guardian => 15,
            Ascendancy::Assassin => 16,
            Ascendancy::Trickster => 17,
            Ascendancy::Saboteur => 18,
            Ascendancy::Warden => 19,
            Ascendancy::Warlock => 20,
            Ascendancy::Primalist => 21,
            Ascendancy::Aul => 22,
            Ascendancy::Breachlord => 23,
            Ascendancy::Catarina => 24,
            Ascendancy::Delirious => 25,
            Ascendancy::Farrul => 26,
            Ascendancy::KingInTheMists => 27,
            Ascendancy::Lycia => 28,
            Ascendancy::Olroth => 29,
            Ascendancy::Oshabi => 30,
            Ascendancy::Trialmaster => 31,
        }
    }

    /// The ascendancy at position `i` of the list.
    pub fn from_index(i: usize) -> (r: Ascendancy)
        requires
            i < ASCENDANCY_COUNT,
        ensures
            r == asc_at(i as int),
            asc_index(r) == i,
    {
        if i == 0 {
            Ascendancy::Ascendant
        } else if i == 1 {
            Ascendancy::Juggernaut
        } else if i == 2 {
            Ascendancy::Berserker
        } else if i == 3 {
            Ascendancy::Chieftain
        } else if i == 4 {
            Ascendancy::Raider
        } else if i == 5 {
            Ascendancy::Deadeye
        } else if i == 6 {
            Ascendancy::Pathfinder
        } else if i == 7 {
            Ascendancy::Occultist
        } else if i == 8 {
            Ascendancy::Elementalist
        } else if i == 9 {
            Ascendancy::Necromancer
        } else if i == 10 {
            Ascendancy::Slayer
        } else if i == 11 {
            Ascendancy::Gladiator
        } else if i == 12 {
            Ascendancy::Champion
        } else if i == 13 {
            Ascendancy::Inquisitor
        } else if i == 14 {
            Ascendancy::Hierophant
        } else if i == 15 {
            Ascendancy::Guardian
        } else if i == 16 {
            Ascendancy::Assassin
        } else if i == 17 {
            Ascendancy::Trickster
        } else if i == 18 {
            Ascendancy::Saboteur
        } else if i == 19 {
            Ascendancy::Warden
        } else if i == 20 {
            Ascendancy::Warlock
        } else if i == 21 {
            Ascendancy::Primalist
        } else if i == 22 {
            Ascendancy::Aul
        } else if i == 23 {
            Ascendancy::Breachlord
        } else if i == 24 {
            Ascendancy::Catarina
        } else if i == 25 {
            Ascendancy::Delirious
        } else if i == 26 {
            Ascendancy::Farrul
        } else if i == 27 {
            Ascendancy::KingInTheMists
        } else if i == 28 {
            Ascendancy::Lycia
        } else if i == 29 {
            Ascendancy::Olroth
        } else if i == 30 {
            Ascendancy::Oshabi
        } else {
            Ascendancy::Trialmaster
        }
    }

    /// The name under which this ascendancy appears in game data.
    pub fn as_str(self) -> (r: &'static str)
        ensures
            r@ == name_of(self),
    {
        match self {
            Ascendancy::Ascendant => "Ascendant",
            Ascendancy::Juggernaut => "Juggernaut",
            Ascendancy::Berserker => "Berserker",
            Ascendancy::Chieftain => "Chieftain",
            Ascendancy::Raider => "Raider",
            Ascendancy::Deadeye => "Deadeye",
            Ascendancy::Pathfinder => "Pathfinder",
            Ascendancy::Occultist => "Occultist",
            Ascendancy::Elementalist => "Elementalist",
            Ascendancy::Necromancer => "Necromancer",
            Ascendancy::Slayer => "Slayer",
            Ascendancy::Gladiator => "Gladiator",
            Ascendancy::Champion => "Champion",
            Ascendancy::Inquisitor => "Inquisitor",
            Ascendancy::Hierophant => "Hierophant",
            Ascendancy::Guardian => "Guardian",
            Ascendancy::Assassin => "Assassin",
            Ascendancy::Trickster => "Trickster",
            Ascendancy::Saboteur => "Saboteur",
            Ascendancy::Warden => "Warden",
            Ascendancy::Warlock => "Warlock",
            Ascendancy::Primalist => "Primalist",
            Ascendancy::Aul => "Aul",
            Ascendancy::Breachlord => "Breachlord",
            Ascendancy::Catarina => "Catarina",
            Ascendancy::Delirious => "Delirious",
            Ascendancy::Farrul => "Farrul",
            Ascendancy::KingInTheMists => "KingInTheMists",
            Ascendancy::Lycia => "Lycia",
            Ascendancy::Olroth => "Olroth",
            Ascendancy::Oshabi => "Oshabi",
            Ascendancy::Trialmaster => "Trialmaster",
        }
    }

    /// The ascendancy named `s`, if any.
    pub fn from_name(s: &String) -> (r: Option<Ascendancy>)
        ensures
            r == parse_ascendancy(s@),
    {
        let mut i: usize = 0;
        while i < ASCENDANCY_COUNT
            invariant
                i <= ASCENDANCY_COUNT,
                parse_ascendancy(s@) == parse_from(s@, i as int),
            decreases ASCENDANCY_COUNT - i,
        {
            let a = Ascendancy::from_index(i);
            let name = a.as_str().to_owned();
            if *s == name {
                return Some(a);
            }
            i = i + 1;
        }
        None
    }
}

} // verus!
