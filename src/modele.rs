use vstd::prelude::*;
use vstd::string::StrSliceExecFns;

verus! {

/// Highest hit-point value a player can have.
pub const HP_MAX: u32 = 100;

/// One of the four cardinal labels of a graph edge.
#[derive(Debug, Clone, Copy, PartialEq, Eq, Structural)]
pub enum Orientation {
    N,
    S,
    E,
    O,
}

/// The direction a one-letter text names: `N`, `S`, `E` or `O`.
pub open spec fn orientation_de(s: Seq<char>) -> Option<Orientation> {
    if s.len() != 1 {
        None
    } else if s[0] == 'N' {
        Some(Orientation::N)
    } else if s[0] == 'S' {
        Some(Orientation::S)
    } else if s[0] == 'E' {
        Some(Orientation::E)
    } else if s[0] == 'O' {
        Some(Orientation::O)
    } else {
        None
    }
}

impl Orientation {
    /// Reads a direction from its letter.
    pub fn lire(s: &str) -> (r: Option<Orientation>)
        ensures
            r == orientation_de(s@),
    {
        if s.unicode_len() != 1 {
            return None;
        }
        let c = s.get_char(0);
        if c == 'N' {
            Some(Orientation::N)
        } else if c == 'S' {
            Some(Orientation::S)
        } else if c == 'E' {
            Some(Orientation::E)
        } else if c == 'O' {
            Some(Orientation::O)
        } else {
            None
        }
    }
}

/// A labelled edge to another location or sub-location.
#[derive(Debug, Clone)]
pub struct Connection {
    pub orientation: Orientation,
    pub destination: String,
}

#[derive(Debug, Clone)]
pub struct ObjetStatique {
    pub id: String,
    pub nom: String,
    pub description: String,
    pub position: String,
    pub sous_position: String,
}

/// A consumable; `hp` is the number of hit points it restores.
#[derive(Debug, Clone)]
pub struct Aliment {
    pub id: String,
    pub nom: String,
    pub description: String,
    pub position: String,
    pub sous_position: String,
    pub hp: u32,
}

#[derive(Debug, Clone)]
pub struct ObjetMobile {
    pub id: String,
    pub nom: String,
    pub description: String,
    pub position: String,
    pub sous_position: String,
}

#[derive(Debug, Clone)]
pub struct Attaque {
    pub id: String,
    pub nom: String,
    pub description: String,
    pub puissance: u32,
}

/// A power-granting fruit; `attaque` lists the ids of the attacks it grants.
#[derive(Debug, Clone)]
pub struct FruitDuDemon {
    pub id: String,
    pub nom: String,
    pub description: String,
    pub sous_position: String,
    pub pouvoir: String,
    pub position: String,
    pub attaque: Vec<String>,
}

/// An item held by the player, tagged by the kind it had in the world.
#[derive(Debug, Clone)]
pub enum ObjetInventaire {
    ObjetStatique(ObjetStatique),
    Aliment(Aliment),
}

/// The player. `hp` stays within `0..=HP_MAX`.
#[derive(Debug, Clone)]
pub struct Joueur {
    pub nom: String,
    pub fruit_de_demon: Option<FruitDuDemon>,
    pub position: String,
    pub sous_position: String,
    pub inventaire: Vec<ObjetInventaire>,
    pub puissance: u32,
    pub hp: u32,
}

/// Fields shared by every non-player character.
#[derive(Debug, Clone)]
pub struct Pnj {
    pub nom: String,
    pub description: String,
    pub position: String,
    pub sous_position: String,
    pub inventaire: Vec<String>,
}

/// The behaviour of a non-player character.
#[derive(Debug, Clone)]
pub enum PnjType {
    Ennemi { puissance: u32, hp: u32, attaques: Vec<String>, required_items: Vec<String> },
    Gentil { dialogue_special: Option<String> },
    Entraineur { competence: String, bonus_puissance: u32, niveau_requis: u32 },
}

#[derive(Debug, Clone)]
pub struct PnjAvecType {
    pub pnj: Pnj,
    pub type_de_pnj: PnjType,
}

/// A top-level node of the map. An empty `required_key` means no key is needed.
#[derive(Debug, Clone)]
pub struct Lieu {
    pub id: String,
    pub nom: String,
    pub description: String,
    pub connections: Vec<Connection>,
    pub required_key: String,
}

/// A node nested in the location whose id is `position`.
#[derive(Debug, Clone)]
pub struct SousLieu {
    pub id: String,
    pub nom: String,
    pub position: String,
    pub description: String,
    pub connections: Vec<Connection>,
}

/// Any entity of the world other than the player.
#[derive(Debug, Clone)]
pub enum Objet {
    ObjetMobile(ObjetMobile),
    ObjetStatique(ObjetStatique),
    PnjAvecType(PnjAvecType),
    FruitDuDemon(FruitDuDemon),
    Aliment(Aliment),
    SousLieu(SousLieu),
    Lieu(Lieu),
    Attaque(Attaque),
}

impl PnjAvecType {
    /// A hostile character is defeated once its hit points reach zero.
    pub open spec fn vaincu(&self) -> bool {
        match self.type_de_pnj {
            PnjType::Ennemi { hp, .. } => hp == 0,
            _ => false,
        }
    }

    pub fn est_vaincu(&self) -> (r: bool)
        ensures
            r == self.vaincu(),
    {
        match &self.type_de_pnj {
            PnjType::Ennemi { hp, .. } => *hp == 0,
            _ => false,
        }
    }
}

/// Index of the first element of `s` that satisfies `p`.
pub open spec fn premier<T>(s: Seq<T>, p: spec_fn(T) -> bool) -> Option<int>
    decreases s.len(),
{
    if s.len() == 0 {
        None
    } else if p(s[0]) {
        Some(0)
    } else {
        match premier(s.drop_first(), p) {
            Some(k) => Some(k + 1),
            None => None,
        }
    }
}

/// When no element before `i` satisfies `p`, the first one is at `i` if
/// `s[i]` does, and there is none if `i` is the length.
pub proof fn lemma_premier<T>(s: Seq<T>, p: spec_fn(T) -> bool, i: int)
    requires
        0 <= i <= s.len(),
        forall|j: int| 0 <= j < i ==> !p(#[trigger] s[j]),
    ensures
        i < s.len() && p(s[i]) ==> premier(s, p) == Some(i),
        i == s.len() ==> premier(s, p) == None::<int>,
    decreases i,
{
    if i > 0 {
        let t = s.drop_first();
        assert forall|j: int| 0 <= j < i - 1 implies !p(#[trigger] t[j]) by {
            assert(t[j] == s[j + 1]);
        }
        lemma_premier(t, p, i - 1);
        assert(!p(s[0]));
    }
}

/// The first element satisfying `p` is in range and satisfies it.
pub proof fn lemma_premier_borne<T>(s: Seq<T>, p: spec_fn(T) -> bool)
    ensures
        match premier(s, p) {
            Some(k) => 0 <= k < s.len() && p(s[k]),
            None => forall|j: int| 0 <= j < s.len() ==> !p(#[trigger] s[j]),
        },
    decreases s.len(),
{
    if s.len() > 0 {
        let t = s.drop_first();
        lemma_premier_borne(t, p);
        if !p(s[0]) && premier(t, p) is None {
            assert forall|j: int| 0 <= j < s.len() implies !p(#[trigger] s[j]) by {
                if j > 0 {
                    assert(s[j] == t[j - 1]);
                }
            }
        }
    }
}

} // verus!
