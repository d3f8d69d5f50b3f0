use vstd::prelude::*;
use vstd::string::StringExecFns;
use crate::modele::{HP_MAX, Joueur, Objet, ObjetInventaire};

verus! {

/// The fixed names and ids that the world content gives a meaning to.
pub struct Regles {
    /// Name of the mobile object that carries the player between locations.
    pub nom_bateau: String,
    /// Prefix of the id of a location's arrival sub-location.
    pub prefixe_entree: String,
    /// A consumable whose name contains this text is intoxicating.
    pub marque_ivresse: String,
    /// Placement given to an object handed to the player.
    pub marque_inventaire: String,
    /// Ids of the static objects that together open the finale.
    pub objets_quete: Vec<String>,
    pub lieu_final: String,
    pub sous_lieu_final: String,
}

/// The entity registry: every world entity, the single player, the rules, and
/// whether the finale has been reached.
pub struct Monde {
    pub objets: Vec<Objet>,
    pub joueur: Joueur,
    pub regles: Regles,
    pub quete_terminee: bool,
}

/// The id of an inventory item, whatever its kind.
pub open spec fn id_inv(item: ObjetInventaire) -> Seq<char> {
    match item {
        ObjetInventaire::ObjetStatique(o) => o.id@,
        ObjetInventaire::Aliment(a) => a.id@,
    }
}

/// Some item of the inventory, of either kind, has this id.
pub open spec fn possede(inv: Seq<ObjetInventaire>, id: Seq<char>) -> bool {
    exists|i: int| 0 <= i < inv.len() && #[trigger] id_inv(inv[i]) == id
}

pub open spec fn statique_d_id(item: ObjetInventaire, id: Seq<char>) -> bool {
    match item {
        ObjetInventaire::ObjetStatique(o) => o.id@ == id,
        ObjetInventaire::Aliment(_) => false,
    }
}

/// Some static object of the inventory has this id.
pub open spec fn possede_statique(inv: Seq<ObjetInventaire>, id: Seq<char>) -> bool {
    exists|i: int| 0 <= i < inv.len() && #[trigger] statique_d_id(inv[i], id)
}

/// Every quest id names a static object of the inventory.
pub open spec fn quete_complete(inv: Seq<ObjetInventaire>, quete: Seq<String>) -> bool {
    forall|k: int| 0 <= k < quete.len() ==> possede_statique(inv, #[trigger] quete[k]@)
}

impl Monde {
    /// The player's hit points are within `0..=HP_MAX`.
    pub open spec fn wf(&self) -> bool {
        self.joueur.hp <= HP_MAX
    }
}

/// Whether the quest monitor fires on this world: the finale has not been
/// reached yet and the inventory holds every quest object.
pub open spec fn quete_declenchee(m: Monde) -> bool {
    !m.quete_terminee && quete_complete(m.joueur.inventaire@, m.regles.objets_quete@)
}

/// `apres` is world `avant` with world entities `objets` and inventory `inv`,
/// after which the quest monitor ran if `controle` holds; `quete` tells
/// whether it fired.
pub open spec fn mis_a_jour(
    avant: Monde,
    apres: Monde,
    objets: Seq<Objet>,
    inv: Seq<ObjetInventaire>,
    controle: bool,
    quete: bool,
) -> bool {
    &&& apres.objets@ == objets
    &&& apres.joueur.inventaire@ == inv
    &&& quete == (controle && !avant.quete_terminee && quete_complete(inv, avant.regles.objets_quete@))
    &&& apres.quete_terminee == (avant.quete_terminee || quete)
    &&& apres.regles == avant.regles
    &&& apres.joueur.position == if quete {
        avant.regles.lieu_final
    } else {
        avant.joueur.position
    }
    &&& apres.joueur.sous_position == if quete {
        avant.regles.sous_lieu_final
    } else {
        avant.joueur.sous_position
    }
    &&& apres.joueur.nom == avant.joueur.nom
    &&& apres.joueur.fruit_de_demon == avant.joueur.fruit_de_demon
    &&& apres.joueur.puissance == avant.joueur.puissance
    &&& apres.joueur.hp == avant.joueur.hp
}

/// Whether an item of `inv` has the id `id`, of either kind.
pub fn possede_objet(inv: &Vec<ObjetInventaire>, id: &String) -> (r: bool)
    ensures
        r == possede(inv@, id@),
{
    let mut i: usize = 0;
    while i < inv.len()
        invariant
            i <= inv@.len(),
            forall|j: int| 0 <= j < i ==> id_inv(#[trigger] inv@[j]) != id@,
        decreases inv@.len() - i,
    {
        let trouve = match &inv[i] {
            ObjetInventaire::ObjetStatique(o) => o.id == *id,
            ObjetInventaire::Aliment(a) => a.id == *id,
        };
        if trouve {
            assert(id_inv(inv@[i as int]) == id@);
            return true;
        }
        i += 1;
    }
    false
}

/// Whether a static object of `inv` has the id `id`.
pub fn possede_objet_statique(inv: &Vec<ObjetInventaire>, id: &String) -> (r: bool)
    ensures
        r == possede_statique(inv@, id@),
{
    let mut i: usize = 0;
    while i < inv.len()
        invariant
            i <= inv@.len(),
            forall|j: int| 0 <= j < i ==> !statique_d_id(#[trigger] inv@[j], id@),
        decreases inv@.len() - i,
    {
        let trouve = match &inv[i] {
            ObjetInventaire::ObjetStatique(o) => o.id == *id,
            ObjetInventaire::Aliment(_) => false,
        };
        if trouve {
            assert(statique_d_id(inv@[i as int], id@));
            return true;
        }
        i += 1;
    }
    false
}

/// The world after the quest monitor has run on it.
pub open spec fn apres_quete(m: Monde) -> Monde {
    if quete_declenchee(m) {
        Monde {
            joueur: Joueur {
                position: m.regles.lieu_final,
                sous_position: m.regles.sous_lieu_final,
                ..m.joueur
            },
            quete_terminee: true,
            ..m
        }
    } else {
        m
    }
}

/// Quest monitor. When it fires, the player is moved to the finale and the
/// world records that the finale was reached, so it never fires twice.
/// Returns whether it fired.
pub fn verifier_quete(monde: &mut Monde) -> (r: bool)
    ensures
        r == quete_declenchee(*old(monde)),
        *final(monde) == apres_quete(*old(monde)),
{
    if monde.quete_terminee {
        return false;
    }
    let mut k: usize = 0;
    while k < monde.regles.objets_quete.len()
        invariant
            k <= monde.regles.objets_quete@.len(),
            forall|j: int| 0 <= j < k ==> possede_statique(
                monde.joueur.inventaire@,
                #[trigger] monde.regles.objets_quete@[j]@,
            ),
        decreases monde.regles.objets_quete@.len() - k,
    {
        if !possede_objet_statique(&monde.joueur.inventaire, &monde.regles.objets_quete[k]) {
            return false;
        }
        k += 1;
    }
    monde.joueur.position = monde.regles.lieu_final.clone();
    monde.joueur.sous_position = monde.regles.sous_lieu_final.clone();
    monde.quete_terminee = true;
    true
}

impl Regles {
    /// The rules of the standard world content.
    pub fn standard() -> (r: Regles)
        ensures
            r.nom_bateau@ == "Bateau"@,
            r.prefixe_entree@ == "SE"@,
            r.marque_ivresse@ == "Saké"@,
            r.marque_inventaire@ == "inventaire"@,
            r.objets_quete@.len() == 4,
            r.objets_quete@[0]@ == "poneglyphe1"@,
            r.objets_quete@[1]@ == "poneglyphe2"@,
            r.objets_quete@[2]@ == "poneglyphe3"@,
            r.objets_quete@[3]@ == "poneglyphe4"@,
            r.lieu_final@ == "piece6"@,
            r.sous_lieu_final@ == "SELAUGHTALE"@,
    {
        let mut objets_quete: Vec<String> = Vec::new();
        objets_quete.push(String::from_str("poneglyphe1"));
        objets_quete.push(String::from_str("poneglyphe2"));
        objets_quete.push(String::from_str("poneglyphe3"));
        objets_quete.push(String::from_str("poneglyphe4"));
        Regles {
            nom_bateau: String::from_str("Bateau"),
            prefixe_entree: String::from_str("SE"),
            marque_ivresse: String::from_str("Saké"),
            marque_inventaire: String::from_str("inventaire"),
            objets_quete,
            lieu_final: String::from_str("piece6"),
            sous_lieu_final: String::from_str("SELAUGHTALE"),
        }
    }
}

#[derive(Debug, Clone, Copy, PartialEq, Eq, Structural)]
pub enum ErreurChargement {
    /// The player's hit points exceed `HP_MAX`.
    HpHorsLimites,
}

impl Monde {
    /// Builds the registry from loaded entities, the player and the rules.
    pub fn nouveau(objets: Vec<Objet>, joueur: Joueur, regles: Regles) -> (r: Result<Monde, ErreurChargement>)
        ensures
            match r {
                Ok(m) => {
                    &&& joueur.hp <= HP_MAX
                    &&& m.wf()
                    &&& m.objets == objets
                    &&& m.joueur == joueur
                    &&& m.regles == regles
                    &&& !m.quete_terminee
                },
                Err(e) => e == ErreurChargement::HpHorsLimites && joueur.hp > HP_MAX,
            },
    {
        if joueur.hp > HP_MAX {
            return Err(ErreurChargement::HpHorsLimites);
        }
        Ok(Monde { objets, joueur, regles, quete_terminee: false })
    }
}

} // verus!
