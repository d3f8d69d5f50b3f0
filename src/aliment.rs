use vstd::prelude::*;
use vstd::string::StringExecFns;
use crate::modele::{HP_MAX, Joueur, ObjetInventaire};
use crate::monde::Monde;
use crate::texte::{contient, contient_texte, en_minuscules, minuscules};

verus! {

/// Power gained while intoxicated.
pub const BONUS_IVRESSE: u32 = 15;

/// Time allowed for the balance test, in milliseconds.
pub const DELAI_EQUILIBRE_MS: u64 = 5000;

#[derive(Debug, Clone, Copy, PartialEq, Eq, Structural)]
pub enum ErreurConsommation {
    /// The player's hit points are already at the cap.
    PleineSante,
    /// The inventory holds no consumable.
    AucunAliment,
    /// The chosen inventory index holds no consumable.
    ChoixInvalide,
}

#[derive(Debug, Clone, Copy, PartialEq, Eq, Structural)]
pub struct Consommation {
    pub hp_gagnes: u32,
    /// The consumable is intoxicating: `effet_ivresse` follows.
    pub ivresse: bool,
}

/// Some item of the inventory is a consumable.
pub open spec fn a_un_aliment(inv: Seq<ObjetInventaire>) -> bool {
    exists|i: int| 0 <= i < inv.len() && #[trigger] inv[i] is Aliment
}

/// What eating the consumable at inventory index `choix` does to world `avant`.
pub open spec fn repas(avant: Monde, apres: Monde, choix: int, r: Result<Consommation, ErreurConsommation>) -> bool {
    let j = avant.joueur;
    let inv = j.inventaire@;
    if j.hp >= HP_MAX {
        r == Err::<Consommation, ErreurConsommation>(ErreurConsommation::PleineSante) && apres == avant
    } else if !a_un_aliment(inv) {
        r == Err::<Consommation, ErreurConsommation>(ErreurConsommation::AucunAliment) && apres == avant
    } else if !(0 <= choix < inv.len() && inv[choix] is Aliment) {
        r == Err::<Consommation, ErreurConsommation>(ErreurConsommation::ChoixInvalide) && apres == avant
    } else {
        match inv[choix] {
            ObjetInventaire::Aliment(a) => {
                let hp = if j.hp + a.hp > HP_MAX {
                    HP_MAX as int
                } else {
                    j.hp + a.hp
                };
                &&& apres.joueur.inventaire@ == inv.remove(choix)
                &&& apres.joueur == (Joueur { hp: hp as u32, inventaire: apres.joueur.inventaire, ..j })
                &&& apres.objets == avant.objets
                &&& apres.regles == avant.regles
                &&& apres.quete_terminee == avant.quete_terminee
                &&& r == Ok::<Consommation, ErreurConsommation>(
                    Consommation { hp_gagnes: (hp - j.hp) as u32, ivresse: contient(a.nom@, avant.regles.marque_ivresse@) },
                )
            },
            _ => false,
        }
    }
}

/// Eats the consumable at index `choix` of the inventory: hit points grow by
/// what it restores, capped at `HP_MAX`, and it leaves the inventory.
pub fn consommer_aliment(monde: &mut Monde, choix: usize) -> (r: Result<Consommation, ErreurConsommation>)
    requires
        old(monde).wf(),
    ensures
        final(monde).wf(),
        repas(*old(monde), *final(monde), choix as int, r),
{
    if monde.joueur.hp >= HP_MAX {
        return Err(ErreurConsommation::PleineSante);
    }
    let mut present = false;
    let mut i: usize = 0;
    while i < monde.joueur.inventaire.len()
        invariant
            i <= monde.joueur.inventaire@.len(),
            present <==> exists|x: int| 0 <= x < i && #[trigger] monde.joueur.inventaire@[x] is Aliment,
        decreases monde.joueur.inventaire@.len() - i,
    {
        match &monde.joueur.inventaire[i] {
            ObjetInventaire::Aliment(_) => {
                present = true;
            },
            _ => {},
        }
        i += 1;
    }
    if !present {
        return Err(ErreurConsommation::AucunAliment);
    }
    if choix >= monde.joueur.inventaire.len() {
        return Err(ErreurConsommation::ChoixInvalide);
    }
    match &monde.joueur.inventaire[choix] {
        ObjetInventaire::Aliment(_) => {},
        _ => {
            return Err(ErreurConsommation::ChoixInvalide);
        },
    }
    let item = monde.joueur.inventaire.remove(choix);
    match item {
        ObjetInventaire::Aliment(a) => {
            let avant = monde.joueur.hp;
            let total = avant as u64 + a.hp as u64;
            let hp = if total > HP_MAX as u64 {
                HP_MAX
            } else {
                total as u32
            };
            monde.joueur.hp = hp;
            let ivresse = contient_texte(&a.nom, &monde.regles.marque_ivresse);
            Ok(Consommation { hp_gagnes: hp - avant, ivresse })
        },
        autre => {
            assert(false);
            monde.joueur.inventaire.insert(choix, autre);
            Err(ErreurConsommation::ChoixInvalide)
        },
    }
}

/// Intoxication: the player's power grows by `BONUS_IVRESSE`, saturating at
/// the largest `u32`.
pub fn effet_ivresse(monde: &mut Monde)
    requires
        old(monde).wf(),
    ensures
        final(monde).wf(),
        *final(monde) == (Monde {
            joueur: Joueur {
                puissance: if old(monde).joueur.puissance + BONUS_IVRESSE > u32::MAX {
                    u32::MAX
                } else {
                    (old(monde).joueur.puissance + BONUS_IVRESSE) as u32
                },
                ..old(monde).joueur
            },
            ..*old(monde)
        }),
{
    monde.joueur.puissance = monde.joueur.puissance.saturating_add(BONUS_IVRESSE);
}

/// Whether a lower-case answer given after `duree_ms` passes the balance test.
pub fn equilibre_tenu(reponse: &String, duree_ms: u64) -> (r: bool)
    ensures
        r == (reponse@ == "stable"@ && duree_ms < DELAI_EQUILIBRE_MS),
{
    let attendu = String::from_str("stable");
    *reponse == attendu && duree_ms < DELAI_EQUILIBRE_MS
}

/// The balance test that follows intoxication: it is passed when the
/// answer, in any case, is "stable" and came within `DELAI_EQUILIBRE_MS`.
/// A failed test costs a tenth of the hit points, rounded down to the hit
/// points kept. Returns whether it was passed.
pub fn epreuve_equilibre(monde: &mut Monde, reponse: &str, duree_ms: u64) -> (r: bool)
    requires
        old(monde).wf(),
    ensures
        final(monde).wf(),
        r == (minuscules(reponse@) == "stable"@ && duree_ms < DELAI_EQUILIBRE_MS),
        r ==> *final(monde) == *old(monde),
        !r ==> *final(monde) == (Monde {
            joueur: Joueur { hp: (old(monde).joueur.hp * 9 / 10) as u32, ..old(monde).joueur },
            ..*old(monde)
        }),
{
    let reponse = en_minuscules(reponse);
    if equilibre_tenu(&reponse, duree_ms) {
        return true;
    }
    monde.joueur.hp = monde.joueur.hp * 9 / 10;
    false
}

} // verus!
