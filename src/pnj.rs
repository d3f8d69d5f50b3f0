use vstd::prelude::*;
use crate::modele::{Joueur, Objet, ObjetInventaire, Pnj, PnjAvecType, PnjType};
use crate::monde::{Monde, possede, possede_objet};
use crate::capture::{chercher_statique, en_inventaire, index_statique, prendre_statique};
use crate::combat::{EtatCombat, debut, demarrer_combat, erreur_demarrage, moins_plancher, pnj_a};
use crate::modele::{lemma_premier, lemma_premier_borne, premier};
use crate::texte::{en_minuscules, minuscules};

verus! {

/// Hit points lost when facing a hostile character without its required items.
pub const PENALITE_EQUIPEMENT: u32 = 10;

/// What an interaction with a character did.
#[derive(Debug, Clone, Copy, PartialEq, Eq, Structural)]
pub enum Interaction {
    /// The method does not fit the character's behaviour.
    MauvaisType,
    /// The hostile character is already defeated: nothing happens.
    DejaVaincu,
    /// The player holds every required item: the combat resolver takes over.
    Combat,
    /// An item was missing: the player lost hit points and no combat took place.
    EquipementManquant,
    /// The offered object, found at `index_monde` of the world, went to the player.
    Cadeau { index_monde: usize },
    CadeauRefuse,
    /// The character holds an object id that no world static object has.
    CadeauIntrouvable,
    RienAOffrir,
    /// The player's power grew by the trainer's bonus.
    Entraine,
    EntrainementRefuse,
    /// The player's hit points are below the trainer's threshold.
    PasAssezFort,
}

/// Every id of `ids` names an inventory item.
pub open spec fn tous_possedes(inv: Seq<ObjetInventaire>, ids: Seq<String>) -> bool {
    forall|k: int| 0 <= k < ids.len() ==> possede(inv, #[trigger] ids[k]@)
}

/// What interacting with character `p` does, given whether the player
/// accepts what is offered: `q` is the character afterwards, `o`/`o2` the
/// rest of the world and `j`/`j2` the player before and after.
pub open spec fn effet(
    p: PnjAvecType,
    q: PnjAvecType,
    o: Seq<Objet>,
    o2: Seq<Objet>,
    j: Joueur,
    j2: Joueur,
    marque: String,
    accepte: bool,
    r: Interaction,
) -> bool {
    let inchange = q == p && o2 == o && j2 == j;
    match p.type_de_pnj {
        PnjType::Ennemi { hp, required_items, .. } => if hp == 0 {
            r == Interaction::DejaVaincu && inchange
        } else if tous_possedes(j.inventaire@, required_items@) {
            r == Interaction::Combat && inchange
        } else {
            &&& r == Interaction::EquipementManquant
            &&& q == p
            &&& o2 == o
            &&& j2 == (Joueur { hp: moins_plancher(j.hp as int, PENALITE_EQUIPEMENT as int) as u32, ..j })
        },
        PnjType::Gentil { .. } => if p.pnj.inventaire@.len() == 0 {
            r == Interaction::RienAOffrir && inchange
        } else {
            match index_statique(o, p.pnj.inventaire@[0]@) {
                None => r == Interaction::CadeauIntrouvable && inchange,
                Some(k) => if !accepte {
                    r == Interaction::CadeauRefuse && inchange
                } else {
                    &&& r == (Interaction::Cadeau { index_monde: k as usize })
                    &&& o2 == o.remove(k)
                    &&& j2.inventaire@ == j.inventaire@.push(en_inventaire(o[k], marque))
                    &&& j2 == (Joueur { inventaire: j2.inventaire, ..j })
                    &&& q.pnj.inventaire@ == p.pnj.inventaire@.remove(0)
                    &&& q == (PnjAvecType { pnj: Pnj { inventaire: q.pnj.inventaire, ..p.pnj }, ..p })
                },
            }
        },
        PnjType::Entraineur { bonus_puissance, niveau_requis, .. } => if j.hp < niveau_requis {
            r == Interaction::PasAssezFort && inchange
        } else if !accepte {
            r == Interaction::EntrainementRefuse && inchange
        } else {
            &&& r == Interaction::Entraine
            &&& q == p
            &&& o2 == o
            &&& j2 == (Joueur {
                puissance: if j.puissance + bonus_puissance > u32::MAX {
                    u32::MAX
                } else {
                    (j.puissance + bonus_puissance) as u32
                },
                ..j
            })
        },
    }
}

/// `apres` is `avant` with only the world entities and the player changed.
pub open spec fn meme_cadre(avant: Monde, apres: Monde) -> bool {
    apres.regles == avant.regles && apres.quete_terminee == avant.quete_terminee
}

fn tous_presents(inv: &Vec<ObjetInventaire>, ids: &Vec<String>) -> (r: bool)
    ensures
        r == tous_possedes(inv@, ids@),
{
    let mut k: usize = 0;
    while k < ids.len()
        invariant
            k <= ids@.len(),
            forall|x: int| 0 <= x < k ==> possede(inv@, #[trigger] ids@[x]@),
        decreases ids@.len() - k,
    {
        if !possede_objet(inv, &ids[k]) {
            return false;
        }
        k += 1;
    }
    true
}

impl PnjAvecType {
    /// A hostile character: an already defeated one does nothing; without
    /// every required item the player loses hit points; otherwise combat.
    /// `monde` is the world without this character.
    pub fn interact_as_ennemi(&mut self, monde: &mut Monde) -> (r: Interaction)
        requires
            old(monde).wf(),
        ensures
            final(monde).wf(),
            meme_cadre(*old(monde), *final(monde)),
            old(self).type_de_pnj is Ennemi ==> effet(
                *old(self),
                *final(self),
                old(monde).objets@,
                final(monde).objets@,
                old(monde).joueur,
                final(monde).joueur,
                old(monde).regles.marque_inventaire,
                false,
                r,
            ),
            !(old(self).type_de_pnj is Ennemi) ==> r == Interaction::MauvaisType && *final(self) == *old(self)
                && *final(monde) == *old(monde),
    {
        match &self.type_de_pnj {
            PnjType::Ennemi { hp, required_items, .. } => {
                if *hp == 0 {
                    return Interaction::DejaVaincu;
                }
                if tous_presents(&monde.joueur.inventaire, required_items) {
                    return Interaction::Combat;
                }
                let h = monde.joueur.hp;
                monde.joueur.hp = if h >= PENALITE_EQUIPEMENT {
                    h - PENALITE_EQUIPEMENT
                } else {
                    0
                };
                Interaction::EquipementManquant
            },
            _ => Interaction::MauvaisType,
        }
    }

    /// A friendly character offers the first object of its inventory, found
    /// among the world's static objects; if the player accepts, it leaves
    /// the world and the character's inventory for the player's.
    pub fn interact_as_gentil(&mut self, monde: &mut Monde, accepte: bool) -> (r: Interaction)
        requires
            old(monde).wf(),
        ensures
            final(monde).wf(),
            meme_cadre(*old(monde), *final(monde)),
            old(self).type_de_pnj is Gentil ==> effet(
                *old(self),
                *final(self),
                old(monde).objets@,
                final(monde).objets@,
                old(monde).joueur,
                final(monde).joueur,
                old(monde).regles.marque_inventaire,
                accepte,
                r,
            ),
            !(old(self).type_de_pnj is Gentil) ==> r == Interaction::MauvaisType && *final(self) == *old(self)
                && *final(monde) == *old(monde),
    {
        match &self.type_de_pnj {
            PnjType::Gentil { .. } => {},
            _ => {
                return Interaction::MauvaisType;
            },
        }
        if self.pnj.inventaire.len() == 0 {
            return Interaction::RienAOffrir;
        }
        let k = match chercher_statique(&monde.objets, &self.pnj.inventaire[0]) {
            Some(k) => k,
            None => {
                return Interaction::CadeauIntrouvable;
            },
        };
        if !accepte {
            return Interaction::CadeauRefuse;
        }
        proof {
            crate::capture::lemma_index_statique_borne(monde.objets@, self.pnj.inventaire@[0]@);
        }
        prendre_statique(&mut monde.objets, &mut monde.joueur.inventaire, k, &monde.regles.marque_inventaire);
        self.pnj.inventaire.remove(0);
        Interaction::Cadeau { index_monde: k }
    }

    /// A trainer raises the player's power by its bonus (saturating at the
    /// largest `u32`) if the player's hit points reach its threshold and the
    /// player accepts.
    pub fn interact_as_entraineur(&mut self, monde: &mut Monde, accepte: bool) -> (r: Interaction)
        requires
            old(monde).wf(),
        ensures
            final(monde).wf(),
            meme_cadre(*old(monde), *final(monde)),
            old(self).type_de_pnj is Entraineur ==> effet(
                *old(self),
                *final(self),
                old(monde).objets@,
                final(monde).objets@,
                old(monde).joueur,
                final(monde).joueur,
                old(monde).regles.marque_inventaire,
                accepte,
                r,
            ),
            !(old(self).type_de_pnj is Entraineur) ==> r == Interaction::MauvaisType && *final(self)
                == *old(self) && *final(monde) == *old(monde),
    {
        match &self.type_de_pnj {
            PnjType::Entraineur { bonus_puissance, niveau_requis, .. } => {
                if monde.joueur.hp < *niveau_requis {
                    return Interaction::PasAssezFort;
                }
                if !accepte {
                    return Interaction::EntrainementRefuse;
                }
                monde.joueur.puissance = monde.joueur.puissance.saturating_add(*bonus_puissance);
                Interaction::Entraine
            },
            _ => Interaction::MauvaisType,
        }
    }

    /// Routes an interaction to the behaviour of the character. `monde` is
    /// the world without this character; `accepte` answers what a friendly
    /// character or a trainer offers.
    pub fn interact_with_player(&mut self, monde: &mut Monde, accepte: bool) -> (r: Interaction)
        requires
            old(monde).wf(),
        ensures
            final(monde).wf(),
            meme_cadre(*old(monde), *final(monde)),
            effet(
                *old(self),
                *final(self),
                old(monde).objets@,
                final(monde).objets@,
                old(monde).joueur,
                final(monde).joueur,
                old(monde).regles.marque_inventaire,
                accepte,
                r,
            ),
    {
        match &self.type_de_pnj {
            PnjType::Ennemi { .. } => self.interact_as_ennemi(monde),
            PnjType::Gentil { .. } => self.interact_as_gentil(monde, accepte),
            PnjType::Entraineur { .. } => self.interact_as_entraineur(monde, accepte),
        }
    }
}

impl PnjAvecType {
    /// World index of the object a friendly character would offer.
    pub fn offre(&self, objets: &Vec<Objet>) -> (r: Option<usize>)
        ensures
            r == offre_de(*self, objets@),
    {
        match &self.type_de_pnj {
            PnjType::Gentil { .. } => {
                if self.pnj.inventaire.len() == 0 {
                    None
                } else {
                    chercher_statique(objets, &self.pnj.inventaire[0])
                }
            },
            _ => None,
        }
    }

    /// Whether interacting with this character asks the player a yes/no
    /// question: a friendly one with an object to offer, or a trainer whose
    /// threshold the player's hit points reach.
    pub fn demande_confirmation(&self, joueur: &Joueur, objets: &Vec<Objet>) -> (r: bool)
        ensures
            r == match self.type_de_pnj {
                PnjType::Gentil { .. } => offre_de(*self, objets@) is Some,
                PnjType::Entraineur { niveau_requis, .. } => joueur.hp >= niveau_requis,
                _ => false,
            },
    {
        match &self.type_de_pnj {
            PnjType::Gentil { .. } => self.offre(objets).is_some(),
            PnjType::Entraineur { niveau_requis, .. } => joueur.hp >= *niveau_requis,
            _ => false,
        }
    }
}

/// World index of the object a friendly character would offer.
pub open spec fn offre_de(p: PnjAvecType, objets: Seq<Objet>) -> Option<usize> {
    match p.type_de_pnj {
        PnjType::Gentil { .. } => if p.pnj.inventaire@.len() == 0 {
            None
        } else {
            match index_statique(objets, p.pnj.inventaire@[0]@) {
                Some(k) => Some(k as usize),
                None => None,
            }
        },
        _ => None,
    }
}

#[derive(Debug, Clone, Copy, PartialEq, Eq, Structural)]
pub enum ErreurInteraction {
    /// No character of that name stands at the player's place.
    PasIci,
}

/// The outcome of `interact`.
pub struct Rencontre {
    /// Index of the character in the world afterwards.
    pub index: usize,
    pub interaction: Interaction,
    /// The combat that started, when the interaction led to one that can run.
    pub combat: Option<EtatCombat>,
}

/// `o` is a character whose lower-case name is `nom` standing at `(pos, sous)`.
pub open spec fn est_pnj_ici(o: Objet, nom: Seq<char>, pos: Seq<char>, sous: Seq<char>) -> bool {
    match o {
        Objet::PnjAvecType(p) => minuscules(p.pnj.nom@) == nom && p.pnj.position@ == pos && p.pnj.sous_position@
            == sous,
        _ => false,
    }
}

pub open spec fn pred_pnj_ici(nom: Seq<char>, pos: Seq<char>, sous: Seq<char>) -> spec_fn(Objet) -> bool {
    |o: Objet| est_pnj_ici(o, nom, pos, sous)
}

/// Index of the first character at `(pos, sous)` whose lower-case name is
/// `nom`, itself in lower case.
pub fn chercher_pnj(objets: &Vec<Objet>, nom: &String, pos: &String, sous: &String) -> (r: Option<usize>)
    ensures
        match r {
            Some(k) => premier(objets@, pred_pnj_ici(nom@, pos@, sous@)) == Some(k as int) && k < objets@.len(),
            None => premier(objets@, pred_pnj_ici(nom@, pos@, sous@)) == None::<int>,
        },
{
    let ghost p = pred_pnj_ici(nom@, pos@, sous@);
    let mut i: usize = 0;
    while i < objets.len()
        invariant
            i <= objets@.len(),
            p == pred_pnj_ici(nom@, pos@, sous@),
            forall|j: int| 0 <= j < i ==> !p(#[trigger] objets@[j]),
        decreases objets@.len() - i,
    {
        let trouve = match &objets[i] {
            Objet::PnjAvecType(q) => {
                let n = en_minuscules(q.pnj.nom.as_str());
                n == *nom && q.pnj.position == *pos && q.pnj.sous_position == *sous
            },
            _ => false,
        };
        assert(p(objets@[i as int]) == trouve);
        if trouve {
            proof {
                lemma_premier(objets@, p, i as int);
            }
            return Some(i);
        }
        i += 1;
    }
    proof {
        lemma_premier(objets@, p, i as int);
    }
    None
}

/// Index of the character named `nom`, in any case, at the player's place.
pub fn trouver_pnj(monde: &Monde, nom: &str) -> (r: Option<usize>)
    ensures
        match r {
            Some(k) => premier(monde.objets@, pred_pnj_ici(minuscules(nom@), monde.joueur.position@, monde.joueur.sous_position@))
                == Some(k as int) && k < monde.objets@.len(),
            None => premier(monde.objets@, pred_pnj_ici(minuscules(nom@), monde.joueur.position@, monde.joueur.sous_position@))
                == None::<int>,
        },
{
    let q = en_minuscules(nom);
    chercher_pnj(&monde.objets, &q, &monde.joueur.position, &monde.joueur.sous_position)
}

/// Interacts with the character named `pnj_name` (in any case) standing at
/// the player's position and sub-position. `accepte` answers what a
/// friendly character or a trainer offers. When a hostile character is
/// engaged, the combat state is returned for the rounds to follow.
pub fn interact(monde: &mut Monde, pnj_name: &str, accepte: bool) -> (r: Result<Rencontre, ErreurInteraction>)
    requires
        old(monde).wf(),
    ensures
        final(monde).wf(),
        match premier(
            old(monde).objets@,
            pred_pnj_ici(minuscules(pnj_name@), old(monde).joueur.position@, old(monde).joueur.sous_position@),
        ) {
            None => r == Err::<Rencontre, ErreurInteraction>(ErreurInteraction::PasIci) && *final(monde) == *old(monde),
            Some(i) => match r {
                Err(_) => false,
                Ok(rc) => {
                    &&& pnj_a(final(monde).objets@, rc.index as int) is Some
                    &&& rc.index == match rc.interaction {
                        Interaction::Cadeau { index_monde } => if index_monde < i {
                            i - 1
                        } else {
                            i
                        },
                        _ => i,
                    }
                    &&& effet(
                        pnj_a(old(monde).objets@, i).unwrap(),
                        pnj_a(final(monde).objets@, rc.index as int).unwrap(),
                        old(monde).objets@.remove(i),
                        final(monde).objets@.remove(rc.index as int),
                        old(monde).joueur,
                        final(monde).joueur,
                        old(monde).regles.marque_inventaire,
                        accepte,
                        rc.interaction,
                    )
                    &&& meme_cadre(*old(monde), *final(monde))
                    &&& match rc.combat {
                        Some(e) => rc.interaction == Interaction::Combat && erreur_demarrage(
                            *final(monde),
                            rc.index as int,
                        ) == None::<crate::combat::ErreurCombat> && debut(*final(monde), rc.index as int, e),
                        None => rc.interaction == Interaction::Combat ==> erreur_demarrage(
                            *final(monde),
                            rc.index as int,
                        ) is Some,
                    }
                },
            },
        },
{
    let ghost m0 = *monde;
    let i = match trouver_pnj(monde, pnj_name) {
        Some(i) => i,
        None => {
            return Err(ErreurInteraction::PasIci);
        },
    };
    proof {
        lemma_premier_borne(
            monde.objets@,
            pred_pnj_ici(minuscules(pnj_name@), monde.joueur.position@, monde.joueur.sous_position@),
        );
    }
    let o = monde.objets.remove(i);
    match o {
        Objet::PnjAvecType(mut p) => {
            let ghost reste = monde.objets@;
            proof {
                if p.pnj.inventaire@.len() > 0 {
                    crate::capture::lemma_index_statique_borne(reste, p.pnj.inventaire@[0]@);
                }
            }
            let interaction = p.interact_with_player(monde, accepte);
            let place = match interaction {
                Interaction::Cadeau { index_monde } => if index_monde < i {
                    i - 1
                } else {
                    i
                },
                _ => i,
            };
            let ghost o2 = monde.objets@;
            monde.objets.insert(place, Objet::PnjAvecType(p));
            assert(monde.objets@.remove(place as int) =~= o2);
            let combat = if interaction == Interaction::Combat {
                match demarrer_combat(monde, place) {
                    Ok(e) => Some(e),
                    Err(_) => None,
                }
            } else {
                None
            };
            Ok(Rencontre { index: place, interaction, combat })
        },
        autre => {
            assert(false);
            monde.objets.insert(i, autre);
            Err(ErreurInteraction::PasIci)
        },
    }
}

} // verus!
