use vstd::prelude::*;
use crate::modele::{FruitDuDemon, Joueur, Objet, lemma_premier, lemma_premier_borne, premier};
use crate::monde::Monde;

verus! {

#[derive(Debug, Clone, Copy, PartialEq, Eq, Structural)]
pub enum ResultatFruit {
    /// No fruit lies at the player's place.
    AucunFruit,
    /// The player held no fruit and now holds this one.
    Mange,
    /// The held fruit went back to the world at the player's place.
    Echange,
    /// The player declined: nothing changed.
    Refuse,
}

pub open spec fn est_fruit_a(o: Objet, pos: Seq<char>, sous: Seq<char>) -> bool {
    match o {
        Objet::FruitDuDemon(f) => f.position@ == pos && f.sous_position@ == sous,
        _ => false,
    }
}

pub open spec fn pred_fruit_a(pos: Seq<char>, sous: Seq<char>) -> spec_fn(Objet) -> bool {
    |o: Objet| est_fruit_a(o, pos, sous)
}

pub open spec fn fruit_de(o: Objet) -> FruitDuDemon {
    match o {
        Objet::FruitDuDemon(f) => f,
        _ => arbitrary(),
    }
}

/// What taking the fruit at the player's place does to world `avant`.
pub open spec fn prise_de_fruit(avant: Monde, apres: Monde, accepte: bool, r: ResultatFruit) -> bool {
    let j = avant.joueur;
    match premier(avant.objets@, pred_fruit_a(j.position@, j.sous_position@)) {
        None => r == ResultatFruit::AucunFruit && apres == avant,
        Some(k) => if !accepte {
            r == ResultatFruit::Refuse && apres == avant
        } else {
            let f = fruit_de(avant.objets@[k]);
            &&& apres.joueur == (Joueur { fruit_de_demon: Some(f), ..j })
            &&& apres.regles == avant.regles
            &&& apres.quete_terminee == avant.quete_terminee
            &&& match j.fruit_de_demon {
                None => r == ResultatFruit::Mange && apres.objets@ == avant.objets@.remove(k),
                Some(g) => {
                    &&& r == ResultatFruit::Echange
                    &&& apres.objets@ == avant.objets@.remove(k).push(
                        Objet::FruitDuDemon(
                            FruitDuDemon { position: j.position, sous_position: j.sous_position, ..g },
                        ),
                    )
                },
            }
        },
    }
}

/// Index of the first fruit lying at the player's position and sub-position.
pub fn fruit_ici(monde: &Monde) -> (r: Option<usize>)
    ensures
        match r {
            Some(k) => premier(monde.objets@, pred_fruit_a(monde.joueur.position@, monde.joueur.sous_position@))
                == Some(k as int) && k < monde.objets@.len(),
            None => premier(monde.objets@, pred_fruit_a(monde.joueur.position@, monde.joueur.sous_position@))
                == None::<int>,
        },
{
    let ghost p = pred_fruit_a(monde.joueur.position@, monde.joueur.sous_position@);
    let mut i: usize = 0;
    while i < monde.objets.len()
        invariant
            i <= monde.objets@.len(),
            p == pred_fruit_a(monde.joueur.position@, monde.joueur.sous_position@),
            forall|j: int| 0 <= j < i ==> !p(#[trigger] monde.objets@[j]),
        decreases monde.objets@.len() - i,
    {
        let trouve = match &monde.objets[i] {
            Objet::FruitDuDemon(f) => f.position == monde.joueur.position && f.sous_position
                == monde.joueur.sous_position,
            _ => false,
        };
        assert(p(monde.objets@[i as int]) == trouve);
        if trouve {
            proof {
                lemma_premier(monde.objets@, p, i as int);
            }
            return Some(i);
        }
        i += 1;
    }
    proof {
        lemma_premier(monde.objets@, p, i as int);
    }
    None
}

/// Takes the fruit at the player's place if the player accepts: it leaves
/// the world and becomes the player's; a fruit already held goes back to the
/// world at the player's place.
pub fn capture_fruit_de_demon(monde: &mut Monde, accepte: bool) -> (r: ResultatFruit)
    requires
        old(monde).wf(),
    ensures
        final(monde).wf(),
        prise_de_fruit(*old(monde), *final(monde), accepte, r),
{
    proof {
        lemma_premier_borne(monde.objets@, pred_fruit_a(monde.joueur.position@, monde.joueur.sous_position@));
    }
    let k = match fruit_ici(monde) {
        Some(k) => k,
        None => {
            return ResultatFruit::AucunFruit;
        },
    };
    if !accepte {
        return ResultatFruit::Refuse;
    }
    let o = monde.objets.remove(k);
    let f = match o {
        Objet::FruitDuDemon(f) => f,
        autre => {
            assert(false);
            monde.objets.insert(k, autre);
            return ResultatFruit::Refuse;
        },
    };
    let mut tenu = Some(f);
    std::mem::swap(&mut tenu, &mut monde.joueur.fruit_de_demon);
    match tenu {
        None => ResultatFruit::Mange,
        Some(mut g) => {
            g.position = monde.joueur.position.clone();
            g.sous_position = monde.joueur.sous_position.clone();
            monde.objets.push(Objet::FruitDuDemon(g));
            ResultatFruit::Echange
        },
    }
}

/// Number of fruits in a sequence of world entities.
pub open spec fn nb_fruits(s: Seq<Objet>) -> nat
    decreases s.len(),
{
    if s.len() == 0 {
        0
    } else {
        nb_fruits(s.drop_last()) + if s.last() is FruitDuDemon {
            1nat
        } else {
            0nat
        }
    }
}

/// Fruits of a world: those lying in it and the one the player holds.
pub open spec fn fruits_total(m: Monde) -> nat {
    nb_fruits(m.objets@) + if m.joueur.fruit_de_demon is Some {
        1nat
    } else {
        0nat
    }
}

proof fn lemma_nb_fruits_concat(a: Seq<Objet>, b: Seq<Objet>)
    ensures
        nb_fruits(a + b) == nb_fruits(a) + nb_fruits(b),
    decreases b.len(),
{
    if b.len() > 0 {
        lemma_nb_fruits_concat(a, b.drop_last());
        assert((a + b).drop_last() == a + b.drop_last());
    }
}

proof fn lemma_nb_fruits_retrait(s: Seq<Objet>, k: int)
    requires
        0 <= k < s.len(),
        s[k] is FruitDuDemon,
    ensures
        nb_fruits(s.remove(k)) + 1 == nb_fruits(s),
{
    let a = s.take(k);
    let b = s.skip(k + 1);
    assert(s.remove(k) == a + b);
    assert(s == a.push(s[k]) + b);
    lemma_nb_fruits_concat(a, b);
    lemma_nb_fruits_concat(a.push(s[k]), b);
    assert(a.push(s[k]).drop_last() == a);
}

/// Taking a fruit never creates nor destroys one: the fruits in the world
/// plus the one held stay as many, the player holds at most one, and after
/// a swap the fruit given up lies in the world while the new one is held.
pub proof fn lemma_fruits_conserves(avant: Monde, apres: Monde, accepte: bool, r: ResultatFruit)
    requires
        prise_de_fruit(avant, apres, accepte, r),
    ensures
        fruits_total(apres) == fruits_total(avant),
        r == ResultatFruit::Echange ==> apres.joueur.fruit_de_demon is Some && apres.objets@.last() is FruitDuDemon
            && avant.joueur.fruit_de_demon is Some,
{
    let j = avant.joueur;
    lemma_premier_borne(avant.objets@, pred_fruit_a(j.position@, j.sous_position@));
    match premier(avant.objets@, pred_fruit_a(j.position@, j.sous_position@)) {
        None => {},
        Some(k) => {
            if accepte {
                lemma_nb_fruits_retrait(avant.objets@, k);
                let reste = avant.objets@.remove(k);
                match j.fruit_de_demon {
                    None => {},
                    Some(g) => {
                        let x = Objet::FruitDuDemon(
                            FruitDuDemon { position: j.position, sous_position: j.sous_position, ..g },
                        );
                        assert(reste.push(x).drop_last() == reste);
                    },
                }
            }
        },
    }
}

} // verus!
