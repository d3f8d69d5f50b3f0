use vstd::prelude::*;
use crate::modele::Objet;
use crate::monde::Monde;
use crate::capture::capturable;

verus! {

/// Indices of the elements of `s` that satisfy `p`, in order.
pub open spec fn indices(s: Seq<Objet>, p: spec_fn(Objet) -> bool) -> Seq<usize>
    decreases s.len(),
{
    if s.len() == 0 {
        Seq::empty()
    } else {
        let r = indices(s.drop_last(), p);
        if p(s.last()) {
            r.push((s.len() - 1) as usize)
        } else {
            r
        }
    }
}

/// `o` is an object, a consumable, a fruit or a character placed at `(pos, sous)`.
pub open spec fn est_ici(o: Objet, pos: Seq<char>, sous: Seq<char>) -> bool {
    match o {
        Objet::ObjetStatique(x) => x.position@ == pos && x.sous_position@ == sous,
        Objet::ObjetMobile(x) => x.position@ == pos && x.sous_position@ == sous,
        Objet::PnjAvecType(x) => x.pnj.position@ == pos && x.pnj.sous_position@ == sous,
        Objet::FruitDuDemon(x) => x.position@ == pos && x.sous_position@ == sous,
        Objet::Aliment(x) => x.position@ == pos && x.sous_position@ == sous,
        _ => false,
    }
}

pub open spec fn pred_ici(pos: Seq<char>, sous: Seq<char>) -> spec_fn(Objet) -> bool {
    |o: Objet| est_ici(o, pos, sous)
}

pub open spec fn pred_capturable(pos: Seq<char>, sous: Seq<char>) -> spec_fn(Objet) -> bool {
    |o: Objet| capturable(o, pos, sous)
}

fn place_de(o: &Objet) -> (r: Option<(&String, &String)>)
    ensures
        match r {
            Some((p, s)) => (o is ObjetStatique || o is ObjetMobile || o is PnjAvecType || o is FruitDuDemon
                || o is Aliment) && forall|a: Seq<char>, b: Seq<char>|
                est_ici(*o, a, b) <==> p@ == a && s@ == b,
            None => forall|a: Seq<char>, b: Seq<char>| !est_ici(*o, a, b),
        },
{
    match o {
        Objet::ObjetStatique(x) => Some((&x.position, &x.sous_position)),
        Objet::ObjetMobile(x) => Some((&x.position, &x.sous_position)),
        Objet::PnjAvecType(x) => Some((&x.pnj.position, &x.pnj.sous_position)),
        Objet::FruitDuDemon(x) => Some((&x.position, &x.sous_position)),
        Objet::Aliment(x) => Some((&x.position, &x.sous_position)),
        _ => None,
    }
}

/// Indices of the world entities at the player's position and sub-position.
pub fn entites_ici(monde: &Monde) -> (r: Vec<usize>)
    ensures
        r@ == indices(monde.objets@, pred_ici(monde.joueur.position@, monde.joueur.sous_position@)),
{
    let ghost p = pred_ici(monde.joueur.position@, monde.joueur.sous_position@);
    let mut r: Vec<usize> = Vec::new();
    let mut i: usize = 0;
    while i < monde.objets.len()
        invariant
            i <= monde.objets@.len(),
            p == pred_ici(monde.joueur.position@, monde.joueur.sous_position@),
            r@ == indices(monde.objets@.take(i as int), p),
        decreases monde.objets@.len() - i,
    {
        assert(monde.objets@.take(i + 1).drop_last() == monde.objets@.take(i as int));
        let ici = match place_de(&monde.objets[i]) {
            Some((a, b)) => *a == monde.joueur.position && *b == monde.joueur.sous_position,
            None => false,
        };
        assert(p(monde.objets@[i as int]) == ici);
        if ici {
            r.push(i);
        }
        i += 1;
    }
    assert(monde.objets@.take(i as int) == monde.objets@);
    r
}

/// Indices of the static objects and consumables that a capture can pick up.
pub fn objets_capturables(monde: &Monde) -> (r: Vec<usize>)
    ensures
        r@ == indices(monde.objets@, pred_capturable(monde.joueur.position@, monde.joueur.sous_position@)),
{
    let ghost p = pred_capturable(monde.joueur.position@, monde.joueur.sous_position@);
    let mut r: Vec<usize> = Vec::new();
    let mut i: usize = 0;
    while i < monde.objets.len()
        invariant
            i <= monde.objets@.len(),
            p == pred_capturable(monde.joueur.position@, monde.joueur.sous_position@),
            r@ == indices(monde.objets@.take(i as int), p),
        decreases monde.objets@.len() - i,
    {
        assert(monde.objets@.take(i + 1).drop_last() == monde.objets@.take(i as int));
        let ici = match &monde.objets[i] {
            Objet::ObjetStatique(x) => x.position == monde.joueur.position && x.sous_position
                == monde.joueur.sous_position,
            Objet::Aliment(x) => x.position == monde.joueur.position && x.sous_position == monde.joueur.sous_position,
            _ => false,
        };
        assert(p(monde.objets@[i as int]) == ici);
        if ici {
            r.push(i);
        }
        i += 1;
    }
    assert(monde.objets@.take(i as int) == monde.objets@);
    r
}

} // verus!
