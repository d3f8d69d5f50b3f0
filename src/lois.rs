use vstd::prelude::*;
use crate::modele::{Joueur, Objet, ObjetInventaire, Orientation, PnjAvecType};
use crate::capture::{Selection, capture_de, choisi, id_objet, pris, restants};
use crate::combat::{ErreurCombat, erreur_demarrage, pnj_a};
use crate::deplacement::{ErreurDeplacement, bateau_present, destination, entree, lieu_d_id, voyage};
use crate::monde::{Monde, apres_quete, id_inv, possede_statique, quete_declenchee};
use crate::pnj::{Interaction, effet};

verus! {

/// Number of static objects and consumables of the world with id `x`.
pub open spec fn nb_monde(s: Seq<Objet>, x: Seq<char>) -> nat
    decreases s.len(),
{
    if s.len() == 0 {
        0
    } else {
        nb_monde(s.drop_last(), x) + if (s.last() is ObjetStatique || s.last() is Aliment) && id_objet(s.last()) == x {
            1nat
        } else {
            0nat
        }
    }
}

/// Number of inventory items with id `x`.
pub open spec fn nb_inventaire(s: Seq<ObjetInventaire>, x: Seq<char>) -> nat
    decreases s.len(),
{
    if s.len() == 0 {
        0
    } else {
        nb_inventaire(s.drop_last(), x) + if id_inv(s.last()) == x {
            1nat
        } else {
            0nat
        }
    }
}

proof fn lemma_nb_inventaire_concat(a: Seq<ObjetInventaire>, b: Seq<ObjetInventaire>, x: Seq<char>)
    ensures
        nb_inventaire(a + b, x) == nb_inventaire(a, x) + nb_inventaire(b, x),
    decreases b.len(),
{
    if b.len() > 0 {
        lemma_nb_inventaire_concat(a, b.drop_last(), x);
        assert((a + b).drop_last() == a + b.drop_last());
    }
}

/// A capture moves objects without making or losing any: for every id, the
/// static objects and consumables of the world with that id plus the
/// inventory items with that id are as many after the capture as before, and
/// each captured object becomes exactly one inventory item of its kind.
pub proof fn lemma_capture_conserve(
    objets: Seq<Objet>,
    inv: Seq<ObjetInventaire>,
    pos: Seq<char>,
    sous: Seq<char>,
    sel: Selection,
    x: Seq<char>,
)
    ensures
        nb_monde(restants(objets, pos, sous, sel), x) + nb_inventaire(inv + pris(objets, pos, sous, sel), x)
            == nb_monde(objets, x) + nb_inventaire(inv, x),
    decreases objets.len(),
{
    lemma_nb_inventaire_concat(inv, pris(objets, pos, sous, sel), x);
    if objets.len() > 0 {
        let t = objets.drop_last();
        lemma_capture_conserve(t, inv, pos, sous, sel, x);
        lemma_nb_inventaire_concat(inv, pris(t, pos, sous, sel), x);
        let o = objets.last();
        assert(objets.drop_last() == t);
        if choisi(o, pos, sous, sel) {
            let p = pris(t, pos, sous, sel);
            let cd = capture_de(o);
            assert(id_inv(cd) == id_objet(o));
            assert(inv + p.push(cd) == (inv + p).push(cd));
            assert((inv + p).push(cd).drop_last() == inv + p);
            assert((inv + p).push(cd).last() == cd);
        } else {
            let r = restants(t, pos, sous, sel);
            assert(r.push(o).drop_last() == r);
        }
    }
}

/// A defeated hostile character stays out of combat: interacting with it
/// reports it as defeated and changes nothing, so every later interaction
/// does the same, and no combat can start against it.
pub proof fn lemma_vaincu_definitif(
    p: PnjAvecType,
    q: PnjAvecType,
    o: Seq<Objet>,
    o2: Seq<Objet>,
    j: Joueur,
    j2: Joueur,
    marque: String,
    accepte: bool,
    r: Interaction,
    m: Monde,
    i: int,
)
    requires
        p.vaincu(),
        effet(p, q, o, o2, j, j2, marque, accepte, r),
    ensures
        r == Interaction::DejaVaincu,
        q == p && o2 == o && j2 == j,
        pnj_a(m.objets@, i) == Some(p) ==> erreur_demarrage(m, i) == Some(ErreurCombat::DejaVaincu),
{
}

/// A destination that names a key is reached only with that key among the
/// inventory's static objects: without it the move fails on the key, with it
/// the move succeeds exactly when the destination has an arrival
/// sub-location; nothing else of the inventory matters.
pub proof fn lemma_cle(avant: Monde, apres: Monde, dir: Orientation, r: Result<(), ErreurDeplacement>)
    requires
        voyage(avant, apres, dir, r),
        bateau_present(
            avant.objets@,
            avant.regles.nom_bateau@,
            avant.joueur.position@,
            avant.joueur.sous_position@,
        ),
        lieu_d_id(avant.objets@, avant.joueur.position@) is Some,
        destination(lieu_d_id(avant.objets@, avant.joueur.position@).unwrap().connections@, dir) is Some,
        lieu_d_id(
            avant.objets@,
            destination(lieu_d_id(avant.objets@, avant.joueur.position@).unwrap().connections@, dir).unwrap()@,
        ) is Some,
        lieu_d_id(
            avant.objets@,
            destination(lieu_d_id(avant.objets@, avant.joueur.position@).unwrap().connections@, dir).unwrap()@,
        ).unwrap().required_key@.len() > 0,
    ensures
        ({
            let dl = lieu_d_id(
                avant.objets@,
                destination(lieu_d_id(avant.objets@, avant.joueur.position@).unwrap().connections@, dir).unwrap()@,
            ).unwrap();
            &&& !possede_statique(avant.joueur.inventaire@, dl.required_key@) ==> r == Err::<(), ErreurDeplacement>(
                ErreurDeplacement::CleManquante(dl.required_key),
            ) && apres == avant
            &&& possede_statique(avant.joueur.inventaire@, dl.required_key@) ==> (r is Ok <==> entree(
                avant.objets@,
                dl.id@,
                avant.regles.prefixe_entree@,
            ) is Some) && !(r matches Err(ErreurDeplacement::CleManquante(_)))
        }),
{
}

/// The quest monitor fires at most once: after it has run, it never fires again.
pub proof fn lemma_quete_une_fois(m: Monde)
    ensures
        !quete_declenchee(apres_quete(m)),
        quete_declenchee(m) ==> apres_quete(m).quete_terminee,
{
}

} // verus!
