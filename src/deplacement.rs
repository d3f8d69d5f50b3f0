use vstd::prelude::*;
use crate::modele::{
    Connection, Joueur, Lieu, Objet, ObjetMobile, Orientation, SousLieu, lemma_premier,
    lemma_premier_borne, premier,
};
use crate::monde::{Monde, possede_objet_statique, possede_statique};
use crate::texte::{commence_par, est_prefixe};

verus! {

#[derive(Debug, Clone)]
pub enum ErreurDeplacement {
    /// No boat stands at the player's exact place.
    PasDeBateau,
    /// The player's position names no location of the world.
    LieuIntrouvable,
    /// No edge leaves the current node in that direction.
    AucuneConnexion,
    /// The edge leads to a location that the world does not hold.
    DestinationIntrouvable,
    /// The destination needs the static object with this id.
    CleManquante(String),
    /// The player moved, but the destination has no arrival sub-location.
    PasDePointDEntree,
    /// The player's sub-position names no sub-location of the current location.
    SousLieuIntrouvable,
    /// The edge leads to a sub-location that the current location does not hold.
    TopologieRompue(String),
}

pub open spec fn est_lieu(o: Objet, id: Seq<char>) -> bool {
    match o {
        Objet::Lieu(l) => l.id@ == id,
        _ => false,
    }
}

pub open spec fn pred_lieu(id: Seq<char>) -> spec_fn(Objet) -> bool {
    |o: Objet| est_lieu(o, id)
}

pub open spec fn pred_orientation(dir: Orientation) -> spec_fn(Connection) -> bool {
    |c: Connection| c.orientation == dir
}

pub open spec fn pred_entree(dest: Seq<char>, prefixe: Seq<char>) -> spec_fn(Objet) -> bool {
    |o: Objet| est_entree(o, dest, prefixe)
}

pub open spec fn lieu_de(o: Objet) -> Lieu {
    match o {
        Objet::Lieu(l) => l,
        _ => arbitrary(),
    }
}

/// The first location of the world with this id.
pub open spec fn lieu_d_id(objets: Seq<Objet>, id: Seq<char>) -> Option<Lieu> {
    match premier(objets, pred_lieu(id)) {
        Some(k) => Some(lieu_de(objets[k])),
        None => None,
    }
}

/// Destination of the first edge in direction `dir`.
pub open spec fn destination(conns: Seq<Connection>, dir: Orientation) -> Option<String> {
    match premier(conns, pred_orientation(dir)) {
        Some(k) => Some(conns[k].destination),
        None => None,
    }
}

pub open spec fn est_bateau_a(o: Objet, nom: Seq<char>, pos: Seq<char>, sous: Seq<char>) -> bool {
    match o {
        Objet::ObjetMobile(m) => m.nom@ == nom && m.position@ == pos && m.sous_position@ == sous,
        _ => false,
    }
}

/// A boat stands at `(pos, sous)`.
pub open spec fn bateau_present(objets: Seq<Objet>, nom: Seq<char>, pos: Seq<char>, sous: Seq<char>) -> bool {
    exists|i: int| 0 <= i < objets.len() && #[trigger] est_bateau_a(objets[i], nom, pos, sous)
}

/// A boat at `(pos, sous)` is carried to `(dest, entree)`; anything else stays.
pub open spec fn deplace_bateau(
    o: Objet,
    nom: Seq<char>,
    pos: Seq<char>,
    sous: Seq<char>,
    dest: String,
    entree: String,
) -> Objet {
    match o {
        Objet::ObjetMobile(m) => if est_bateau_a(o, nom, pos, sous) {
            Objet::ObjetMobile(ObjetMobile { position: dest, sous_position: entree, ..m })
        } else {
            o
        },
        _ => o,
    }
}

pub open spec fn est_entree(o: Objet, dest: Seq<char>, prefixe: Seq<char>) -> bool {
    match o {
        Objet::SousLieu(sl) => sl.position@ == dest && est_prefixe(prefixe, sl.id@),
        _ => false,
    }
}

pub open spec fn id_sous_lieu(o: Objet) -> String {
    match o {
        Objet::SousLieu(sl) => sl.id,
        _ => arbitrary(),
    }
}

/// Id of the first sub-location of `dest` whose id starts with `prefixe`.
pub open spec fn entree(objets: Seq<Objet>, dest: Seq<char>, prefixe: Seq<char>) -> Option<String> {
    match premier(objets, pred_entree(dest, prefixe)) {
        Some(k) => Some(id_sous_lieu(objets[k])),
        None => None,
    }
}

pub fn chercher_lieu(objets: &Vec<Objet>, id: &String) -> (r: Option<usize>)
    ensures
        match r {
            Some(k) => premier(objets@, pred_lieu(id@)) == Some(k as int) && k < objets@.len(),
            None => premier(objets@, pred_lieu(id@)) == None::<int>,
        },
{
    let ghost p = pred_lieu(id@);
    let mut i: usize = 0;
    while i < objets.len()
        invariant
            i <= objets@.len(),
            p == pred_lieu(id@),
            forall|j: int| 0 <= j < i ==> !p(#[trigger] objets@[j]),
        decreases objets@.len() - i,
    {
        let trouve = match &objets[i] {
            Objet::Lieu(l) => l.id == *id,
            _ => false,
        };
        assert(p(objets@[i as int]) == trouve);
        if trouve {
            proof {
                lemma_premier(objets@, p, i as int);
            }
            return Some(i);
        }
        i += 1;
    }
    proof {
        lemma_premier(objets@, p, i as int);
    }
    None
}

fn chercher_connexion(conns: &Vec<Connection>, dir: Orientation) -> (r: Option<usize>)
    ensures
        match r {
            Some(k) => premier(conns@, pred_orientation(dir)) == Some(k as int) && k < conns@.len(),
            None => premier(conns@, pred_orientation(dir)) == None::<int>,
        },
{
    let ghost p = pred_orientation(dir);
    let mut i: usize = 0;
    while i < conns.len()
        invariant
            i <= conns@.len(),
            p == pred_orientation(dir),
            forall|j: int| 0 <= j < i ==> !p(#[trigger] conns@[j]),
        decreases conns@.len() - i,
    {
        let trouve = conns[i].orientation == dir;
        assert(p(conns@[i as int]) == trouve);
        if trouve {
            proof {
                lemma_premier(conns@, p, i as int);
            }
            return Some(i);
        }
        i += 1;
    }
    proof {
        lemma_premier(conns@, p, i as int);
    }
    None
}

fn chercher_entree(objets: &Vec<Objet>, dest: &String, prefixe: &String) -> (r: Option<usize>)
    ensures
        match r {
            Some(k) => premier(objets@, pred_entree(dest@, prefixe@)) == Some(k as int) && k < objets@.len(),
            None => premier(objets@, pred_entree(dest@, prefixe@)) == None::<int>,
        },
{
    let ghost p = pred_entree(dest@, prefixe@);
    let mut i: usize = 0;
    while i < objets.len()
        invariant
            i <= objets@.len(),
            p == pred_entree(dest@, prefixe@),
            forall|j: int| 0 <= j < i ==> !p(#[trigger] objets@[j]),
        decreases objets@.len() - i,
    {
        let trouve = match &objets[i] {
            Objet::SousLieu(sl) => sl.position == *dest && commence_par(&sl.id, prefixe),
            _ => false,
        };
        assert(p(objets@[i as int]) == trouve);
        if trouve {
            proof {
                lemma_premier(objets@, p, i as int);
            }
            return Some(i);
        }
        i += 1;
    }
    proof {
        lemma_premier(objets@, p, i as int);
    }
    None
}

fn bateau_ici(objets: &Vec<Objet>, nom: &String, pos: &String, sous: &String) -> (r: bool)
    ensures
        r == bateau_present(objets@, nom@, pos@, sous@),
{
    let mut i: usize = 0;
    while i < objets.len()
        invariant
            i <= objets@.len(),
            forall|j: int| 0 <= j < i ==> !est_bateau_a(#[trigger] objets@[j], nom@, pos@, sous@),
        decreases objets@.len() - i,
    {
        let trouve = match &objets[i] {
            Objet::ObjetMobile(m) => m.nom == *nom && m.position == *pos && m.sous_position == *sous,
            _ => false,
        };
        if trouve {
            assert(est_bateau_a(objets@[i as int], nom@, pos@, sous@));
            return true;
        }
        i += 1;
    }
    false
}

/// What travel by boat in direction `dir` does to world `avant`: `apres` is
/// the world afterwards and `r` the result.
pub open spec fn voyage(avant: Monde, apres: Monde, dir: Orientation, r: Result<(), ErreurDeplacement>) -> bool {
    let j = avant.joueur;
    let pos = j.position@;
    let sous = j.sous_position@;
    let nom = avant.regles.nom_bateau@;
    if !bateau_present(avant.objets@, nom, pos, sous) {
        r == Err::<(), ErreurDeplacement>(ErreurDeplacement::PasDeBateau) && apres == avant
    } else {
        match lieu_d_id(avant.objets@, pos) {
            None => r == Err::<(), ErreurDeplacement>(ErreurDeplacement::LieuIntrouvable) && apres == avant,
            Some(l) => match destination(l.connections@, dir) {
                None => r == Err::<(), ErreurDeplacement>(ErreurDeplacement::AucuneConnexion) && apres == avant,
                Some(d) => match lieu_d_id(avant.objets@, d@) {
                    None => r == Err::<(), ErreurDeplacement>(ErreurDeplacement::DestinationIntrouvable)
                        && apres == avant,
                    Some(dl) => if dl.required_key@.len() > 0 && !possede_statique(
                        j.inventaire@,
                        dl.required_key@,
                    ) {
                        r == Err::<(), ErreurDeplacement>(ErreurDeplacement::CleManquante(dl.required_key))
                            && apres == avant
                    } else {
                        match entree(avant.objets@, dl.id@, avant.regles.prefixe_entree@) {
                            None => r == Err::<(), ErreurDeplacement>(ErreurDeplacement::PasDePointDEntree)
                                && apres == (Monde { joueur: Joueur { position: dl.id, ..j }, ..avant }),
                            Some(e) => {
                                &&& r == Ok::<(), ErreurDeplacement>(())
                                &&& apres.joueur == (Joueur { position: dl.id, sous_position: e, ..j })
                                &&& apres.objets@.len() == avant.objets@.len()
                                &&& forall|i: int|
                                    0 <= i < avant.objets@.len() ==> apres.objets@[i] == deplace_bateau(
                                        #[trigger] avant.objets@[i],
                                        nom,
                                        pos,
                                        sous,
                                        dl.id,
                                        e,
                                    )
                                &&& apres.regles == avant.regles
                                &&& apres.quete_terminee == avant.quete_terminee
                            },
                        }
                    },
                },
            },
        }
    }
}

/// Carries every boat standing at `(pos, sous)` to `(dest, entree)`.
fn deplacer_bateaux(
    objets: &mut Vec<Objet>,
    nom: &String,
    pos: &String,
    sous: &String,
    dest: &String,
    entree: &String,
)
    ensures
        final(objets)@.len() == old(objets)@.len(),
        forall|i: int|
            0 <= i < old(objets)@.len() ==> final(objets)@[i] == deplace_bateau(
                #[trigger] old(objets)@[i],
                nom@,
                pos@,
                sous@,
                *dest,
                *entree,
            ),
{
    let ghost o0 = objets@;
    let mut i: usize = 0;
    while i < objets.len()
        invariant
            i <= objets@.len(),
            objets@.len() == o0.len(),
            forall|j: int| 0 <= j < i ==> objets@[j] == deplace_bateau(#[trigger] o0[j], nom@, pos@, sous@, *dest, *entree),
            forall|j: int| i <= j < o0.len() ==> objets@[j] == o0[j],
        decreases o0.len() - i,
    {
        let nouveau = match &objets[i] {
            Objet::ObjetMobile(m) => {
                if m.nom == *nom && m.position == *pos && m.sous_position == *sous {
                    Some(ObjetMobile {
                        id: m.id.clone(),
                        nom: m.nom.clone(),
                        description: m.description.clone(),
                        position: dest.clone(),
                        sous_position: entree.clone(),
                    })
                } else {
                    None
                }
            },
            _ => None,
        };
        match nouveau {
            Some(m) => {
                objets.set(i, Objet::ObjetMobile(m));
            },
            None => {},
        }
        i += 1;
    }
}

/// Travels by boat to the location the edge `direction` leads to. The boat
/// must stand at the player's exact place and the destination's key, if it
/// names one, must be a static object of the inventory. The player lands on
/// the destination's first arrival sub-location, and the boat with them.
pub fn move_joueur(monde: &mut Monde, direction: Orientation) -> (r: Result<(), ErreurDeplacement>)
    requires
        old(monde).wf(),
    ensures
        final(monde).wf(),
        voyage(*old(monde), *final(monde), direction, r),
{
    if !bateau_ici(&monde.objets, &monde.regles.nom_bateau, &monde.joueur.position, &monde.joueur.sous_position) {
        return Err(ErreurDeplacement::PasDeBateau);
    }
    proof {
        lemma_premier_borne(monde.objets@, pred_lieu(monde.joueur.position@));
    }
    let li = match chercher_lieu(&monde.objets, &monde.joueur.position) {
        Some(k) => k,
        None => {
            return Err(ErreurDeplacement::LieuIntrouvable);
        },
    };
    let conns = match &monde.objets[li] {
        Objet::Lieu(l) => &l.connections,
        _ => {
            return Err(ErreurDeplacement::LieuIntrouvable);
        },
    };
    proof {
        lemma_premier_borne(conns@, pred_orientation(direction));
    }
    let ci = match chercher_connexion(conns, direction) {
        Some(k) => k,
        None => {
            return Err(ErreurDeplacement::AucuneConnexion);
        },
    };
    let d = &conns[ci].destination;
    proof {
        lemma_premier_borne(monde.objets@, pred_lieu(d@));
    }
    let di = match chercher_lieu(&monde.objets, d) {
        Some(k) => k,
        None => {
            return Err(ErreurDeplacement::DestinationIntrouvable);
        },
    };
    let (dest, cle) = match &monde.objets[di] {
        Objet::Lieu(l) => (l.id.clone(), &l.required_key),
        _ => {
            return Err(ErreurDeplacement::DestinationIntrouvable);
        },
    };
    if !cle.as_str().is_empty() {
        if !possede_objet_statique(&monde.joueur.inventaire, cle) {
            return Err(ErreurDeplacement::CleManquante(cle.clone()));
        }
    }
    proof {
        lemma_premier_borne(monde.objets@, pred_entree(dest@, monde.regles.prefixe_entree@));
    }
    let ei = chercher_entree(&monde.objets, &dest, &monde.regles.prefixe_entree);
    match ei {
        None => {
            monde.joueur.position = dest;
            Err(ErreurDeplacement::PasDePointDEntree)
        },
        Some(k) => {
            let e = match &monde.objets[k] {
                Objet::SousLieu(sl) => sl.id.clone(),
                _ => {
                    return Err(ErreurDeplacement::PasDePointDEntree);
                },
            };
            let ancienne_pos = monde.joueur.position.clone();
            let ancienne_sous = monde.joueur.sous_position.clone();
            deplacer_bateaux(&mut monde.objets, &monde.regles.nom_bateau, &ancienne_pos, &ancienne_sous, &dest, &e);
            monde.joueur.position = dest;
            monde.joueur.sous_position = e;
            Ok(())
        },
    }
}

pub open spec fn est_sous_lieu(o: Objet, id: Seq<char>, pos: Seq<char>) -> bool {
    match o {
        Objet::SousLieu(sl) => sl.id@ == id && sl.position@ == pos,
        _ => false,
    }
}

pub open spec fn pred_sous_lieu(id: Seq<char>, pos: Seq<char>) -> spec_fn(Objet) -> bool {
    |o: Objet| est_sous_lieu(o, id, pos)
}

pub open spec fn sous_lieu_de(o: Objet) -> SousLieu {
    match o {
        Objet::SousLieu(sl) => sl,
        _ => arbitrary(),
    }
}

/// The first sub-location of location `pos` with this id.
pub open spec fn sous_lieu_d_id(objets: Seq<Objet>, id: Seq<char>, pos: Seq<char>) -> Option<SousLieu> {
    match premier(objets, pred_sous_lieu(id, pos)) {
        Some(k) => Some(sous_lieu_de(objets[k])),
        None => None,
    }
}

/// What a move in direction `dir` inside the current location does to the
/// player `avant`: `apres` is the player afterwards and `r` the result.
pub open spec fn pas_interne(
    avant: Joueur,
    apres: Joueur,
    objets: Seq<Objet>,
    dir: Orientation,
    r: Result<(), ErreurDeplacement>,
) -> bool {
    match sous_lieu_d_id(objets, avant.sous_position@, avant.position@) {
        None => r == Err::<(), ErreurDeplacement>(ErreurDeplacement::SousLieuIntrouvable) && apres == avant,
        Some(sl) => match destination(sl.connections@, dir) {
            None => r == Err::<(), ErreurDeplacement>(ErreurDeplacement::AucuneConnexion) && apres == avant,
            Some(d) => if sous_lieu_d_id(objets, d@, avant.position@) is Some {
                r == Ok::<(), ErreurDeplacement>(()) && apres == (Joueur { sous_position: d, ..avant })
            } else {
                r == Err::<(), ErreurDeplacement>(ErreurDeplacement::TopologieRompue(d)) && apres == avant
            },
        },
    }
}

pub fn chercher_sous_lieu(objets: &Vec<Objet>, id: &String, pos: &String) -> (r: Option<usize>)
    ensures
        match r {
            Some(k) => premier(objets@, pred_sous_lieu(id@, pos@)) == Some(k as int) && k < objets@.len(),
            None => premier(objets@, pred_sous_lieu(id@, pos@)) == None::<int>,
        },
{
    let ghost p = pred_sous_lieu(id@, pos@);
    let mut i: usize = 0;
    while i < objets.len()
        invariant
            i <= objets@.len(),
            p == pred_sous_lieu(id@, pos@),
            forall|j: int| 0 <= j < i ==> !p(#[trigger] objets@[j]),
        decreases objets@.len() - i,
    {
        let trouve = match &objets[i] {
            Objet::SousLieu(sl) => sl.id == *id && sl.position == *pos,
            _ => false,
        };
        assert(p(objets@[i as int]) == trouve);
        if trouve {
            proof {
                lemma_premier(objets@, p, i as int);
            }
            return Some(i);
        }
        i += 1;
    }
    proof {
        lemma_premier(objets@, p, i as int);
    }
    None
}

/// Moves the player to the sub-location that the edge `orientation` of the
/// current sub-location leads to, within the same location.
pub fn move_inside(joueur: &mut Joueur, orientation: Orientation, objets: &Vec<Objet>) -> (r: Result<
    (),
    ErreurDeplacement,
>)
    ensures
        pas_interne(*old(joueur), *final(joueur), objets@, orientation, r),
{
    proof {
        lemma_premier_borne(objets@, pred_sous_lieu(joueur.sous_position@, joueur.position@));
    }
    let si = match chercher_sous_lieu(objets, &joueur.sous_position, &joueur.position) {
        Some(k) => k,
        None => {
            return Err(ErreurDeplacement::SousLieuIntrouvable);
        },
    };
    let conns = match &objets[si] {
        Objet::SousLieu(sl) => &sl.connections,
        _ => {
            return Err(ErreurDeplacement::SousLieuIntrouvable);
        },
    };
    proof {
        lemma_premier_borne(conns@, pred_orientation(orientation));
    }
    let ci = match chercher_connexion(conns, orientation) {
        Some(k) => k,
        None => {
            return Err(ErreurDeplacement::AucuneConnexion);
        },
    };
    let d = &conns[ci].destination;
    match chercher_sous_lieu(objets, d, &joueur.position) {
        Some(_) => {
            joueur.sous_position = d.clone();
            Ok(())
        },
        None => Err(ErreurDeplacement::TopologieRompue(d.clone())),
    }
}

} // verus!
