use vstd::prelude::*;
use crate::modele::{Joueur, Objet, ObjetInventaire, ObjetStatique};
use crate::monde::{Monde, mis_a_jour, verifier_quete};

verus! {

/// `o` is a static object of the world with this id.
pub open spec fn est_statique_d_id(o: Objet, id: Seq<char>) -> bool {
    match o {
        Objet::ObjetStatique(s) => s.id@ == id,
        _ => false,
    }
}

/// Index of the first static object of `s` with this id.
pub open spec fn index_statique(s: Seq<Objet>, id: Seq<char>) -> Option<int>
    decreases s.len(),
{
    if s.len() == 0 {
        None
    } else if est_statique_d_id(s[0], id) {
        Some(0)
    } else {
        match index_statique(s.drop_first(), id) {
            Some(k) => Some(k + 1),
            None => None,
        }
    }
}

/// The inventory copy of a world static object: its placement becomes `marque`.
pub open spec fn en_inventaire(o: Objet, marque: String) -> ObjetInventaire {
    match o {
        Objet::ObjetStatique(s) => ObjetInventaire::ObjetStatique(
            ObjetStatique { position: marque, ..s },
        ),
        _ => arbitrary(),
    }
}

/// World and inventory after handing over, for each id of `ids` in order, the
/// first world static object with that id (ids that name none are skipped).
pub open spec fn apres_transfert(
    objets: Seq<Objet>,
    inv: Seq<ObjetInventaire>,
    ids: Seq<String>,
    marque: String,
) -> (Seq<Objet>, Seq<ObjetInventaire>)
    decreases ids.len(),
{
    if ids.len() == 0 {
        (objets, inv)
    } else {
        let (o, i) = apres_transfert(objets, inv, ids.drop_last(), marque);
        match index_statique(o, ids.last()@) {
            Some(k) => (o.remove(k), i.push(en_inventaire(o[k], marque))),
            None => (o, i),
        }
    }
}

proof fn lemma_index_statique(s: Seq<Objet>, id: Seq<char>, i: int)
    requires
        0 <= i <= s.len(),
        forall|j: int| 0 <= j < i ==> !est_statique_d_id(#[trigger] s[j], id),
    ensures
        i < s.len() && est_statique_d_id(s[i], id) ==> index_statique(s, id) == Some(i),
        i == s.len() ==> index_statique(s, id) == None::<int>,
    decreases i,
{
    if i > 0 {
        let t = s.drop_first();
        assert forall|j: int| 0 <= j < i - 1 implies !est_statique_d_id(#[trigger] t[j], id) by {
            assert(t[j] == s[j + 1]);
        }
        lemma_index_statique(t, id, i - 1);
        assert(!est_statique_d_id(s[0], id));
    }
}

/// Finds the first static object of the world with this id.
pub fn chercher_statique(objets: &Vec<Objet>, id: &String) -> (r: Option<usize>)
    ensures
        match r {
            Some(k) => index_statique(objets@, id@) == Some(k as int) && k < objets@.len(),
            None => index_statique(objets@, id@) == None::<int>,
        },
{
    let mut i: usize = 0;
    while i < objets.len()
        invariant
            i <= objets@.len(),
            forall|j: int| 0 <= j < i ==> !est_statique_d_id(#[trigger] objets@[j], id@),
        decreases objets@.len() - i,
    {
        let trouve = match &objets[i] {
            Objet::ObjetStatique(s) => s.id == *id,
            _ => false,
        };
        if trouve {
            proof {
                lemma_index_statique(objets@, id@, i as int);
            }
            return Some(i);
        }
        i += 1;
    }
    proof {
        lemma_index_statique(objets@, id@, i as int);
    }
    None
}

pub proof fn lemma_index_statique_borne(s: Seq<Objet>, id: Seq<char>)
    ensures
        match index_statique(s, id) {
            Some(k) => 0 <= k < s.len() && est_statique_d_id(s[k], id),
            None => true,
        },
    decreases s.len(),
{
    if s.len() > 0 {
        lemma_index_statique_borne(s.drop_first(), id);
    }
}

/// Moves the world static object at index `k` to the end of the inventory,
/// with its placement set to `marque`.
pub(crate) fn prendre_statique(objets: &mut Vec<Objet>, inv: &mut Vec<ObjetInventaire>, k: usize, marque: &String)
    requires
        k < old(objets)@.len(),
        old(objets)@[k as int] is ObjetStatique,
    ensures
        final(objets)@ == old(objets)@.remove(k as int),
        final(inv)@ == old(inv)@.push(en_inventaire(old(objets)@[k as int], *marque)),
{
    let o = objets.remove(k);
    match o {
        Objet::ObjetStatique(mut s) => {
            s.position = marque.clone();
            inv.push(ObjetInventaire::ObjetStatique(s));
        },
        _ => {
            assert(false);
        },
    }
}

/// Hands over to the inventory, for each id of `ids` in order, the first
/// world static object with that id.
pub fn transferer(
    objets: &mut Vec<Objet>,
    inv: &mut Vec<ObjetInventaire>,
    ids: &Vec<String>,
    marque: &String,
)
    ensures
        (final(objets)@, final(inv)@) == apres_transfert(old(objets)@, old(inv)@, ids@, *marque),
{
    let mut n: usize = 0;
    while n < ids.len()
        invariant
            n <= ids@.len(),
            (objets@, inv@) == apres_transfert(old(objets)@, old(inv)@, ids@.take(n as int), *marque),
        decreases ids@.len() - n,
    {
        proof {
            assert(ids@.take(n + 1).drop_last() == ids@.take(n as int));
            lemma_index_statique_borne(objets@, ids@[n as int]@);
        }
        match chercher_statique(objets, &ids[n]) {
            Some(k) => {
                prendre_statique(objets, inv, k, marque);
            },
            None => {},
        }
        n += 1;
    }
    proof {
        assert(ids@.take(n as int) == ids@);
    }
}

/// Which of the objects at the player's place to pick up.
pub enum Selection {
    Tout,
    Un(String),
}

#[derive(Debug, Clone, Copy, PartialEq, Eq, Structural)]
pub enum ResultatCapture {
    /// No object at the player's place matches the selection.
    RienACapturer,
    /// `nombre` objects were picked up; `quete` tells whether the quest
    /// monitor fired afterwards.
    Capture { nombre: usize, quete: bool },
}

/// `o` is a static object or a consumable placed at `(pos, sous)`.
pub open spec fn capturable(o: Objet, pos: Seq<char>, sous: Seq<char>) -> bool {
    match o {
        Objet::ObjetStatique(s) => s.position@ == pos && s.sous_position@ == sous,
        Objet::Aliment(a) => a.position@ == pos && a.sous_position@ == sous,
        _ => false,
    }
}

/// Id of a static object or consumable.
pub open spec fn id_objet(o: Objet) -> Seq<char> {
    match o {
        Objet::ObjetStatique(s) => s.id@,
        Objet::Aliment(a) => a.id@,
        _ => Seq::empty(),
    }
}

pub open spec fn choisi(o: Objet, pos: Seq<char>, sous: Seq<char>, sel: Selection) -> bool {
    capturable(o, pos, sous) && match sel {
        Selection::Tout => true,
        Selection::Un(id) => id_objet(o) == id@,
    }
}

/// The inventory item a captured world object becomes, tagged by its kind.
pub open spec fn capture_de(o: Objet) -> ObjetInventaire {
    match o {
        Objet::ObjetStatique(s) => ObjetInventaire::ObjetStatique(s),
        Objet::Aliment(a) => ObjetInventaire::Aliment(a),
        _ => arbitrary(),
    }
}

/// The world entities that a capture leaves in place.
pub open spec fn restants(s: Seq<Objet>, pos: Seq<char>, sous: Seq<char>, sel: Selection) -> Seq<Objet>
    decreases s.len(),
{
    if s.len() == 0 {
        s
    } else {
        let r = restants(s.drop_last(), pos, sous, sel);
        if choisi(s.last(), pos, sous, sel) {
            r
        } else {
            r.push(s.last())
        }
    }
}

/// The inventory items that a capture adds, in world order.
pub open spec fn pris(s: Seq<Objet>, pos: Seq<char>, sous: Seq<char>, sel: Selection) -> Seq<ObjetInventaire>
    decreases s.len(),
{
    if s.len() == 0 {
        Seq::empty()
    } else {
        let r = pris(s.drop_last(), pos, sous, sel);
        if choisi(s.last(), pos, sous, sel) {
            r.push(capture_de(s.last()))
        } else {
            r
        }
    }
}

proof fn lemma_pris_vide(s: Seq<Objet>, pos: Seq<char>, sous: Seq<char>, sel: Selection)
    ensures
        pris(s, pos, sous, sel).len() == 0 <==> forall|i: int| 0 <= i < s.len() ==> !choisi(#[trigger] s[i], pos, sous, sel),
        pris(s, pos, sous, sel).len() == 0 ==> restants(s, pos, sous, sel) == s,
    decreases s.len(),
{
    if s.len() > 0 {
        let t = s.drop_last();
        lemma_pris_vide(t, pos, sous, sel);
        assert(t.push(s.last()) == s);
        if !choisi(s.last(), pos, sous, sel) {
            assert forall|i: int| 0 <= i < t.len() && !choisi(#[trigger] t[i], pos, sous, sel) implies !choisi(s[i], pos, sous, sel) by {
                assert(t[i] == s[i]);
            }
        }
    }
}

fn est_choisi(o: &Objet, pos: &String, sous: &String, sel: &Selection) -> (r: bool)
    ensures
        r == choisi(*o, pos@, sous@, *sel),
{
    let (id, p, sp) = match o {
        Objet::ObjetStatique(s) => (&s.id, &s.position, &s.sous_position),
        Objet::Aliment(a) => (&a.id, &a.position, &a.sous_position),
        _ => {
            return false;
        },
    };
    if !(*p == *pos && *sp == *sous) {
        return false;
    }
    match sel {
        Selection::Tout => true,
        Selection::Un(x) => *id == *x,
    }
}

/// Picks up the selected static objects and consumables placed at the
/// player's exact position and sub-position: they leave the world and are
/// appended to the inventory in world order, then the quest monitor runs.
pub fn capture_objets_statiques(monde: &mut Monde, sel: &Selection) -> (r: ResultatCapture)
    requires
        old(monde).wf(),
    ensures
        final(monde).wf(),
        ({
            let pos = old(monde).joueur.position@;
            let sous = old(monde).joueur.sous_position@;
            let ajout = pris(old(monde).objets@, pos, sous, *sel);
            match r {
                ResultatCapture::RienACapturer => ajout.len() == 0 && *final(monde) == *old(monde),
                ResultatCapture::Capture { nombre, quete } => {
                    &&& nombre == ajout.len()
                    &&& nombre > 0
                    &&& mis_a_jour(
                        *old(monde),
                        *final(monde),
                        restants(old(monde).objets@, pos, sous, *sel),
                        old(monde).joueur.inventaire@ + ajout,
                        true,
                        quete,
                    )
                },
            }
        }),
{
    let ghost m0 = *monde;
    let ghost o0 = monde.objets@;
    let ghost inv0 = monde.joueur.inventaire@;
    let ghost pos = monde.joueur.position@;
    let ghost sous = monde.joueur.sous_position@;
    let mut present = false;
    let mut j: usize = 0;
    while j < monde.objets.len()
        invariant
            j <= o0.len(),
            monde.objets@ == o0,
            monde.joueur.position@ == pos,
            monde.joueur.sous_position@ == sous,
            present <==> exists|x: int| 0 <= x < j && choisi(#[trigger] o0[x], pos, sous, *sel),
        decreases o0.len() - j,
    {
        if est_choisi(&monde.objets[j], &monde.joueur.position, &monde.joueur.sous_position, sel) {
            present = true;
        }
        j += 1;
    }
    proof {
        lemma_pris_vide(o0, pos, sous, *sel);
    }
    if !present {
        return ResultatCapture::RienACapturer;
    }
    let mut i: usize = 0;
    let mut nombre: usize = 0;
    let ghost mut k: int = 0;
    while i < monde.objets.len()
        invariant
            0 <= k <= o0.len(),
            monde.objets@ == restants(o0.take(k), pos, sous, *sel) + o0.skip(k),
            i == restants(o0.take(k), pos, sous, *sel).len(),
            monde.joueur.inventaire@ == inv0 + pris(o0.take(k), pos, sous, *sel),
            nombre == pris(o0.take(k), pos, sous, *sel).len(),
            nombre <= k,
            o0.len() <= usize::MAX,
            *monde == (Monde {
                objets: monde.objets,
                joueur: Joueur { inventaire: monde.joueur.inventaire, ..m0.joueur },
                ..m0
            }),
            m0 == *old(monde),
            monde.joueur.position@ == pos,
            monde.joueur.sous_position@ == sous,
            monde.wf(),
        decreases o0.len() - k,
    {
        let ghost r = restants(o0.take(k), pos, sous, *sel);
        proof {
            assert(o0.take(k + 1).drop_last() == o0.take(k));
            assert(o0.take(k + 1).last() == o0[k]);
            assert(o0.skip(k) == seq![o0[k]] + o0.skip(k + 1));
            assert(monde.objets@[i as int] == o0[k]);
        }
        if est_choisi(&monde.objets[i], &monde.joueur.position, &monde.joueur.sous_position, sel) {
            let o = monde.objets.remove(i);
            match o {
                Objet::ObjetStatique(s) => monde.joueur.inventaire.push(ObjetInventaire::ObjetStatique(s)),
                Objet::Aliment(a) => monde.joueur.inventaire.push(ObjetInventaire::Aliment(a)),
                _ => {
                    assert(false);
                },
            }
            nombre += 1;
            assert(monde.objets@ =~= r + o0.skip(k + 1));
        } else {
            i += 1;
            assert(monde.objets@ =~= r.push(o0[k]) + o0.skip(k + 1));
        }
        proof {
            k = k + 1;
        }
    }
    proof {
        assert(k == o0.len());
        assert(o0.take(k) =~= o0);
    }
    let quete = verifier_quete(monde);
    ResultatCapture::Capture { nombre, quete }
}

} // verus!
