use vstd::prelude::*;
use crate::modele::{Joueur, Objet, Pnj, PnjAvecType, PnjType};
use crate::monde::{Monde, mis_a_jour, verifier_quete};
use crate::capture::{apres_transfert, transferer};

verus! {

/// Power of the first attack of the world with this id.
pub open spec fn puissance_attaque(objets: Seq<Objet>, id: Seq<char>) -> Option<u32>
    decreases objets.len(),
{
    if objets.len() == 0 {
        None
    } else {
        match objets[0] {
            Objet::Attaque(a) => if a.id@ == id {
                Some(a.puissance)
            } else {
                puissance_attaque(objets.drop_first(), id)
            },
            _ => puissance_attaque(objets.drop_first(), id),
        }
    }
}

/// Powers of the attacks named by `ids`, in order; ids that name no attack
/// of the world are skipped.
pub open spec fn puissances(objets: Seq<Objet>, ids: Seq<String>) -> Seq<u32>
    decreases ids.len(),
{
    if ids.len() == 0 {
        Seq::empty()
    } else {
        let p = puissances(objets, ids.drop_last());
        match puissance_attaque(objets, ids.last()@) {
            Some(x) => p.push(x),
            None => p,
        }
    }
}

/// Ids of the attacks that the player's fruit grants, if any.
pub open spec fn attaques_du_joueur(j: Joueur) -> Seq<String> {
    match j.fruit_de_demon {
        Some(f) => f.attaque@,
        None => Seq::empty(),
    }
}

/// Damage of a hostile character's counter-attack: its power plus that of its
/// first attack found in the world, or its power alone.
pub open spec fn degats_riposte(puissance: u32, objets: Seq<Objet>, attaques: Seq<String>) -> int {
    let p = puissances(objets, attaques);
    if p.len() > 0 {
        puissance + p[0]
    } else {
        puissance as int
    }
}

/// Damage of the player's attack for choice `c`, given the player's power and
/// the powers of the available attacks: an invalid choice takes the first
/// attack, and with no attack the player strikes with their power alone.
pub open spec fn degats_choix(puissance: u32, attaques: Seq<u32>, c: int) -> int {
    if attaques.len() == 0 {
        puissance as int
    } else if 0 <= c < attaques.len() {
        puissance + attaques[c]
    } else {
        puissance + attaques[0]
    }
}

/// `a - b`, floored at zero.
pub open spec fn moins_plancher(a: int, b: int) -> int {
    if a > b {
        a - b
    } else {
        0
    }
}

#[derive(Debug, Clone, Copy, PartialEq, Eq, Structural)]
pub enum Issue {
    EnCours,
    Victoire,
    Defaite,
}

/// A combat against the hostile character at `pnj_index` of the world.
pub struct EtatCombat {
    pub pnj_index: usize,
    pub pnj_hp: u32,
    /// The player's power when the combat started.
    pub puissance_joueur: u32,
    /// Powers of the player's available attacks; empty for the normal attack only.
    pub puissances_attaques: Vec<u32>,
    pub degats_pnj: u64,
    pub issue: Issue,
}

#[derive(Debug, Clone, Copy, PartialEq, Eq, Structural)]
pub enum ErreurCombat {
    /// No character stands at that index of the world.
    PnjIntrouvable,
    PasUnEnnemi,
    DejaVaincu,
    /// Neither the player's weakest attack nor the counter-attack deals
    /// damage: the combat might never end.
    SansDegats,
}

/// The character at index `i` of the world, if one stands there.
pub open spec fn pnj_a(objets: Seq<Objet>, i: int) -> Option<PnjAvecType> {
    if 0 <= i < objets.len() {
        match objets[i] {
            Objet::PnjAvecType(p) => Some(p),
            _ => None,
        }
    } else {
        None
    }
}

/// Smallest element of a non-empty sequence.
pub open spec fn minimum(s: Seq<u32>) -> int
    decreases s.len(),
{
    if s.len() <= 1 {
        s[0] as int
    } else {
        let m = minimum(s.drop_last());
        if s.last() < m {
            s.last() as int
        } else {
            m
        }
    }
}

impl EtatCombat {
    /// Index of the attack used for a choice: an invalid choice takes the first.
    pub open spec fn attaque_choisie(&self, choix: int) -> int {
        if 0 <= choix < self.puissances_attaques@.len() {
            choix
        } else {
            0
        }
    }

    /// Damage dealt by the player for a choice of attack.
    pub open spec fn degats_joueur(&self, choix: int) -> int {
        degats_choix(self.puissance_joueur, self.puissances_attaques@, choix)
    }

    /// While the combat goes on, both sides have hit points left.
    pub open spec fn coherent(&self, monde: Monde) -> bool {
        self.issue == Issue::EnCours ==> self.pnj_hp > 0 && monde.joueur.hp > 0
    }

    /// Damage of the player's weakest attack.
    pub open spec fn degats_min(&self) -> int {
        if self.puissances_attaques@.len() == 0 {
            self.puissance_joueur as int
        } else {
            self.puissance_joueur + minimum(self.puissances_attaques@)
        }
    }

    /// The state in which a combat against a hostile character with these
    /// hit points, power and attacks starts in world `m`.
    pub open spec fn initial(
        &self,
        m: Monde,
        index: int,
        hp: u32,
        puissance: u32,
        attaques: Seq<String>,
    ) -> bool {
        &&& self.pnj_index == index
        &&& self.pnj_hp == hp
        &&& self.puissance_joueur == m.joueur.puissance
        &&& self.puissances_attaques@ == puissances(m.objets@, attaques_du_joueur(m.joueur))
        &&& self.degats_pnj == degats_riposte(puissance, m.objets@, attaques)
        &&& self.issue == if m.joueur.hp == 0 {
            Issue::Defaite
        } else {
            Issue::EnCours
        }
    }

    /// Neither the player's weakest attack nor the counter-attack deals damage.
    pub open spec fn sans_degats(&self) -> bool {
        self.degats_min() == 0 && self.degats_pnj == 0
    }

    pub fn degats_minimum(&self) -> (r: u64)
        ensures
            r == self.degats_min(),
    {
        let s = &self.puissances_attaques;
        if s.len() == 0 {
            return self.puissance_joueur as u64;
        }
        let mut m: u32 = s[0];
        let mut i: usize = 1;
        assert(s@.take(1).drop_last().len() == 0);
        while i < s.len()
            invariant
                1 <= i <= s@.len(),
                m == minimum(s@.take(i as int)),
            decreases s@.len() - i,
        {
            assert(s@.take(i + 1).drop_last() == s@.take(i as int));
            if s[i] < m {
                m = s[i];
            }
            i += 1;
        }
        assert(s@.take(i as int) == s@);
        self.puissance_joueur as u64 + m as u64
    }

    pub fn degats(&self, choix: usize) -> (r: u64)
        ensures
            r == self.degats_joueur(choix as int),
    {
        if self.puissances_attaques.len() == 0 {
            self.puissance_joueur as u64
        } else if choix < self.puissances_attaques.len() {
            self.puissance_joueur as u64 + self.puissances_attaques[choix] as u64
        } else {
            self.puissance_joueur as u64 + self.puissances_attaques[0] as u64
        }
    }
}

/// Power of the first attack of the world with this id.
pub fn chercher_attaque(objets: &Vec<Objet>, id: &String) -> (r: Option<u32>)
    ensures
        r == puissance_attaque(objets@, id@),
{
    let ghost s = objets@;
    let mut i: usize = 0;
    assert(s.subrange(0, s.len() as int) == s);
    while i < objets.len()
        invariant
            i <= s.len(),
            s == objets@,
            puissance_attaque(s, id@) == puissance_attaque(s.subrange(i as int, s.len() as int), id@),
        decreases s.len() - i,
    {
        let ghost t = s.subrange(i as int, s.len() as int);
        assert(t.drop_first() == s.subrange(i + 1, s.len() as int));
        assert(t[0] == s[i as int]);
        match &objets[i] {
            Objet::Attaque(a) => {
                if a.id == *id {
                    return Some(a.puissance);
                }
            },
            _ => {},
        }
        i += 1;
    }
    assert(s.subrange(i as int, s.len() as int).len() == 0);
    None
}

/// Powers of the attacks named by `ids` that the world holds, in order.
pub fn puissances_de(objets: &Vec<Objet>, ids: &Vec<String>) -> (r: Vec<u32>)
    ensures
        r@ == puissances(objets@, ids@),
{
    let mut r: Vec<u32> = Vec::new();
    let mut n: usize = 0;
    while n < ids.len()
        invariant
            n <= ids@.len(),
            r@ == puissances(objets@, ids@.take(n as int)),
        decreases ids@.len() - n,
    {
        proof {
            assert(ids@.take(n + 1).drop_last() == ids@.take(n as int));
        }
        match chercher_attaque(objets, &ids[n]) {
            Some(p) => r.push(p),
            None => {},
        }
        n += 1;
    }
    proof {
        assert(ids@.take(n as int) == ids@);
    }
    r
}

proof fn lemma_minimum(s: Seq<u32>, i: int)
    requires
        0 <= i < s.len(),
    ensures
        minimum(s) <= s[i],
    decreases s.len(),
{
    if s.len() > 1 && i < s.len() - 1 {
        lemma_minimum(s.drop_last(), i);
    }
}

proof fn lemma_minimum_positif(s: Seq<u32>)
    ensures
        minimum(s) >= 0,
    decreases s.len(),
{
    if s.len() > 1 {
        lemma_minimum_positif(s.drop_last());
    }
}

proof fn lemma_degats_min(e: EtatCombat, c: int)
    ensures
        0 <= e.degats_min() <= e.degats_joueur(c),
{
    if e.puissances_attaques@.len() > 0 {
        lemma_minimum(e.puissances_attaques@, e.attaque_choisie(c));
        lemma_minimum_positif(e.puissances_attaques@);
    }
}

/// The state at the start of a combat against a hostile character with these
/// hit points, power and attacks, standing at `index` of the world.
fn etat_initial(
    monde: &Monde,
    index: usize,
    hp: u32,
    puissance: u32,
    attaques: &Vec<String>,
) -> (r: EtatCombat)
    ensures
        r.initial(*monde, index as int, hp, puissance, attaques@),
{
    let puissances_attaques = match &monde.joueur.fruit_de_demon {
        Some(f) => puissances_de(&monde.objets, &f.attaque),
        None => Vec::new(),
    };
    let riposte = puissances_de(&monde.objets, attaques);
    let degats_pnj = if riposte.len() > 0 {
        puissance as u64 + riposte[0] as u64
    } else {
        puissance as u64
    };
    let issue = if monde.joueur.hp == 0 {
        Issue::Defaite
    } else {
        Issue::EnCours
    };
    EtatCombat {
        pnj_index: index,
        pnj_hp: hp,
        puissance_joueur: monde.joueur.puissance,
        puissances_attaques,
        degats_pnj,
        issue,
    }
}

/// Starts a combat against the hostile character at `pnj_index` of the world.
pub fn demarrer_combat(monde: &Monde, pnj_index: usize) -> (r: Result<EtatCombat, ErreurCombat>)
    ensures
        match r {
            Ok(e) => erreur_demarrage(*monde, pnj_index as int) == None::<ErreurCombat> && debut(
                *monde,
                pnj_index as int,
                e,
            ),
            Err(x) => erreur_demarrage(*monde, pnj_index as int) == Some(x),
        },
{
    if pnj_index >= monde.objets.len() {
        return Err(ErreurCombat::PnjIntrouvable);
    }
    match &monde.objets[pnj_index] {
        Objet::PnjAvecType(p) => match &p.type_de_pnj {
            PnjType::Ennemi { puissance, hp, attaques, .. } => {
                if *hp == 0 {
                    return Err(ErreurCombat::DejaVaincu);
                }
                let e = etat_initial(monde, pnj_index, *hp, *puissance, attaques);
                if e.degats_minimum() == 0 && e.degats_pnj == 0 {
                    return Err(ErreurCombat::SansDegats);
                }
                Ok(e)
            },
            _ => Err(ErreurCombat::PasUnEnnemi),
        },
        _ => Err(ErreurCombat::PnjIntrouvable),
    }
}

/// One round: the player strikes with the chosen attack (an invalid choice
/// takes the first); if the character still stands it strikes back, and the
/// player's hit points are updated at once.
pub fn tour_de_combat(monde: &mut Monde, etat: &mut EtatCombat, choix: usize)
    requires
        old(monde).wf(),
        old(etat).issue == Issue::EnCours,
        old(etat).coherent(*old(monde)),
    ensures
        final(monde).wf(),
        final(etat).coherent(*final(monde)),
        final(etat).pnj_hp == moins_plancher(
            old(etat).pnj_hp as int,
            old(etat).degats_joueur(choix as int),
        ),
        final(etat).pnj_hp == 0 ==> final(etat).issue == Issue::Victoire && *final(monde) == *old(monde),
        final(etat).pnj_hp > 0 ==> {
            &&& final(monde).joueur.hp == moins_plancher(
                old(monde).joueur.hp as int,
                old(etat).degats_pnj as int,
            )
            &&& *final(monde) == (Monde {
                joueur: Joueur { hp: final(monde).joueur.hp, ..old(monde).joueur },
                ..*old(monde)
            })
            &&& final(etat).issue == if final(monde).joueur.hp == 0 {
                Issue::Defaite
            } else {
                Issue::EnCours
            }
        },
        *final(etat) == (EtatCombat {
            pnj_hp: final(etat).pnj_hp,
            issue: final(etat).issue,
            ..*old(etat)
        }),
{
    let d = etat.degats(choix);
    etat.pnj_hp = if etat.pnj_hp as u64 > d {
        (etat.pnj_hp as u64 - d) as u32
    } else {
        0
    };
    if etat.pnj_hp == 0 {
        etat.issue = Issue::Victoire;
        return;
    }
    let hp = monde.joueur.hp;
    monde.joueur.hp = if hp as u64 > etat.degats_pnj {
        (hp as u64 - etat.degats_pnj) as u32
    } else {
        0
    };
    if monde.joueur.hp == 0 {
        etat.issue = Issue::Defaite;
    }
}

/// Powers of the attacks the player can use in world `m`.
pub open spec fn puissances_joueur(m: Monde) -> Seq<u32> {
    puissances(m.objets@, attaques_du_joueur(m.joueur))
}

/// Damage of the player's weakest attack in world `m`.
pub open spec fn degats_min_monde(m: Monde) -> int {
    let p = puissances_joueur(m);
    if p.len() == 0 {
        m.joueur.puissance as int
    } else {
        m.joueur.puissance + minimum(p)
    }
}

/// Why no combat can start against the character at `i`, if it cannot.
pub open spec fn erreur_demarrage(m: Monde, i: int) -> Option<ErreurCombat> {
    match pnj_a(m.objets@, i) {
        None => Some(ErreurCombat::PnjIntrouvable),
        Some(p) => match p.type_de_pnj {
            PnjType::Ennemi { puissance, hp, attaques, .. } => if hp == 0 {
                Some(ErreurCombat::DejaVaincu)
            } else if degats_min_monde(m) == 0 && degats_riposte(puissance, m.objets@, attaques@) == 0 {
                Some(ErreurCombat::SansDegats)
            } else {
                None
            },
            _ => Some(ErreurCombat::PasUnEnnemi),
        },
    }
}

/// `e` is the state in which the combat against the character at `i` starts.
pub open spec fn debut(m: Monde, i: int, e: EtatCombat) -> bool {
    match pnj_a(m.objets@, i) {
        Some(p) => match p.type_de_pnj {
            PnjType::Ennemi { puissance, hp, attaques, .. } => e.initial(m, i, hp, puissance, attaques@),
            _ => false,
        },
        None => false,
    }
}

/// Hit points of the hostile character at `i`.
pub open spec fn hp_ennemi(m: Monde, i: int) -> int {
    match pnj_a(m.objets@, i) {
        Some(p) => match p.type_de_pnj {
            PnjType::Ennemi { hp, .. } => hp as int,
            _ => 0,
        },
        None => 0,
    }
}

/// Damage of the counter-attack of the hostile character at `i`.
pub open spec fn riposte_ennemi(m: Monde, i: int) -> int {
    match pnj_a(m.objets@, i) {
        Some(p) => match p.type_de_pnj {
            PnjType::Ennemi { puissance, attaques, .. } => degats_riposte(puissance, m.objets@, attaques@),
            _ => 0,
        },
        None => 0,
    }
}

/// `apres` is the hostile character `avant` once a combat has ended with it
/// at `hp` hit points; a defeated one has given away its whole inventory.
pub open spec fn pnj_conclu(avant: PnjAvecType, apres: PnjAvecType, hp: u32, victoire: bool) -> bool {
    &&& apres.pnj == (Pnj { inventaire: apres.pnj.inventaire, ..avant.pnj })
    &&& if victoire {
        apres.pnj.inventaire@.len() == 0
    } else {
        apres.pnj.inventaire == avant.pnj.inventaire
    }
    &&& match avant.type_de_pnj {
        PnjType::Ennemi { puissance, attaques, required_items, .. } => apres.type_de_pnj
            == (PnjType::Ennemi { puissance, hp, attaques, required_items }),
        _ => false,
    }
}

/// `apres` is world `avant` once the combat against the character at `i` has
/// ended with it at `hp` hit points: its hit points are kept; on a victory its
/// inventory goes to the player, then the quest monitor runs (`quete` tells
/// whether it fired).
pub open spec fn conclu(avant: Monde, apres: Monde, i: int, hp: u32, victoire: bool, quete: bool) -> bool {
    let p = pnj_a(avant.objets@, i).unwrap();
    let ids = if victoire {
        p.pnj.inventaire@
    } else {
        Seq::empty()
    };
    exists|q: PnjAvecType|
        #[trigger] pnj_conclu(p, q, hp, victoire) && {
            let (o, inv) = apres_transfert(
                avant.objets@.update(i, Objet::PnjAvecType(q)),
                avant.joueur.inventaire@,
                ids,
                avant.regles.marque_inventaire,
            );
            mis_a_jour(avant, apres, o, inv, victoire, quete)
        }
}

/// Ends a combat: the character keeps its remaining hit points; on a victory
/// its inventory objects found in the world go to the player and the quest
/// monitor runs. Returns whether the monitor fired.
pub fn conclure_combat(monde: &mut Monde, etat: &EtatCombat) -> (r: bool)
    requires
        old(monde).wf(),
        etat.issue != Issue::EnCours,
        pnj_a(old(monde).objets@, etat.pnj_index as int) is Some,
        pnj_a(old(monde).objets@, etat.pnj_index as int).unwrap().type_de_pnj is Ennemi,
    ensures
        final(monde).wf(),
        conclu(*old(monde), *final(monde), etat.pnj_index as int, etat.pnj_hp, etat.issue == Issue::Victoire, r),
{
    let ghost avant = *monde;
    let i = etat.pnj_index;
    let victoire = etat.issue == Issue::Victoire;
    let mut ids: Vec<String> = Vec::new();
    let o = monde.objets.remove(i);
    let ghost q: PnjAvecType;
    match o {
        Objet::PnjAvecType(mut p) => {
            p.type_de_pnj = match p.type_de_pnj {
                PnjType::Ennemi { puissance, hp: _, attaques, required_items } => PnjType::Ennemi {
                    puissance,
                    hp: etat.pnj_hp,
                    attaques,
                    required_items,
                },
                t => t,
            };
            if victoire {
                std::mem::swap(&mut ids, &mut p.pnj.inventaire);
            }
            proof {
                q = p;
            }
            monde.objets.insert(i, Objet::PnjAvecType(p));
        },
        autre => {
            proof {
                q = arbitrary();
            }
            assert(false);
            monde.objets.insert(i, autre);
        },
    }
    assert(monde.objets@ == avant.objets@.update(i as int, Objet::PnjAvecType(q)));
    assert(pnj_conclu(pnj_a(avant.objets@, i as int).unwrap(), q, etat.pnj_hp, victoire));
    if victoire {
        transferer(&mut monde.objets, &mut monde.joueur.inventaire, &ids, &monde.regles.marque_inventaire);
        verifier_quete(monde)
    } else {
        false
    }
}

/// How a combat run to its end went.
pub struct ResultatCombat {
    pub issue: Issue,
    pub tours: u64,
    /// The character's hit points at the end.
    pub pnj_hp: u32,
    /// Whether the quest monitor fired.
    pub quete: bool,
}

/// Runs a whole combat against the hostile character at `pnj_index`: round
/// `t` uses attack `choix[t]`, or the first attack once `choix` is used up.
pub fn combat(monde: &mut Monde, pnj_index: usize, choix: &Vec<usize>) -> (r: Result<ResultatCombat, ErreurCombat>)
    requires
        old(monde).wf(),
    ensures
        final(monde).wf(),
        match r {
            Err(x) => erreur_demarrage(*old(monde), pnj_index as int) == Some(x) && *final(monde) == *old(monde),
            Ok(c) => {
                &&& erreur_demarrage(*old(monde), pnj_index as int) == None::<ErreurCombat>
                &&& c.issue != Issue::EnCours
                &&& c.issue == Issue::Victoire <==> c.pnj_hp == 0
                &&& c.issue == Issue::Victoire ==> final(monde).joueur.hp > 0
                &&& c.issue == Issue::Defaite ==> final(monde).joueur.hp == 0
                &&& final(monde).joueur.hp <= old(monde).joueur.hp
                &&& c.pnj_hp <= hp_ennemi(*old(monde), pnj_index as int)
                &&& conclu(
                    Monde { joueur: Joueur { hp: final(monde).joueur.hp, ..old(monde).joueur }, ..*old(monde) },
                    *final(monde),
                    pnj_index as int,
                    c.pnj_hp,
                    c.issue == Issue::Victoire,
                    c.quete,
                )
                &&& (c.pnj_hp as int, final(monde).joueur.hp as int, c.tours as int) == deroulement(
                    old(monde).joueur.puissance,
                    puissances_joueur(*old(monde)),
                    riposte_ennemi(*old(monde), pnj_index as int),
                    choix@,
                    hp_ennemi(*old(monde), pnj_index as int),
                    old(monde).joueur.hp as int,
                    0,
                )
                &&& degats_min_monde(*old(monde)) >= 1 ==> (c.tours - 1) * degats_min_monde(*old(monde))
                    < hp_ennemi(*old(monde), pnj_index as int)
                &&& riposte_ennemi(*old(monde), pnj_index as int) >= 1 ==> (c.tours - 1) * riposte_ennemi(
                    *old(monde),
                    pnj_index as int,
                ) < old(monde).joueur.hp
            },
        },
{
    let mut etat = match demarrer_combat(monde, pnj_index) {
        Ok(e) => e,
        Err(x) => {
            return Err(x);
        },
    };
    let ghost m0 = *monde;
    let ghost e0 = etat;
    let ghost dmin = etat.degats_min();
    let ghost dp = etat.degats_pnj as int;
    let ghost hn = etat.pnj_hp as int;
    let ghost hj = monde.joueur.hp as int;
    let ghost fin = deroulement(e0.puissance_joueur, e0.puissances_attaques@, dp, choix@, hn, hj, 0);
    proof {
        lemma_degats_min(e0, 0);
    }
    let mut t: u64 = 0;
    while etat.issue == Issue::EnCours
        invariant
            monde.wf(),
            etat.coherent(*monde),
            etat == (EtatCombat { pnj_hp: etat.pnj_hp, issue: etat.issue, ..e0 }),
            *monde == (Monde { joueur: Joueur { hp: monde.joueur.hp, ..m0.joueur }, ..m0 }),
            !e0.sans_degats(),
            dmin == e0.degats_min(),
            dp == e0.degats_pnj,
            0 <= dmin,
            0 <= dp,
            etat.issue == Issue::EnCours ==> etat.pnj_hp + t * dmin <= hn && monde.joueur.hp + t * dp <= hj,
            t >= 1 ==> (t - 1) * dmin < hn && (t - 1) * dp < hj,
            etat.issue == Issue::Victoire ==> etat.pnj_hp == 0 && monde.joueur.hp > 0,
            etat.issue == Issue::Defaite ==> etat.pnj_hp > 0 && monde.joueur.hp == 0,
            etat.pnj_hp <= hn,
            monde.joueur.hp <= hj,
            t + etat.pnj_hp + monde.joueur.hp <= hn + hj,
            hn <= u32::MAX,
            hj <= u32::MAX,
            etat.issue == Issue::EnCours ==> deroulement(
                e0.puissance_joueur,
                e0.puissances_attaques@,
                dp,
                choix@,
                etat.pnj_hp as int,
                monde.joueur.hp as int,
                t as int,
            ) == fin,
            etat.issue != Issue::EnCours ==> (etat.pnj_hp as int, monde.joueur.hp as int, t as int) == fin,
        decreases etat.pnj_hp + monde.joueur.hp,
    {
        let c = if t < choix.len() as u64 {
            choix[t as usize]
        } else {
            0
        };
        let ghost h_avant = etat.pnj_hp as int;
        let ghost j_avant = monde.joueur.hp as int;
        proof {
            lemma_degats_min(e0, c as int);
            assert(t * dmin < hn && t * dp < hj);
        }
        tour_de_combat(monde, &mut etat, c);
        proof {
            let cc = if 0 <= t < choix@.len() {
                choix@[t as int] as int
            } else {
                0
            };
            assert(cc == c as int);
            if etat.pnj_hp > 0 {
                assert(etat.pnj_hp + monde.joueur.hp < h_avant + j_avant);
            }
            assert(deroulement(e0.puissance_joueur, e0.puissances_attaques@, dp, choix@, h_avant, j_avant, t as int)
                == deroulement(
                e0.puissance_joueur,
                e0.puissances_attaques@,
                dp,
                choix@,
                etat.pnj_hp as int,
                monde.joueur.hp as int,
                t + 1,
            ));
            assert((t + 1) * dmin == t * dmin + dmin) by (nonlinear_arith);
            assert((t + 1) * dp == t * dp + dp) by (nonlinear_arith);
        }
        t += 1;
    }
    let quete = conclure_combat(monde, &etat);
    Ok(ResultatCombat { issue: etat.issue, tours: t, pnj_hp: etat.pnj_hp, quete })
}

/// How a combat runs on once the character has `hn` hit points and the
/// player `hj`, after `t` rounds: round `t` uses attack `choix[t]`, or the
/// first attack once `choix` is used up. Gives the hit points of both sides
/// and the number of rounds at the end. (A round in which nobody loses hit
/// points ends the run: no combat that can start has one.)
pub open spec fn deroulement(
    puissance: u32,
    attaques: Seq<u32>,
    riposte: int,
    choix: Seq<usize>,
    hn: int,
    hj: int,
    t: int,
) -> (int, int, int)
    decreases hn + hj,
{
    if hn <= 0 || hj <= 0 {
        (hn, hj, t)
    } else {
        let c = if 0 <= t < choix.len() {
            choix[t] as int
        } else {
            0
        };
        let hn2 = moins_plancher(hn, degats_choix(puissance, attaques, c));
        if hn2 == 0 {
            (0, hj, t + 1)
        } else {
            let hj2 = moins_plancher(hj, riposte);
            if hn2 + hj2 < hn + hj {
                deroulement(puissance, attaques, riposte, choix, hn2, hj2, t + 1)
            } else {
                (hn2, hj2, t + 1)
            }
        }
    }
}

} // verus!
