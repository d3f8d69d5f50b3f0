use grand_line::aliment::{
    consommer_aliment, effet_ivresse, epreuve_equilibre, equilibre_tenu, Consommation,
    ErreurConsommation,
};
use grand_line::capture::{capture_objets_statiques, ResultatCapture, Selection};
use grand_line::combat::{
    combat, conclure_combat, demarrer_combat, tour_de_combat, ErreurCombat, Issue,
};
use grand_line::deplacement::{move_inside, move_joueur, ErreurDeplacement};
use grand_line::fruit::{capture_fruit_de_demon, fruit_ici, ResultatFruit};
use grand_line::modele::{
    Aliment, Attaque, Connection, FruitDuDemon, Joueur, Lieu, Objet, ObjetInventaire, ObjetMobile,
    ObjetStatique, Orientation, Pnj, PnjAvecType, PnjType, SousLieu,
};
use grand_line::monde::{ErreurChargement, Monde, Regles};
use grand_line::pnj::{interact, trouver_pnj, ErreurInteraction, Interaction};
use grand_line::vue::{entites_ici, objets_capturables};

fn s(x: &str) -> String {
    x.to_string()
}

fn joueur_test() -> Joueur {
    Joueur {
        nom: s("Test"),
        fruit_de_demon: None,
        position: s("piece1"),
        sous_position: s("SL1"),
        inventaire: vec![],
        puissance: 10,
        hp: 100,
    }
}

fn creer_joueur_test() -> Joueur {
    joueur_test()
}

fn monde(objets: Vec<Objet>, joueur: Joueur) -> Monde {
    Monde::nouveau(objets, joueur, Regles::standard()).unwrap()
}

fn statique(id: &str, position: &str, sous_position: &str) -> ObjetStatique {
    ObjetStatique {
        id: s(id),
        nom: format!("Objet {}", id),
        description: s("un objet"),
        position: s(position),
        sous_position: s(sous_position),
    }
}

fn aliment(id: &str, nom: &str, hp: u32) -> Aliment {
    Aliment {
        id: s(id),
        nom: s(nom),
        description: s("de quoi manger"),
        position: s("piece1"),
        sous_position: s("SL1"),
        hp,
    }
}

fn fruit(id: &str, nom: &str) -> FruitDuDemon {
    FruitDuDemon {
        id: s(id),
        nom: s(nom),
        description: s("un fruit"),
        sous_position: s("SL1"),
        pouvoir: s("pouvoir"),
        position: s("piece1"),
        attaque: vec![],
    }
}

fn attaque(id: &str, puissance: u32) -> Attaque {
    Attaque { id: s(id), nom: format!("Attaque {}", id), description: s("une attaque"), puissance }
}

fn creer_pnj_gentil() -> PnjAvecType {
    PnjAvecType {
        pnj: Pnj {
            nom: s("PNJ Gentil"),
            description: s("Un PNJ amical"),
            position: s("piece1"),
            sous_position: s("SL1"),
            inventaire: vec![],
        },
        type_de_pnj: PnjType::Gentil { dialogue_special: Some(s("Bonjour aventurier !")) },
    }
}

fn creer_pnj_ennemi() -> PnjAvecType {
    PnjAvecType {
        pnj: Pnj {
            nom: s("PNJ Ennemi"),
            description: s("Un PNJ hostile"),
            position: s("piece1"),
            sous_position: s("SL1"),
            inventaire: vec![],
        },
        type_de_pnj: PnjType::Ennemi {
            puissance: 5,
            hp: 50,
            attaques: vec![s("attaque1")],
            required_items: vec![],
        },
    }
}

fn creer_attaque_test() -> Attaque {
    Attaque {
        id: s("attaque1"),
        nom: s("Attaque Test"),
        description: s("Une attaque pour les tests"),
        puissance: 20,
    }
}

fn ennemi(hp: u32, puissance: u32, inventaire: Vec<String>, requis: Vec<String>) -> PnjAvecType {
    PnjAvecType {
        pnj: Pnj {
            nom: s("Kaido"),
            description: s("hostile"),
            position: s("piece1"),
            sous_position: s("SL1"),
            inventaire,
        },
        type_de_pnj: PnjType::Ennemi { puissance, hp, attaques: vec![], required_items: requis },
    }
}

fn hp_pnj(m: &Monde, i: usize) -> u32 {
    match &m.objets[i] {
        Objet::PnjAvecType(p) => match &p.type_de_pnj {
            PnjType::Ennemi { hp, .. } => *hp,
            _ => panic!("pas un ennemi"),
        },
        _ => panic!("pas un personnage"),
    }
}

fn ids_inventaire(j: &Joueur) -> Vec<String> {
    j.inventaire
        .iter()
        .map(|i| match i {
            ObjetInventaire::ObjetStatique(o) => o.id.clone(),
            ObjetInventaire::Aliment(a) => a.id.clone(),
        })
        .collect()
}

fn lieu(id: &str, connections: Vec<Connection>, cle: &str) -> Lieu {
    Lieu { id: s(id), nom: format!("Lieu {}", id), description: s("un lieu"), connections, required_key: s(cle) }
}

fn sous_lieu(id: &str, position: &str, connections: Vec<Connection>) -> SousLieu {
    SousLieu { id: s(id), nom: format!("Sous-lieu {}", id), position: s(position), description: s("ici"), connections }
}

fn vers(orientation: Orientation, destination: &str) -> Connection {
    Connection { orientation, destination: s(destination) }
}

fn bateau(position: &str, sous_position: &str) -> ObjetMobile {
    ObjetMobile {
        id: s("b1"),
        nom: s("Bateau"),
        description: s("un bateau"),
        position: s(position),
        sous_position: s(sous_position),
    }
}

fn carte(cle: &str) -> Vec<Objet> {
    vec![
        Objet::Lieu(lieu("L1", vec![vers(Orientation::N, "L2")], "")),
        Objet::Lieu(lieu("L2", vec![vers(Orientation::S, "L1")], cle)),
        Objet::SousLieu(sous_lieu("S1", "L1", vec![])),
        Objet::SousLieu(sous_lieu("SL2", "L2", vec![])),
        Objet::SousLieu(sous_lieu("SE_port", "L2", vec![])),
        Objet::ObjetMobile(bateau("L1", "S1")),
    ]
}

fn voyageur() -> Joueur {
    Joueur { position: s("L1"), sous_position: s("S1"), ..joueur_test() }
}

#[test]
fn test_capture_fruit_de_demon_logic() {
    let mut joueur = joueur_test();
    let fruit = FruitDuDemon {
        id: "f1".to_string(),
        nom: "Gomu Gomu".to_string(),
        description: "Fruit du caoutchouc".to_string(),
        sous_position: "SL1".to_string(),
        pouvoir: "Caoutchouc".to_string(),
        position: "piece1".to_string(),
        attaque: vec![],
    };
    let mut objets = vec![Objet::FruitDuDemon(fruit.clone())];
    joueur.fruit_de_demon = Some(fruit.clone());
    objets.remove(0);
    assert!(joueur.fruit_de_demon.is_some());
    assert!(objets.is_empty());
}

#[test]
fn test_interact_avec_pnj_inexistant() {
    let mut m = monde(vec![Objet::PnjAvecType(creer_pnj_gentil())], creer_joueur_test());
    let r = interact(&mut m, "PNJ Inconnu", false);
    assert!(matches!(r, Err(ErreurInteraction::PasIci)));
}

#[test]
fn test_interact_avec_pnj_existant() {
    let joueur = creer_joueur_test();
    let pnj_gentil = creer_pnj_gentil();
    let mut m = monde(vec![Objet::PnjAvecType(pnj_gentil.clone())], joueur);
    let r = interact(&mut m, &pnj_gentil.pnj.nom, false).unwrap();
    assert_eq!(r.interaction, Interaction::RienAOffrir);
    assert_eq!(r.index, 0);
    assert!(r.combat.is_none());
}

#[test]
fn test_interact_avec_pnj_different_position() {
    let joueur = creer_joueur_test();
    let mut pnj_gentil = creer_pnj_gentil();
    pnj_gentil.pnj.position = "piece2".to_string();
    let mut m = monde(vec![Objet::PnjAvecType(pnj_gentil.clone())], joueur);
    let r = interact(&mut m, &pnj_gentil.pnj.nom, false);
    assert!(matches!(r, Err(ErreurInteraction::PasIci)));
}

#[test]
fn test_combat_avec_pnj_non_ennemi() {
    let joueur = creer_joueur_test();
    let pnj_gentil = creer_pnj_gentil();
    let mut m = monde(vec![Objet::PnjAvecType(pnj_gentil)], joueur);
    let r = combat(&mut m, 0, &vec![]);
    assert!(matches!(r, Err(ErreurCombat::PasUnEnnemi)));
}

#[test]
fn test_combat_resultat_hp() {
    let mut joueur = creer_joueur_test();
    joueur.puissance = 100;
    let mut pnj_ennemi = creer_pnj_ennemi();
    if let PnjType::Ennemi { ref mut hp, .. } = pnj_ennemi.type_de_pnj {
        *hp = 10;
    }
    let attaque = creer_attaque_test();
    let mut m = monde(vec![Objet::PnjAvecType(pnj_ennemi), Objet::Attaque(attaque)], joueur);
    combat(&mut m, 0, &vec![]).unwrap();
    assert_eq!(hp_pnj(&m, 0), 0, "L'ennemi devrait être vaincu (HP à 0)");
}

#[test]
fn voyage_en_bateau_vers_le_nord() {
    let mut m = monde(carte(""), voyageur());
    let r = move_joueur(&mut m, Orientation::N);
    assert!(r.is_ok());
    assert_eq!(m.joueur.position, "L2");
    assert_eq!(m.joueur.sous_position, "SE_port");
    match &m.objets[5] {
        Objet::ObjetMobile(b) => {
            assert_eq!(b.position, "L2");
            assert_eq!(b.sous_position, "SE_port");
        }
        _ => panic!("le bateau a disparu"),
    }
}

#[test]
fn voyage_sans_bateau() {
    let mut objets = carte("");
    objets.pop();
    let mut m = monde(objets, voyageur());
    assert!(matches!(move_joueur(&mut m, Orientation::N), Err(ErreurDeplacement::PasDeBateau)));
    assert_eq!(m.joueur.position, "L1");
}

#[test]
fn voyage_sans_connexion() {
    let mut m = monde(carte(""), voyageur());
    assert!(matches!(move_joueur(&mut m, Orientation::E), Err(ErreurDeplacement::AucuneConnexion)));
    assert_eq!(m.joueur.position, "L1");
}

#[test]
fn voyage_depuis_un_lieu_inconnu() {
    let joueur = Joueur { position: s("L9"), sous_position: s("S9"), ..joueur_test() };
    let mut objets = carte("");
    objets.push(Objet::ObjetMobile(bateau("L9", "S9")));
    let mut m = monde(objets, joueur);
    assert!(matches!(move_joueur(&mut m, Orientation::N), Err(ErreurDeplacement::LieuIntrouvable)));
}

#[test]
fn voyage_vers_une_destination_inconnue() {
    let mut objets = carte("");
    objets[0] = Objet::Lieu(lieu("L1", vec![vers(Orientation::O, "L7")], ""));
    let mut m = monde(objets, voyageur());
    assert!(matches!(
        move_joueur(&mut m, Orientation::O),
        Err(ErreurDeplacement::DestinationIntrouvable)
    ));
}

#[test]
fn voyage_sans_la_cle_puis_avec() {
    let mut m = monde(carte("cle"), voyageur());
    m.joueur.inventaire.push(ObjetInventaire::Aliment(aliment("cle", "pas une cle", 5)));
    match move_joueur(&mut m, Orientation::N) {
        Err(ErreurDeplacement::CleManquante(c)) => assert_eq!(c, "cle"),
        _ => panic!("la cle aurait du manquer"),
    }
    assert_eq!(m.joueur.position, "L1");
    m.joueur.inventaire.push(ObjetInventaire::ObjetStatique(statique("cle", "inventaire", "SL1")));
    assert!(move_joueur(&mut m, Orientation::N).is_ok());
    assert_eq!(m.joueur.position, "L2");
}

#[test]
fn voyage_sans_point_d_entree() {
    let mut objets = carte("");
    objets.remove(4);
    let mut m = monde(objets, voyageur());
    assert!(matches!(
        move_joueur(&mut m, Orientation::N),
        Err(ErreurDeplacement::PasDePointDEntree)
    ));
    assert_eq!(m.joueur.position, "L2");
    assert_eq!(m.joueur.sous_position, "S1");
}

#[test]
fn deplacement_interne() {
    let objets = vec![
        Objet::SousLieu(sous_lieu(
            "SL1",
            "piece1",
            vec![vers(Orientation::E, "SL2"), vers(Orientation::O, "SL9")],
        )),
        Objet::SousLieu(sous_lieu("SL2", "piece1", vec![])),
    ];
    let mut joueur = joueur_test();
    assert!(matches!(
        move_inside(&mut joueur, Orientation::N, &objets),
        Err(ErreurDeplacement::AucuneConnexion)
    ));
    match move_inside(&mut joueur, Orientation::O, &objets) {
        Err(ErreurDeplacement::TopologieRompue(d)) => assert_eq!(d, "SL9"),
        _ => panic!("la destination n'existe pas"),
    }
    assert_eq!(joueur.sous_position, "SL1");
    assert!(move_inside(&mut joueur, Orientation::E, &objets).is_ok());
    assert_eq!(joueur.sous_position, "SL2");
    let mut perdu = Joueur { sous_position: s("SL5"), ..joueur_test() };
    assert!(matches!(
        move_inside(&mut perdu, Orientation::E, &objets),
        Err(ErreurDeplacement::SousLieuIntrouvable)
    ));
}

#[test]
fn combat_un_tour_gagne_et_recupere_l_inventaire() {
    let pnj = ennemi(10, 5, vec![s("tresor")], vec![]);
    let objets = vec![
        Objet::ObjetStatique(statique("tresor", "cachette", "X")),
        Objet::PnjAvecType(pnj),
    ];
    let mut m = monde(objets, joueur_test());
    let c = combat(&mut m, 1, &vec![]).unwrap();
    assert_eq!(c.issue, Issue::Victoire);
    assert_eq!(c.tours, 1);
    assert_eq!(c.pnj_hp, 0);
    assert!(!c.quete);
    assert_eq!(m.joueur.hp, 100);
    assert_eq!(m.objets.len(), 1);
    assert_eq!(hp_pnj(&m, 0), 0);
    match &m.objets[0] {
        Objet::PnjAvecType(p) => assert!(p.pnj.inventaire.is_empty()),
        _ => panic!("le personnage a disparu"),
    }
    match &m.joueur.inventaire[0] {
        ObjetInventaire::ObjetStatique(o) => {
            assert_eq!(o.id, "tresor");
            assert_eq!(o.position, "inventaire");
        }
        _ => panic!("mauvais type"),
    }
}

#[test]
fn combat_perdu_garde_les_hp_de_l_ennemi() {
    let mut pnj = ennemi(100, 60, vec![s("tresor")], vec![]);
    pnj.type_de_pnj = PnjType::Ennemi {
        puissance: 60,
        hp: 100,
        attaques: vec![s("a1")],
        required_items: vec![],
    };
    let objets = vec![Objet::PnjAvecType(pnj), Objet::Attaque(attaque("a1", 10))];
    let mut m = monde(objets, joueur_test());
    let c = combat(&mut m, 0, &vec![]).unwrap();
    assert_eq!(c.issue, Issue::Defaite);
    assert_eq!(c.tours, 2);
    assert_eq!(m.joueur.hp, 0);
    assert_eq!(hp_pnj(&m, 0), 80);
    assert!(m.joueur.inventaire.is_empty());
}

#[test]
fn combat_avec_les_attaques_du_fruit() {
    let mut joueur = joueur_test();
    joueur.fruit_de_demon = Some(FruitDuDemon { attaque: vec![s("a1"), s("a2")], ..fruit("f1", "Gomu") });
    let objets = vec![
        Objet::PnjAvecType(ennemi(100, 1, vec![], vec![])),
        Objet::Attaque(attaque("a1", 5)),
        Objet::Attaque(attaque("a2", 30)),
    ];
    let mut m = monde(objets, joueur);
    let mut etat = demarrer_combat(&m, 0).unwrap();
    assert_eq!(etat.degats(1), 40);
    assert_eq!(etat.degats(7), 15);
    tour_de_combat(&mut m, &mut etat, 1);
    assert_eq!(etat.pnj_hp, 60);
    assert_eq!(m.joueur.hp, 99);
    tour_de_combat(&mut m, &mut etat, 9);
    assert_eq!(etat.pnj_hp, 45);
    assert_eq!(etat.issue, Issue::EnCours);
    assert_eq!(hp_pnj(&m, 0), 100);
    let c = combat(&mut m, 0, &vec![1, 1]).unwrap();
    assert_eq!(c.issue, Issue::Victoire);
    assert_eq!(c.tours, 4);
    assert_eq!(hp_pnj(&m, 0), 0);
}

#[test]
fn combat_nombre_de_tours_borne() {
    let pnj = ennemi(95, 1, vec![], vec![]);
    let mut m = monde(vec![Objet::PnjAvecType(pnj)], joueur_test());
    let c = combat(&mut m, 0, &vec![]).unwrap();
    assert_eq!(c.tours, 10);
    assert_eq!(c.issue, Issue::Victoire);
    assert_eq!(m.joueur.hp, 91);
}

#[test]
fn combat_refuse() {
    let mut sans_force = joueur_test();
    sans_force.puissance = 0;
    let mut m = monde(vec![Objet::PnjAvecType(ennemi(10, 0, vec![], vec![]))], sans_force);
    assert!(matches!(combat(&mut m, 0, &vec![]), Err(ErreurCombat::SansDegats)));
    let mut m = monde(vec![Objet::PnjAvecType(ennemi(0, 3, vec![], vec![]))], joueur_test());
    assert!(matches!(combat(&mut m, 0, &vec![]), Err(ErreurCombat::DejaVaincu)));
    assert!(matches!(combat(&mut m, 4, &vec![]), Err(ErreurCombat::PnjIntrouvable)));
}

#[test]
fn combat_pas_a_pas_puis_conclusion() {
    let mut m = monde(vec![Objet::PnjAvecType(ennemi(25, 50, vec![], vec![]))], joueur_test());
    let mut etat = demarrer_combat(&m, 0).unwrap();
    tour_de_combat(&mut m, &mut etat, 0);
    assert_eq!(etat.pnj_hp, 15);
    assert_eq!(m.joueur.hp, 50);
    tour_de_combat(&mut m, &mut etat, 0);
    assert_eq!(etat.issue, Issue::Defaite);
    assert_eq!(m.joueur.hp, 0);
    assert!(!conclure_combat(&mut m, &etat));
    assert_eq!(hp_pnj(&m, 0), 5);
}

#[test]
fn ennemi_sans_l_equipement_requis() {
    let pnj = ennemi(10, 5, vec![], vec![s("sabre")]);
    let mut joueur = joueur_test();
    joueur.hp = 5;
    let mut m = monde(vec![Objet::PnjAvecType(pnj)], joueur);
    let r = interact(&mut m, "kaido", false).unwrap();
    assert_eq!(r.interaction, Interaction::EquipementManquant);
    assert_eq!(m.joueur.hp, 0);
    assert_eq!(hp_pnj(&m, 0), 10);
}

#[test]
fn ennemi_avec_l_equipement_requis_engage_le_combat() {
    let pnj = ennemi(10, 5, vec![], vec![s("sabre")]);
    let mut m = monde(vec![Objet::PnjAvecType(pnj)], joueur_test());
    m.joueur.inventaire.push(ObjetInventaire::ObjetStatique(statique("sabre", "inventaire", "SL1")));
    let r = interact(&mut m, "KAIDO", false).unwrap();
    assert_eq!(r.interaction, Interaction::Combat);
    let mut etat = r.combat.unwrap();
    assert_eq!(m.joueur.hp, 100);
    tour_de_combat(&mut m, &mut etat, 0);
    assert_eq!(etat.issue, Issue::Victoire);
    conclure_combat(&mut m, &etat);
    assert_eq!(hp_pnj(&m, 0), 0);
}

#[test]
fn ennemi_vaincu_reste_vaincu() {
    let mut m = monde(vec![Objet::PnjAvecType(ennemi(0, 5, vec![], vec![s("sabre")]))], joueur_test());
    for _ in 0..2 {
        let r = interact(&mut m, "Kaido", true).unwrap();
        assert_eq!(r.interaction, Interaction::DejaVaincu);
        assert!(r.combat.is_none());
        assert_eq!(m.joueur.hp, 100);
        assert_eq!(hp_pnj(&m, 0), 0);
    }
}

#[test]
fn pnj_gentil_offre_un_objet() {
    let mut pnj = creer_pnj_gentil();
    pnj.pnj.inventaire = vec![s("carte")];
    let objets = vec![
        Objet::ObjetStatique(statique("carte", "reserve", "R")),
        Objet::PnjAvecType(pnj),
    ];
    let mut m = monde(objets, joueur_test());
    let r = interact(&mut m, "pnj gentil", false).unwrap();
    assert_eq!(r.interaction, Interaction::CadeauRefuse);
    assert_eq!(m.objets.len(), 2);
    let r = interact(&mut m, "pnj gentil", true).unwrap();
    assert_eq!(r.interaction, Interaction::Cadeau { index_monde: 0 });
    assert_eq!(r.index, 0);
    assert_eq!(m.objets.len(), 1);
    assert_eq!(ids_inventaire(&m.joueur), vec![s("carte")]);
    match &m.joueur.inventaire[0] {
        ObjetInventaire::ObjetStatique(o) => assert_eq!(o.position, "inventaire"),
        _ => panic!("mauvais type"),
    }
    let r = interact(&mut m, "pnj gentil", true).unwrap();
    assert_eq!(r.interaction, Interaction::RienAOffrir);
}

#[test]
fn pnj_gentil_objet_introuvable() {
    let mut pnj = creer_pnj_gentil();
    pnj.pnj.inventaire = vec![s("fantome")];
    let mut m = monde(vec![Objet::PnjAvecType(pnj)], joueur_test());
    let r = interact(&mut m, "PNJ Gentil", true).unwrap();
    assert_eq!(r.interaction, Interaction::CadeauIntrouvable);
}

#[test]
fn entraineur() {
    let pnj = PnjAvecType {
        pnj: Pnj { nom: s("Rayleigh"), inventaire: vec![], ..creer_pnj_gentil().pnj },
        type_de_pnj: PnjType::Entraineur { competence: s("Haki"), bonus_puissance: 7, niveau_requis: 60 },
    };
    let mut m = monde(vec![Objet::PnjAvecType(pnj)], joueur_test());
    m.joueur.hp = 59;
    assert_eq!(interact(&mut m, "rayleigh", true).unwrap().interaction, Interaction::PasAssezFort);
    m.joueur.hp = 60;
    assert_eq!(interact(&mut m, "rayleigh", false).unwrap().interaction, Interaction::EntrainementRefuse);
    assert_eq!(m.joueur.puissance, 10);
    assert_eq!(interact(&mut m, "rayleigh", true).unwrap().interaction, Interaction::Entraine);
    assert_eq!(m.joueur.puissance, 17);
}

#[test]
fn methodes_hors_de_leur_type() {
    let mut pnj = creer_pnj_gentil();
    let mut m = monde(vec![], joueur_test());
    assert_eq!(pnj.interact_as_ennemi(&mut m), Interaction::MauvaisType);
    assert_eq!(pnj.interact_as_entraineur(&mut m, true), Interaction::MauvaisType);
    assert_eq!(pnj.interact_with_player(&mut m, true), Interaction::RienAOffrir);
    assert!(!pnj.est_vaincu());
    assert_eq!(trouver_pnj(&m, "PNJ Gentil"), None);
}

#[test]
fn fruit_mange_puis_echange() {
    let objets = vec![Objet::FruitDuDemon(fruit("f1", "Gomu Gomu"))];
    let mut m = monde(objets, joueur_test());
    assert_eq!(capture_fruit_de_demon(&mut m, false), ResultatFruit::Refuse);
    assert_eq!(m.objets.len(), 1);
    assert_eq!(capture_fruit_de_demon(&mut m, true), ResultatFruit::Mange);
    assert!(m.objets.is_empty());
    assert_eq!(m.joueur.fruit_de_demon.as_ref().unwrap().id, "f1");
    assert_eq!(capture_fruit_de_demon(&mut m, true), ResultatFruit::AucunFruit);
    let mut ailleurs = fruit("f2", "Mera Mera");
    ailleurs.position = s("piece2");
    ailleurs.sous_position = s("SL7");
    m.objets.push(Objet::FruitDuDemon(ailleurs));
    m.joueur.position = s("piece2");
    m.joueur.sous_position = s("SL7");
    assert_eq!(fruit_ici(&m), Some(0));
    assert_eq!(capture_fruit_de_demon(&mut m, true), ResultatFruit::Echange);
    assert_eq!(m.joueur.fruit_de_demon.as_ref().unwrap().id, "f2");
    assert_eq!(m.objets.len(), 1);
    match &m.objets[0] {
        Objet::FruitDuDemon(f) => {
            assert_eq!(f.id, "f1");
            assert_eq!(f.position, "piece2");
            assert_eq!(f.sous_position, "SL7");
        }
        _ => panic!("le fruit rendu manque"),
    }
}

#[test]
fn capture_tout_ou_un_seul() {
    let objets = vec![
        Objet::ObjetStatique(statique("o1", "piece1", "SL1")),
        Objet::Aliment(aliment("viande", "Viande", 20)),
        Objet::ObjetStatique(statique("o2", "piece2", "SL1")),
        Objet::ObjetStatique(statique("o3", "piece1", "SL1")),
    ];
    let mut m = monde(objets, joueur_test());
    assert_eq!(objets_capturables(&m), vec![0, 1, 3]);
    let r = capture_objets_statiques(&mut m, &Selection::Un(s("o3")));
    assert_eq!(r, ResultatCapture::Capture { nombre: 1, quete: false });
    assert_eq!(ids_inventaire(&m.joueur), vec![s("o3")]);
    let r = capture_objets_statiques(&mut m, &Selection::Un(s("o2")));
    assert_eq!(r, ResultatCapture::RienACapturer);
    let r = capture_objets_statiques(&mut m, &Selection::Tout);
    assert_eq!(r, ResultatCapture::Capture { nombre: 2, quete: false });
    assert_eq!(ids_inventaire(&m.joueur), vec![s("o3"), s("o1"), s("viande")]);
    assert!(matches!(m.joueur.inventaire[2], ObjetInventaire::Aliment(_)));
    assert_eq!(m.objets.len(), 1);
    assert_eq!(capture_objets_statiques(&mut m, &Selection::Tout), ResultatCapture::RienACapturer);
}

#[test]
fn quete_des_poneglyphes() {
    let mut joueur = joueur_test();
    for id in ["poneglyphe1", "poneglyphe2", "poneglyphe3"] {
        joueur.inventaire.push(ObjetInventaire::ObjetStatique(statique(id, "inventaire", "SL1")));
    }
    let objets = vec![
        Objet::ObjetStatique(statique("caillou", "piece1", "SL1")),
        Objet::ObjetStatique(statique("poneglyphe4", "piece1", "SL2")),
        Objet::ObjetStatique(statique("perle", "piece6", "SELAUGHTALE")),
    ];
    let mut m = monde(objets, joueur);
    let r = capture_objets_statiques(&mut m, &Selection::Tout);
    assert_eq!(r, ResultatCapture::Capture { nombre: 1, quete: false });
    assert_eq!(m.joueur.position, "piece1");
    m.joueur.sous_position = s("SL2");
    let r = capture_objets_statiques(&mut m, &Selection::Tout);
    assert_eq!(r, ResultatCapture::Capture { nombre: 1, quete: true });
    assert_eq!(m.joueur.position, "piece6");
    assert_eq!(m.joueur.sous_position, "SELAUGHTALE");
    assert!(m.quete_terminee);
    let r = capture_objets_statiques(&mut m, &Selection::Tout);
    assert_eq!(r, ResultatCapture::Capture { nombre: 1, quete: false });
    assert_eq!(m.joueur.position, "piece6");
}

#[test]
fn consommer_en_pleine_sante() {
    let mut joueur = joueur_test();
    joueur.inventaire.push(ObjetInventaire::Aliment(aliment("viande", "Viande", 20)));
    let mut m = monde(vec![], joueur);
    assert_eq!(consommer_aliment(&mut m, 0), Err(ErreurConsommation::PleineSante));
    assert_eq!(m.joueur.inventaire.len(), 1);
    assert_eq!(m.joueur.hp, 100);
}

#[test]
fn consommer_restaure_jusqu_au_plafond() {
    let mut joueur = joueur_test();
    joueur.hp = 50;
    joueur.inventaire.push(ObjetInventaire::ObjetStatique(statique("o1", "inventaire", "SL1")));
    joueur.inventaire.push(ObjetInventaire::Aliment(aliment("viande", "Viande", 30)));
    joueur.inventaire.push(ObjetInventaire::Aliment(aliment("ramen", "Ramen", 45)));
    let mut m = monde(vec![], joueur);
    assert_eq!(consommer_aliment(&mut m, 0), Err(ErreurConsommation::ChoixInvalide));
    assert_eq!(consommer_aliment(&mut m, 9), Err(ErreurConsommation::ChoixInvalide));
    assert_eq!(consommer_aliment(&mut m, 1), Ok(Consommation { hp_gagnes: 30, ivresse: false }));
    assert_eq!(m.joueur.hp, 80);
    assert_eq!(consommer_aliment(&mut m, 1), Ok(Consommation { hp_gagnes: 20, ivresse: false }));
    assert_eq!(m.joueur.hp, 100);
    assert_eq!(ids_inventaire(&m.joueur), vec![s("o1")]);
    m.joueur.hp = 40;
    assert_eq!(consommer_aliment(&mut m, 0), Err(ErreurConsommation::AucunAliment));
}

#[test]
fn sake_et_equilibre() {
    let mut joueur = joueur_test();
    joueur.hp = 50;
    joueur.inventaire.push(ObjetInventaire::Aliment(aliment("sake", "Saké de Wano", 5)));
    let mut m = monde(vec![], joueur);
    assert_eq!(consommer_aliment(&mut m, 0), Ok(Consommation { hp_gagnes: 5, ivresse: true }));
    effet_ivresse(&mut m);
    assert_eq!(m.joueur.puissance, 25);
    assert!(epreuve_equilibre(&mut m, "StAbLe", 1200));
    assert_eq!(m.joueur.hp, 55);
    assert!(!epreuve_equilibre(&mut m, "stable", 5000));
    assert_eq!(m.joueur.hp, 49);
    assert!(!epreuve_equilibre(&mut m, "tomber", 10));
    assert_eq!(m.joueur.hp, 44);
}

#[test]
fn chargement_refuse_des_hp_hors_limites() {
    let mut joueur = joueur_test();
    joueur.hp = 150;
    assert!(matches!(
        Monde::nouveau(vec![], joueur, Regles::standard()),
        Err(ErreurChargement::HpHorsLimites)
    ));
}

#[test]
fn entites_du_sous_lieu() {
    let objets = vec![
        Objet::Lieu(lieu("piece1", vec![], "")),
        Objet::ObjetStatique(statique("o1", "piece1", "SL1")),
        Objet::PnjAvecType(creer_pnj_gentil()),
        Objet::ObjetStatique(statique("o2", "piece1", "SL2")),
        Objet::FruitDuDemon(fruit("f1", "Gomu")),
    ];
    let m = monde(objets, joueur_test());
    assert_eq!(entites_ici(&m), vec![1, 2, 4]);
}

#[test]
fn lecture_des_directions() {
    assert_eq!(Orientation::lire("N"), Some(Orientation::N));
    assert_eq!(Orientation::lire("O"), Some(Orientation::O));
    assert_eq!(Orientation::lire("n"), None);
    assert_eq!(Orientation::lire("NE"), None);
    assert_eq!(Orientation::lire(""), None);
}

fn compte(m: &Monde, id: &str) -> usize {
    let monde = m
        .objets
        .iter()
        .filter(|o| match o {
            Objet::ObjetStatique(x) => x.id == id,
            Objet::Aliment(x) => x.id == id,
            _ => false,
        })
        .count();
    monde + ids_inventaire(&m.joueur).iter().filter(|x| x.as_str() == id).count()
}

fn nb_fruits(m: &Monde) -> usize {
    m.objets.iter().filter(|o| matches!(o, Objet::FruitDuDemon(_))).count()
        + usize::from(m.joueur.fruit_de_demon.is_some())
}

#[test]
fn capture_conserve_chaque_objet() {
    let objets = vec![
        Objet::ObjetStatique(statique("o1", "piece1", "SL1")),
        Objet::Aliment(aliment("viande", "Viande", 20)),
        Objet::ObjetStatique(statique("o1", "piece3", "SL1")),
    ];
    let mut m = monde(objets, joueur_test());
    assert_eq!(compte(&m, "o1"), 2);
    assert_eq!(compte(&m, "viande"), 1);
    capture_objets_statiques(&mut m, &Selection::Tout);
    assert_eq!(compte(&m, "o1"), 2);
    assert_eq!(compte(&m, "viande"), 1);
    assert_eq!(ids_inventaire(&m.joueur), vec![s("o1"), s("viande")]);
}

#[test]
fn echange_de_fruit_conserve_leur_nombre() {
    let mut joueur = joueur_test();
    joueur.fruit_de_demon = Some(fruit("f0", "Hito Hito"));
    let mut m = monde(vec![Objet::FruitDuDemon(fruit("f1", "Gomu Gomu"))], joueur);
    assert_eq!(nb_fruits(&m), 2);
    assert_eq!(capture_fruit_de_demon(&mut m, true), ResultatFruit::Echange);
    assert_eq!(nb_fruits(&m), 2);
    assert_eq!(m.joueur.fruit_de_demon.as_ref().unwrap().id, "f1");
}

#[test]
fn bonus_de_puissance_sature() {
    let pnj = PnjAvecType {
        pnj: Pnj { nom: s("Rayleigh"), inventaire: vec![], ..creer_pnj_gentil().pnj },
        type_de_pnj: PnjType::Entraineur { competence: s("Haki"), bonus_puissance: 7, niveau_requis: 0 },
    };
    let mut m = monde(vec![Objet::PnjAvecType(pnj)], joueur_test());
    m.joueur.puissance = u32::MAX - 3;
    assert_eq!(interact(&mut m, "Rayleigh", true).unwrap().interaction, Interaction::Entraine);
    assert_eq!(m.joueur.puissance, u32::MAX);
    effet_ivresse(&mut m);
    assert_eq!(m.joueur.puissance, u32::MAX);
}

#[test]
fn questions_avant_l_interaction() {
    let mut gentil = creer_pnj_gentil();
    gentil.pnj.inventaire = vec![s("carte")];
    let objets = vec![
        Objet::Aliment(aliment("carte", "pas un objet", 1)),
        Objet::ObjetStatique(statique("carte", "reserve", "R")),
    ];
    let joueur = joueur_test();
    assert_eq!(gentil.offre(&objets), Some(1));
    assert!(gentil.demande_confirmation(&joueur, &objets));
    assert_eq!(gentil.offre(&vec![]), None);
    assert!(!gentil.demande_confirmation(&joueur, &vec![]));
    let entraineur = PnjAvecType {
        pnj: creer_pnj_gentil().pnj,
        type_de_pnj: PnjType::Entraineur { competence: s("Haki"), bonus_puissance: 7, niveau_requis: 101 },
    };
    assert!(!entraineur.demande_confirmation(&joueur, &objets));
    assert!(!creer_pnj_ennemi().demande_confirmation(&joueur, &objets));
}

#[test]
fn reponse_a_l_epreuve() {
    assert!(equilibre_tenu(&s("stable"), 4999));
    assert!(!equilibre_tenu(&s("stable"), 5000));
    assert!(!equilibre_tenu(&s("Stable"), 10));
    assert!(!equilibre_tenu(&s("stabl"), 10));
}
