use oxiterm::model::VoceFile;
use oxiterm::sftp::{figlio, ordina_voci, passo_autosalva, AzioneAutosalva};

fn voce(nome: &str, dir: bool, dimensione: u64) -> VoceFile {
    VoceFile { nome: nome.to_string(), dir, dimensione }
}

fn nomi(v: &[VoceFile]) -> Vec<String> {
    v.iter().map(|e| e.nome.clone()).collect()
}

#[test]
fn cartelle_prima_poi_per_nome() {
    let voci = vec![
        voce("zeta.txt", false, 10),
        voce("Beta", true, 0),
        voce("alfa.txt", false, 20),
        voce("alfa", true, 0),
        voce("Gamma.txt", false, 30),
    ];
    let r = ordina_voci(&voci);
    assert_eq!(nomi(&r), vec!["alfa", "Beta", "alfa.txt", "Gamma.txt", "zeta.txt"]);
    assert_eq!(r[2].dimensione, 20);
    assert!(r[0].dir && r[1].dir && !r[2].dir);
}

#[test]
fn nomi_uguali_senza_maiuscole_restano_in_ordine() {
    let voci = vec![voce("README", false, 1), voce("readme", false, 2), voce("Readme", false, 3)];
    let r = ordina_voci(&voci);
    let dimensioni: Vec<u64> = r.iter().map(|e| e.dimensione).collect();
    assert_eq!(dimensioni, vec![1, 2, 3]);
}

#[test]
fn cartella_vuota() {
    assert!(ordina_voci(&Vec::new()).is_empty());
}

#[test]
fn percorso_nella_cartella() {
    assert_eq!(figlio("/home/utente", "file.txt"), "/home/utente/file.txt");
    assert_eq!(figlio("", "x"), "/x");
}

#[test]
fn ordinare_due_volte_come_una() {
    let voci = vec![voce("b", false, 1), voce("A", true, 2), voce("a", false, 3), voce("B", false, 4)];
    let una = ordina_voci(&voci);
    let due = ordina_voci(&una);
    assert_eq!(nomi(&una), nomi(&due));
    assert_eq!(nomi(&una), vec!["A", "a", "b", "B"]);
}

#[test]
fn autosalvataggio() {
    assert_eq!(passo_autosalva(Some(1), Some(1), false), (AzioneAutosalva::Attendi, Some(1)));
    assert_eq!(passo_autosalva(Some(1), Some(2), false), (AzioneAutosalva::Carica, Some(2)));
    assert_eq!(passo_autosalva(None, Some(5), false), (AzioneAutosalva::Carica, Some(5)));
    assert_eq!(passo_autosalva(Some(1), None, false).0, AzioneAutosalva::Ferma);
    assert_eq!(passo_autosalva(Some(1), Some(2), true).0, AzioneAutosalva::Ferma);
}
