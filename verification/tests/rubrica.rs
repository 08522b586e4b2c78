use oxiterm::model::{Sessione, Snippet, TipoSessione};
use oxiterm::rubrica::{elimina_sessione, elimina_snippet, importa_sessioni, salva_sessione, salva_snippet};

fn sessione(id: &str, nome: &str) -> Sessione {
    Sessione {
        id: id.into(),
        nome: nome.into(),
        tipo: TipoSessione::Ssh,
        host: "esempio.com".into(),
        porta: 22,
        utente: "root".into(),
        chiave: None,
        gruppo: None,
        colore: None,
        porta_seriale: None,
        baud: None,
        tags: vec![],
        comandi_avvio: None,
        jump_host: None,
        jump_porta: None,
        jump_utente: None,
        jump_chiave: None,
    }
}

fn nomi(v: &[Sessione]) -> Vec<&str> {
    v.iter().map(|s| s.nome.as_str()).collect()
}

#[test]
fn salva_sostituisce_o_aggiunge() {
    let mut tutte = vec![sessione("1", "a"), sessione("2", "b")];
    salva_sessione(&mut tutte, sessione("2", "b2"));
    assert_eq!(nomi(&tutte), vec!["a", "b2"]);
    salva_sessione(&mut tutte, sessione("3", "c"));
    assert_eq!(nomi(&tutte), vec!["a", "b2", "c"]);
}

#[test]
fn elimina_per_id() {
    let mut tutte = vec![sessione("1", "a"), sessione("2", "b"), sessione("1", "a2")];
    elimina_sessione(&mut tutte, "1");
    assert_eq!(nomi(&tutte), vec!["b"]);
    elimina_sessione(&mut tutte, "x");
    assert_eq!(nomi(&tutte), vec!["b"]);
}

#[test]
fn importa_conta_le_nuove() {
    let mut tutte = vec![sessione("1", "a")];
    let n = importa_sessioni(&mut tutte, vec![sessione("1", "a2"), sessione("2", "b"), sessione("2", "b2")]);
    assert_eq!(n, 1);
    assert_eq!(nomi(&tutte), vec!["a2", "b2"]);
    // Importing the same list again adds nothing.
    let n = importa_sessioni(&mut tutte, vec![sessione("1", "a2"), sessione("2", "b"), sessione("2", "b2")]);
    assert_eq!(n, 0);
}

#[test]
fn snippet() {
    let s = |id: &str, c: &str| Snippet { id: id.into(), nome: "n".into(), comando: c.into() };
    let mut tutti = vec![];
    salva_snippet(&mut tutti, s("1", "ls"));
    salva_snippet(&mut tutti, s("1", "ls -la"));
    salva_snippet(&mut tutti, s("2", "pwd"));
    assert_eq!(tutti.len(), 2);
    assert_eq!(tutti[0].comando, "ls -la");
    elimina_snippet(&mut tutti, "1");
    assert_eq!(tutti.len(), 1);
    assert_eq!(tutti[0].comando, "pwd");
}
