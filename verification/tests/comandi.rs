use oxiterm::chiavi::{e_chiave_pubblica, ChiavePub};
use oxiterm::comandi::{comando_copia_chiave, descrizione_tunnel, id_tunnel, nome_file_remoto, TipoTunnel};
use oxiterm::git_sync::{decidi_pull, errore_divergenti, nome_ramo, refspec_push, riferimento_ramo, EsitoPull};

#[test]
fn nome_del_file_remoto() {
    assert_eq!(nome_file_remoto("/etc/nginx/nginx.conf"), "nginx.conf");
    assert_eq!(nome_file_remoto("relativo.txt"), "relativo.txt");
    assert_eq!(nome_file_remoto("/tmp/dir/"), "file");
    assert_eq!(nome_file_remoto(""), "file");
}

#[test]
fn copia_chiave_toglie_gli_apici() {
    let c = comando_copia_chiave("ssh-ed25519 AA'B'C me");
    assert_eq!(
        c,
        "mkdir -p ~/.ssh && chmod 700 ~/.ssh && echo 'ssh-ed25519 AABC me' >> ~/.ssh/authorized_keys && chmod 600 ~/.ssh/authorized_keys && echo OK"
    );
}

#[test]
fn tunnel() {
    assert_eq!(id_tunnel(TipoTunnel::Locale, 8080), "L8080");
    assert_eq!(id_tunnel(TipoTunnel::Dinamico, 1080), "D1080");
    assert_eq!(id_tunnel(TipoTunnel::Remoto, 9000), "R9000");
    assert_eq!(descrizione_tunnel(TipoTunnel::Locale, 8080, "db", 5432), "locale :8080 → db:5432");
    assert_eq!(descrizione_tunnel(TipoTunnel::Dinamico, 1080, "", 0), "SOCKS5 dinamico :1080");
    assert_eq!(descrizione_tunnel(TipoTunnel::Remoto, 9000, "localhost", 80), "remoto :9000 → localhost:80");
}

#[test]
fn chiavi_pubbliche() {
    assert!(e_chiave_pubblica("id_ed25519.pub"));
    assert!(e_chiave_pubblica("a.b.pub"));
    assert!(!e_chiave_pubblica(".pub"));
    assert!(!e_chiave_pubblica("id_ed25519"));
    assert!(!e_chiave_pubblica("x.pubx"));
    let c = ChiavePub::da_file("a.pub", "/h/.ssh/a.pub", "  ssh-ed25519 AAA me\n");
    assert_eq!(c.contenuto, "ssh-ed25519 AAA me");
    assert_eq!(c.nome, "a.pub");
}

#[test]
fn git() {
    assert_eq!(nome_ramo(Some("dev")), "dev");
    assert_eq!(nome_ramo(None), "main");
    assert_eq!(riferimento_ramo("main"), "refs/heads/main");
    assert_eq!(refspec_push("main"), "refs/heads/main:refs/heads/main");
    assert_eq!(decidi_pull(true, true, true), EsitoPull::Aggiornato);
    assert_eq!(decidi_pull(false, true, true), EsitoPull::AvanzaRapido);
    assert_eq!(decidi_pull(false, false, false), EsitoPull::AvanzaRapido);
    assert_eq!(decidi_pull(false, false, true), EsitoPull::Divergente);
}

#[test]
fn testo_pull_divergente() {
    assert_eq!(errore_divergenti(), "le modifiche locali e remote sono divergenti: fai prima 'Push'");
}
