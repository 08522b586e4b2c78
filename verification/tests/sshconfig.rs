use oxiterm::model::Sessione;
use oxiterm::sshconfig::{applica_voce, parse};

#[test]
fn parse_blocco_base() {
    let cfg = "
Host server1
    HostName 10.0.0.5
    User root
    Port 2222
    IdentityFile ~/.ssh/id_ed25519

Host *
    ServerAliveInterval 60
";
    let s = parse(cfg);
    assert_eq!(s.len(), 1); // the `Host *` block is skipped
    assert_eq!(s[0].nome, "server1");
    assert_eq!(s[0].host, "10.0.0.5");
    assert_eq!(s[0].utente, "root");
    assert_eq!(s[0].porta, 2222);
    assert_eq!(s[0].chiave.as_deref(), Some("~/.ssh/id_ed25519"));
}

#[test]
fn parse_proxyjump() {
    let cfg = "Host interno\n  HostName 192.168.1.2\n  ProxyJump admin@bastion:2200\n";
    let s = parse(cfg);
    assert_eq!(s[0].jump_host.as_deref(), Some("bastion"));
    assert_eq!(s[0].jump_porta, Some(2200));
    assert_eq!(s[0].jump_utente.as_deref(), Some("admin"));
}

#[test]
fn parse_valori_predefiniti_e_id() {
    let s = parse("Host alfa beta\n");
    assert_eq!(s.len(), 2);
    assert_eq!(s[0].id, "sshcfg-alfa");
    assert_eq!(s[0].host, "alfa");
    assert_eq!(s[0].porta, 22);
    assert_eq!(s[0].utente, "");
    assert_eq!(s[0].chiave, None);
    assert_eq!(s[0].gruppo.as_deref(), Some("~/.ssh/config"));
    assert_eq!(s[1].nome, "beta");
    assert_eq!(s[1].jump_host, None);
}

#[test]
fn parse_uguale_commenti_e_maiuscole() {
    let cfg = "# commento\nhOsT=web\n  PORT = 8022\n  user=deploy\n  port abc\n";
    let s = parse(cfg);
    assert_eq!(s.len(), 1);
    assert_eq!(s[0].nome, "web");
    // the last Port line wins and is not a number: the default port is kept
    assert_eq!(s[0].porta, 22);
    assert_eq!(s[0].utente, "deploy");
}

#[test]
fn parse_proxyjump_senza_porta_e_con_piu_salti() {
    let s = parse("Host x\n ProxyJump bastion, altro:99\n");
    assert_eq!(s[0].jump_host.as_deref(), Some("bastion"));
    assert_eq!(s[0].jump_porta, None);
    assert_eq!(s[0].jump_utente, None);
}

#[test]
fn applica_voce_host_e_campi() {
    let mut out: Vec<Sessione> = Vec::new();
    let mut nomi: Vec<Vec<char>> = Vec::new();
    let mut campi: Vec<(Vec<char>, Vec<char>)> = Vec::new();
    applica_voce(&mut out, &mut nomi, &mut campi, "host".chars().collect(), "a b".chars().collect());
    assert_eq!(nomi.len(), 2);
    applica_voce(&mut out, &mut nomi, &mut campi, "user".chars().collect(), "root".chars().collect());
    assert_eq!(campi.len(), 1);
    applica_voce(&mut out, &mut nomi, &mut campi, "host".chars().collect(), "c".chars().collect());
    assert_eq!(out.len(), 2);
    assert_eq!(out[0].nome, "a");
    assert_eq!(out[1].utente, "root");
    assert!(campi.is_empty());
}
