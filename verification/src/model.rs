//! Data shared with the user interface: saved sessions, authentication,
//! SFTP directory entries, snippets.

use vstd::prelude::*;

verus! {

/// How to authenticate on an SSH server. The secret is handed over only when
/// connecting: it is never stored.
pub enum Auth {
    /// Password authentication.
    Password { password: String },
    /// Private key authentication (path to the key file, optional passphrase).
    Chiave { percorso: String, passphrase: Option<String> },
}

/// Kind of a saved session.
#[derive(Clone, Copy, PartialEq, Eq, Structural, Debug)]
pub enum TipoSessione {
    Ssh,
    Locale,
    Telnet,
    Seriale,
    Vnc,
}

/// A session saved by the user (the address book of the session manager).
/// It holds no password: only connection data.
pub struct Sessione {
    pub id: String,
    pub nome: String,
    pub tipo: TipoSessione,
    pub host: String,
    pub porta: u16,
    pub utente: String,
    /// Path of a private key to prefer, if any.
    pub chiave: Option<String>,
    pub gruppo: Option<String>,
    pub colore: Option<String>,
    pub porta_seriale: Option<String>,
    pub baud: Option<u32>,
    pub tags: Vec<String>,
    pub comandi_avvio: Option<String>,
    pub jump_host: Option<String>,
    pub jump_porta: Option<u16>,
    pub jump_utente: Option<String>,
    pub jump_chiave: Option<String>,
}

/// The mathematical value of a `Sessione`: every text as a sequence of
/// characters.
pub struct VistaSessione {
    pub id: Seq<char>,
    pub nome: Seq<char>,
    pub tipo: TipoSessione,
    pub host: Seq<char>,
    pub porta: u16,
    pub utente: Seq<char>,
    pub chiave: Option<Seq<char>>,
    pub gruppo: Option<Seq<char>>,
    pub colore: Option<Seq<char>>,
    pub porta_seriale: Option<Seq<char>>,
    pub baud: Option<u32>,
    pub tags: Seq<Seq<char>>,
    pub comandi_avvio: Option<Seq<char>>,
    pub jump_host: Option<Seq<char>>,
    pub jump_porta: Option<u16>,
    pub jump_utente: Option<Seq<char>>,
    pub jump_chiave: Option<Seq<char>>,
}

/// The characters of an optional string.
pub open spec fn testo_opz(s: Option<String>) -> Option<Seq<char>> {
    match s {
        Some(s) => Some(s@),
        None => None,
    }
}

/// The characters of each string of a list.
pub open spec fn testi(v: Seq<String>) -> Seq<Seq<char>> {
    v.map_values(|s: String| s@)
}

impl View for Sessione {
    type V = VistaSessione;

    open spec fn view(&self) -> VistaSessione {
        VistaSessione {
            id: self.id@,
            nome: self.nome@,
            tipo: self.tipo,
            host: self.host@,
            porta: self.porta,
            utente: self.utente@,
            chiave: testo_opz(self.chiave),
            gruppo: testo_opz(self.gruppo),
            colore: testo_opz(self.colore),
            porta_seriale: testo_opz(self.porta_seriale),
            baud: self.baud,
            tags: testi(self.tags@),
            comandi_avvio: testo_opz(self.comandi_avvio),
            jump_host: testo_opz(self.jump_host),
            jump_porta: self.jump_porta,
            jump_utente: testo_opz(self.jump_utente),
            jump_chiave: testo_opz(self.jump_chiave),
        }
    }
}

/// The views of the sessions of a list.
pub open spec fn viste(v: Seq<Sessione>) -> Seq<VistaSessione> {
    v.map_values(|s: Sessione| s@)
}

/// Connection data of a jump host (bastion) for ProxyJump.
pub struct JumpConfig {
    pub host: String,
    pub porta: u16,
    pub utente: String,
    pub auth: Auth,
}

/// An entry of the SFTP browser (file or directory).
pub struct VoceFile {
    pub nome: String,
    pub dir: bool,
    pub dimensione: u64,
}

/// The mathematical value of a `VoceFile`.
pub struct VistaVoce {
    pub nome: Seq<char>,
    pub dir: bool,
    pub dimensione: u64,
}

impl View for VoceFile {
    type V = VistaVoce;

    open spec fn view(&self) -> VistaVoce {
        VistaVoce { nome: self.nome@, dir: self.dir, dimensione: self.dimensione }
    }
}

/// A saved command (snippet/macro) that can be sent to a terminal.
pub struct Snippet {
    pub id: String,
    pub nome: String,
    pub comando: String,
}

} // verus!
