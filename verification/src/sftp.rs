//! The remote file browser: how a directory listing is ordered (directories
//! first, then by name without regard to case) and how the paths of a
//! recursive transfer are formed. The SFTP channel lives with the caller.

use vstd::prelude::*;

use crate::model::{VistaVoce, VoceFile};
use crate::sshconfig::{minuscole, minuscolo};
use crate::testo::{aggiungi_carattere, caratteri, concatena};

verus! {

// ---------------------------------------------------------------------------
// Order of the entries
// ---------------------------------------------------------------------------

/// `a` comes before `b`, or equals it, in the lexicographic order of code
/// points (the order in which `String`s compare: UTF-8 keeps the order of
/// code points).
pub open spec fn lessicografico(a: Seq<char>, b: Seq<char>) -> bool
    decreases a.len(),
{
    if a.len() == 0 {
        true
    } else if b.len() == 0 {
        false
    } else if (a[0] as u32) != (b[0] as u32) {
        (a[0] as u32) < (b[0] as u32)
    } else {
        lessicografico(a.drop_first(), b.drop_first())
    }
}

/// Entry `a` may stand before entry `b` in a listing: a directory before a
/// file, and between two of the same kind the name in lower case that comes
/// first.
pub open spec fn prima_o_pari(a: VistaVoce, b: VistaVoce) -> bool {
    (a.dir && !b.dir) || (a.dir == b.dir && lessicografico(minuscolo(a.nome), minuscolo(b.nome)))
}

/// The two entries have the same place in the order.
pub open spec fn pari(a: VistaVoce, b: VistaVoce) -> bool {
    prima_o_pari(a, b) && prima_o_pari(b, a)
}

/// The listing is in order.
pub open spec fn in_ordine(s: Seq<VistaVoce>) -> bool {
    forall|i: int, j: int| 0 <= i < j < s.len() ==> prima_o_pari(#[trigger] s[i], #[trigger] s[j])
}

/// `b` is `a` rearranged by `p` (`b[k]` is `a[p[k]]`), and entries of the same
/// place keep the order they had in `a`.
pub open spec fn riordino_stabile(p: Seq<int>, a: Seq<VistaVoce>, b: Seq<VistaVoce>) -> bool {
    &&& p.len() == a.len() == b.len()
    &&& forall|k: int| 0 <= k < p.len() ==> 0 <= #[trigger] p[k] < a.len()
    &&& forall|k: int, m: int| 0 <= k < m < p.len() ==> #[trigger] p[k] != #[trigger] p[m]
    &&& forall|k: int| 0 <= k < p.len() ==> b[k] == a[#[trigger] p[k]]
    &&& forall|k: int, m: int|
        0 <= k < m < p.len() && pari(b[k], b[m]) ==> #[trigger] p[k] < #[trigger] p[m]
}

/// The views of the entries of a list.
pub open spec fn viste_voci(v: Seq<VoceFile>) -> Seq<VistaVoce> {
    v.map_values(|e: VoceFile| e@)
}

proof fn lemma_lessicografico_totale(a: Seq<char>, b: Seq<char>)
    ensures
        lessicografico(a, b) || lessicografico(b, a),
    decreases a.len(),
{
    if a.len() > 0 && b.len() > 0 && (a[0] as u32) == (b[0] as u32) {
        lemma_lessicografico_totale(a.drop_first(), b.drop_first());
    }
}

proof fn lemma_lessicografico_transitivo(a: Seq<char>, b: Seq<char>, c: Seq<char>)
    requires
        lessicografico(a, b),
        lessicografico(b, c),
    ensures
        lessicografico(a, c),
    decreases a.len(),
{
    if a.len() > 0 && b.len() > 0 && c.len() > 0 && (a[0] as u32) == (b[0] as u32) && (b[0] as u32)
        == (c[0] as u32) {
        lemma_lessicografico_transitivo(a.drop_first(), b.drop_first(), c.drop_first());
    }
}

proof fn lemma_ordine(a: VistaVoce, b: VistaVoce, c: VistaVoce)
    ensures
        prima_o_pari(a, b) || prima_o_pari(b, a),
        prima_o_pari(a, b) && prima_o_pari(b, c) ==> prima_o_pari(a, c),
{
    lemma_lessicografico_totale(minuscolo(a.nome), minuscolo(b.nome));
    if prima_o_pari(a, b) && prima_o_pari(b, c) && a.dir == b.dir && b.dir == c.dir {
        lemma_lessicografico_transitivo(minuscolo(a.nome), minuscolo(b.nome), minuscolo(c.nome));
    }
}

/// Whether `a` comes before `b`, or equals it, character by character.
fn confronta(a: &Vec<char>, b: &Vec<char>) -> (r: bool)
    ensures
        r == lessicografico(a@, b@),
{
    let mut i: usize = 0;
    assert(a@.skip(0) =~= a@ && b@.skip(0) =~= b@);
    while i < a.len() && i < b.len()
        invariant
            i <= a.len(),
            i <= b.len(),
            lessicografico(a@, b@) == lessicografico(a@.skip(i as int), b@.skip(i as int)),
        decreases a.len() - i,
    {
        assert(a@.skip(i as int)[0] == a@[i as int]);
        assert(b@.skip(i as int)[0] == b@[i as int]);
        if (a[i] as u32) != (b[i] as u32) {
            return (a[i] as u32) < (b[i] as u32);
        }
        assert(a@.skip(i as int).drop_first() =~= a@.skip(i + 1));
        assert(b@.skip(i as int).drop_first() =~= b@.skip(i + 1));
        i = i + 1;
    }
    i == a.len()
}

/// A copy of an entry.
fn copia_voce(v: &VoceFile) -> (r: VoceFile)
    ensures
        r@ == v@,
{
    VoceFile { nome: v.nome.clone(), dir: v.dir, dimensione: v.dimensione }
}

/// The entries of a directory in the order of the browser: directories first,
/// then by name in lower case; entries of the same place keep the order in
/// which they came (a stable sort).
#[verifier::spinoff_prover]
pub fn ordina_voci(voci: &Vec<VoceFile>) -> (r: Vec<VoceFile>)
    ensures
        in_ordine(viste_voci(r@)),
        exists|p: Seq<int>| riordino_stabile(p, viste_voci(voci@), viste_voci(r@)),
{
    let ghost a = viste_voci(voci@);
    let mut out: Vec<VoceFile> = Vec::new();
    // The lower-case names of `out`, in the same order.
    let mut chiavi: Vec<Vec<char>> = Vec::new();
    let ghost mut p: Seq<int> = Seq::empty();
    let mut i: usize = 0;
    while i < voci.len()
        invariant
            i <= voci.len(),
            a == viste_voci(voci@),
            out.len() == i,
            chiavi.len() == i,
            forall|k: int| 0 <= k < i ==> #[trigger] chiavi@[k]@ == minuscolo(out@[k].nome@),
            in_ordine(viste_voci(out@)),
            p.len() == i,
            forall|k: int| 0 <= k < i ==> 0 <= #[trigger] p[k] < i,
            forall|k: int, m: int| 0 <= k < m < i ==> #[trigger] p[k] != #[trigger] p[m],
            forall|k: int| 0 <= k < i ==> viste_voci(out@)[k] == a[#[trigger] p[k]],
            forall|k: int, m: int|
                0 <= k < m < i && pari(viste_voci(out@)[k], viste_voci(out@)[m]) ==> #[trigger] p[k]
                    < #[trigger] p[m],
        decreases voci.len() - i,
    {
        let x = copia_voce(&voci[i]);
        let minuscolo_x = minuscole(x.nome.as_str());
        let kx = caratteri(minuscolo_x.as_str());
        // First position whose entry comes strictly after `x`.
        let mut j: usize = 0;
        while j < out.len()
            invariant
                j <= out.len(),
                out.len() == chiavi.len(),
                forall|k: int| 0 <= k < out.len() ==> #[trigger] chiavi@[k]@ == minuscolo(out@[k].nome@),
                kx@ == minuscolo(x.nome@),
                forall|k: int| 0 <= k < j ==> prima_o_pari(#[trigger] viste_voci(out@)[k], x@),
            ensures
                j == out.len() || !prima_o_pari(viste_voci(out@)[j as int], x@),
            decreases out.len() - j,
        {
            let dj = out[j].dir;
            let prima = (dj && !x.dir) || (dj == x.dir && confronta(&chiavi[j], &kx));
            assert(prima == prima_o_pari(viste_voci(out@)[j as int], x@));
            if !prima {
                break;
            }
            j = j + 1;
        }
        let ghost vecchie = viste_voci(out@);
        let ghost vecchie_chiavi = chiavi@;
        proof {
            // From `j` on, every entry comes strictly after `x`.
            if j < out.len() {
                assert forall|k: int| j <= k < vecchie.len() implies prima_o_pari(x@, vecchie[k])
                    && !prima_o_pari(vecchie[k], x@) by {
                    if k > j {
                        assert(prima_o_pari(vecchie[j as int], vecchie[k]));
                    }
                    lemma_ordine(vecchie[j as int], vecchie[k], x@);
                    lemma_ordine(vecchie[k], x@, x@);
                };
            }
        }
        out.insert(j, x);
        chiavi.insert(j, kx);
        proof {
            let nuove = viste_voci(out@);
            assert(x@ == a[i as int]);
            assert(nuove =~= vecchie.insert(j as int, a[i as int]));
            let vp = p;
            p = p.insert(j as int, i as int);
            assert forall|k: int, m: int| 0 <= k < m < nuove.len() implies prima_o_pari(
                #[trigger] nuove[k],
                #[trigger] nuove[m],
            ) by {
                if k < j && m > j {
                    lemma_ordine(nuove[k], x@, nuove[m]);
                }
            };
            assert forall|k: int| 0 <= k < i + 1 implies #[trigger] chiavi@[k]@ == minuscolo(
                out@[k].nome@,
            ) by {
                if k > j {
                    assert(chiavi@[k] == vecchie_chiavi[k - 1]);
                }
            };
            assert forall|k: int| 0 <= k < i + 1 implies nuove[k] == a[#[trigger] p[k]] by {
                if k > j {
                    assert(p[k] == vp[k - 1]);
                } else if k < j {
                    assert(p[k] == vp[k]);
                }
            };
            assert forall|k: int, m: int| 0 <= k < m < i + 1 implies #[trigger] p[k]
                != #[trigger] p[m] by {
                if k != j && m != j {
                    let k0 = if k < j { k } else { k - 1 };
                    let m0 = if m < j { m } else { m - 1 };
                    assert(p[k] == vp[k0] && p[m] == vp[m0]);
                } else if k == j {
                    let m0 = m - 1;
                    assert(p[m] == vp[m0]);
                } else {
                    assert(p[k] == vp[k]);
                }
            };
            assert forall|k: int, m: int|
                0 <= k < m < i + 1 && pari(nuove[k], nuove[m]) implies #[trigger] p[k]
                < #[trigger] p[m] by {
                if k != j && m != j {
                    let k0 = if k < j { k } else { k - 1 };
                    let m0 = if m < j { m } else { m - 1 };
                    assert(p[k] == vp[k0] && p[m] == vp[m0]);
                    assert(nuove[k] == vecchie[k0] && nuove[m] == vecchie[m0]);
                } else if k == j {
                    assert(nuove[m] == vecchie[m - 1]);
                } else {
                    assert(p[k] == vp[k]);
                }
            };
            assert forall|k: int| 0 <= k < i + 1 implies 0 <= #[trigger] p[k] < i + 1 by {
                if k > j {
                    assert(p[k] == vp[k - 1]);
                } else if k < j {
                    assert(p[k] == vp[k]);
                }
            };
        }
        i = i + 1;
    }
    assert(riordino_stabile(p, a, viste_voci(out@)));
    out
}

/// In a listing in order every directory comes before every file.
pub proof fn legge_cartelle_prima(s: Seq<VistaVoce>)
    requires
        in_ordine(s),
    ensures
        forall|i: int, j: int| 0 <= i < j < s.len() && (#[trigger] s[j]).dir ==> (#[trigger] s[i]).dir,
{
    assert forall|i: int, j: int| 0 <= i < j < s.len() && (#[trigger] s[j]).dir implies (
    #[trigger] s[i]).dir by {
        assert(prima_o_pari(s[i], s[j]));
    };
}

proof fn lemma_crescente_dal_basso(p: Seq<int>, k: int)
    requires
        0 <= k < p.len(),
        forall|i: int| 0 <= i < p.len() ==> 0 <= #[trigger] p[i],
        forall|i: int, j: int| 0 <= i < j < p.len() ==> #[trigger] p[i] < #[trigger] p[j],
    ensures
        p[k] >= k,
    decreases k,
{
    if k > 0 {
        lemma_crescente_dal_basso(p, k - 1);
        assert(p[k - 1] < p[k]);
    }
}

proof fn lemma_crescente_dall_alto(p: Seq<int>, k: int)
    requires
        0 <= k < p.len(),
        forall|i: int| 0 <= i < p.len() ==> #[trigger] p[i] < p.len(),
        forall|i: int, j: int| 0 <= i < j < p.len() ==> #[trigger] p[i] < #[trigger] p[j],
    ensures
        p[k] <= k,
    decreases p.len() - k,
{
    if k < p.len() - 1 {
        lemma_crescente_dall_alto(p, k + 1);
        assert(p[k] < p[k + 1]);
    }
}

/// Ordering a listing that is in order already leaves it as it is: a stable
/// reordering of an ordered listing that is in order is the listing itself.
/// So ordering twice gives what ordering once gives.
pub proof fn legge_ordinare_due_volte(p: Seq<int>, a: Seq<VistaVoce>, b: Seq<VistaVoce>)
    requires
        in_ordine(a),
        in_ordine(b),
        riordino_stabile(p, a, b),
    ensures
        b == a,
{
    assert forall|i: int, j: int| 0 <= i < j < p.len() implies #[trigger] p[i] < #[trigger] p[j] by {
        if p[i] > p[j] {
            assert(b[i] == a[p[i]] && b[j] == a[p[j]]);
            assert(prima_o_pari(a[p[j]], a[p[i]]));
            assert(prima_o_pari(b[i], b[j]));
            assert(pari(b[i], b[j]));
        }
    };
    assert forall|k: int| 0 <= k < b.len() implies b[k] == a[k] by {
        lemma_crescente_dal_basso(p, k);
        lemma_crescente_dall_alto(p, k);
        assert(b[k] == a[p[k]]);
    };
    assert(b =~= a);
}

// ---------------------------------------------------------------------------
// Paths of a recursive transfer
// ---------------------------------------------------------------------------

/// `<dir>/<nome>`, the path of an entry inside a directory.
pub open spec fn percorso_figlio(dir: Seq<char>, nome: Seq<char>) -> Seq<char> {
    dir + seq!['/'] + nome
}

/// The path of an entry inside a directory.
pub fn figlio(dir: &str, nome: &str) -> (r: String)
    ensures
        r@ == percorso_figlio(dir@, nome@),
{
    let mut s = String::new();
    concatena(&mut s, dir);
    aggiungi_carattere(&mut s, '/');
    concatena(&mut s, nome);
    assert(s@ =~= percorso_figlio(dir@, nome@));
    s
}

// ---------------------------------------------------------------------------
// Auto-save of a file opened in the local editor
// ---------------------------------------------------------------------------

/// What the auto-save does after looking at the local copy of a remote file.
#[derive(Clone, Copy, PartialEq, Eq, Structural, Debug)]
pub enum AzioneAutosalva {
    /// Nothing changed: look again later.
    Attendi,
    /// The file changed: upload it to the server.
    Carica,
    /// The file is gone or the last upload failed: stop.
    Ferma,
}

/// One step of the auto-save: `ultimo` is the modification time last seen,
/// `ora` the current one (`None` when the file no longer exists), and
/// `caricamento_fallito` tells whether the last upload failed. Gives the
/// action and the modification time to remember.
pub fn passo_autosalva(ultimo: Option<u64>, ora: Option<u64>, caricamento_fallito: bool) -> (r: (
    AzioneAutosalva,
    Option<u64>,
))
    ensures
        caricamento_fallito || ora is None ==> r.0 == AzioneAutosalva::Ferma,
        !caricamento_fallito && ora is Some && ora != ultimo ==> r == (AzioneAutosalva::Carica, ora),
        !caricamento_fallito && ora is Some && ora == ultimo ==> r == (AzioneAutosalva::Attendi, ultimo),
{
    if caricamento_fallito {
        return (AzioneAutosalva::Ferma, ultimo);
    }
    match ora {
        None => (AzioneAutosalva::Ferma, ultimo),
        Some(t) => {
            let cambiato = match ultimo {
                Some(u) => u != t,
                None => true,
            };
            if cambiato {
                (AzioneAutosalva::Carica, ora)
            } else {
                (AzioneAutosalva::Attendi, ultimo)
            }
        },
    }
}

} // verus!
