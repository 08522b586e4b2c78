//! The address book and the snippet library as lists keyed by id: saving
//! (replace or add), deleting, and importing (merge by id, counting what is
//! new). Reading and writing the JSON files is the caller's part.

use vstd::prelude::*;

use crate::model::{Sessione, Snippet};

verus! {

/// A value with a textual id.
pub trait ConId: Sized {
    spec fn id_spec(&self) -> Seq<char>;

    fn id(&self) -> (r: &String)
        ensures
            r@ == self.id_spec(),
    ;
}

impl ConId for Sessione {
    open spec fn id_spec(&self) -> Seq<char> {
        self.id@
    }

    fn id(&self) -> (r: &String) {
        &self.id
    }
}

impl ConId for Snippet {
    open spec fn id_spec(&self) -> Seq<char> {
        self.id@
    }

    fn id(&self) -> (r: &String) {
        &self.id
    }
}

/// Index of the first element of `s` with id `id`.
pub open spec fn indice_id<T: ConId>(s: Seq<T>, id: Seq<char>) -> Option<int>
    decreases s.len(),
{
    if s.len() == 0 {
        None
    } else if s[0].id_spec() == id {
        Some(0)
    } else {
        match indice_id(s.drop_first(), id) {
            Some(i) => Some(i + 1),
            None => None,
        }
    }
}

pub proof fn lemma_indice_id<T: ConId>(s: Seq<T>, id: Seq<char>)
    ensures
        match indice_id(s, id) {
            Some(i) => 0 <= i < s.len() && s[i].id_spec() == id && forall|k: int|
                0 <= k < i ==> #[trigger] s[k].id_spec() != id,
            None => forall|k: int| 0 <= k < s.len() ==> #[trigger] s[k].id_spec() != id,
        },
    decreases s.len(),
{
    if s.len() > 0 {
        lemma_indice_id(s.drop_first(), id);
        if s[0].id_spec() != id {
            assert forall|k: int| 0 < k < s.len() implies #[trigger] s[k] == s.drop_first()[k - 1] by {}
        }
    }
}

proof fn lemma_indice_id_unico<T: ConId>(s: Seq<T>, id: Seq<char>, i: int)
    requires
        0 <= i <= s.len(),
        forall|k: int| 0 <= k < i ==> #[trigger] s[k].id_spec() != id,
        i < s.len() ==> s[i].id_spec() == id,
    ensures
        indice_id(s, id) == (if i < s.len() { Some(i) } else { None::<int> }),
{
    lemma_indice_id(s, id);
}

/// The list with `x` saved: the first element with the same id replaced by
/// `x`, or `x` added at the end when no element has its id.
pub open spec fn con_elemento<T: ConId>(s: Seq<T>, x: T) -> Seq<T> {
    match indice_id(s, x.id_spec()) {
        Some(i) => s.update(i, x),
        None => s.push(x),
    }
}

/// Whether saving `x` adds it (no element has its id).
pub open spec fn aggiunge<T: ConId>(s: Seq<T>, x: T) -> bool {
    indice_id(s, x.id_spec()) is None
}

fn cerca_id<T: ConId>(tutte: &Vec<T>, id: &String) -> (r: Option<usize>)
    ensures
        match r {
            Some(i) => indice_id(tutte@, id@) == Some(i as int) && i < tutte.len(),
            None => indice_id(tutte@, id@) is None,
        },
{
    let mut i: usize = 0;
    while i < tutte.len()
        invariant
            i <= tutte.len(),
            forall|k: int| 0 <= k < i ==> #[trigger] tutte@[k].id_spec() != id@,
        decreases tutte.len() - i,
    {
        if *tutte[i].id() == *id {
            proof {
                lemma_indice_id_unico(tutte@, id@, i as int);
            }
            return Some(i);
        }
        i = i + 1;
    }
    proof {
        lemma_indice_id_unico(tutte@, id@, i as int);
    }
    None
}

/// Saves `nuova` in the list: replaces the element with its id, or adds it.
/// Returns whether it was added.
pub fn salva<T: ConId>(tutte: &mut Vec<T>, nuova: T) -> (aggiunta: bool)
    ensures
        final(tutte)@ == con_elemento(old(tutte)@, nuova),
        aggiunta == aggiunge(old(tutte)@, nuova),
{
    let id = nuova.id().clone();
    match cerca_id(tutte, &id) {
        Some(i) => {
            tutte.set(i, nuova);
            false
        },
        None => {
            tutte.push(nuova);
            true
        },
    }
}

/// The predicate "has not the id `id`".
pub open spec fn diverso_id<T: ConId>(id: Seq<char>) -> spec_fn(T) -> bool {
    |x: T| x.id_spec() != id
}

/// The list without the elements whose id is `id`.
pub open spec fn senza_id<T: ConId>(s: Seq<T>, id: Seq<char>) -> Seq<T> {
    s.filter(diverso_id(id))
}

/// Deletes every element whose id is `id`.
pub fn elimina<T: ConId>(tutte: &mut Vec<T>, id: &str)
    ensures
        final(tutte)@ == senza_id(old(tutte)@, id@),
{
    let id_s = crate::testo::da_caratteri(&crate::testo::caratteri(id));
    let mut vecchie: Vec<T> = Vec::new();
    std::mem::swap(&mut vecchie, tutte);
    let ghost tutto = vecchie@;
    assert(tutte@ =~= Seq::<T>::empty());
    assert(tutto.take(0) =~= Seq::<T>::empty());
    assert(senza_id(tutto.take(0), id@) =~= Seq::<T>::empty());
    let n = vecchie.len();
    let mut restanti = vecchie;
    let mut scelte: Vec<T> = Vec::new();
    let mut i: usize = 0;
    assert(tutto.skip(0) =~= tutto);
    while i < n
        invariant
            n == tutto.len(),
            i <= n,
            id_s@ == id@,
            restanti@ == tutto.skip(i as int),
            scelte@ == senza_id(tutto.take(i as int), id@),
        decreases n - i,
    {
        let x = restanti.remove(0);
        assert(restanti@ =~= tutto.skip(i + 1));
        let tiene = *x.id() != id_s;
        let ghost sc = scelte@;
        if tiene {
            scelte.push(x);
        }
        proof {
            assert(tutto.take(i + 1) =~= tutto.take(i as int).push(tutto[i as int]));
            tutto.take(i as int).lemma_filter_push(tutto[i as int], diverso_id::<T>(id@));
        }
        i = i + 1;
    }
    assert(tutto.take(n as int) =~= tutto);
    *tutte = scelte;
}

/// The list after importing `nuove` one after the other.
pub open spec fn unione<T: ConId>(s: Seq<T>, nuove: Seq<T>) -> Seq<T>
    decreases nuove.len(),
{
    if nuove.len() == 0 {
        s
    } else {
        unione(con_elemento(s, nuove[0]), nuove.drop_first())
    }
}

/// How many of `nuove` importing adds (the others replace an element).
pub open spec fn aggiunte<T: ConId>(s: Seq<T>, nuove: Seq<T>) -> nat
    decreases nuove.len(),
{
    if nuove.len() == 0 {
        0
    } else {
        (if aggiunge(s, nuove[0]) {
            1nat
        } else {
            0nat
        }) + aggiunte(con_elemento(s, nuove[0]), nuove.drop_first())
    }
}

proof fn lemma_aggiunte_limite<T: ConId>(s: Seq<T>, nuove: Seq<T>)
    ensures
        aggiunte(s, nuove) <= nuove.len(),
    decreases nuove.len(),
{
    if nuove.len() > 0 {
        lemma_aggiunte_limite(con_elemento(s, nuove[0]), nuove.drop_first());
    }
}

/// Imports `nuove` into the list, merging by id. Returns how many were added.
pub fn importa<T: ConId>(tutte: &mut Vec<T>, nuove: Vec<T>) -> (n: usize)
    ensures
        final(tutte)@ == unione(old(tutte)@, nuove@),
        n == aggiunte(old(tutte)@, nuove@),
{
    let ghost tutto = nuove@;
    let mut resto = nuove;
    let mut conta: usize = 0;
    let mut i: usize = 0;
    let n = resto.len();
    assert(tutto.skip(0) =~= tutto);
    proof {
        lemma_aggiunte_limite(tutte@, tutto);
    }
    while i < n
        invariant
            n == tutto.len(),
            i <= n,
            resto@ == tutto.skip(i as int),
            unione(tutte@, tutto.skip(i as int)) == unione(old(tutte)@, tutto),
            conta + aggiunte(tutte@, tutto.skip(i as int)) == aggiunte(old(tutte)@, tutto),
            conta <= i,
        decreases n - i,
    {
        let x = resto.remove(0);
        assert(resto@ =~= tutto.skip(i + 1));
        assert(tutto.skip(i as int).drop_first() =~= tutto.skip(i + 1));
        if salva(tutte, x) {
            conta = conta + 1;
        }
        i = i + 1;
    }
    conta
}

// ---------------------------------------------------------------------------
// Laws
// ---------------------------------------------------------------------------

/// After saving `x`, looking up its id finds `x`.
pub proof fn legge_salva_poi_trova<T: ConId>(s: Seq<T>, x: T)
    ensures
        indice_id(con_elemento(s, x), x.id_spec()) matches Some(i) && con_elemento(s, x)[i] == x,
{
    lemma_indice_id(s, x.id_spec());
    let dopo = con_elemento(s, x);
    match indice_id(s, x.id_spec()) {
        Some(i) => {
            assert forall|k: int| 0 <= k < i implies #[trigger] dopo[k].id_spec() != x.id_spec() by {
                assert(dopo[k] == s[k]);
            }
            lemma_indice_id_unico(dopo, x.id_spec(), i);
        },
        None => {
            assert forall|k: int| 0 <= k < s.len() implies #[trigger] dopo[k].id_spec() != x.id_spec() by {
                assert(dopo[k] == s[k]);
            }
            lemma_indice_id_unico(dopo, x.id_spec(), s.len() as int);
        },
    }
}

/// After deleting an id, no element has it any more.
pub proof fn legge_elimina<T: ConId>(s: Seq<T>, id: Seq<char>)
    ensures
        indice_id(senza_id(s, id), id) is None,
{
    let r = senza_id(s, id);
    assert forall|k: int| 0 <= k < r.len() implies #[trigger] r[k].id_spec() != id by {
        s.lemma_filter_pred(diverso_id::<T>(id), k);
    }
    lemma_indice_id_unico(r, id, r.len() as int);
}

/// Saving keeps every id that was there.
proof fn lemma_salva_conserva_id<T: ConId>(s: Seq<T>, x: T, id: Seq<char>)
    requires
        indice_id(s, id) is Some,
    ensures
        indice_id(con_elemento(s, x), id) is Some,
{
    lemma_indice_id(s, id);
    let i = indice_id(s, id)->0;
    let dopo = con_elemento(s, x);
    lemma_indice_id(dopo, id);
    lemma_indice_id(s, x.id_spec());
    if indice_id(dopo, id) is None {
        match indice_id(s, x.id_spec()) {
            Some(j) => {
                if j == i {
                    assert(dopo[i] == x);
                } else {
                    assert(dopo[i] == s[i]);
                }
            },
            None => {
                assert(dopo[i] == s[i]);
            },
        }
    }
}

proof fn lemma_unione_conserva_id<T: ConId>(s: Seq<T>, nuove: Seq<T>, id: Seq<char>)
    requires
        indice_id(s, id) is Some,
    ensures
        indice_id(unione(s, nuove), id) is Some,
    decreases nuove.len(),
{
    if nuove.len() > 0 {
        lemma_salva_conserva_id(s, nuove[0], id);
        lemma_unione_conserva_id(con_elemento(s, nuove[0]), nuove.drop_first(), id);
    }
}

proof fn lemma_unione_contiene<T: ConId>(s: Seq<T>, nuove: Seq<T>, k: int)
    requires
        0 <= k < nuove.len(),
    ensures
        indice_id(unione(s, nuove), nuove[k].id_spec()) is Some,
    decreases nuove.len(),
{
    if k == 0 {
        legge_salva_poi_trova(s, nuove[0]);
        lemma_unione_conserva_id(con_elemento(s, nuove[0]), nuove.drop_first(), nuove[0].id_spec());
    } else {
        assert(nuove.drop_first()[k - 1] == nuove[k]);
        lemma_unione_contiene(con_elemento(s, nuove[0]), nuove.drop_first(), k - 1);
    }
}

proof fn lemma_nessuna_aggiunta<T: ConId>(s: Seq<T>, nuove: Seq<T>)
    requires
        forall|k: int| 0 <= k < nuove.len() ==> (#[trigger] indice_id(s, nuove[k].id_spec())) is Some,
    ensures
        aggiunte(s, nuove) == 0,
    decreases nuove.len(),
{
    if nuove.len() > 0 {
        let s2 = con_elemento(s, nuove[0]);
        assert forall|k: int| 0 <= k < nuove.drop_first().len() implies (#[trigger] indice_id(
            s2,
            nuove.drop_first()[k].id_spec(),
        )) is Some by {
            assert(nuove.drop_first()[k] == nuove[k + 1]);
            assert(indice_id(s, nuove[k + 1].id_spec()) is Some);
            lemma_salva_conserva_id(s, nuove[0], nuove[k + 1].id_spec());
        }
        assert(indice_id(s, nuove[0].id_spec()) is Some);
        lemma_nessuna_aggiunta(s2, nuove.drop_first());
    }
}

/// Deleting an id removes exactly the elements with that id: every other
/// element stays, in its order, and what stays comes from the list.
pub proof fn legge_elimina_solo_quell_id<T: ConId>(s: Seq<T>, id: Seq<char>)
    ensures
        senza_id(s, id) == s.filter(|x: T| x.id_spec() != id),
        forall|k: int| 0 <= k < s.len() && (#[trigger] s[k]).id_spec() != id ==> senza_id(s, id).contains(s[k]),
        forall|k: int|
            0 <= k < senza_id(s, id).len() ==> (#[trigger] senza_id(s, id)[k]).id_spec() != id && s.contains(
                senza_id(s, id)[k],
            ),
{
    let p = |x: T| x.id_spec() != id;
    assert(diverso_id(id) =~= p);
    let r = s.filter(p);
    assert forall|k: int| 0 <= k < s.len() && (#[trigger] s[k]).id_spec() != id implies r.contains(s[k]) by {
        s.lemma_filter_contains(p, k);
    };
    assert forall|k: int| 0 <= k < r.len() implies (#[trigger] r[k]).id_spec() != id && s.contains(r[k]) by {
        s.lemma_filter_pred(p, k);
        assert(r.contains(r[k]));
        s.lemma_filter_contains_rev(p, r[k]);
    };
}

/// Importing the same list a second time adds nothing.
pub proof fn legge_importa_due_volte<T: ConId>(s: Seq<T>, nuove: Seq<T>)
    ensures
        aggiunte(unione(s, nuove), nuove) == 0,
{
    let u = unione(s, nuove);
    assert forall|k: int| 0 <= k < nuove.len() implies (#[trigger] indice_id(u, nuove[k].id_spec())) is Some by {
        lemma_unione_contiene(s, nuove, k);
    }
    lemma_nessuna_aggiunta(u, nuove);
}

// ---------------------------------------------------------------------------
// The address book and the snippets
// ---------------------------------------------------------------------------

/// Saves a session in the address book (replaces the one with its id, or
/// adds it).
pub fn salva_sessione(tutte: &mut Vec<Sessione>, sessione: Sessione)
    ensures
        final(tutte)@ == con_elemento(old(tutte)@, sessione),
{
    let _ = salva(tutte, sessione);
}

/// Deletes a session from the address book.
pub fn elimina_sessione(tutte: &mut Vec<Sessione>, id: &str)
    ensures
        final(tutte)@ == senza_id(old(tutte)@, id@),
{
    elimina(tutte, id);
}

/// Merges imported sessions into the address book by id; returns how many
/// were added.
pub fn importa_sessioni(tutte: &mut Vec<Sessione>, nuove: Vec<Sessione>) -> (n: usize)
    ensures
        final(tutte)@ == unione(old(tutte)@, nuove@),
        n == aggiunte(old(tutte)@, nuove@),
{
    importa(tutte, nuove)
}

/// Saves a snippet in the library (replaces the one with its id, or adds it).
pub fn salva_snippet(tutti: &mut Vec<Snippet>, snippet: Snippet)
    ensures
        final(tutti)@ == con_elemento(old(tutti)@, snippet),
{
    let _ = salva(tutti, snippet);
}

/// Deletes a snippet from the library.
pub fn elimina_snippet(tutti: &mut Vec<Snippet>, id: &str)
    ensures
        final(tutti)@ == senza_id(old(tutti)@, id@),
{
    elimina(tutti, id);
}

} // verus!
