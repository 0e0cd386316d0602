//! The assembled bundle: an ordered map from source-unit name to the texts of
//! that unit, held in an `indexmap::IndexMap`.

use vstd::prelude::*;
use vstd::string::StringExecFns;

verus! {

#[verifier::external_type_specification]
#[verifier::external_body]
#[verifier::reject_recursive_types(K)]
#[verifier::reject_recursive_types(V)]
#[verifier::reject_recursive_types(S)]
pub struct ExIndexMap<K, V, S>(indexmap::IndexMap<K, V, S>);

/// The ordered map handed to the runtime.
pub type Bundle = indexmap::IndexMap<String, Vec<String>>;

/// One entry of a bundle: a unit name and the texts of the unit.
pub type Entry = (Seq<char>, Seq<Seq<char>>);

/// The entries of a bundle, in the map's order.
pub uninterp spec fn bundle_entries(m: indexmap::IndexMap<String, Vec<String>>) -> Seq<Entry>;

/// Some entry of `e` has key `k`.
pub open spec fn has_key(e: Seq<Entry>, k: Seq<char>) -> bool {
    exists|i: int| 0 <= i < e.len() && #[trigger] e[i].0 == k
}

/// An index of `e` whose key is `k`, where there is one.
pub open spec fn key_index(e: Seq<Entry>, k: Seq<char>) -> int {
    choose|i: int| 0 <= i < e.len() && #[trigger] e[i].0 == k
}

/// The entries after inserting `v` under `k`: an existing key keeps its
/// place and takes the new value; a new key goes last.
pub open spec fn insert_entry(e: Seq<Entry>, k: Seq<char>, v: Seq<Seq<char>>) -> Seq<Entry> {
    if has_key(e, k) {
        e.update(key_index(e, k), (k, v))
    } else {
        e.push((k, v))
    }
}

/// The entries after removing key `k`, the others keeping their order.
pub open spec fn remove_entry(e: Seq<Entry>, k: Seq<char>) -> Seq<Entry> {
    if has_key(e, k) {
        e.remove(key_index(e, k))
    } else {
        e
    }
}

/// Relies on indexmap::IndexMap::new: an empty map.
#[verifier::external_body]
fn bundle_new() -> (r: Bundle)
    ensures
        bundle_entries(r) == Seq::<Entry>::empty(),
{
    indexmap::IndexMap::new()
}

/// Relies on indexmap::IndexMap::insert: an existing key keeps its place and
/// takes the new value, a new key is appended.
#[verifier::external_body]
fn bundle_insert(m: &mut Bundle, key: String, value: Vec<String>)
    ensures
        bundle_entries(*final(m)) == insert_entry(bundle_entries(*old(m)), key@, value.deep_view()),
{
    m.insert(key, value);
}

/// Relies on indexmap::IndexMap::shift_remove: removes a key, shifting the
/// entries after it so that their order is kept.
#[verifier::external_body]
fn bundle_shift_remove(m: &mut Bundle, key: &str)
    ensures
        bundle_entries(*final(m)) == remove_entry(bundle_entries(*old(m)), key@),
{
    m.shift_remove(key);
}

/// The name under which the main file is inserted.
pub const MAIN_KEY: &'static str = "main";

/// `MAIN_KEY` as a sequence of characters.
pub open spec fn main_key() -> Seq<char> {
    seq!['m', 'a', 'i', 'n']
}

/// What a unit looks like as an entry.
pub open spec fn unit_view(u: (String, Vec<String>)) -> Entry {
    (u.0@, u.1.deep_view())
}

/// The units of `s` as entries.
pub open spec fn units_view(s: Seq<(String, Vec<String>)>) -> Seq<Entry> {
    s.map_values(|u: (String, Vec<String>)| unit_view(u))
}

/// `units` inserted one by one, in order, into a map holding `start`.
pub open spec fn insert_all(start: Seq<Entry>, units: Seq<Entry>) -> Seq<Entry>
    decreases units.len(),
{
    if units.len() == 0 {
        start
    } else {
        let u = units.last();
        insert_entry(insert_all(start, units.drop_last()), u.0, u.1)
    }
}

/// The bundle of `units` and a main file with text `main`: the units in
/// order, then the main file under `main_key()`, always last.
pub open spec fn bundle_of(units: Seq<Entry>, main: Seq<char>) -> Seq<Entry> {
    remove_entry(insert_all(Seq::empty(), units), main_key()).push((main_key(), seq![main]))
}

/// Inserting `a + b` is inserting `a`, then `b`.
pub proof fn lemma_insert_all_append(start: Seq<Entry>, a: Seq<Entry>, b: Seq<Entry>)
    ensures
        insert_all(start, a + b) == insert_all(insert_all(start, a), b),
    decreases b.len(),
{
    if b.len() == 0 {
        assert(a + b =~= a);
    } else {
        assert((a + b).drop_last() =~= a + b.drop_last());
        lemma_insert_all_append(start, a, b.drop_last());
    }
}

/// Inserts the units of `units` into `m`, in order.
fn insert_units(m: &mut Bundle, units: Vec<(String, Vec<String>)>)
    ensures
        bundle_entries(*final(m)) == insert_all(bundle_entries(*old(m)), units_view(units@)),
{
    let ghost start = bundle_entries(*m);
    let ghost all = units@;
    let mut rest = units;
    let ghost mut done: Seq<(String, Vec<String>)> = Seq::empty();
    while rest.len() > 0
        invariant
            all == done + rest@,
            bundle_entries(*m) == insert_all(start, units_view(done)),
        decreases rest@.len(),
    {
        let u = rest.remove(0);
        proof {
            assert(units_view(done.push(u)).drop_last() =~= units_view(done));
            assert(units_view(done.push(u)).last() == unit_view(u));
            assert(all =~= done.push(u) + rest@);
            done = done.push(u);
        }
        let (k, v) = u;
        bundle_insert(m, k, v);
    }
    proof {
        assert(done =~= all);
    }
}

/// Builds the bundle: the modules in declaration order, then the include
/// units in declaration order, then the main file under `"main"`, last.
/// A unit whose name is already present replaces the earlier texts in place.
pub fn assemble_bundle(modules: Vec<(String, Vec<String>)>, includes: Vec<(String, Vec<String>)>, main: String) -> (r: Bundle)
    ensures
        bundle_entries(r) == bundle_of(units_view(modules@) + units_view(includes@), main@),
{
    let ghost mv = units_view(modules@);
    let ghost iv = units_view(includes@);
    let mut m = bundle_new();
    insert_units(&mut m, modules);
    insert_units(&mut m, includes);
    proof {
        lemma_insert_all_append(Seq::empty(), mv, iv);
        reveal_strlit("main");
    }
    bundle_shift_remove(&mut m, MAIN_KEY);
    let mut texts: Vec<String> = Vec::new();
    texts.push(main);
    proof {
        assert(texts.deep_view() =~= seq![main@]);
    }
    let key = String::from_str(MAIN_KEY);
    assert(key@ == main_key());
    bundle_insert(&mut m, key, texts);
    proof {
        lemma_keys_distinct_after_inserts(mv + iv);
        lemma_removed_key_absent(insert_all(Seq::empty(), mv + iv), main_key());
    }
    m
}

/// Keys are distinct in `e`.
pub open spec fn keys_distinct(e: Seq<Entry>) -> bool {
    forall|i: int, j: int| 0 <= i < j < e.len() ==> #[trigger] e[i].0 != #[trigger] e[j].0
}

/// Once a key is removed from entries with distinct keys, no entry has it.
pub proof fn lemma_removed_key_absent(e: Seq<Entry>, k: Seq<char>)
    requires
        keys_distinct(e),
    ensures
        forall|i: int| 0 <= i < remove_entry(e, k).len() ==> #[trigger] remove_entry(e, k)[i].0 != k,
        !has_key(remove_entry(e, k), k),
{
    let before = remove_entry(e, k);
    assert forall|i: int| 0 <= i < before.len() implies #[trigger] before[i].0 != k by {
        if has_key(e, k) {
            let j = key_index(e, k);
            if i < j {
                assert(before[i] == e[i]);
            } else {
                assert(before[i] == e[i + 1]);
            }
        }
    }
}

/// A map built by insertions holds each key once.
pub proof fn lemma_keys_distinct_after_inserts(units: Seq<Entry>)
    ensures
        keys_distinct(insert_all(Seq::empty(), units)),
    decreases units.len(),
{
    if units.len() > 0 {
        lemma_keys_distinct_after_inserts(units.drop_last());
    }
}

/// Inserting units with distinct keys into an empty map keeps them as they
/// are, in order.
pub proof fn lemma_insert_all_distinct(units: Seq<Entry>)
    requires
        keys_distinct(units),
    ensures
        insert_all(Seq::empty(), units) == units,
    decreases units.len(),
{
    if units.len() > 0 {
        let prefix = units.drop_last();
        assert(keys_distinct(prefix));
        lemma_insert_all_distinct(prefix);
        let u = units.last();
        if has_key(prefix, u.0) {
            let i = key_index(prefix, u.0);
            assert(units[i].0 == units[units.len() - 1].0);
        }
        assert(prefix.push(u) =~= units);
    }
}

/// The main file comes last in a bundle, and its name stands nowhere else.
pub proof fn lemma_main_last(units: Seq<Entry>, main: Seq<char>)
    ensures
        bundle_of(units, main).last() == (main_key(), seq![main]),
        forall|i: int|
            0 <= i < bundle_of(units, main).len() - 1 ==> #[trigger] bundle_of(units, main)[i].0
                != main_key(),
{
    let e = insert_all(Seq::empty(), units);
    lemma_keys_distinct_after_inserts(units);
    lemma_removed_key_absent(e, main_key());
    let before = remove_entry(e, main_key());
    assert forall|i: int| 0 <= i < bundle_of(units, main).len() - 1 implies #[trigger] bundle_of(
        units,
        main,
    )[i].0 != main_key() by {
        assert(bundle_of(units, main)[i] == before[i]);
    }
}

/// For units whose names are distinct and none of which is `"main"`, the
/// bundle holds exactly the units in the order given, then the main file.
/// With modules given before includes, modules precede includes precede main.
pub proof fn lemma_bundle_order(units: Seq<Entry>, main: Seq<char>)
    requires
        keys_distinct(units),
        forall|i: int| 0 <= i < units.len() ==> #[trigger] units[i].0 != main_key(),
    ensures
        bundle_of(units, main) == units.push((main_key(), seq![main])),
{
    lemma_insert_all_distinct(units);
    if has_key(units, main_key()) {
        let i = key_index(units, main_key());
        assert(units[i].0 != main_key());
    }
}

} // verus!
