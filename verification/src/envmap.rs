//! Secret-to-environment mapping: secret keys become environment-variable
//! names (`:` replaced by `_`), and the decrypted entries become an overlay
//! mapping, later entries overwriting earlier ones on a name collision.

use vstd::prelude::*;
use vstd::string::StrSliceExecFns;
use vstd::string::StringExecFns;

use crate::strutil::str_eq;

verus! {

/// The environment-variable name derived from a secret key: every `:`
/// becomes `_`; every other character is kept unchanged.
pub open spec fn env_name(key: Seq<char>) -> Seq<char> {
    Seq::new(key.len(), |i: int| if key[i] == ':' { '_' } else { key[i] })
}

/// The overlay entry derived from one decrypted secret: the transformed
/// name paired with the untouched value.
pub open spec fn entry_for(pair: (Seq<char>, Seq<char>)) -> (Seq<char>, Seq<char>) {
    (env_name(pair.0), pair.1)
}

/// The mapping held by a sequence of name/value entries, later entries
/// overwriting earlier ones.
pub open spec fn map_of_entries(entries: Seq<(Seq<char>, Seq<char>)>) -> Map<
    Seq<char>,
    Seq<char>,
>
    decreases entries.len(),
{
    if entries.len() == 0 {
        Map::empty()
    } else {
        map_of_entries(entries.drop_last()).insert(entries.last().0, entries.last().1)
    }
}

/// The environment overlay derived from a sequence of decrypted secrets:
/// each key transformed by `env_name`, values kept, later entries winning.
pub open spec fn overlay_map(pairs: Seq<(Seq<char>, Seq<char>)>) -> Map<Seq<char>, Seq<char>> {
    map_of_entries(pairs.map_values(|p: (Seq<char>, Seq<char>)| entry_for(p)))
}

/// A name is in the mapping exactly when some entry carries it.
pub proof fn lemma_map_of_entries_dom(entries: Seq<(Seq<char>, Seq<char>)>, name: Seq<char>)
    ensures
        map_of_entries(entries).dom().contains(name) <==> exists|j: int|
            0 <= j < entries.len() && #[trigger] entries[j].0 == name,
    decreases entries.len(),
{
    if entries.len() > 0 {
        lemma_map_of_entries_dom(entries.drop_last(), name);
        if map_of_entries(entries).dom().contains(name) {
            if entries.last().0 == name {
                assert(entries[entries.len() - 1].0 == name);
            } else {
                let j = choose|j: int|
                    0 <= j < entries.drop_last().len() && #[trigger] entries.drop_last()[j].0
                        == name;
                assert(entries[j].0 == name);
            }
        }
        if exists|j: int| 0 <= j < entries.len() && #[trigger] entries[j].0 == name {
            let j = choose|j: int| 0 <= j < entries.len() && #[trigger] entries[j].0 == name;
            if j < entries.len() - 1 {
                assert(entries.drop_last()[j].0 == name);
            }
        }
    }
}

/// The mapping gives an entry's value when no later entry carries the same
/// name.
pub proof fn lemma_map_of_entries_last_wins(entries: Seq<(Seq<char>, Seq<char>)>, j: int)
    requires
        0 <= j < entries.len(),
        forall|k: int| j < k < entries.len() ==> (#[trigger] entries[k]).0 != entries[j].0,
    ensures
        map_of_entries(entries).dom().contains(entries[j].0),
        map_of_entries(entries)[entries[j].0] == entries[j].1,
    decreases entries.len(),
{
    if j == entries.len() - 1 {
    } else {
        assert(entries.last().0 != entries[j].0);
        assert(entries.drop_last()[j] == entries[j]);
        lemma_map_of_entries_last_wins(entries.drop_last(), j);
    }
}

/// Prepending an entry changes the mapping only where no later entry
/// carries the same name.
pub proof fn lemma_map_of_entries_prepend(
    first: (Seq<char>, Seq<char>),
    rest: Seq<(Seq<char>, Seq<char>)>,
)
    ensures
        map_of_entries(seq![first] + rest) == (if exists|j: int|
            0 <= j < rest.len() && (#[trigger] rest[j]).0 == first.0 {
            map_of_entries(rest)
        } else {
            map_of_entries(rest).insert(first.0, first.1)
        }),
    decreases rest.len(),
{
    let combined = seq![first] + rest;
    if rest.len() == 0 {
        assert(combined.drop_last() =~= Seq::<(Seq<char>, Seq<char>)>::empty());
        assert(combined.last() == first);
        assert(map_of_entries(Seq::<(Seq<char>, Seq<char>)>::empty()) == Map::<
            Seq<char>,
            Seq<char>,
        >::empty());
        assert(map_of_entries(combined) == Map::<Seq<char>, Seq<char>>::empty().insert(
            first.0,
            first.1,
        ));
    } else {
        let q = rest.last();
        lemma_map_of_entries_prepend(first, rest.drop_last());
        assert(combined.drop_last() =~= seq![first] + rest.drop_last());
        assert(combined.last() == q);
        let hit_dropped = exists|j: int|
            0 <= j < rest.drop_last().len() && (#[trigger] rest.drop_last()[j]).0 == first.0;
        let hit_full = exists|j: int| 0 <= j < rest.len() && (#[trigger] rest[j]).0 == first.0;
        if first.0 == q.0 {
            assert(rest[rest.len() - 1].0 == first.0);
            assert(hit_full);
            if !hit_dropped {
                assert(map_of_entries(rest.drop_last()).insert(first.0, first.1).insert(q.0, q.1)
                    =~= map_of_entries(rest.drop_last()).insert(q.0, q.1));
            }
        } else {
            if hit_full {
                let j = choose|j: int| 0 <= j < rest.len() && (#[trigger] rest[j]).0 == first.0;
                assert(j < rest.len() - 1);
                assert(rest.drop_last()[j].0 == first.0);
                assert(hit_dropped);
            }
            if hit_dropped {
                let j = choose|j: int|
                    0 <= j < rest.drop_last().len() && (#[trigger] rest.drop_last()[j]).0
                        == first.0;
                assert(rest[j].0 == first.0);
                assert(hit_full);
            }
            if !hit_dropped {
                assert(map_of_entries(rest.drop_last()).insert(first.0, first.1).insert(q.0, q.1)
                    =~= map_of_entries(rest.drop_last()).insert(q.0, q.1).insert(
                    first.0,
                    first.1,
                ));
            }
        }
    }
}

/// Law: a secret key's environment-variable name replaces every `:` with
/// `_` and alters no other character.
pub proof fn lemma_env_name_pointwise(key: Seq<char>)
    ensures
        env_name(key).len() == key.len(),
        forall|i: int| 0 <= i < key.len() && key[i] == ':' ==> #[trigger] env_name(key)[i] == '_',
        forall|i: int|
            0 <= i < key.len() && key[i] != ':' ==> #[trigger] env_name(key)[i] == key[i],
{
}

/// Law: the overlay holds exactly the transformed names of the given
/// secrets.
pub proof fn lemma_overlay_names(pairs: Seq<(Seq<char>, Seq<char>)>, name: Seq<char>)
    ensures
        overlay_map(pairs).dom().contains(name) <==> exists|j: int|
            0 <= j < pairs.len() && env_name((#[trigger] pairs[j]).0) == name,
{
    let mapped = pairs.map_values(|p: (Seq<char>, Seq<char>)| entry_for(p));
    lemma_map_of_entries_dom(mapped, name);
    if exists|j: int| 0 <= j < mapped.len() && (#[trigger] mapped[j]).0 == name {
        let j = choose|j: int| 0 <= j < mapped.len() && (#[trigger] mapped[j]).0 == name;
        assert(env_name(pairs[j].0) == name);
    }
    if exists|j: int| 0 <= j < pairs.len() && env_name((#[trigger] pairs[j]).0) == name {
        let j = choose|j: int| 0 <= j < pairs.len() && env_name((#[trigger] pairs[j]).0) == name;
        assert(mapped[j].0 == name);
    }
}

/// Law: on a name collision the later secret wins; a secret not shadowed
/// by any later one is what the overlay holds under its name.
pub proof fn lemma_overlay_last_write_wins(pairs: Seq<(Seq<char>, Seq<char>)>, j: int)
    requires
        0 <= j < pairs.len(),
        forall|k: int|
            j < k < pairs.len() ==> env_name((#[trigger] pairs[k]).0) != env_name(pairs[j].0),
    ensures
        overlay_map(pairs).dom().contains(env_name(pairs[j].0)),
        overlay_map(pairs)[env_name(pairs[j].0)] == pairs[j].1,
{
    let mapped = pairs.map_values(|p: (Seq<char>, Seq<char>)| entry_for(p));
    assert(mapped[j] == entry_for(pairs[j]));
    assert forall|k: int| j < k < mapped.len() implies (#[trigger] mapped[k]).0 != mapped[j].0 by {
        assert(mapped[k] == entry_for(pairs[k]));
    }
    lemma_map_of_entries_last_wins(mapped, j);
}

/// Law: no secrets, no overlay entries.
pub proof fn lemma_empty_overlay()
    ensures
        overlay_map(Seq::<(Seq<char>, Seq<char>)>::empty()) == Map::<Seq<char>, Seq<char>>::empty(),
{
    let mapped = Seq::<(Seq<char>, Seq<char>)>::empty().map_values(
        |p: (Seq<char>, Seq<char>)| entry_for(p),
    );
    assert(mapped =~= Seq::<(Seq<char>, Seq<char>)>::empty());
}

/// Computes `env_name` on a secret key.
pub fn env_name_of(key: &str) -> (r: String)
    ensures
        r@ == env_name(key@),
{
    let n = key.unicode_len();
    let mut out = String::new();
    let mut i: usize = 0;
    while i < n
        invariant
            i <= n,
            n == key@.len(),
            out@ =~= env_name(key@).take(i as int),
        decreases n - i,
    {
        let c = key.get_char(i);
        if c == ':' {
            out.append("_");
            proof {
                reveal_strlit("_");
                assert(out@ =~= env_name(key@).take(i + 1));
            }
        } else {
            let piece = key.substring_char(i, i + 1);
            out.append(piece);
            proof {
                assert(piece@ =~= seq![key@[i as int]]);
                assert(out@ =~= env_name(key@).take(i + 1));
            }
        }
        i = i + 1;
    }
    proof {
        assert(env_name(key@).take(n as int) =~= env_name(key@));
    }
    out
}

/// The environment overlay: name/value entries with pairwise-distinct
/// names, viewed as a mapping from variable name to value.
pub struct Overlay {
    entries: Vec<(String, String)>,
}

impl View for Overlay {
    type V = Map<Seq<char>, Seq<char>>;

    closed spec fn view(&self) -> Map<Seq<char>, Seq<char>> {
        map_of_entries(self.entries.deep_view())
    }
}

impl Overlay {
    #[verifier::type_invariant]
    closed spec fn wf(&self) -> bool {
        forall|i: int, j: int|
            0 <= i < j < self.entries.deep_view().len() ==> (#[trigger] self.entries.deep_view()[i]).0
                != (#[trigger] self.entries.deep_view()[j]).0
    }

    /// The value recorded for an environment-variable name, if any.
    pub fn get(&self, name: &str) -> (r: Option<&String>)
        ensures
            match r {
                Some(v) => self@.dom().contains(name@) && v@ == self@[name@],
                None => !self@.dom().contains(name@),
            },
    {
        proof {
            use_type_invariant(self);
        }
        let n = self.entries.len();
        let mut j: usize = 0;
        while j < n
            invariant
                j <= n,
                n == self.entries@.len(),
                self.wf(),
                self@ == map_of_entries(self.entries.deep_view()),
                forall|k: int| 0 <= k < j ==> (#[trigger] self.entries.deep_view()[k]).0 != name@,
            decreases n - j,
        {
            if str_eq(self.entries[j].0.as_str(), name) {
                proof {
                    assert(self.entries.deep_view()[j as int].0 == name@);
                    lemma_map_of_entries_last_wins(self.entries.deep_view(), j as int);
                }
                return Some(&self.entries[j].1);
            }
            j = j + 1;
        }
        proof {
            lemma_map_of_entries_dom(self.entries.deep_view(), name@);
        }
        None
    }

    /// The entries of the overlay: pairwise-distinct names, each mapped to
    /// its value.
    pub fn entries(&self) -> (r: &Vec<(String, String)>)
        ensures
            forall|j: int|
                0 <= j < r.deep_view().len() ==> self@.dom().contains(
                    (#[trigger] r.deep_view()[j]).0,
                ) && self@[r.deep_view()[j].0] == r.deep_view()[j].1,
            forall|n: Seq<char>|
                self@.dom().contains(n) ==> exists|j: int|
                    0 <= j < r.deep_view().len() && (#[trigger] r.deep_view()[j]).0 == n,
            forall|a: int, b: int|
                0 <= a < b < r.deep_view().len() ==> (#[trigger] r.deep_view()[a]).0 != (
                #[trigger] r.deep_view()[b]).0,
    {
        proof {
            use_type_invariant(self);
            let dv = self.entries.deep_view();
            assert forall|j: int| 0 <= j < dv.len() implies self@.dom().contains(
                (#[trigger] dv[j]).0,
            ) && self@[dv[j].0] == dv[j].1 by {
                lemma_map_of_entries_last_wins(dv, j);
            }
            assert forall|n: Seq<char>| self@.dom().contains(n) implies exists|j: int|
                0 <= j < dv.len() && (#[trigger] dv[j]).0 == n by {
                lemma_map_of_entries_dom(dv, n);
            }
        }
        &self.entries
    }
}

/// Whether some entry already carries `name`.
fn contains_name(entries: &Vec<(String, String)>, name: &str) -> (r: bool)
    ensures
        r == exists|j: int|
            0 <= j < entries.deep_view().len() && (#[trigger] entries.deep_view()[j]).0 == name@,
{
    let n = entries.len();
    let mut j: usize = 0;
    while j < n
        invariant
            j <= n,
            n == entries@.len(),
            forall|k: int| 0 <= k < j ==> (#[trigger] entries.deep_view()[k]).0 != name@,
        decreases n - j,
    {
        if str_eq(entries[j].0.as_str(), name) {
            proof {
                assert(entries.deep_view()[j as int].0 == name@);
            }
            return true;
        }
        j = j + 1;
    }
    false
}

/// Builds the environment overlay from the decrypted secrets and reports
/// how many entries were processed.
pub fn build_overlay(pairs: &Vec<(String, String)>) -> (r: (Overlay, usize))
    ensures
        r.0@ == overlay_map(pairs.deep_view()),
        r.1 == pairs@.len(),
{
    let ghost dv = pairs.deep_view();
    let ghost f = |p: (Seq<char>, Seq<char>)| entry_for(p);
    let mut entries: Vec<(String, String)> = Vec::new();
    let mut i: usize = pairs.len();
    proof {
        assert(dv.skip(i as int).map_values(f) =~= Seq::<(Seq<char>, Seq<char>)>::empty());
        assert(entries.deep_view() =~= Seq::<(Seq<char>, Seq<char>)>::empty());
    }
    while i > 0
        invariant
            i <= pairs@.len(),
            dv == pairs.deep_view(),
            f == (|p: (Seq<char>, Seq<char>)| entry_for(p)),
            map_of_entries(entries.deep_view()) == map_of_entries(dv.skip(i as int).map_values(f)),
            forall|a: int, b: int|
                0 <= a < b < entries.deep_view().len() ==> (#[trigger] entries.deep_view()[a]).0
                    != (#[trigger] entries.deep_view()[b]).0,
        decreases i,
    {
        i = i - 1;
        let name = env_name_of(pairs[i].0.as_str());
        let ghost first = entry_for(dv[i as int]);
        let ghost rest = dv.skip(i as int + 1).map_values(f);
        proof {
            assert(dv[i as int] == (pairs@[i as int].0@, pairs@[i as int].1@));
            assert(name@ == first.0);
            assert(dv.skip(i as int).map_values(f) =~= seq![first] + rest);
            lemma_map_of_entries_prepend(first, rest);
            lemma_map_of_entries_dom(rest, first.0);
            lemma_map_of_entries_dom(entries.deep_view(), first.0);
        }
        if !contains_name(&entries, name.as_str()) {
            let value = pairs[i].1.clone();
            let ghost before = entries.deep_view();
            entries.push((name, value));
            proof {
                assert(entries.deep_view() =~= before.push(first));
                assert(entries.deep_view().drop_last() =~= before);
            }
        }
    }
    proof {
        assert(dv.skip(0) =~= dv);
    }
    let count = pairs.len();
    (Overlay { entries }, count)
}

} // verus!
