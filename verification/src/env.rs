//! The guest's environment: `NAME=VALUE` entries and the ordered binding
//! that is made of them.
//!
//! The binding policy is to merge, last wins. The environment that the host
//! passes on is bound first, in its order; each override is then bound on
//! top. Binding a name that is already bound replaces its value where it
//! stands, and binding a new name appends it. So a binding holds each name
//! once, in the order in which the names were first bound.

use crate::error::{ParseError, ParseErrorView};
use crate::text::{chars_of, find, first_index, lemma_first_index, lemma_first_index_is, same_text};
use vstd::prelude::*;
use vstd::string::StrSliceExecFns;

verus! {

/// What a `NAME=VALUE` entry holds: the text before its first `=` and the
/// text after it. Further `=` belong to the value. `None` where the text
/// holds no `=`.
pub open spec fn env_entry(s: Seq<char>) -> Option<(Seq<char>, Seq<char>)> {
    let i = first_index(s, '=');
    if 0 <= i < s.len() {
        Some((s.take(i), s.skip(i + 1)))
    } else {
        None
    }
}

/// A name without `=`, an `=` and any value read back as that name and that
/// value, whatever the value holds.
pub proof fn lemma_env_entry_exact(name: Seq<char>, value: Seq<char>)
    requires
        !name.contains('='),
    ensures
        env_entry(name + seq!['='] + value) == Some((name, value)),
{
    let s = name + seq!['='] + value;
    let i = name.len() as int;
    assert forall|j: int| 0 <= j < i implies s[j] != '=' by {
        assert(s[j] == name[j]);
        assert(name.contains(name[j]));
    }
    assert(s[i] == '=');
    lemma_first_index_is(s, '=', i);
    assert(s.take(i) =~= name);
    assert(s.skip(i + 1) =~= value);
}

/// A text is an entry exactly when it holds an `=`.
pub proof fn lemma_env_entry_needs_delimiter(s: Seq<char>)
    ensures
        env_entry(s) is None <==> !s.contains('='),
{
    lemma_first_index(s, '=');
}

/// An entry is its name, an `=` and its value, and the name holds no `=`.
pub proof fn lemma_env_entry_parts(s: Seq<char>)
    ensures
        env_entry(s) matches Some(entry) ==> s == entry.0 + seq!['='] + entry.1
            && !entry.0.contains('='),
{
    lemma_first_index(s, '=');
    let i = first_index(s, '=');
    if i < s.len() {
        let name = s.take(i);
        assert(s =~= name + seq!['='] + s.skip(i + 1));
        if name.contains('=') {
            let k = choose|k: int| 0 <= k < name.len() && name[k] == '=';
            assert(s[k] == '=');
        }
    }
}

/// Splits a `NAME=VALUE` entry at its first `=`. The value may hold further
/// `=`, and either part may be empty. A text without `=` is the one input
/// that is refused.
pub fn parse_env_var(s: &str) -> (r: Result<(String, String), ParseError>)
    ensures
        match r {
            Ok(pair) => env_entry(s@) == Some((pair.0@, pair.1@)),
            Err(e) => env_entry(s@) is None && e@ == ParseErrorView::MissingDelimiter,
        },
{
    let cs = chars_of(s);
    let n: usize = cs.len();
    let i: usize = find(&cs, 0, n, '=');
    proof {
        assert(cs@.subrange(0, n as int) =~= s@);
    }
    if i < n {
        let name = s.substring_char(0, i).to_owned();
        let value = s.substring_char(i + 1, n).to_owned();
        Ok((name, value))
    } else {
        Err(ParseError::MissingDelimiter)
    }
}

/// The names of `env`, in its order.
pub open spec fn names(env: Seq<(Seq<char>, Seq<char>)>) -> Seq<Seq<char>> {
    Seq::new(env.len(), |i: int| env[i].0)
}

/// The value that `env` gives `name`: that of the first pair with this
/// name, if there is one.
pub open spec fn lookup(env: Seq<(Seq<char>, Seq<char>)>, name: Seq<char>) -> Option<Seq<char>> {
    let i = first_index(names(env), name);
    if 0 <= i < env.len() {
        Some(env[i].1)
    } else {
        None
    }
}

/// `env` after `name` is bound to `value`: the pair takes the place of the
/// one that has this name, or comes last where none has.
pub open spec fn bound(env: Seq<(Seq<char>, Seq<char>)>, name: Seq<char>, value: Seq<char>) -> Seq<
    (Seq<char>, Seq<char>),
> {
    let i = first_index(names(env), name);
    if 0 <= i < env.len() {
        env.update(i, (name, value))
    } else {
        env.push((name, value))
    }
}

/// `env` after each of `pairs` is bound, first to last.
pub open spec fn bound_all(
    env: Seq<(Seq<char>, Seq<char>)>,
    pairs: Seq<(Seq<char>, Seq<char>)>,
) -> Seq<(Seq<char>, Seq<char>)>
    decreases pairs.len(),
{
    if pairs.len() == 0 {
        env
    } else {
        bound(bound_all(env, pairs.drop_last()), pairs.last().0, pairs.last().1)
    }
}

/// What every binding is held to: no name is empty and none occurs twice.
pub open spec fn well_formed(env: Seq<(Seq<char>, Seq<char>)>) -> bool {
    &&& forall|i: int| 0 <= i < env.len() ==> (#[trigger] env[i]).0.len() > 0
    &&& forall|i: int, j: int| 0 <= i < j < env.len() ==> (#[trigger] env[i]).0 != (#[trigger] env[j]).0
}

/// Whether every pair has a name.
pub open spec fn all_named(pairs: Seq<(Seq<char>, Seq<char>)>) -> bool {
    forall|i: int| 0 <= i < pairs.len() ==> (#[trigger] pairs[i]).0.len() > 0
}

/// Binding keeps a binding well formed and changes one name only: the bound
/// name now has the new value, every other name has the value it had, and
/// the names keep their order, with a new name last.
pub proof fn lemma_bound(env: Seq<(Seq<char>, Seq<char>)>, name: Seq<char>, value: Seq<char>)
    requires
        well_formed(env),
        name.len() > 0,
    ensures
        well_formed(bound(env, name, value)),
        lookup(bound(env, name, value), name) == Some(value),
        forall|other: Seq<char>|
            other != name ==> lookup(bound(env, name, value), other) == #[trigger] lookup(
                env,
                other,
            ),
        names(bound(env, name, value)) == if lookup(env, name) is Some {
            names(env)
        } else {
            names(env).push(name)
        },
{
    let after = bound(env, name, value);
    lemma_first_index(names(env), name);
    let i = first_index(names(env), name);
    if i < env.len() {
        assert(names(after) =~= names(env));
    } else {
        assert(names(after) =~= names(env).push(name));
        assert forall|a: int, b: int| 0 <= a < b < after.len() implies after[a].0 != after[b].0 by {
            if b == env.len() {
                assert(names(env)[a] != name);
            }
        }
        lemma_first_index_is(names(after), name, i);
    }
    assert forall|other: Seq<char>| other != name implies lookup(after, other) == #[trigger] lookup(
        env,
        other,
    ) by {
        lemma_first_index(names(env), other);
        let k = first_index(names(env), other);
        if k < env.len() {
            lemma_first_index_is(names(after), other, k);
        } else {
            assert forall|j: int| 0 <= j < names(after).len() implies names(after)[j] != other by {
                if j < env.len() {
                    assert(names(env)[j] != other);
                }
            }
            lemma_first_index_is(names(after), other, names(after).len() as int);
        }
    }
}

/// Binding named pairs keeps a binding well formed.
pub proof fn lemma_bound_all_well_formed(
    env: Seq<(Seq<char>, Seq<char>)>,
    pairs: Seq<(Seq<char>, Seq<char>)>,
)
    requires
        well_formed(env),
        all_named(pairs),
    ensures
        well_formed(bound_all(env, pairs)),
    decreases pairs.len(),
{
    if pairs.len() > 0 {
        lemma_bound_all_well_formed(env, pairs.drop_last());
        lemma_bound(bound_all(env, pairs.drop_last()), pairs.last().0, pairs.last().1);
    }
}

/// Last wins: after pairs are bound, a name has the value of the last pair
/// that names it, and the value it had before where no pair names it.
pub proof fn lemma_last_wins(
    env: Seq<(Seq<char>, Seq<char>)>,
    pairs: Seq<(Seq<char>, Seq<char>)>,
    name: Seq<char>,
)
    requires
        well_formed(env),
        all_named(pairs),
    ensures
        (forall|i: int| 0 <= i < pairs.len() ==> (#[trigger] pairs[i]).0 != name) ==> lookup(
            bound_all(env, pairs),
            name,
        ) == lookup(env, name),
        forall|i: int|
            0 <= i < pairs.len() && (#[trigger] pairs[i]).0 == name && (forall|j: int|
                i < j < pairs.len() ==> (#[trigger] pairs[j]).0 != name) ==> lookup(
                bound_all(env, pairs),
                name,
            ) == Some(pairs[i].1),
    decreases pairs.len(),
{
    if pairs.len() > 0 {
        let front = pairs.drop_last();
        let last = pairs.last();
        lemma_last_wins(env, front, name);
        lemma_bound_all_well_formed(env, front);
        lemma_bound(bound_all(env, front), last.0, last.1);
        assert forall|i: int|
            0 <= i < pairs.len() && (#[trigger] pairs[i]).0 == name && (forall|j: int|
                i < j < pairs.len() ==> (#[trigger] pairs[j]).0 != name) implies lookup(
            bound_all(env, pairs),
            name,
        ) == Some(pairs[i].1) by {
            if i < front.len() {
                assert(last.0 != name);
                assert(front[i] == pairs[i]);
                assert forall|j: int| i < j < front.len() implies (#[trigger] front[j]).0
                    != name by {
                    assert(front[j] == pairs[j]);
                }
            }
        }
        if forall|i: int| 0 <= i < pairs.len() ==> (#[trigger] pairs[i]).0 != name {
            assert forall|i: int| 0 <= i < front.len() implies (#[trigger] front[i]).0 != name by {
                assert(front[i] == pairs[i]);
            }
        }
    }
}

/// Binding two lists in turn is binding the one list that they make.
pub proof fn lemma_bound_all_concat(
    env: Seq<(Seq<char>, Seq<char>)>,
    first: Seq<(Seq<char>, Seq<char>)>,
    second: Seq<(Seq<char>, Seq<char>)>,
)
    ensures
        bound_all(bound_all(env, first), second) == bound_all(env, first + second),
    decreases second.len(),
{
    if second.len() == 0 {
        assert(first + second =~= first);
    } else {
        lemma_bound_all_concat(env, first, second.drop_last());
        assert((first + second).drop_last() =~= first + second.drop_last());
    }
}

/// The environment that the guest is given: `(name, value)` pairs in the
/// order in which their names were first bound, no name empty and none
/// bound twice.
#[derive(Debug)]
pub struct EnvBinding {
    entries: Vec<(String, String)>,
}

impl View for EnvBinding {
    type V = Seq<(Seq<char>, Seq<char>)>;

    closed spec fn view(&self) -> Seq<(Seq<char>, Seq<char>)> {
        self.entries.deep_view()
    }
}

impl EnvBinding {
    #[verifier::type_invariant]
    spec fn valid(&self) -> bool {
        well_formed(self.entries.deep_view())
    }

    /// The binding that holds nothing.
    pub fn new() -> (env: EnvBinding)
        ensures
            env@ == Seq::<(Seq<char>, Seq<char>)>::empty(),
    {
        let entries: Vec<(String, String)> = Vec::new();
        assert(entries.deep_view() =~= Seq::<(Seq<char>, Seq<char>)>::empty());
        EnvBinding { entries }
    }

    /// Binds `name` to `value`, last wins. An empty name is refused.
    pub fn bind(self, name: String, value: String) -> (r: Result<EnvBinding, ParseError>)
        ensures
            match r {
                Ok(env) => name@.len() > 0 && env@ == bound(self@, name@, value@),
                Err(e) => name@.len() == 0 && e@ == ParseErrorView::EmptyName,
            },
    {
        proof {
            use_type_invariant(&self);
        }
        if name.as_str().is_empty() {
            return Err(ParseError::EmptyName);
        }
        let mut entries = self.entries;
        let ghost before = entries.deep_view();
        let i: usize = position(&entries, name.as_str());
        proof {
            lemma_bound(before, name@, value@);
        }
        if i < entries.len() {
            entries.set(i, (name, value));
            assert(entries.deep_view() =~= before.update(i as int, (name@, value@)));
        } else {
            entries.push((name, value));
            assert(entries.deep_view() =~= before.push((name@, value@)));
        }
        Ok(EnvBinding { entries })
    }

    /// Binds each of `pairs`, first to last. Where a pair has an empty name,
    /// nothing is bound and the list is refused.
    pub fn bind_all(self, pairs: &Vec<(String, String)>) -> (r: Result<EnvBinding, ParseError>)
        ensures
            match r {
                Ok(env) => all_named(pairs.deep_view()) && env@ == bound_all(
                    self@,
                    pairs.deep_view(),
                ),
                Err(e) => !all_named(pairs.deep_view()) && e@ == ParseErrorView::EmptyName,
            },
    {
        let ghost start = self@;
        let ghost all = pairs.deep_view();
        let mut env = self;
        let mut k: usize = 0;
        while k < pairs.len()
            invariant
                k <= pairs.len(),
                all == pairs.deep_view(),
                all_named(all.take(k as int)),
                env@ == bound_all(start, all.take(k as int)),
            decreases pairs.len() - k,
        {
            let name = pairs[k].0.clone();
            let value = pairs[k].1.clone();
            proof {
                assert(all[k as int] == (name@, value@));
                assert(all.take(k + 1).drop_last() =~= all.take(k as int));
                assert(all.take(k + 1).last() == all[k as int]);
            }
            match env.bind(name, value) {
                Ok(next) => {
                    env = next;
                },
                Err(e) => {
                    return Err(e);
                },
            }
            k += 1;
        }
        proof {
            assert(all.take(k as int) =~= all);
        }
        Ok(env)
    }

    /// The value bound to `name`, if it is bound.
    pub fn get(&self, name: &str) -> (value: Option<&String>)
        ensures
            match value {
                Some(v) => lookup(self@, name@) == Some(v@),
                None => lookup(self@, name@) is None,
            },
    {
        let i: usize = position(&self.entries, name);
        if i < self.entries.len() {
            Some(&self.entries[i].1)
        } else {
            None
        }
    }

    /// The pairs in their order, as the engine is to expose them.
    pub fn entries(&self) -> (pairs: &Vec<(String, String)>)
        ensures
            pairs.deep_view() == self@,
            well_formed(self@),
    {
        proof {
            use_type_invariant(self);
        }
        &self.entries
    }

    /// The number of names bound.
    pub fn len(&self) -> (n: usize)
        ensures
            n == self@.len(),
    {
        self.entries.len()
    }
}

/// The guest's environment under the merge policy: the inherited pairs bound
/// first, the overrides on top of them. An override of an inherited name
/// replaces its value in place; a new name comes after the inherited ones. A
/// pair with an empty name, on either side, has the whole refused.
pub fn bind_environment(
    inherited: &Vec<(String, String)>,
    overrides: &Vec<(String, String)>,
) -> (r: Result<EnvBinding, ParseError>)
    ensures
        match r {
            Ok(env) => {
                &&& all_named(inherited.deep_view() + overrides.deep_view())
                &&& env@ == bound_all(
                    Seq::<(Seq<char>, Seq<char>)>::empty(),
                    inherited.deep_view() + overrides.deep_view(),
                )
            },
            Err(e) => {
                &&& !all_named(inherited.deep_view() + overrides.deep_view())
                &&& e@ == ParseErrorView::EmptyName
            },
        },
{
    let ghost first = inherited.deep_view();
    let ghost second = overrides.deep_view();
    proof {
        lemma_bound_all_concat(Seq::<(Seq<char>, Seq<char>)>::empty(), first, second);
        if all_named(first + second) {
            assert forall|i: int| 0 <= i < first.len() implies (#[trigger] first[i]).0.len() > 0 by {
                assert((first + second)[i] == first[i]);
            }
            assert forall|i: int| 0 <= i < second.len() implies (#[trigger] second[i]).0.len()
                > 0 by {
                assert((first + second)[first.len() + i] == second[i]);
            }
        }
    }
    let base = match EnvBinding::new().bind_all(inherited) {
        Ok(env) => env,
        Err(e) => {
            return Err(e);
        },
    };
    match base.bind_all(overrides) {
        Ok(env) => Ok(env),
        Err(e) => Err(e),
    }
}

/// Where `name` stands in `entries`, or their number where it is not bound.
fn position(entries: &Vec<(String, String)>, name: &str) -> (i: usize)
    ensures
        i <= entries.len(),
        i == first_index(names(entries.deep_view()), name@),
{
    let mut i: usize = 0;
    while i < entries.len() && !same_text(entries[i].0.as_str(), name)
        invariant
            i <= entries.len(),
            forall|j: int| 0 <= j < i ==> names(entries.deep_view())[j] != name@,
        decreases entries.len() - i,
    {
        i += 1;
    }
    proof {
        lemma_first_index_is(names(entries.deep_view()), name@, i as int);
    }
    i
}

} // verus!
