use vstd::prelude::*;
use crate::model::{ProjectEnvironment, ServiceEnvironment};
use crate::table::Table;

verus! {

/// The variables of a table of texts, as a map.
pub open spec fn text_map(t: Table<String>) -> Map<Seq<char>, Seq<char>> {
    Map::new(|k: Seq<char>| t.contains(k), |k: Seq<char>| t.value_of(k)@)
}

/// A search-path value put in front of the value the variable already had,
/// separated by a colon; alone when there was none.
pub open spec fn prefixed(value: Seq<char>, existing: Seq<char>) -> Seq<char> {
    if existing.len() == 0 {
        value
    } else {
        value + seq![':'] + existing
    }
}

/// What a variable already holds in the caller's environment; empty when unset.
pub open spec fn inherited_value(inherited: Table<String>, k: Seq<char>) -> Seq<char> {
    if inherited.contains(k) {
        inherited.value_of(k)@
    } else {
        seq![]
    }
}

pub fn prefix_value(value: &str, existing: &str) -> (r: String)
    ensures
        r@ == prefixed(value@, existing@),
{
    let mut r = String::from_str(value);
    if existing.unicode_len() > 0 {
        r.append(":");
        proof { reveal_strlit(":"); }
        r.append(existing);
    }
    r
}

/// A copy of a table of texts.
pub fn copy_table(t: &Table<String>) -> (r: Table<String>)
    requires
        t.wf(),
    ensures
        r.wf(),
        text_map(r) == text_map(*t),
{
    let mut r: Table<String> = Table::new();
    let mut i: usize = 0;
    while i < t.len()
        invariant
            t.wf(),
            r.wf(),
            i <= t@.len(),
            forall|k: Seq<char>| r.contains(k) <==> exists|j: int| 0 <= j < i && t@[j].0 == k,
            forall|j: int| 0 <= j < i ==> r.value_of(#[trigger] t@[j].0)@ == t@[j].1@,
        decreases t@.len() - i,
    {
        let k = t.key_at(i).clone();
        let v = t.value_at(i).clone();
        r.insert(k, v);
        assert forall|j: int| 0 <= j < i + 1 implies r.value_of(#[trigger] t@[j].0)@ == t@[j].1@ by {
            if j < i {
                assert(t.keys()[j] != t.keys()[i as int]);
            }
        }
        assert forall|k: Seq<char>| r.contains(k) <==> exists|j: int| 0 <= j < i + 1 && t@[j].0 == k by {
            if k == t@[i as int].0 {
                assert(r.contains(k));
            }
        }
        i = i + 1;
    }
    assert forall|k: Seq<char>| text_map(r).contains_key(k) <==> text_map(*t).contains_key(k) by {
        if t.contains(k) {
            let j = t.keys().index_of(k);
            assert(t@[j].0 == k);
        }
        if r.contains(k) {
            let j = choose|j: int| 0 <= j < t@.len() && t@[j].0 == k;
            assert(t.keys()[j] == k);
        }
    }
    assert forall|k: Seq<char>| #[trigger] text_map(r).contains_key(k) implies text_map(r)[k] == text_map(*t)[k] by {
        let j = choose|j: int| 0 <= j < t@.len() && t@[j].0 == k;
        t.lemma_entry(j);
    }
    assert(text_map(r) =~= text_map(*t));
    r
}

/// The variables of `base` with those of `top` laid over them: `top` wins
/// where both hold a variable.
pub fn overlay(base: &Table<String>, top: &Table<String>) -> (r: Table<String>)
    requires
        base.wf(),
        top.wf(),
    ensures
        r.wf(),
        text_map(r) == text_map(*base).union_prefer_right(text_map(*top)),
{
    let mut r = copy_table(base);
    assert forall|k: Seq<char>| r.contains(k) <==> base.contains(k) by {
        assert(text_map(r).contains_key(k) == text_map(*base).contains_key(k));
    }
    assert forall|k: Seq<char>| r.contains(k) implies r.value_of(k)@ == base.value_of(k)@ by {
        assert(text_map(r)[k] == text_map(*base)[k]);
    }
    let mut i: usize = 0;
    while i < top.len()
        invariant
            top.wf(),
            r.wf(),
            i <= top@.len(),
            forall|k: Seq<char>|
                #![trigger r.contains(k)]
                r.contains(k) <==> (base.contains(k) || exists|j: int| 0 <= j < i && top@[j].0 == k),
            forall|k: Seq<char>|
                #![trigger r.value_of(k)]
                r.contains(k) && !(exists|j: int| 0 <= j < i && top@[j].0 == k) ==> r.value_of(k)@
                    == base.value_of(k)@,
            forall|j: int| 0 <= j < i ==> r.value_of(#[trigger] top@[j].0)@ == top@[j].1@,
        decreases top@.len() - i,
    {
        let k = top.key_at(i).clone();
        let v = top.value_at(i).clone();
        r.insert(k, v);
        assert forall|j: int| 0 <= j < i + 1 implies r.value_of(#[trigger] top@[j].0)@ == top@[j].1@ by {
            if j < i {
                assert(top.keys()[j] != top.keys()[i as int]);
            }
        }
        i = i + 1;
    }
    let ghost want = text_map(*base).union_prefer_right(text_map(*top));
    assert forall|k: Seq<char>| #[trigger] text_map(r).contains_key(k) <==> want.contains_key(k) by {
        if top.contains(k) {
            let j = top.keys().index_of(k);
            assert(top@[j].0 == k);
        }
        if r.contains(k) && !base.contains(k) {
            let j = choose|j: int| 0 <= j < top@.len() && top@[j].0 == k;
            assert(top.keys()[j] == k);
        }
    }
    assert forall|k: Seq<char>| #[trigger] text_map(r).contains_key(k) implies text_map(r)[k] == want[k] by {
        if top.contains(k) {
            let j = top.keys().index_of(k);
            top.lemma_entry(j);
            assert(r.value_of(top@[j].0)@ == top@[j].1@);
        } else {
            if exists|j: int| 0 <= j < top@.len() && top@[j].0 == k {
                let j = choose|j: int| 0 <= j < top@.len() && top@[j].0 == k;
                assert(top.keys()[j] == k);
            }
        }
    }
    assert(text_map(r) =~= want);
    r
}

} // verus!

verus! {

/// The project's variables for a command, each put in front of the value the
/// caller's environment already gives it.
pub open spec fn command_vars(env: ProjectEnvironment, inherited: Table<String>) -> Map<
    Seq<char>,
    Seq<char>,
> {
    Map::new(
        |k: Seq<char>| env.environ.contains(k),
        |k: Seq<char>| prefixed(env.environ.value_of(k)@, inherited_value(inherited, k)),
    )
}

/// What a service's process is started with: its working directory, the
/// script the shell runs, and the variables set for it.
#[derive(Debug, Clone)]
pub struct Launch {
    pub working_directory: String,
    pub script: String,
    pub environ: Table<String>,
}

impl ProjectEnvironment {
    /// The variables a command is given: the project's search paths in front
    /// of the inherited ones, and the user's own variables on request.
    pub fn command_environment(&self, inherited: &Table<String>, apply_user: bool) -> (r: Table<
        String,
    >)
        requires
            self.wf(),
            inherited.wf(),
        ensures
            r.wf(),
            text_map(r) == if apply_user {
                command_vars(*self, *inherited).union_prefer_right(text_map(self.user_environ))
            } else {
                command_vars(*self, *inherited)
            },
    {
        let t = &self.environ;
        let mut r: Table<String> = Table::new();
        let mut i: usize = 0;
        while i < t.len()
            invariant
                t == &self.environ,
                t.wf(),
                inherited.wf(),
                r.wf(),
                i <= t@.len(),
                forall|k: Seq<char>| r.contains(k) <==> exists|j: int| 0 <= j < i && t@[j].0 == k,
                forall|j: int|
                    0 <= j < i ==> r.value_of(#[trigger] t@[j].0)@ == prefixed(
                        t@[j].1@,
                        inherited_value(*inherited, t@[j].0),
                    ),
            decreases t@.len() - i,
        {
            let k = t.key_at(i);
            let v = match inherited.get(k.as_str()) {
                Some(existing) => prefix_value(t.value_at(i).as_str(), existing.as_str()),
                None => prefix_value(t.value_at(i).as_str(), ""),
            };
            proof { reveal_strlit(""); }
            r.insert(k.clone(), v);
            assert forall|j: int| 0 <= j < i + 1 implies r.value_of(#[trigger] t@[j].0)@ == prefixed(
                t@[j].1@,
                inherited_value(*inherited, t@[j].0),
            ) by {
                if j < i {
                    assert(t.keys()[j] != t.keys()[i as int]);
                }
            }
            assert forall|q: Seq<char>| r.contains(q) <==> exists|j: int| 0 <= j < i + 1 && t@[j].0 == q by {
                if q == t@[i as int].0 {
                    assert(r.contains(q));
                }
            }
            i = i + 1;
        }
        let ghost want = command_vars(*self, *inherited);
        assert forall|k: Seq<char>| #[trigger] text_map(r).contains_key(k) <==> want.contains_key(k) by {
            if t.contains(k) {
                let j = t.keys().index_of(k);
                assert(t@[j].0 == k);
            }
            if r.contains(k) {
                let j = choose|j: int| 0 <= j < t@.len() && t@[j].0 == k;
                assert(t.keys()[j] == k);
            }
        }
        assert forall|k: Seq<char>| #[trigger] text_map(r).contains_key(k) implies text_map(r)[k] == want[k] by {
            let j = choose|j: int| 0 <= j < t@.len() && t@[j].0 == k;
            t.lemma_entry(j);
        }
        assert(text_map(r) =~= want);
        if apply_user {
            overlay(&r, &self.user_environ)
        } else {
            r
        }
    }

    /// The variables a service's process is given: the project's, with the
    /// service's own taking precedence.
    pub fn service_environment(&self, service: &ServiceEnvironment, inherited: &Table<String>) -> (r:
        Table<String>)
        requires
            self.wf(),
            service.wf(),
            inherited.wf(),
        ensures
            r.wf(),
            text_map(r) == command_vars(*self, *inherited).union_prefer_right(
                text_map(service.environ),
            ),
    {
        let base = self.command_environment(inherited, false);
        overlay(&base, &service.environ)
    }

    /// How the service called `name` is started, if the project has one.
    pub fn launch(&self, name: &str, inherited: &Table<String>) -> (r: Option<Launch>)
        requires
            self.wf(),
            inherited.wf(),
        ensures
            r is Some <==> self.services.contains(name@),
            r matches Some(l) ==> ({
                let s = self.services.value_of(name@);
                &&& l.working_directory@ == s.working_directory@
                &&& l.script@ == s.script@
                &&& text_map(l.environ) == command_vars(*self, *inherited).union_prefer_right(
                    text_map(s.environ),
                )
            }),
    {
        match self.services.find(name) {
            Some(i) => {
                proof { self.services.lemma_entry(i as int); }
                let s = self.services.value_at(i);
                assert(s.wf());
                Some(
                    Launch {
                        working_directory: s.working_directory.clone(),
                        script: s.script.clone(),
                        environ: self.service_environment(s, inherited),
                    },
                )
            },
            None => None,
        }
    }
}

} // verus!
