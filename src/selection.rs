use vstd::prelude::*;
use crate::model::ProjectEnvironment;

verus! {

/// A requested service that the project does not define.
#[derive(Debug, Clone)]
pub struct ValidationError(pub String);

pub open spec fn names_of(v: Seq<String>) -> Seq<Seq<char>> {
    v.map_values(|s: String| s@)
}

/// The first requested name, in request order, that is not among `known`.
pub open spec fn first_unknown(known: Seq<Seq<char>>, asked: Seq<Seq<char>>) -> Option<Seq<char>>
    decreases asked.len(),
{
    if asked.len() == 0 {
        None
    } else {
        match first_unknown(known, asked.drop_last()) {
            Some(n) => Some(n),
            None => if known.contains(asked.last()) {
                None
            } else {
                Some(asked.last())
            },
        }
    }
}

/// The names of `s` in order of first appearance, each once.
pub open spec fn distinct(s: Seq<Seq<char>>) -> Seq<Seq<char>>
    decreases s.len(),
{
    if s.len() == 0 {
        s
    } else {
        let p = distinct(s.drop_last());
        if p.contains(s.last()) {
            p
        } else {
            p.push(s.last())
        }
    }
}

/// The services a run starts: all of them when no name, or no selection, is
/// given; otherwise the named ones, unless one of them is unknown.
pub open spec fn selection(known: Seq<Seq<char>>, asked: Option<Seq<Seq<char>>>) -> Result<
    Seq<Seq<char>>,
    Seq<char>,
> {
    match asked {
        None => Ok(known),
        Some(a) => if a.len() == 0 {
            Ok(known)
        } else {
            match first_unknown(known, a) {
                Some(n) => Err(n),
                None => Ok(distinct(a)),
            }
        },
    }
}

pub proof fn lemma_distinct(s: Seq<Seq<char>>)
    ensures
        distinct(s).no_duplicates(),
        forall|x: Seq<char>| distinct(s).contains(x) <==> s.contains(x),
    decreases s.len(),
{
    if s.len() > 0 {
        let p = distinct(s.drop_last());
        lemma_distinct(s.drop_last());
        assert forall|x: Seq<char>| distinct(s).contains(x) <==> s.contains(x) by {
            if s.drop_last().contains(x) {
                let j = choose|j: int| 0 <= j < s.drop_last().len() && s.drop_last()[j] == x;
                assert(s[j] == x);
            }
            if s.contains(x) && x != s.last() {
                let j = choose|j: int| 0 <= j < s.len() && s[j] == x;
                assert(s.drop_last()[j] == x);
            }
            if !p.contains(s.last()) {
                assert(distinct(s) == p.push(s.last()));
                assert(distinct(s)[p.len() as int] == s.last());
                if p.contains(x) {
                    let j = choose|j: int| 0 <= j < p.len() && p[j] == x;
                    assert(distinct(s)[j] == x);
                }
                if distinct(s).contains(x) && x != s.last() {
                    let j = choose|j: int| 0 <= j < distinct(s).len() && distinct(s)[j] == x;
                    assert(p[j] == x);
                }
            }
            assert(s[s.len() - 1] == s.last());
        }
    }
}

pub proof fn lemma_first_unknown(known: Seq<Seq<char>>, asked: Seq<Seq<char>>)
    ensures
        first_unknown(known, asked) is None <==> forall|i: int|
            0 <= i < asked.len() ==> known.contains(#[trigger] asked[i]),
        first_unknown(known, asked) matches Some(n) ==> asked.contains(n) && !known.contains(n),
    decreases asked.len(),
{
    if asked.len() > 0 {
        let d = asked.drop_last();
        lemma_first_unknown(known, d);
        assert forall|i: int| 0 <= i < d.len() implies d[i] == asked[i] by {}
        if let Some(n) = first_unknown(known, d) {
            let j = choose|j: int| 0 <= j < d.len() && d[j] == n;
            assert(asked[j] == n);
        }
        assert(asked[asked.len() - 1] == asked.last());
    }
}

/// Whether `v` holds the text `s`.
fn holds_name(v: &Vec<String>, s: &String) -> (r: bool)
    ensures
        r == names_of(v@).contains(s@),
{
    let mut i: usize = 0;
    while i < v.len()
        invariant
            i <= v@.len(),
            forall|j: int| 0 <= j < i ==> v@[j]@ != s@,
        decreases v@.len() - i,
    {
        if v[i] == *s {
            assert(names_of(v@)[i as int] == s@);
            return true;
        }
        i = i + 1;
    }
    proof {
        if names_of(v@).contains(s@) {
            let j = choose|j: int| 0 <= j < names_of(v@).len() && names_of(v@)[j] == s@;
            assert(v@[j]@ == s@);
        }
    }
    false
}

impl ProjectEnvironment {
    /// Decides which services a run starts, before any of them is started.
    pub fn services_to_start(&self, only: Option<Vec<String>>) -> (r: Result<
        Vec<String>,
        ValidationError,
    >)
        ensures
            match r {
                Ok(v) => selection(self.services.keys(), match only {
                    Some(a) => Some(names_of(a@)),
                    None => None,
                }) == Ok::<Seq<Seq<char>>, Seq<char>>(names_of(v@)),
                Err(e) => selection(self.services.keys(), match only {
                    Some(a) => Some(names_of(a@)),
                    None => None,
                }) == Err::<Seq<Seq<char>>, Seq<char>>(e.0@),
            },
    {
        let ghost request = match &only {
            Some(a) => Some(names_of(a@)),
            None => None,
        };
        let all = match &only {
            None => true,
            Some(a) => a.len() == 0,
        };
        if all {
            let mut out: Vec<String> = Vec::new();
            let mut i: usize = 0;
            while i < self.services.len()
                invariant
                    i <= self.services@.len(),
                    names_of(out@) =~= self.services.keys().take(i as int),
                decreases self.services@.len() - i,
            {
                let k = self.services.key_at(i).clone();
                out.push(k);
                assert(self.services.keys().take(i + 1) =~= self.services.keys().take(i as int).push(
                    self.services.keys()[i as int],
                ));
                i = i + 1;
            }
            assert(self.services.keys().take(self.services@.len() as int) =~= self.services.keys());
            return Ok(out);
        }
        let empty: Vec<String> = Vec::new();
        let asked: &Vec<String> = match &only {
            Some(a) => a,
            None => &empty,
        };
        let ghost a = names_of(asked@);
        assert(request == Some(a) && a.len() > 0);
        let mut i: usize = 0;
        while i < asked.len()
            invariant
                i <= asked@.len(),
                a == names_of(asked@),
                request == Some(a),
                request == match only {
                    Some(a) => Some(names_of(a@)),
                    None => None,
                },
                a.len() > 0,
                first_unknown(self.services.keys(), a.take(i as int)) is None,
            decreases asked@.len() - i,
        {
            assert(a.take(i + 1).drop_last() =~= a.take(i as int));
            assert(a.take(i + 1).last() == asked@[i as int]@);
            if !self.services.contains_key(asked[i].as_str()) {
                assert(a[i as int] == asked@[i as int]@);
                proof { lemma_unknown_prefix(self.services.keys(), a, i as int + 1); }
                return Err(ValidationError(asked[i].clone()));
            }
            i = i + 1;
        }
        assert(a.take(asked@.len() as int) =~= a);
        let mut out: Vec<String> = Vec::new();
        let mut i: usize = 0;
        while i < asked.len()
            invariant
                i <= asked@.len(),
                a == names_of(asked@),
                request == Some(a),
                request == match only {
                    Some(a) => Some(names_of(a@)),
                    None => None,
                },
                a.len() > 0,
                names_of(out@) == distinct(a.take(i as int)),
            decreases asked@.len() - i,
        {
            assert(a.take(i + 1).drop_last() =~= a.take(i as int));
            assert(a.take(i + 1).last() == asked@[i as int]@);
            if !holds_name(&out, &asked[i]) {
                let s = asked[i].clone();
                out.push(s);
                assert(names_of(out@) =~= distinct(a.take(i as int)).push(asked@[i as int]@));
            }
            i = i + 1;
        }
        assert(a.take(asked@.len() as int) =~= a);
        Ok(out)
    }
}

/// A prefix that ends in its first unknown name reports that name for the
/// whole request.
proof fn lemma_unknown_prefix(known: Seq<Seq<char>>, a: Seq<Seq<char>>, n: int)
    requires
        0 < n <= a.len(),
        first_unknown(known, a.take(n - 1)) is None,
        !known.contains(a[n - 1]),
    ensures
        first_unknown(known, a) == Some(a[n - 1]),
    decreases a.len(),
{
    assert(a.take(n).drop_last() =~= a.take(n - 1));
    if a.len() == n {
        assert(a.take(n) =~= a);
    } else {
        assert(a.drop_last().take(n - 1) =~= a.take(n - 1));
        assert(a.drop_last()[n - 1] == a[n - 1]);
        lemma_unknown_prefix(known, a.drop_last(), n);
    }
}

} // verus!

verus! {

/// A non-empty selection of known services starts each of them exactly once,
/// and no service outside it.
pub proof fn lemma_starts_exactly_selected(env: ProjectEnvironment, asked: Seq<Seq<char>>)
    requires
        asked.len() > 0,
        forall|i: int| 0 <= i < asked.len() ==> env.services.contains(#[trigger] asked[i]),
    ensures
        selection(env.services.keys(), Some(asked)) matches Ok(started) && started.no_duplicates()
            && forall|n: Seq<char>| started.contains(n) <==> asked.contains(n),
{
    lemma_first_unknown(env.services.keys(), asked);
    lemma_distinct(asked);
}

/// A selection that names an unknown service is refused, and a selection of
/// that one name is refused with that name; nothing is started either way.
pub proof fn lemma_unknown_name_rejected(env: ProjectEnvironment, asked: Seq<Seq<char>>, name: Seq<char>)
    requires
        asked.contains(name),
        !env.services.contains(name),
    ensures
        selection(env.services.keys(), Some(asked)) is Err,
        asked == seq![name] ==> selection(env.services.keys(), Some(asked)) == Err::<
            Seq<Seq<char>>,
            Seq<char>,
        >(name),
{
    lemma_first_unknown(env.services.keys(), asked);
    let i = choose|i: int| 0 <= i < asked.len() && asked[i] == name;
    assert(!env.services.keys().contains(asked[i]));
    if asked == seq![name] {
        assert(asked.drop_last() =~= Seq::<Seq<char>>::empty());
    }
}

} // verus!
