use vstd::prelude::*;

verus! {

/// `part` appended to `base` as a path component: an absolute `part` stands
/// alone, and a separator is added unless `base` is empty or ends in one.
pub open spec fn joined(base: Seq<char>, part: Seq<char>) -> Seq<char> {
    if part.len() > 0 && part[0] == '/' {
        part
    } else if base.len() == 0 || base.last() == '/' {
        base + part
    } else {
        base + seq!['/'] + part
    }
}

/// The texts of `parts` separated by colons.
pub open spec fn colon_list(parts: Seq<Seq<char>>) -> Seq<char>
    decreases parts.len(),
{
    if parts.len() == 0 {
        seq![]
    } else if parts.len() == 1 {
        parts[0]
    } else {
        colon_list(parts.drop_last()) + seq![':'] + parts.last()
    }
}

pub fn join_path(base: &str, part: &str) -> (r: String)
    ensures
        r@ == joined(base@, part@),
{
    let pn = part.unicode_len();
    if pn > 0 && part.get_char(0) == '/' {
        return String::from_str(part);
    }
    let bn = base.unicode_len();
    let mut r = String::from_str(base);
    if bn > 0 && base.get_char(bn - 1) != '/' {
        r.append("/");
        proof { reveal_strlit("/"); }
    }
    r.append(part);
    r
}

pub fn join_colons(parts: &Vec<String>) -> (r: String)
    ensures
        r@ == colon_list(parts@.map_values(|s: String| s@)),
{
    let ghost v = parts@.map_values(|s: String| s@);
    let mut r = String::new();
    let mut i: usize = 0;
    while i < parts.len()
        invariant
            i <= parts@.len(),
            v == parts@.map_values(|s: String| s@),
            r@ == colon_list(v.take(i as int)),
        decreases parts@.len() - i,
    {
        assert(v.take(i + 1).drop_last() =~= v.take(i as int));
        if i > 0 {
            r.append(":");
            proof { reveal_strlit(":"); }
        } else {
            assert(r@ =~= seq![]);
        }
        r.append(parts[i].as_str());
        i = i + 1;
    }
    assert(v.take(parts@.len() as int) =~= v);
    r
}

} // verus!
