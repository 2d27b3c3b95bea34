use vstd::prelude::*;

verus! {

/// What `str::trim` makes of a text: it is a function of the characters alone.
pub uninterp spec fn trim_of(s: Seq<char>) -> Seq<char>;

/// Relies on `str::trim`: leading and trailing whitespace removed.
#[verifier::external_body]
pub(crate) fn trimmed(s: &str) -> (r: String)
    ensures
        r@ == trim_of(s@),
{
    s.trim().to_string()
}

/// A version request counts as a pin when it is not empty, and, where a
/// wildcard is understood, not the wildcard `*` either.
pub open spec fn pins(version: Seq<char>, wildcard: bool) -> bool {
    version.len() > 0 && !(wildcard && version == seq!['*'])
}

/// `name@version` for a pinned version, the bare name otherwise.
pub open spec fn dependency_name_spec(name: Seq<char>, version: Option<Seq<char>>) -> Seq<char> {
    match version {
        Some(v) => name + seq!['@'] + v,
        None => name,
    }
}

/// Whether a (trimmed) version request pins a version.
pub fn is_pin(version: &str, wildcard: bool) -> (r: bool)
    ensures
        r == pins(version@, wildcard),
{
    let n = version.unicode_len();
    if n == 0 {
        false
    } else if wildcard && n == 1 && version.get_char(0) == '*' {
        assert(version@ =~= seq!['*']);
        false
    } else {
        true
    }
}

/// The package manager's name for a (trimmed) base name and pinned version.
pub fn dependency_name(name: String, version: Option<String>) -> (r: String)
    ensures
        r@ == dependency_name_spec(name@, match version { Some(v) => Some(v@), None => None }),
{
    match version {
        Some(v) => {
            let mut r = name;
            r.append("@");
            proof { reveal_strlit("@"); }
            r.append(v.as_str());
            r
        },
        None => name,
    }
}

/// How a dependency asks for a version: a bare version text keyed by the
/// package name, or a full package name with an optional version.
#[derive(Debug, Clone)]
pub enum VersionSpec {
    VersionOnly(String),
    Full { name: String, version: Option<String> },
}

impl VersionSpec {
    /// The package manager's name for this dependency under `key`.
    pub open spec fn brew_name(&self, key: Seq<char>) -> Seq<char> {
        match self {
            VersionSpec::VersionOnly(s) => {
                let v = trim_of(s@);
                dependency_name_spec(trim_of(key), if pins(v, true) { Some(v) } else { None })
            },
            VersionSpec::Full { name, version } => {
                let pin = match version {
                    Some(v) => if pins(trim_of(v@), false) { Some(trim_of(v@)) } else { None },
                    None => None,
                };
                dependency_name_spec(trim_of(name@), pin)
            },
        }
    }

    pub fn to_brew_name(&self, key: &str) -> (r: String)
        ensures
            r@ == self.brew_name(key@),
    {
        match self {
            VersionSpec::VersionOnly(s) => {
                let v = trimmed(s.as_str());
                let base = trimmed(key);
                if is_pin(v.as_str(), true) {
                    dependency_name(base, Some(v))
                } else {
                    dependency_name(base, None)
                }
            },
            VersionSpec::Full { name, version } => {
                let base = trimmed(name.as_str());
                match version {
                    Some(v) => {
                        let t = trimmed(v.as_str());
                        if is_pin(t.as_str(), false) {
                            dependency_name(base, Some(t))
                        } else {
                            dependency_name(base, None)
                        }
                    },
                    None => dependency_name(base, None),
                }
            },
        }
    }
}

} // verus!
