use vstd::prelude::*;
use crate::environ::{copy_table, text_map};
use crate::model::{ProjectDesc, ProjectEnvironment, ServiceEnvironment};
use crate::output::split_lines;
use crate::package::{trim_of, trimmed};
use crate::paths::{colon_list, join_colons, join_path, joined};
use crate::selection::names_of;
use crate::table::Table;

verus! {

/// A dependency as installed: its package name and where it lives.
#[derive(Debug, Clone)]
pub struct DependencyInfo {
    pub name: String,
    pub path: String,
}

/// A line without the carriage return that ended it, if any.
pub open spec fn strip_cr(l: Seq<char>) -> Seq<char> {
    if l.len() > 0 && l.last() == '\r' {
        l.drop_last()
    } else {
        l
    }
}

/// The lines of the package manager's prefix listing, surrounding whitespace
/// removed.
pub open spec fn prefix_lines(output: Seq<char>) -> Seq<Seq<char>> {
    split_lines(trim_of(output), seq![]).map_values(|l: Seq<char>| strip_cr(l))
}

fn strip_cr_text(l: &str) -> (r: String)
    ensures
        r@ == strip_cr(l@),
{
    let n = l.unicode_len();
    if n > 0 && l.get_char(n - 1) == '\r' {
        String::from_str(l.substring_char(0, n - 1))
    } else {
        String::from_str(l)
    }
}

/// Splits already trimmed text into lines.
pub fn text_lines(t: &str) -> (r: Vec<String>)
    ensures
        names_of(r@) == split_lines(t@, seq![]).map_values(|l: Seq<char>| strip_cr(l)),
{
    let n = t.unicode_len();
    let ghost s = t@;
    let mut out: Vec<String> = Vec::new();
    let ghost mut raw: Seq<Seq<char>> = seq![];
    let mut start: usize = 0;
    let mut i: usize = 0;
    assert(s.skip(0) =~= s);
    assert(s.subrange(0, 0) =~= seq![]);
    assert(raw + split_lines(s, seq![]) =~= split_lines(s, seq![]));
    while i < n
        invariant
            n == s.len(),
            s == t@,
            start <= i <= n,
            split_lines(s, seq![]) == raw + split_lines(s.skip(i as int), s.subrange(start as int, i as int)),
            names_of(out@) == raw.map_values(|l: Seq<char>| strip_cr(l)),
        decreases n - i,
    {
        let c = t.get_char(i);
        let ghost rest = s.skip(i as int);
        assert(rest[0] == c);
        assert(rest.skip(1) =~= s.skip(i + 1));
        if c == '\n' {
            let ghost cur = s.subrange(start as int, i as int);
            assert(split_lines(rest, cur) == seq![cur] + split_lines(s.skip(i + 1), seq![]));
            let piece = t.substring_char(start, i);
            let line = strip_cr_text(piece);
            let ghost old_out = out@;
            let ghost old_raw = raw;
            proof {
                raw = raw.push(cur);
            }
            out.push(line);
            assert(names_of(out@) =~= names_of(old_out).push(strip_cr(cur)));
            assert(raw.map_values(|l: Seq<char>| strip_cr(l)) =~= old_raw.map_values(
                |l: Seq<char>| strip_cr(l),
            ).push(strip_cr(cur)));
            assert(s.subrange(i + 1, i + 1) =~= seq![]);
            assert(old_raw + (seq![cur] + split_lines(s.skip(i + 1), seq![])) =~= raw + split_lines(
                s.skip(i + 1),
                seq![],
            ));
            start = i + 1;
        } else {
            assert(s.subrange(start as int, i as int).push(c) =~= s.subrange(start as int, i + 1));
        }
        i = i + 1;
    }
    assert(s.skip(n as int) =~= seq![]);
    if start < n {
        let ghost cur = s.subrange(start as int, n as int);
        let line = strip_cr_text(t.substring_char(start, n));
        let ghost old_out = out@;
        let ghost old_raw = raw;
        proof {
            raw = raw.push(cur);
        }
        out.push(line);
        assert(names_of(out@) =~= names_of(old_out).push(strip_cr(cur)));
        assert(raw.map_values(|l: Seq<char>| strip_cr(l)) =~= old_raw.map_values(
            |l: Seq<char>| strip_cr(l),
        ).push(strip_cr(cur)));
        assert(old_raw + seq![cur] =~= raw);
    } else {
        assert(s.subrange(start as int, n as int) =~= seq![]);
        assert(raw + seq![] =~= raw);
    }
    out
}

/// The install prefixes listed in the package manager's output, one per line.
pub fn parse_prefixes(output: &str) -> (r: Vec<String>)
    ensures
        names_of(r@) == prefix_lines(output@),
{
    let t = trimmed(output);
    text_lines(t.as_str())
}

} // verus!

verus! {

/// The package names of the dependencies the listed presence flags mark as
/// absent, in order.
pub open spec fn missing(pkgs: Seq<(Seq<char>, DependencyInfo)>, present: Seq<bool>) -> Seq<Seq<char>>
    decreases pkgs.len(),
{
    if pkgs.len() == 0 {
        seq![]
    } else {
        let m = missing(pkgs.drop_last(), present);
        if present[pkgs.len() - 1] {
            m
        } else {
            m.push(pkgs.last().1.name@)
        }
    }
}

/// The install prefixes of the dependencies, in order.
pub open spec fn pkg_paths(pkgs: Seq<(Seq<char>, DependencyInfo)>) -> Seq<Seq<char>> {
    pkgs.map_values(|e: (Seq<char>, DependencyInfo)| e.1.path@)
}

/// The `bin` and `sbin` directories under each prefix, in order.
pub open spec fn bin_dirs(paths: Seq<Seq<char>>) -> Seq<Seq<char>>
    decreases paths.len(),
{
    if paths.len() == 0 {
        seq![]
    } else {
        bin_dirs(paths.drop_last()) + seq![joined(paths.last(), "bin"@), joined(paths.last(), "sbin"@)]
    }
}

/// The directory `sub` under each prefix, in order.
pub open spec fn sub_dirs(paths: Seq<Seq<char>>, sub: Seq<char>) -> Seq<Seq<char>> {
    paths.map_values(|p: Seq<char>| joined(p, sub))
}

/// The variables that make the dependencies visible: the executable search
/// path (the user's own entries first), the library path and the two header
/// paths.
pub open spec fn dependency_vars(user_paths: Seq<Seq<char>>, paths: Seq<Seq<char>>) -> Map<
    Seq<char>,
    Seq<char>,
> {
    map![
        "PATH"@ => colon_list(user_paths + bin_dirs(paths)),
        "LIBRARY_PATH"@ => colon_list(sub_dirs(paths, "lib"@)),
        "C_INCLUDE_PATH"@ => colon_list(sub_dirs(paths, "include"@)),
        "CPLUS_INCLUDE_PATH"@ => colon_list(sub_dirs(paths, "include"@)),
    ]
}

/// The package names of the dependencies that are not present, where
/// `present` tells for each dependency, in order, whether its prefix exists.
pub fn packages_to_install(pkgs: &Table<DependencyInfo>, present: &Vec<bool>) -> (r: Vec<String>)
    requires
        present@.len() == pkgs@.len(),
    ensures
        names_of(r@) == missing(pkgs@, present@),
{
    let mut out: Vec<String> = Vec::new();
    let mut i: usize = 0;
    while i < pkgs.len()
        invariant
            i <= pkgs@.len(),
            present@.len() == pkgs@.len(),
            names_of(out@) == missing(pkgs@.take(i as int), present@),
        decreases pkgs@.len() - i,
    {
        assert(pkgs@.take(i + 1).drop_last() =~= pkgs@.take(i as int));
        if !present[i] {
            let ghost before = out@;
            out.push(pkgs.value_at(i).name.clone());
            assert(names_of(out@) =~= names_of(before).push(pkgs@[i as int].1.name@));
        }
        i = i + 1;
    }
    assert(pkgs@.take(pkgs@.len() as int) =~= pkgs@);
    out
}

fn sub_paths(pkgs: &Table<DependencyInfo>, sub: &str) -> (r: Vec<String>)
    ensures
        names_of(r@) == sub_dirs(pkg_paths(pkgs@), sub@),
{
    let ghost paths = pkg_paths(pkgs@);
    let mut out: Vec<String> = Vec::new();
    let mut i: usize = 0;
    while i < pkgs.len()
        invariant
            i <= pkgs@.len(),
            paths == pkg_paths(pkgs@),
            names_of(out@) =~= sub_dirs(paths.take(i as int), sub@),
        decreases pkgs@.len() - i,
    {
        let d = join_path(pkgs.value_at(i).path.as_str(), sub);
        let ghost before = out@;
        out.push(d);
        assert(paths[i as int] == pkgs@[i as int].1.path@);
        assert(names_of(out@) =~= names_of(before).push(d@));
        assert(sub_dirs(paths.take(i + 1), sub@) =~= sub_dirs(paths.take(i as int), sub@).push(
            joined(paths[i as int], sub@),
        ));
        i = i + 1;
    }
    assert(paths.take(pkgs@.len() as int) =~= paths);
    out
}

/// The variables that make the dependencies in `pkgs` visible, with the
/// user's own search-path entries first.
pub fn dependency_environ(user_paths: &Vec<String>, pkgs: &Table<DependencyInfo>) -> (r: Table<
    String,
>)
    ensures
        r.wf(),
        text_map(r) == dependency_vars(names_of(user_paths@), pkg_paths(pkgs@)),
{
    let ghost paths = pkg_paths(pkgs@);
    let ghost user = names_of(user_paths@);
    let mut search: Vec<String> = Vec::new();
    let mut i: usize = 0;
    while i < user_paths.len()
        invariant
            i <= user_paths@.len(),
            user == names_of(user_paths@),
            names_of(search@) =~= user.take(i as int),
        decreases user_paths@.len() - i,
    {
        let ghost before = search@;
        search.push(user_paths[i].clone());
        assert(names_of(search@) =~= names_of(before).push(user[i as int]));
        assert(user.take(i + 1) =~= user.take(i as int).push(user[i as int]));
        i = i + 1;
    }
    assert(user.take(user_paths@.len() as int) =~= user);
    proof { reveal_strlit("bin"); reveal_strlit("sbin"); }
    let mut i: usize = 0;
    while i < pkgs.len()
        invariant
            i <= pkgs@.len(),
            paths == pkg_paths(pkgs@),
            names_of(search@) =~= user + bin_dirs(paths.take(i as int)),
        decreases pkgs@.len() - i,
    {
        assert(paths.take(i + 1).drop_last() =~= paths.take(i as int));
        let p = &pkgs.value_at(i).path;
        let ghost before = search@;
        let b = join_path(p.as_str(), "bin");
        let sb = join_path(p.as_str(), "sbin");
        search.push(b);
        search.push(sb);
        assert(paths[i as int] == p@);
        assert(paths.take(i + 1).last() == p@);
        assert(names_of(search@) =~= names_of(before) + seq![b@, sb@]);
        assert(user + bin_dirs(paths.take(i + 1)) =~= (user + bin_dirs(paths.take(i as int))) + seq![
            b@,
            sb@,
        ]);
        i = i + 1;
    }
    assert(paths.take(pkgs@.len() as int) =~= paths);
    let path = join_colons(&search);
    let lib = join_colons(&sub_paths(pkgs, "lib"));
    let headers = join_colons(&sub_paths(pkgs, "include"));
    let mut r: Table<String> = Table::new();
    proof {
        reveal_strlit("PATH");
        reveal_strlit("LIBRARY_PATH");
        reveal_strlit("C_INCLUDE_PATH");
        reveal_strlit("CPLUS_INCLUDE_PATH");
    }
    r.insert(String::from_str("PATH"), path);
    r.insert(String::from_str("LIBRARY_PATH"), lib);
    r.insert(String::from_str("C_INCLUDE_PATH"), headers.clone());
    r.insert(String::from_str("CPLUS_INCLUDE_PATH"), headers);
    let ghost want = dependency_vars(user, paths);
    assert forall|k: Seq<char>| #[trigger] text_map(r).contains_key(k) <==> want.contains_key(k) by {}
    assert(text_map(r) =~= want);
    r
}

} // verus!

verus! {

/// A service with its templates rendered.
#[derive(Debug, Clone)]
pub struct RenderedService {
    pub script: String,
    pub environ: Table<String>,
}

/// The parts of a project description that are templates, rendered.
#[derive(Debug, Clone)]
pub struct RenderedProject {
    pub user_paths: Vec<String>,
    pub environ: Table<String>,
    pub scripts: Table<String>,
    pub services: Table<RenderedService>,
    pub shell_hook: Option<String>,
}

/// How many entries two lists have in common when paired in order.
pub open spec fn paired(n: int, m: int) -> int {
    if n < m {
        n
    } else {
        m
    }
}

impl RenderedProject {
    pub open spec fn wf(&self) -> bool {
        &&& self.environ.wf()
        &&& self.scripts.wf()
        &&& self.services.wf()
        &&& forall|i: int|
            0 <= i < self.services@.len() ==> (#[trigger] self.services@[i]).1.environ.wf()
    }
}

impl ProjectDesc {
    /// The package manager's names of the dependencies, in order.
    pub fn brew_names(&self) -> (r: Vec<String>)
        ensures
            r@.len() == self.dependencies@.len(),
            forall|i: int|
                0 <= i < r@.len() ==> (#[trigger] r@[i])@ == self.dependencies@[i].1.brew_name(
                    self.dependencies@[i].0,
                ),
    {
        let deps = &self.dependencies;
        let mut out: Vec<String> = Vec::new();
        let mut i: usize = 0;
        while i < deps.len()
            invariant
                deps == &self.dependencies,
                i <= deps@.len(),
                out@.len() == i,
                forall|j: int| 0 <= j < i ==> (#[trigger] out@[j])@ == deps@[j].1.brew_name(deps@[j].0),
            decreases deps@.len() - i,
        {
            let name = deps.value_at(i).to_brew_name(deps.key_at(i).as_str());
            out.push(name);
            i = i + 1;
        }
        out
    }

    /// Each dependency, keyed as in the description, with its package name and
    /// the prefix listed for it; the two lists are paired in order, as far as
    /// both go.
    pub fn packages(&self, prefixes: &Vec<String>) -> (r: Table<DependencyInfo>)
        requires
            self.dependencies.wf(),
        ensures
            r.wf(),
            r@.len() == paired(self.dependencies@.len() as int, prefixes@.len() as int),
            forall|i: int|
                0 <= i < r@.len() ==> {
                    &&& (#[trigger] r@[i]).0 == self.dependencies@[i].0
                    &&& r@[i].1.name@ == self.dependencies@[i].1.brew_name(self.dependencies@[i].0)
                    &&& r@[i].1.path@ == prefixes@[i]@
                },
    {
        let deps = &self.dependencies;
        let mut r: Table<DependencyInfo> = Table::new();
        let mut i: usize = 0;
        while i < deps.len() && i < prefixes.len()
            invariant
                deps == &self.dependencies,
                deps.wf(),
                r.wf(),
                i <= deps@.len(),
                i <= prefixes@.len(),
                r@.len() == i,
                r.keys() =~= deps.keys().take(i as int),
                forall|j: int|
                    0 <= j < i ==> {
                        &&& (#[trigger] r@[j]).0 == deps@[j].0
                        &&& r@[j].1.name@ == deps@[j].1.brew_name(deps@[j].0)
                        &&& r@[j].1.path@ == prefixes@[j]@
                    },
            decreases deps@.len() - i,
        {
            let key = deps.key_at(i).clone();
            let name = deps.value_at(i).to_brew_name(key.as_str());
            let info = DependencyInfo { name, path: prefixes[i].clone() };
            assert(!r.contains(key@)) by {
                if r.contains(key@) {
                    let j = choose|j: int| 0 <= j < r.keys().len() && r.keys()[j] == key@;
                    assert(deps.keys()[j] == deps.keys()[i as int]);
                }
            }
            r.insert(key, info);
            assert(r.keys() =~= deps.keys().take(i + 1));
            i = i + 1;
        }
        r
    }

    /// The project's environment, given the prefixes listed for its
    /// dependencies, its rendered templates and its state directory: each
    /// service works in the directory named after it under the state
    /// directory.
    pub fn to_environment(&self, prefixes: &Vec<String>, rendered: RenderedProject, state_dir: String) -> (r:
        ProjectEnvironment)
        requires
            self.dependencies.wf(),
            rendered.wf(),
        ensures
            r.wf(),
            text_map(r.environ) == dependency_vars(
                names_of(rendered.user_paths@),
                names_of(prefixes@).take(paired(self.dependencies@.len() as int, prefixes@.len() as int)),
            ),
            r.user_environ == rendered.environ,
            r.scripts == rendered.scripts,
            r.shell_hook == rendered.shell_hook,
            r.state_dir == state_dir,
            r.services.keys() == rendered.services.keys(),
            forall|i: int|
                0 <= i < r.services@.len() ==> {
                    &&& (#[trigger] r.services@[i]).1.script == rendered.services@[i].1.script
                    &&& text_map(r.services@[i].1.environ) == text_map(
                        rendered.services@[i].1.environ,
                    )
                    &&& r.services@[i].1.working_directory@ == joined(
                        state_dir@,
                        rendered.services@[i].0,
                    )
                },
    {
        let pkgs = self.packages(prefixes);
        let environ = dependency_environ(&rendered.user_paths, &pkgs);
        assert(pkg_paths(pkgs@) =~= names_of(prefixes@).take(pkgs@.len() as int));
        let src = &rendered.services;
        let mut services: Table<ServiceEnvironment> = Table::new();
        let mut i: usize = 0;
        while i < src.len()
            invariant
                src == &rendered.services,
                rendered.wf(),
                services.wf(),
                i <= src@.len(),
                services@.len() == i,
                services.keys() =~= src.keys().take(i as int),
                forall|j: int| 0 <= j < i ==> (#[trigger] services@[j]).1.wf(),
                forall|j: int|
                    0 <= j < i ==> {
                        &&& (#[trigger] services@[j]).1.script == src@[j].1.script
                        &&& text_map(services@[j].1.environ) == text_map(src@[j].1.environ)
                        &&& services@[j].1.working_directory@ == joined(state_dir@, src@[j].0)
                    },
            decreases src@.len() - i,
        {
            let key = src.key_at(i).clone();
            let s = src.value_at(i);
            assert(s.environ.wf());
            let service = ServiceEnvironment {
                script: s.script.clone(),
                environ: copy_table(&s.environ),
                working_directory: join_path(state_dir.as_str(), key.as_str()),
            };
            assert(!services.contains(key@)) by {
                if services.contains(key@) {
                    let j = choose|j: int| 0 <= j < services.keys().len() && services.keys()[j] == key@;
                    assert(src.keys()[j] == src.keys()[i as int]);
                }
            }
            services.insert(key, service);
            assert(services.keys() =~= src.keys().take(i + 1));
            i = i + 1;
        }
        assert(src.keys().take(src@.len() as int) =~= src.keys());
        ProjectEnvironment {
            environ,
            user_environ: rendered.environ,
            scripts: rendered.scripts,
            services,
            shell_hook: rendered.shell_hook,
            state_dir,
        }
    }
}

} // verus!
