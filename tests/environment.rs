use devit::environ::{copy_table, overlay, prefix_value};
use devit::model::{ProjectDesc, ProjectEnvironment, ServiceEnvironment};
use devit::package::{dependency_name, is_pin, VersionSpec};
use devit::paths::{join_colons, join_path};
use devit::project::{
    dependency_environ, packages_to_install, parse_prefixes, text_lines, DependencyInfo,
    RenderedProject, RenderedService,
};
use devit::shell::{ignores_state_dir, rcfile, shell_script};
use devit::table::Table;

fn table(entries: &[(&str, &str)]) -> Table<String> {
    let mut t = Table::new();
    for (k, v) in entries {
        t.insert(k.to_string(), v.to_string());
    }
    t
}

fn get(t: &Table<String>, k: &str) -> Option<String> {
    t.get(k).cloned()
}

fn desc(deps: Vec<(&str, VersionSpec)>) -> ProjectDesc {
    let mut dependencies = Table::new();
    for (k, v) in deps {
        dependencies.insert(k.to_string(), v);
    }
    ProjectDesc {
        shell: None,
        dependencies,
        env: None,
        services: None,
        scripts: None,
        vars: None,
    }
}

fn project(environ: Table<String>, user: Table<String>) -> ProjectEnvironment {
    ProjectEnvironment {
        environ,
        user_environ: user,
        scripts: Table::new(),
        services: Table::new(),
        shell_hook: None,
        state_dir: "/p/.devit-state".to_string(),
    }
}

#[test]
fn bare_version_is_appended_to_trimmed_key() {
    let v = VersionSpec::VersionOnly(" 12 ".to_string());
    assert_eq!(v.to_brew_name(" postgresql "), "postgresql@12");
}

#[test]
fn wildcard_or_empty_version_gives_bare_key() {
    assert_eq!(VersionSpec::VersionOnly("*".to_string()).to_brew_name("postgresql"), "postgresql");
    assert_eq!(VersionSpec::VersionOnly(" * ".to_string()).to_brew_name(" redis"), "redis");
    assert_eq!(VersionSpec::VersionOnly("".to_string()).to_brew_name("postgresql"), "postgresql");
}

#[test]
fn full_spec_uses_its_name() {
    let full = |version: Option<&str>| VersionSpec::Full {
        name: " elastic/tap/elasticsearch-full ".to_string(),
        version: version.map(|s| s.to_string()),
    };
    assert_eq!(full(None).to_brew_name("elasticsearch"), "elastic/tap/elasticsearch-full");
    assert_eq!(full(Some("  ")).to_brew_name("elasticsearch"), "elastic/tap/elasticsearch-full");
    assert_eq!(full(Some(" 7 ")).to_brew_name("elasticsearch"), "elastic/tap/elasticsearch-full@7");
    assert_eq!(full(Some("*")).to_brew_name("elasticsearch"), "elastic/tap/elasticsearch-full@*");
}

#[test]
fn dependency_name_joins_with_at() {
    assert_eq!(dependency_name("node".to_string(), Some("18".to_string())), "node@18");
    assert_eq!(dependency_name("node".to_string(), None), "node");
    assert!(is_pin("3", true));
    assert!(!is_pin("*", true));
    assert!(is_pin("*", false));
    assert!(!is_pin("", false));
}

#[test]
fn prefixes_are_trimmed_lines() {
    let out = "  /opt/homebrew/opt/postgresql@12\n/opt/homebrew/opt/redis\r\n/opt/x \n\n";
    assert_eq!(
        parse_prefixes(out),
        vec!["/opt/homebrew/opt/postgresql@12", "/opt/homebrew/opt/redis", "/opt/x"]
    );
    assert!(parse_prefixes(" \n ").is_empty());
    assert_eq!(text_lines("a\n\nb"), vec!["a", "", "b"]);
    assert_eq!(text_lines("a\n"), vec!["a"]);
}

#[test]
fn paths_join_like_path_components() {
    assert_eq!(join_path("/opt/a", "bin"), "/opt/a/bin");
    assert_eq!(join_path("/opt/a/", "bin"), "/opt/a/bin");
    assert_eq!(join_path("", "bin"), "bin");
    assert_eq!(join_path("/opt/a", "/abs"), "/abs");
    assert_eq!(join_colons(&vec!["a".to_string(), "b".to_string(), "c".to_string()]), "a:b:c");
    assert_eq!(join_colons(&Vec::new()), "");
}

#[test]
fn dependencies_pair_with_prefixes_in_order() {
    let d = desc(vec![
        ("postgresql", VersionSpec::VersionOnly("12".to_string())),
        ("redis", VersionSpec::VersionOnly("*".to_string())),
        ("extra", VersionSpec::VersionOnly("".to_string())),
    ]);
    assert_eq!(d.brew_names(), vec!["postgresql@12", "redis", "extra"]);
    let pkgs = d.packages(&vec!["/opt/pg".to_string(), "/opt/redis".to_string()]);
    assert_eq!(pkgs.len(), 2);
    assert_eq!(pkgs.key_at(1), "redis");
    assert_eq!(pkgs.value_at(0).name, "postgresql@12");
    assert_eq!(pkgs.value_at(1).path, "/opt/redis");
    let missing = packages_to_install(&pkgs, &vec![false, true]);
    assert_eq!(missing, vec!["postgresql@12"]);
}

#[test]
fn dependency_variables() {
    let mut pkgs = Table::new();
    pkgs.insert("a".to_string(), DependencyInfo { name: "a".to_string(), path: "/opt/a".to_string() });
    pkgs.insert("b".to_string(), DependencyInfo { name: "b@2".to_string(), path: "/opt/b".to_string() });
    let env = dependency_environ(&vec!["/home/u/bin".to_string()], &pkgs);
    assert_eq!(env.len(), 4);
    assert_eq!(
        get(&env, "PATH").unwrap(),
        "/home/u/bin:/opt/a/bin:/opt/a/sbin:/opt/b/bin:/opt/b/sbin"
    );
    assert_eq!(get(&env, "LIBRARY_PATH").unwrap(), "/opt/a/lib:/opt/b/lib");
    assert_eq!(get(&env, "C_INCLUDE_PATH").unwrap(), "/opt/a/include:/opt/b/include");
    assert_eq!(get(&env, "CPLUS_INCLUDE_PATH").unwrap(), "/opt/a/include:/opt/b/include");
}

#[test]
fn no_dependencies_give_empty_paths() {
    let env = dependency_environ(&Vec::new(), &Table::new());
    assert_eq!(get(&env, "PATH").unwrap(), "");
    assert_eq!(get(&env, "LIBRARY_PATH").unwrap(), "");
}

#[test]
fn environment_is_assembled_from_rendered_parts() {
    let d = desc(vec![("pg", VersionSpec::VersionOnly("12".to_string()))]);
    let mut services = Table::new();
    services.insert(
        "web".to_string(),
        RenderedService { script: "serve".to_string(), environ: table(&[("PORT", "8000")]) },
    );
    let rendered = RenderedProject {
        user_paths: Vec::new(),
        environ: table(&[("DEBUG", "1")]),
        scripts: table(&[("test", "cargo test")]),
        services,
        shell_hook: Some("echo hi".to_string()),
    };
    let env = d.to_environment(&vec!["/opt/pg".to_string()], rendered, "/p/.devit-state".to_string());
    assert_eq!(get(&env.environ, "PATH").unwrap(), "/opt/pg/bin:/opt/pg/sbin");
    assert_eq!(get(&env.user_environ, "DEBUG").unwrap(), "1");
    assert_eq!(get(&env.scripts, "test").unwrap(), "cargo test");
    let web = env.services.get("web").unwrap();
    assert_eq!(web.working_directory, "/p/.devit-state/web");
    assert_eq!(web.script, "serve");
    assert_eq!(get(&web.environ, "PORT").unwrap(), "8000");
    assert_eq!(env.shell_hook.as_deref(), Some("echo hi"));
}

#[test]
fn search_paths_go_in_front_of_inherited_values() {
    let p = project(table(&[("PATH", "/opt/a/bin"), ("LIBRARY_PATH", "/opt/a/lib")]), table(&[("DEBUG", "1")]));
    let inherited = table(&[("PATH", "/usr/bin"), ("LIBRARY_PATH", "")]);
    let env = p.command_environment(&inherited, false);
    assert_eq!(get(&env, "PATH").unwrap(), "/opt/a/bin:/usr/bin");
    assert_eq!(get(&env, "LIBRARY_PATH").unwrap(), "/opt/a/lib");
    assert_eq!(get(&env, "DEBUG"), None);
    let with_user = p.command_environment(&inherited, true);
    assert_eq!(get(&with_user, "DEBUG").unwrap(), "1");
    assert_eq!(prefix_value("a", ""), "a");
    assert_eq!(prefix_value("a", "b"), "a:b");
}

#[test]
fn service_variables_take_precedence() {
    let mut p = project(table(&[("PATH", "/opt/a/bin"), ("MODE", "dev")]), Table::new());
    p.services.insert(
        "web".to_string(),
        ServiceEnvironment {
            script: "serve".to_string(),
            environ: table(&[("MODE", "web"), ("PORT", "80")]),
            working_directory: "/s/web".to_string(),
        },
    );
    let launch = p.launch("web", &Table::new()).unwrap();
    assert_eq!(launch.script, "serve");
    assert_eq!(launch.working_directory, "/s/web");
    assert_eq!(get(&launch.environ, "MODE").unwrap(), "web");
    assert_eq!(get(&launch.environ, "PORT").unwrap(), "80");
    assert_eq!(get(&launch.environ, "PATH").unwrap(), "/opt/a/bin");
    assert!(p.launch("db", &Table::new()).is_none());
}

#[test]
fn table_insert_replaces_in_place() {
    let mut t = table(&[("a", "1"), ("b", "2")]);
    t.insert("a".to_string(), "3".to_string());
    assert_eq!(t.len(), 2);
    assert_eq!(t.key_at(0), "a");
    assert_eq!(t.value_at(0), "3");
    assert_eq!(t.find("b"), Some(1));
    assert!(!t.contains_key("c"));
    let c = copy_table(&t);
    assert_eq!(get(&c, "b").unwrap(), "2");
    let o = overlay(&t, &table(&[("b", "9"), ("c", "4")]));
    assert_eq!(o.len(), 3);
    assert_eq!(get(&o, "a").unwrap(), "3");
    assert_eq!(get(&o, "b").unwrap(), "9");
    assert_eq!(get(&o, "c").unwrap(), "4");
}

#[test]
fn shell_texts() {
    assert_eq!(shell_script(&Some("source env".to_string()), "make"), "set -e\n source env\n make");
    assert_eq!(shell_script(&None, "make"), "set -e\n \n make");
    assert_eq!(rcfile("/tmp/rc", "echo hi"), "rm -f /tmp/rc\necho hi");
}

#[test]
fn gitignore_state_entry() {
    assert!(ignores_state_dir("target\n/.hb-state\n"));
    assert!(!ignores_state_dir("target\n"));
    assert!(!ignores_state_dir(""));
    assert!(!ignores_state_dir("/.hb-stat"));
}
