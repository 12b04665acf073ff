//! Notes: metadata, tags, search, listings and statistics.

use agentiso::config::VaultConfig;
use agentiso::mcp::vault::{
    add_tag, batch_entry, check_batch, check_components, check_move,
    delete_frontmatter, excluded, extract_tags, list_notes, parse_frontmatter, read_note, relative_path,
    remove_tag, resolve_path, search, search_replace, set_frontmatter, split_frontmatter, stats, target_of, write_note,
    BatchEntry, Found, NoteEntry, NoteFile, SearchResult, Target, VaultManager, VaultNote, Walked,
    WriteMode, MAX_WRITE_BYTES,
};
use agentiso::mcp::walk::{Found as Seen, Walk};
use agentiso::mcp::yaml::Yaml;
use std::collections::BTreeMap;

fn text(s: &str) -> Yaml {
    Yaml::Text(s.to_string())
}

/// The value of a text key of a mapping.
fn get<'a>(y: &'a Yaml, key: &str) -> Option<&'a Yaml> {
    match y {
        Yaml::Mapping(m) => m
            .iter()
            .find(|e| matches!(&e.key, Yaml::Text(k) if k == key))
            .map(|e| &e.value),
        _ => None,
    }
}

fn as_str(y: Option<&Yaml>) -> Option<&str> {
    match y {
        Some(Yaml::Text(s)) => Some(s.as_str()),
        _ => None,
    }
}

fn as_sequence(y: Option<&Yaml>) -> Option<&Vec<Yaml>> {
    match y {
        Some(Yaml::Sequence(s)) => Some(s),
        _ => None,
    }
}

fn test_config() -> VaultConfig {
    VaultConfig {
        enabled: true,
        path: "/vault".to_string(),
        extensions: vec!["md".to_string()],
        exclude_dirs: vec![
            ".obsidian".to_string(),
            ".trash".to_string(),
            ".git".to_string(),
        ],
    }
}

/// A vault that is kept in memory.
struct Vault {
    notes: BTreeMap<String, String>,
}

const HELLO: &str = "---\ntitle: Hello World\ntags:\n  - greeting\n  - example\n---\n# Hello\n\nThis is a #test note with #inline-tags.\n";

fn setup_vault() -> Vault {
    let mut notes = BTreeMap::new();
    notes.insert("hello.md".to_string(), HELLO.to_string());
    notes.insert(
        "notes/second.md".to_string(),
        "---\nauthor: alice\n---\nSome content here.\n".to_string(),
    );
    notes.insert(
        "notes/plain.md".to_string(),
        "No frontmatter here.\nJust plain text.\n".to_string(),
    );
    Vault { notes }
}

fn empty_vault() -> Vault {
    Vault {
        notes: BTreeMap::new(),
    }
}

impl Vault {
    fn content(&self, path: &str) -> Result<String, String> {
        self.notes
            .get(path)
            .cloned()
            .ok_or_else(|| format!("reading {}", path))
    }

    fn read_note(&self, path: &str) -> Result<VaultNote, String> {
        Ok(read_note(path.to_string(), self.content(path)?))
    }

    fn write_note(&mut self, path: &str, content: &str, mode: WriteMode) -> Result<(), String> {
        let new = write_note(&self.notes.get(path).cloned(), content, mode)?;
        self.notes.insert(path.to_string(), new);
        Ok(())
    }

    fn get_frontmatter(&self, path: &str) -> Result<Option<Yaml>, String> {
        Ok(parse_frontmatter(&self.content(path)?))
    }

    fn set_frontmatter(&mut self, path: &str, key: &str, value: Yaml) -> Result<(), String> {
        let new = set_frontmatter(&self.content(path)?, key, value)?;
        self.notes.insert(path.to_string(), new);
        Ok(())
    }

    fn delete_frontmatter(&mut self, path: &str, key: &str) -> Result<(), String> {
        if let Some(new) = delete_frontmatter(&self.content(path)?, key) {
            self.notes.insert(path.to_string(), new);
        }
        Ok(())
    }

    fn get_tags(&self, path: &str) -> Result<Vec<String>, String> {
        Ok(extract_tags(&self.content(path)?))
    }

    fn add_tag(&mut self, path: &str, tag: &str) -> Result<(), String> {
        let new = add_tag(&self.content(path)?, tag);
        self.notes.insert(path.to_string(), new);
        Ok(())
    }

    fn remove_tag(&mut self, path: &str, tag: &str) -> Result<(), String> {
        if let Some(new) = remove_tag(&self.content(path)?, tag) {
            self.notes.insert(path.to_string(), new);
        }
        Ok(())
    }

    fn search(
        &self,
        query: &str,
        is_regex: bool,
        prefix: Option<&str>,
        tag: Option<&str>,
        max: usize,
    ) -> Result<Vec<SearchResult>, String> {
        let files: Vec<NoteFile> = self
            .notes
            .iter()
            .filter(|(p, _)| prefix.map(|x| p.starts_with(x)).unwrap_or(true))
            .map(|(p, c)| NoteFile {
                path: p.clone(),
                content: c.clone(),
            })
            .collect();
        search(&files, query, is_regex, &tag.map(|t| t.to_string()), max)
    }

    fn search_replace(
        &mut self,
        path: &str,
        old: &str,
        new: &str,
        is_regex: bool,
    ) -> Result<usize, String> {
        let (content, count) = search_replace(&self.content(path)?, old, new, is_regex)?;
        if count > 0 {
            self.notes.insert(path.to_string(), content);
        }
        Ok(count)
    }

    fn batch_read(
        &self,
        paths: &Vec<String>,
        include_content: bool,
        include_frontmatter: bool,
    ) -> Result<Vec<BatchEntry>, String> {
        check_batch(paths)?;
        Ok(paths
            .iter()
            .map(|p| batch_entry(p, self.read_note(p), include_content, include_frontmatter))
            .collect())
    }
}

fn found_file(path: &str, size: u64) -> Found {
    Found {
        path: path.to_string(),
        name: path.rsplit('/').next().map(|s| s.to_string()),
        extension: path.rsplit('.').next().map(|s| s.to_string()),
        is_dir: false,
        size: Some(size),
    }
}

fn found_dir(path: &str) -> Found {
    Found {
        path: path.to_string(),
        name: path.rsplit('/').next().map(|s| s.to_string()),
        extension: None,
        is_dir: true,
        size: Some(4096),
    }
}

fn walked_file(path: &str, size: u64, modified: i128) -> Walked {
    Walked {
        path: path.to_string(),
        extension: path.rsplit('.').next().map(|s| s.to_string()),
        is_dir: false,
        meta: Some((size, modified)),
    }
}

fn walked_dir(path: &str) -> Walked {
    Walked {
        path: path.to_string(),
        extension: None,
        is_dir: true,
        meta: None,
    }
}

fn paths(entries: &[NoteEntry]) -> Vec<&str> {
    entries.iter().map(|e| e.path.as_str()).collect()
}

/// The components of an absolute path.
fn parts(path: &str) -> Vec<String> {
    let mut v = vec!["/".to_string()];
    v.extend(
        path.split('/')
            .filter(|c| !c.is_empty())
            .map(|c| c.to_string()),
    );
    v
}

#[test]
fn test_resolve_path_rejects_traversal() {
    let err = check_components("../etc/passwd");
    assert!(err.is_err());
    assert!(err.unwrap_err().contains("path traversal"));
    assert!(check_components("hello.md").is_ok());
    assert!(check_components("notes/second.md").is_ok());
    assert!(check_components("notes/..second.md").is_ok());
    assert!(check_components("notes/..").is_err());
}

#[test]
fn test_scoped_resolve_path_blocks_escape() {
    assert!(check_components("../../other-team/secret.md").is_err());
    let base = parts("/vault/alpha");
    let at = |p: &str| Target::Existing(Ok(parts(p)));
    assert_eq!(
        resolve_path("a.md", Ok(base.clone()), at("/vault/alpha/a.md")).unwrap(),
        parts("/vault/alpha/a.md")
    );
    assert_eq!(
        resolve_path("link", Ok(base), at("/vault/alpha2")).unwrap_err(),
        "resolved path /vault/alpha2 is outside vault base /vault/alpha"
    );
}

#[test]
fn test_scoped_vault_cannot_escape_via_traversal() {
    assert!(check_components("../../root-secret.md").is_err());
    assert!(check_components("../beta/secret.md").is_err());
}

#[test]
fn test_resolve_path_normal() {
    let target = Target::Existing(Ok(parts("/vault/hello.md")));
    let resolved = resolve_path("hello.md", Ok(parts("/vault")), target).unwrap();
    assert_eq!(resolved.last().unwrap(), "hello.md");
    assert!(resolved.starts_with(&parts("/vault")));
}

#[test]
fn test_resolve_path_subdirectory() {
    let target = Target::Existing(Ok(parts("/vault/notes/second.md")));
    let resolved = resolve_path("notes/second.md", Ok(parts("/vault")), target).unwrap();
    assert_eq!(resolved, parts("/vault/notes/second.md"));
}

#[test]
fn paths_that_do_not_exist_yet() {
    let base = || Ok(parts("/real"));
    let new_in = |parent: &str, name: Option<&str>, leads_to: Option<&str>| Target::InParent {
        parent: Ok(parts(parent)),
        name: name.map(|n| n.to_string()),
        leads_to: leads_to.map(parts),
    };
    let fresh = |joined: &str, leads_to: Option<&str>| Target::Fresh {
        base: parts("/vault"),
        joined: parts(joined),
        leads_to: leads_to.map(parts),
    };
    let in_notes = new_in("/real/notes", Some("new.md"), Some("/real/notes/new.md"));
    assert_eq!(
        resolve_path("notes/new.md", base(), in_notes).unwrap(),
        parts("/real/notes/new.md")
    );
    assert_eq!(
        resolve_path("a/b/c.md", base(), fresh("/vault/a/b/c.md", Some("/real/a/b/c.md"))).unwrap(),
        parts("/real/a/b/c.md")
    );
    assert_eq!(
        resolve_path("/etc/x/y", base(), fresh("/etc/x/y", Some("/etc/x/y"))).unwrap_err(),
        "resolved path /etc/x/y is outside vault base /real"
    );
    // A link inside the vault leads out of it.
    assert_eq!(
        resolve_path(
            "link/new/note.md",
            base(),
            fresh("/vault/link/new/note.md", Some("/out/new/note.md"))
        )
        .unwrap_err(),
        "resolved path /out/new/note.md is outside vault base /real"
    );
    // A link to what does not exist: outside, inside, and nowhere.
    assert_eq!(
        resolve_path("link", base(), new_in("/real", Some("link"), Some("/out/x"))).unwrap_err(),
        "resolved path /out/x is outside vault base /real"
    );
    assert_eq!(
        resolve_path("link", base(), new_in("/real", Some("link"), Some("/real/x"))).unwrap(),
        parts("/real/link")
    );
    assert_eq!(
        resolve_path("link", base(), new_in("/real", Some("link"), None)).unwrap(),
        parts("/real/link")
    );
    assert_eq!(
        resolve_path("/", base(), Target::NoParent).unwrap_err(),
        "path has no parent"
    );
    assert_eq!(
        resolve_path("x", base(), new_in("/real", None, None)).unwrap_err(),
        "path has no file name"
    );
    assert_eq!(
        resolve_path("x", Err("gone".to_string()), fresh("/vault/x", None)).unwrap_err(),
        "gone"
    );
}

/// What a disk holds: a link if it is given where it leads to, else a file or a
/// directory.
type Disk = BTreeMap<&'static str, Option<&'static str>>;

fn disk(entries: &[(&'static str, Option<&'static str>)]) -> Disk {
    entries.iter().cloned().collect()
}

/// The components of a path, absolute or not.
fn link_parts(path: &str) -> Vec<String> {
    let own = path.split('/').filter(|c| !c.is_empty());
    let root = if path.starts_with('/') {
        vec!["/".to_string()]
    } else {
        vec![]
    };
    root.into_iter().chain(own.map(|c| c.to_string())).collect()
}

/// Resolve a path of a vault at `/vault` on a disk.
fn resolve_on(disk: &Disk, path: &str) -> Result<Vec<String>, String> {
    let joined = if path.starts_with('/') {
        parts(path)
    } else {
        parts(&format!("/vault/{}", path))
    };
    let mut walk = Walk::new(joined.clone());
    while let Some(place) = walk.asks() {
        let shown = format!("/{}", place[1..].join("/"));
        let found = match disk.get(shown.as_str()) {
            None => Seen::Nothing,
            Some(None) => Seen::Place,
            Some(Some(to)) => Seen::Link(link_parts(to)),
        };
        walk = walk.step(found);
    }
    let target = target_of(walk, parts("/vault"), joined).expect("the walk has ended");
    resolve_path(path, Ok(parts("/vault")), target)
}

#[test]
fn links_are_followed() {
    let d = disk(&[
        ("/vault", None),
        ("/vault/a.md", None),
        ("/vault/notes", None),
        ("/vault/inner", Some("notes")),
        ("/vault/outer", Some("/out")),
        ("/vault/back", Some("notes/../a.md")),
        ("/vault/soon", Some("notes/soon.md")),
        ("/vault/gone", Some("../out/gone.md")),
        ("/vault/chain", Some("gone")),
        ("/vault/loop", Some("loop")),
        ("/out", None),
    ]);
    let ok = |path: &str, expected: &str| {
        assert_eq!(resolve_on(&d, path).unwrap(), parts(expected), "{}", path);
    };
    let refused = |path: &str, place: &str| {
        assert_eq!(
            resolve_on(&d, path).unwrap_err(),
            format!("resolved path {} is outside vault base /vault", place)
        );
    };
    ok("a.md", "/vault/a.md");
    ok("back", "/vault/a.md");
    ok("inner", "/vault/notes");
    ok("inner/new.md", "/vault/notes/new.md");
    ok("inner/x/new.md", "/vault/inner/x/new.md");
    ok("x/y/new.md", "/vault/x/y/new.md");
    ok("soon", "/vault/soon");
    ok("loop", "/vault/loop");
    ok("/vault/a.md", "/vault/a.md");
    refused("outer", "/out");
    refused("outer/new.md", "/out/new.md");
    refused("outer/x/new.md", "/out/x/new.md");
    refused("gone", "/out/gone.md");
    refused("chain", "/out/gone.md");
    refused("/out/x", "/out/x");
    assert!(resolve_on(&d, "notes/../a.md").is_err());
}

#[test]
fn relative_paths_are_below_the_base() {
    let base = vec!["/".to_string(), "vault".to_string()];
    let path = vec![
        "/".to_string(),
        "vault".to_string(),
        "notes".to_string(),
        "a.md".to_string(),
    ];
    assert_eq!(relative_path(&base, &path, "/vault/notes/a.md"), "notes/a.md");
    let other = vec!["/".to_string(), "tmp".to_string()];
    assert_eq!(relative_path(&base, &other, "/tmp"), "/tmp");
}

#[test]
fn test_read_note_with_frontmatter() {
    let vm = setup_vault();
    let note = vm.read_note("hello.md").unwrap();
    assert_eq!(note.path, "hello.md");
    assert!(note.frontmatter.is_some());
    let fm = note.frontmatter.unwrap();
    assert_eq!(as_str(get(&fm, "title")), Some("Hello World"));
}

#[test]
fn test_read_note_without_frontmatter() {
    let vm = setup_vault();
    let note = vm.read_note("notes/plain.md").unwrap();
    assert!(note.frontmatter.is_none());
    assert!(note.content.contains("No frontmatter here."));
}

#[test]
fn test_write_note_overwrite() {
    let mut vm = setup_vault();
    vm.write_note("new.md", "# New Note\n", WriteMode::Overwrite)
        .unwrap();
    let note = vm.read_note("new.md").unwrap();
    assert_eq!(note.content, "# New Note\n");
}

#[test]
fn test_write_note_append() {
    let mut vm = setup_vault();
    vm.write_note("notes/plain.md", "\nAppended.\n", WriteMode::Append)
        .unwrap();
    let note = vm.read_note("notes/plain.md").unwrap();
    assert!(note.content.ends_with("Appended.\n"));
    assert!(note.content.starts_with("No frontmatter here."));
}

#[test]
fn test_write_note_prepend() {
    let mut vm = setup_vault();
    vm.write_note("notes/plain.md", "Prepended!\n", WriteMode::Prepend)
        .unwrap();
    let note = vm.read_note("notes/plain.md").unwrap();
    assert!(note.content.starts_with("Prepended!"));
    assert!(note.content.ends_with("Just plain text.\n"));
}

#[test]
fn test_get_frontmatter() {
    let vm = setup_vault();
    let fm = vm.get_frontmatter("hello.md").unwrap();
    assert!(fm.is_some());
    let fm = fm.unwrap();
    assert_eq!(as_str(get(&fm, "title")), Some("Hello World"));
}

#[test]
fn test_set_frontmatter() {
    let mut vm = setup_vault();
    vm.set_frontmatter("notes/second.md", "status", text("draft"))
        .unwrap();

    let fm = vm.get_frontmatter("notes/second.md").unwrap().unwrap();
    assert_eq!(as_str(get(&fm, "status")), Some("draft"));
    assert_eq!(as_str(get(&fm, "author")), Some("alice"));
    assert_eq!(
        vm.content("notes/second.md").unwrap(),
        "---\nauthor: alice\nstatus: draft\n---\nSome content here.\n"
    );
}

#[test]
fn test_set_frontmatter_creates_if_absent() {
    let mut vm = setup_vault();
    vm.set_frontmatter("notes/plain.md", "category", text("misc"))
        .unwrap();

    let fm = vm.get_frontmatter("notes/plain.md").unwrap().unwrap();
    assert_eq!(as_str(get(&fm, "category")), Some("misc"));

    let note = vm.read_note("notes/plain.md").unwrap();
    assert!(note.content.contains("No frontmatter here."));
}

#[test]
fn setting_a_key_of_a_scalar_is_refused() {
    let err = set_frontmatter("---\njust text\n---\nbody", "k", text("v")).unwrap_err();
    assert_eq!(err, "frontmatter is not a YAML mapping");
}

#[test]
fn test_delete_frontmatter() {
    let mut vm = setup_vault();
    vm.delete_frontmatter("notes/second.md", "author").unwrap();

    let fm = vm.get_frontmatter("notes/second.md").unwrap();
    assert!(fm.is_none());
    assert_eq!(vm.content("notes/second.md").unwrap(), "Some content here.\n");
}

#[test]
fn deleting_a_key_moves_the_last_one_into_its_place() {
    let new = delete_frontmatter("---\na: 1\nb: 2\nc: 3\n---\nbody\n", "a").unwrap();
    assert_eq!(new, "---\nc: 3\nb: 2\n---\nbody\n");
    assert!(delete_frontmatter("no frontmatter", "a").is_none());
}

#[test]
fn test_get_tags() {
    let vm = setup_vault();
    let tags = vm.get_tags("hello.md").unwrap();
    assert!(tags.contains(&"greeting".to_string()));
    assert!(tags.contains(&"example".to_string()));
    assert!(tags.contains(&"test".to_string()));
    assert!(tags.contains(&"inline-tags".to_string()));
    assert_eq!(tags, vec!["greeting", "example", "test", "inline-tags"]);
}

#[test]
fn test_add_tag() {
    let mut vm = setup_vault();
    vm.add_tag("hello.md", "new-tag").unwrap();
    let tags = vm.get_tags("hello.md").unwrap();
    assert!(tags.contains(&"new-tag".to_string()));
    assert!(tags.contains(&"greeting".to_string()));
}

#[test]
fn tags_are_created_where_there_are_none() {
    assert_eq!(add_tag("body\n", "x"), "---\ntags:\n- x\n---\nbody\n");
    assert_eq!(
        add_tag("---\na: 1\n---\nbody\n", "x"),
        "---\na: 1\ntags:\n- x\n---\nbody\n"
    );
    assert_eq!(
        add_tag("---\ntags: word\n---\nbody\n", "x"),
        "---\ntags: word\n---\nbody\n"
    );
}

#[test]
fn test_add_tag_idempotent() {
    let mut vm = setup_vault();
    vm.add_tag("hello.md", "greeting").unwrap();
    let fm = vm.get_frontmatter("hello.md").unwrap().unwrap();
    let tags = as_sequence(get(&fm, "tags")).unwrap();
    let count = tags
        .iter()
        .filter(|v| as_str(Some(v)) == Some("greeting"))
        .count();
    assert_eq!(count, 1);
}

#[test]
fn test_remove_tag() {
    let mut vm = setup_vault();
    vm.remove_tag("hello.md", "example").unwrap();
    let fm = vm.get_frontmatter("hello.md").unwrap().unwrap();
    let tags = as_sequence(get(&fm, "tags")).unwrap();
    assert!(!tags.iter().any(|v| as_str(Some(v)) == Some("example")));
    assert!(tags.iter().any(|v| as_str(Some(v)) == Some("greeting")));
    assert!(remove_tag("no frontmatter", "x").is_none());
}

#[test]
fn test_search_plain_text() {
    let vm = setup_vault();
    let results = vm.search("plain text", false, None, None, 10).unwrap();
    assert!(!results.is_empty());
    assert_eq!(results[0].path, "notes/plain.md");
    assert_eq!(results[0].line_number, 2);
    assert_eq!(results[0].line, "Just plain text.");
    assert_eq!(results[0].context, "No frontmatter here.\nJust plain text.");
}

#[test]
fn test_search_regex() {
    let vm = setup_vault();
    let results = vm.search(r"#\s+Hello", true, None, None, 10).unwrap();
    assert!(!results.is_empty());
    assert_eq!(results[0].path, "hello.md");
}

#[test]
fn a_bad_pattern_is_refused() {
    let vm = setup_vault();
    let err = vm.search("(", true, None, None, 10).unwrap_err();
    assert!(err.starts_with("invalid regex pattern: "));
    let err = search_replace("x", "(", "y", true).unwrap_err();
    assert!(err.starts_with("invalid regex pattern: "));
}

#[test]
fn test_search_with_path_prefix() {
    let vm = setup_vault();
    let results = vm
        .search("content", false, Some("notes"), None, 10)
        .unwrap();
    for r in &results {
        assert!(r.path.starts_with("notes/"));
    }
    assert!(!results.is_empty());
}

#[test]
fn test_search_with_tag_filter() {
    let vm = setup_vault();
    let results = vm
        .search("note", false, None, Some("greeting"), 10)
        .unwrap();
    assert!(!results.is_empty());
    assert!(results.iter().all(|r| r.path == "hello.md"));
}

#[test]
fn test_search_max_results() {
    let vm = setup_vault();
    let results = vm.search("e", false, None, None, 1).unwrap();
    assert_eq!(results.len(), 1);
    let all = vm.search("e", false, None, None, 0).unwrap();
    assert!(all.len() > 1);
}

#[test]
fn context_has_two_lines_on_each_side() {
    let files = vec![NoteFile {
        path: "n.md".to_string(),
        content: "1\n2\n3\nhit\n5\n6\n7\n".to_string(),
    }];
    let results = search(&files, "hit", false, &None, 10).unwrap();
    assert_eq!(results[0].context, "2\n3\nhit\n5\n6");
    assert_eq!(results[0].line_number, 4);
}

#[test]
fn test_list_notes_root() {
    let found = vec![
        found_dir("notes"),
        found_dir(".obsidian"),
        found_file("hello.md", 10),
        found_file("config.json", 2),
    ];
    let entries = list_notes(&test_config(), &found);
    let paths = paths(&entries);
    assert!(paths.contains(&"hello.md"));
    assert!(paths.contains(&"notes"));
    assert!(!paths.iter().any(|p| p.contains(".obsidian")));
    assert_eq!(paths, vec!["hello.md", "notes"]);
}

#[test]
fn test_list_notes_recursive() {
    let found = vec![
        found_dir("notes"),
        found_file("notes/second.md", 3),
        found_file("notes/plain.md", 4),
        found_file("hello.md", 5),
    ];
    let entries = list_notes(&test_config(), &found);
    let paths = paths(&entries);
    assert!(paths.contains(&"hello.md"));
    assert!(paths.iter().any(|p| p.contains("notes/second.md")));
    assert!(paths.iter().any(|p| p.contains("notes/plain.md")));
    assert_eq!(
        paths,
        vec!["hello.md", "notes", "notes/plain.md", "notes/second.md"]
    );
}

#[test]
fn test_list_notes_subdirectory() {
    let found = vec![found_file("notes/second.md", 3), found_file("notes/plain.md", 4)];
    let entries = list_notes(&test_config(), &found);
    assert_eq!(entries.len(), 2);
    assert!(entries.iter().all(|e| e.path.starts_with("notes/")));
}

#[test]
fn test_note_entry_size() {
    let found = vec![found_file("notes/second.md", 3), found_file("notes/plain.md", 4)];
    for entry in list_notes(&test_config(), &found) {
        assert!(!entry.is_dir);
        assert!(entry.size.is_some());
        assert!(entry.size.unwrap() > 0);
    }
    let dirs = list_notes(&test_config(), &vec![found_dir("notes")]);
    assert!(dirs[0].is_dir);
    assert!(dirs[0].size.is_none());
}

#[test]
fn test_search_replace_plain() {
    let mut vm = setup_vault();
    let count = vm
        .search_replace("notes/plain.md", "plain text", "PLAIN TEXT", false)
        .unwrap();
    assert_eq!(count, 1);
    let note = vm.read_note("notes/plain.md").unwrap();
    assert!(note.content.contains("PLAIN TEXT"));
    assert!(!note.content.contains("plain text"));
}

#[test]
fn test_search_replace_regex() {
    let mut vm = setup_vault();
    let count = vm
        .search_replace("notes/plain.md", r"(\w+) text", "replaced_$1", true)
        .unwrap();
    assert!(count >= 1);
    let note = vm.read_note("notes/plain.md").unwrap();
    assert!(note.content.contains("replaced_plain"));
}

#[test]
fn test_search_replace_no_match() {
    let mut vm = setup_vault();
    let count = vm
        .search_replace("notes/plain.md", "nonexistent", "replacement", false)
        .unwrap();
    assert_eq!(count, 0);
}

#[test]
fn an_empty_search_matches_around_each_character() {
    let (new, count) = search_replace("ab", "", "-", false).unwrap();
    assert_eq!(new, "ab".replace("", "-"));
    assert_eq!(new, "-a-b-");
    assert_eq!(count, "ab".matches("").count());
}

#[test]
fn occurrences_do_not_overlap() {
    let (new, count) = search_replace("aaaa.aaa", "aa", "b", false).unwrap();
    assert_eq!(new, "bb.ba");
    assert_eq!(count, 3);
}

#[test]
fn test_frontmatter_roundtrip() {
    let mut vm = setup_vault();
    vm.write_note("roundtrip.md", "Body text here.\n", WriteMode::Overwrite)
        .unwrap();

    vm.set_frontmatter("roundtrip.md", "title", text("Test"))
        .unwrap();

    let note = vm.read_note("roundtrip.md").unwrap();
    assert!(note.content.contains("---\n"));
    assert!(note.content.contains("Body text here."));
    assert!(note.frontmatter.is_some());
}

#[test]
fn frontmatter_ends_at_the_first_fence() {
    let (fm, body) = split_frontmatter("---\na: 1\n---\nx\n---\ny\n");
    assert!(fm.is_some());
    assert_eq!(body, "x\n---\ny\n");
    let (fm, body) = split_frontmatter("---\r\na: 1\n---\r\nbody");
    assert!(fm.is_some());
    assert_eq!(body, "body");
    let (fm, body) = split_frontmatter("---\na: 1\n---");
    assert!(fm.is_some());
    assert_eq!(body, "");
    let (fm, body) = split_frontmatter("---\na: 1\n");
    assert!(fm.is_none());
    assert_eq!(body, "---\na: 1\n");
    let (fm, body) = split_frontmatter("---\na: [\n---\nbody");
    assert!(fm.is_none());
    assert_eq!(body, "body");
}

#[test]
fn yaml_values_survive_a_rewrite() {
    let note = "---\nn: null\nb: true\ni: -3\nf: 1.5\nlist:\n- 1\n- two\nmap:\n  k: v\nt: !Thing x\n---\nbody\n";
    let new = set_frontmatter(note, "i", Yaml::Number("4".to_string())).unwrap();
    assert_eq!(new, note.replace("i: -3", "i: 4"));
}

#[test]
fn test_extract_tags_inline_only() {
    let content = "# My Note\n\nThis has #rust and #async tags.\n";
    let tags = extract_tags(content);
    assert!(tags.contains(&"rust".to_string()));
    assert!(tags.contains(&"async".to_string()));
    assert_eq!(tags.len(), 2);
}

#[test]
fn test_extract_tags_skips_code_blocks() {
    let content = "# My Note\n\n```\n#not-a-tag\n```\n\n#real-tag\n";
    let tags = extract_tags(content);
    assert!(!tags.contains(&"not-a-tag".to_string()));
    assert!(tags.contains(&"real-tag".to_string()));
}

#[test]
fn tags_never_repeat() {
    assert_eq!(
        extract_tags("---\ntags: [a, b, a]\n---\n#b #c #c\n"),
        vec!["a", "b", "c"]
    );
}

#[test]
fn test_new_disabled_returns_none() {
    let cfg = VaultConfig {
        enabled: false,
        path: "/tmp".to_string(),
        extensions: vec![],
        exclude_dirs: vec![],
    };
    assert!(VaultManager::new(cfg, true).is_none());
}

#[test]
fn test_new_nonexistent_path_returns_none() {
    let cfg = VaultConfig {
        enabled: true,
        path: "/nonexistent/vault/path".to_string(),
        extensions: vec![],
        exclude_dirs: vec![],
    };
    assert!(VaultManager::new(cfg, false).is_none());
}

#[test]
fn a_manager_knows_its_scope() {
    let vm = VaultManager::with_scope(test_config(), "teams/alpha", true).unwrap();
    assert_eq!(vm.root(), "/vault");
    assert_eq!(vm.scope(), Some("teams/alpha"));
    let vm = VaultManager::new(test_config(), true).unwrap();
    assert_eq!(vm.scope(), None);
    assert_eq!(vm.config().extensions, vec!["md"]);
}

#[test]
fn test_write_note_at_size_limit() {
    let mut vm = setup_vault();
    let content = "x".repeat(MAX_WRITE_BYTES);
    vm.write_note("big.md", &content, WriteMode::Overwrite)
        .unwrap();
    assert_eq!(vm.content("big.md").unwrap().len(), MAX_WRITE_BYTES);
}

#[test]
fn test_write_note_over_size_limit() {
    let mut vm = setup_vault();
    let content = "x".repeat(MAX_WRITE_BYTES + 1);
    let err = vm.write_note("toobig.md", &content, WriteMode::Overwrite);
    assert!(err.is_err());
    let msg = err.unwrap_err();
    assert!(msg.contains("exceeds maximum write size"));
    assert_eq!(
        msg,
        "content size 10485761 bytes exceeds maximum write size of 10485760 bytes (10 MiB)"
    );
}

#[test]
fn test_move_note_rejects_nonexistent_source() {
    let err = check_move("nonexistent.md", "dest.md", false, false, false);
    assert!(err.is_err());
    assert!(err.unwrap_err().contains("does not exist"));
}

#[test]
fn test_move_note_rejects_overwrite_without_flag() {
    let err = check_move("hello.md", "notes/second.md", true, true, false);
    assert!(err.is_err());
    assert!(err.unwrap_err().contains("already exists"));
}

#[test]
fn test_move_note_overwrite_allowed() {
    assert!(check_move("hello.md", "notes/second.md", true, true, true).is_ok());
    assert!(check_move("hello.md", "new.md", true, false, false).is_ok());
}

#[test]
fn test_batch_read_all_success() {
    let vm = setup_vault();
    let results = vm
        .batch_read(
            &vec!["hello.md".to_string(), "notes/plain.md".to_string()],
            true,
            true,
        )
        .unwrap();
    assert_eq!(results.len(), 2);
    assert!(results[0].error.is_none());
    assert!(results[1].error.is_none());
    assert!(results[0].content.as_ref().unwrap().contains("Hello"));
    assert!(results[1].content.as_ref().unwrap().contains("No frontmatter"));
}

#[test]
fn test_batch_read_partial_failure() {
    let vm = setup_vault();
    let results = vm
        .batch_read(
            &vec!["hello.md".to_string(), "nonexistent.md".to_string()],
            true,
            true,
        )
        .unwrap();
    assert_eq!(results.len(), 2);
    assert!(results[0].error.is_none());
    assert!(results[1].error.is_some());
    assert_eq!(results[1].path, "nonexistent.md");
}

#[test]
fn test_batch_read_exceeds_max_paths() {
    let vm = setup_vault();
    let paths: Vec<String> = (0..11).map(|i| format!("note{}.md", i)).collect();
    let err = vm.batch_read(&paths, true, true);
    assert!(err.is_err());
    let message = err.err().unwrap();
    assert!(message.contains("at most 10"));
    assert_eq!(message, "batch_read accepts at most 10 paths, got 11");
}

#[test]
fn test_batch_read_exclude_content() {
    let vm = setup_vault();
    let results = vm
        .batch_read(&vec!["hello.md".to_string()], false, true)
        .unwrap();
    assert_eq!(results.len(), 1);
    assert!(results[0].content.is_none());
    assert!(results[0].frontmatter.is_some());
}

#[test]
fn test_batch_read_exclude_frontmatter() {
    let vm = setup_vault();
    let results = vm
        .batch_read(&vec!["hello.md".to_string()], true, false)
        .unwrap();
    assert_eq!(results.len(), 1);
    assert!(results[0].content.is_some());
    assert!(results[0].frontmatter.is_none());
}

fn sample_walk() -> Vec<Walked> {
    vec![
        walked_file("hello.md", 10, 300),
        walked_dir("notes"),
        walked_file("notes/second.md", 20, 100),
        walked_file("notes/plain.md", 30, 200),
        walked_file("notes/data.json", 40, 400),
    ]
}

#[test]
fn test_stats_basic() {
    let stats = stats(&test_config(), &sample_walk(), 10);
    assert_eq!(stats.total_notes, 3);
    assert_eq!(stats.total_folders, 1);
    assert_eq!(stats.total_size_bytes, 60);
    assert_eq!(stats.recent_files.len(), 3);
    let order: Vec<&str> = stats.recent_files.iter().map(|f| f.path.as_str()).collect();
    assert_eq!(order, vec!["hello.md", "notes/plain.md", "notes/second.md"]);
}

#[test]
fn test_stats_recent_count_limit() {
    let stats = stats(&test_config(), &sample_walk(), 1);
    assert_eq!(stats.recent_files.len(), 1);
}

#[test]
fn test_stats_empty_vault() {
    let stats = stats(&test_config(), &vec![], 10);
    assert_eq!(stats.total_notes, 0);
    assert_eq!(stats.total_folders, 0);
    assert_eq!(stats.total_size_bytes, 0);
    assert_eq!(stats.recent_files.len(), 0);
}

#[test]
fn test_task_board_create_and_read_frontmatter() {
    let mut vm = empty_vault();
    let task_content = "---\nstatus: pending\nowner: null\npriority: high\ndepends_on: []\ncreated_at: \"2026-02-19T22:00:00Z\"\n---\n# Implement feature X\n\nDetailed description here.\n";
    vm.write_note("tasks/task-001.md", task_content, WriteMode::Overwrite)
        .unwrap();

    let note = vm.read_note("tasks/task-001.md").unwrap();
    assert!(note.content.contains("Implement feature X"));

    let fm = note.frontmatter.as_ref().expect("frontmatter should be present");
    assert_eq!(as_str(get(fm, "status")), Some("pending"));
    assert_eq!(as_str(get(fm, "priority")), Some("high"));
    assert!(get(fm, "owner").is_some(), "owner key should exist");
    assert!(matches!(get(fm, "owner"), Some(Yaml::Null)), "owner should be null");

    let deps = as_sequence(get(fm, "depends_on"));
    assert!(deps.is_some(), "depends_on should be a sequence");
    assert!(deps.unwrap().is_empty(), "depends_on should be empty");

    assert_eq!(as_str(get(fm, "created_at")), Some("2026-02-19T22:00:00Z"));
}

#[test]
fn test_task_board_claim_via_frontmatter_update() {
    let mut vm = empty_vault();
    let task = "---\nstatus: pending\nowner: null\n---\n# Task 1\n";
    vm.write_note("tasks/task-001.md", task, WriteMode::Overwrite)
        .unwrap();

    vm.set_frontmatter("tasks/task-001.md", "owner", text("agent-coder"))
        .unwrap();
    vm.set_frontmatter("tasks/task-001.md", "status", text("in_progress"))
        .unwrap();

    let note = vm.read_note("tasks/task-001.md").unwrap();
    let fm = note.frontmatter.as_ref().expect("frontmatter should be present");
    assert_eq!(as_str(get(fm, "owner")), Some("agent-coder"));
    assert_eq!(as_str(get(fm, "status")), Some("in_progress"));
    assert!(note.content.contains("# Task 1"));
}

#[test]
fn test_task_board_list_pending_tasks() {
    let mut vm = empty_vault();
    let tasks = vec![
        ("task-001.md", "pending"),
        ("task-002.md", "in_progress"),
        ("task-003.md", "pending"),
        ("task-004.md", "completed"),
        ("task-005.md", "pending"),
    ];
    for (name, status) in &tasks {
        let content = format!("---\nstatus: {}\nowner: null\n---\n# {}\n", status, name);
        vm.write_note(&format!("tasks/{}", name), &content, WriteMode::Overwrite)
            .unwrap();
    }

    let results = vm
        .search("status: pending", false, Some("tasks"), None, 100)
        .unwrap();
    assert_eq!(results.len(), 3);
}

#[test]
fn test_task_board_dependency_frontmatter() {
    let mut vm = empty_vault();
    vm.write_note(
        "tasks/task-a.md",
        "---\nstatus: completed\ndepends_on: []\n---\n# Task A\n",
        WriteMode::Overwrite,
    )
    .unwrap();
    vm.write_note(
        "tasks/task-b.md",
        "---\nstatus: pending\ndepends_on:\n  - task-a\n---\n# Task B\n",
        WriteMode::Overwrite,
    )
    .unwrap();

    vm.write_note(
        "tasks/task-c.md",
        "---\nstatus: pending\ndepends_on:\n  - task-b\n---\n# Task C\n",
        WriteMode::Overwrite,
    )
    .unwrap();

    let note_b = vm.read_note("tasks/task-b.md").unwrap();
    let fm_b = note_b.frontmatter.as_ref().unwrap();
    let deps = as_sequence(get(fm_b, "depends_on")).unwrap();
    assert_eq!(deps.len(), 1);
    assert_eq!(as_str(deps.first()), Some("task-a"));

    let note_c = vm.read_note("tasks/task-c.md").unwrap();
    let fm_c = note_c.frontmatter.as_ref().unwrap();
    let deps_c = as_sequence(get(fm_c, "depends_on")).unwrap();
    assert_eq!(deps_c.len(), 1);
    assert_eq!(as_str(deps_c.first()), Some("task-b"));

    let note_a = vm.read_note("tasks/task-a.md").unwrap();
    let fm_a = note_a.frontmatter.as_ref().unwrap();
    assert!(as_sequence(get(fm_a, "depends_on")).unwrap().is_empty());
}

#[test]
fn test_message_write_and_read() {
    let mut vm = empty_vault();
    let message = "---\nfrom: researcher\nto: coder\ntimestamp: \"2026-02-19T22:00:00Z\"\ntype: direct\n---\n# Message\n\nFound a bug in module X. Can you investigate?\n";
    vm.write_note("messages/001-researcher-to-coder.md", message, WriteMode::Overwrite)
        .unwrap();

    let note = vm.read_note("messages/001-researcher-to-coder.md").unwrap();
    assert!(note.content.contains("Found a bug"));
    let fm = note.frontmatter.as_ref().expect("message should have frontmatter");
    assert_eq!(as_str(get(fm, "from")), Some("researcher"));
    assert_eq!(as_str(get(fm, "to")), Some("coder"));
    assert_eq!(as_str(get(fm, "type")), Some("direct"));
    assert_eq!(as_str(get(fm, "timestamp")), Some("2026-02-19T22:00:00Z"));
}

#[test]
fn test_message_inbox_filtering() {
    let mut vm = empty_vault();
    let messages = vec![
        (
            "messages/001-a-to-coder.md",
            "---\nfrom: a\nto: coder\n---\nMsg 1\n",
        ),
        (
            "messages/002-b-to-tester.md",
            "---\nfrom: b\nto: tester\n---\nMsg 2\n",
        ),
        (
            "messages/003-c-to-coder.md",
            "---\nfrom: c\nto: coder\n---\nMsg 3\n",
        ),
        (
            "messages/004-d-to-all.md",
            "---\nfrom: d\nto: all\n---\nBroadcast\n",
        ),
    ];
    for (path, content) in &messages {
        vm.write_note(path, content, WriteMode::Overwrite).unwrap();
    }

    let results = vm
        .search("to: coder", false, Some("messages"), None, 100)
        .unwrap();
    let coder_msgs: Vec<_> = results
        .iter()
        .filter(|r| r.path.contains("messages/"))
        .collect();
    assert!(coder_msgs.len() >= 2);
    assert!(!coder_msgs.iter().any(|r| r.path.contains("002-b-to-tester")));
}

/// A value of JSON, read from its text.
fn json(text: &str) -> serde_json::Value {
    serde_json::from_str(text).unwrap()
}

#[test]
fn test_search_excludes_obsidian_dir() {
    let mut vm = setup_vault();
    let config = test_config();
    assert!(excluded(&config, &Some(".obsidian".to_string())));
    assert!(!excluded(&config, &Some("notes".to_string())));
    vm.notes
        .insert(".obsidian/config.json".to_string(), "{}".to_string());
    // The walk does not enter excluded directories.
    vm.notes.retain(|path, _| {
        !path
            .split('/')
            .any(|part| excluded(&config, &Some(part.to_string())))
    });
    let results = vm.search("{}", false, None, None, 100).unwrap();
    assert!(results.iter().all(|r| !r.path.contains(".obsidian")));
}

#[test]
fn test_agent_card_write_and_read() {
    let mut vm = empty_vault();
    let card = json(
        r#"{
            "name": "researcher",
            "role": "Research and code analysis",
            "skills": ["web_search", "code_analysis", "summarization"],
            "workspace_id": "abc-12345",
            "ip": "10.99.0.5",
            "status": "ready",
            "team": "alpha"
        }"#,
    );
    vm.write_note(
        "cards/researcher.json",
        &serde_json::to_string_pretty(&card).unwrap(),
        WriteMode::Overwrite,
    )
    .unwrap();

    let note = vm.read_note("cards/researcher.json").unwrap();
    let parsed = json(&note.content);
    assert_eq!(parsed["name"], "researcher");
    assert_eq!(parsed["skills"].as_array().unwrap().len(), 3);
    assert_eq!(parsed["status"], "ready");
}

#[test]
fn test_agent_card_status_update_atomic() {
    let mut vm = empty_vault();
    let card = json(r#"{"name": "worker", "status": "ready", "current_task": null}"#);
    vm.write_note(
        "cards/worker.json",
        &serde_json::to_string_pretty(&card).unwrap(),
        WriteMode::Overwrite,
    )
    .unwrap();

    let note = vm.read_note("cards/worker.json").unwrap();
    let mut card = json(&note.content);
    card["status"] = serde_json::Value::from("working");
    card["current_task"] = serde_json::Value::from("task-42");
    vm.write_note(
        "cards/worker.json",
        &serde_json::to_string_pretty(&card).unwrap(),
        WriteMode::Overwrite,
    )
    .unwrap();

    let updated = vm.read_note("cards/worker.json").unwrap();
    let parsed = json(&updated.content);
    assert_eq!(parsed["status"], "working");
    assert_eq!(parsed["current_task"], "task-42");
}

#[test]
fn cards_are_found_by_skill() {
    let mut vm = empty_vault();
    let cards = vec![
        ("coder", vec!["rust", "python"]),
        ("tester", vec!["testing", "python"]),
        ("analyst", vec!["analysis", "rust"]),
    ];
    for (name, skills) in &cards {
        let mut card = serde_json::Map::new();
        card.insert("name".to_string(), serde_json::Value::from(*name));
        card.insert("skills".to_string(), serde_json::Value::from(skills.clone()));
        vm.write_note(
            &format!("cards/{}.json", name),
            &serde_json::to_string(&card).unwrap(),
            WriteMode::Overwrite,
        )
        .unwrap();
    }

    let results = vm
        .search("rust", false, Some("cards"), None, 100)
        .unwrap();
    let rust_agents: Vec<_> = results
        .iter()
        .filter(|r| r.path.contains("cards/") && r.line.contains("rust"))
        .collect();
    let paths: Vec<&str> = rust_agents.iter().map(|r| r.path.as_str()).collect();
    assert_eq!(paths, vec!["cards/analyst.json", "cards/coder.json"]);
}

#[test]
fn threads_keep_their_order() {
    let mut vm = empty_vault();
    vm.write_note(
        "threads/bug-42.md",
        "---\ntopic: \"Bug #42\"\n---\n# Bug #42 Discussion\n",
        WriteMode::Overwrite,
    )
    .unwrap();
    for entry in [
        "\n## researcher (22:01)\nI found the root cause.\n",
        "\n## coder (22:05)\nFix pushed to branch.\n",
        "\n## tester (22:10)\nIt works now.\n",
    ] {
        vm.write_note("threads/bug-42.md", entry, WriteMode::Append)
            .unwrap();
    }

    let note = vm.read_note("threads/bug-42.md").unwrap();
    let fm = note.frontmatter.as_ref().expect("thread should have frontmatter");
    assert_eq!(as_str(get(fm, "topic")), Some("Bug #42"));
    let first = note.content.find("root cause").unwrap();
    let second = note.content.find("Fix pushed").unwrap();
    let third = note.content.find("It works now").unwrap();
    assert!(first < second && second < third);
}
