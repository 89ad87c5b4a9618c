//! Unit tests of the pure query-engine functions, on synthetic data.

use explorer::authors::tally_authors;
use explorer::backend::{CommitRecord, LineAttribution};
use explorer::blame::{build_blame, file_name_of, split_lines};
use explorer::file_content::{encode_content, get_image_mime_type, get_image_type, path_extension};
use explorer::file_types::get_file_type;
use explorer::graph::{build_history_graph, commit_index_of, render_graph_text};
use explorer::range::{pick_in_time_range, resolve_time_range};
use explorer::tree::{tree_events, CustomValue, TreeItem};
use explorer::{get_author_id, gravatar_hash};

fn record(oid: &str, name: &str, email: &str, ts: i64, msg: &str, parents: &[&str]) -> CommitRecord {
    CommitRecord {
        oid: oid.to_string(),
        author_name: Some(name.to_string()),
        author_email: Some(email.to_string()),
        timestamp: ts,
        message: Some(msg.to_string()),
        parents: parents.iter().map(|p| p.to_string()).collect(),
        tree_oid: String::new(),
    }
}

#[test]
fn author_id_is_deterministic() {
    let a1 = get_author_id(&"Ada".to_string(), &"ada@example.com".to_string());
    let a2 = get_author_id(&"Ada".to_string(), &"ada@example.com".to_string());
    assert_eq!(a1, a2);
}

#[test]
fn author_id_distinguishes_pairs() {
    let ids = vec![
        get_author_id(&"Ada".to_string(), &"ada@example.com".to_string()),
        get_author_id(&"Ada".to_string(), &"other@example.com".to_string()),
        get_author_id(&"Grace".to_string(), &"ada@example.com".to_string()),
        get_author_id(&"".to_string(), &"".to_string()),
    ];
    for i in 0..ids.len() {
        for j in 0..ids.len() {
            if i != j {
                assert_ne!(ids[i], ids[j]);
            }
        }
    }
}

#[test]
fn gravatar_hash_trims_and_lowers() {
    let ours = gravatar_hash("  Ada@Example.COM ");
    let expected = format!("{:x}", md5::compute("ada@example.com"));
    assert_eq!(ours, expected);
    assert_eq!(ours.len(), 32);
    // the fold follows Unicode, not just ASCII
    let ours = gravatar_hash(" \u{00C4}da@Example.com ");
    let expected = format!(
        "{:x}",
        md5::compute(" \u{00C4}da@Example.com ".trim().to_lowercase())
    );
    assert_eq!(ours, expected);
}

#[test]
fn file_types_match_in_order() {
    assert_eq!(get_file_type("main.rs"), 0);
    assert_eq!(get_file_type("script.py"), 15);
    assert_eq!(get_file_type("Cargo.toml"), 5);
    assert_eq!(get_file_type("no_extension"), u32::MAX);
    assert_eq!(get_file_type("weird.xyz"), u32::MAX);
}

#[test]
fn split_lines_matches_reader_semantics() {
    let bytes: Vec<u8> = b"alpha\nbeta\r\ngamma".to_vec();
    let lines = split_lines(&bytes);
    assert_eq!(lines.len(), 3);
    assert_eq!(lines[0], b"alpha".to_vec());
    assert_eq!(lines[1], b"beta".to_vec());
    assert_eq!(lines[2], b"gamma".to_vec());

    let trailing: Vec<u8> = b"one\ntwo\n".to_vec();
    let lines = split_lines(&trailing);
    assert_eq!(lines.len(), 2);
    assert_eq!(lines[1], b"two".to_vec());

    let empty: Vec<u8> = Vec::new();
    assert_eq!(split_lines(&empty).len(), 0);
}

#[test]
fn file_name_takes_last_segment() {
    assert_eq!(file_name_of("src/deep/mod.rs"), "mod.rs");
    assert_eq!(file_name_of("plain.txt"), "plain.txt");
}

#[test]
fn extensions_resolve() {
    assert_eq!(path_extension("a/b.rs"), Some("rs".to_string()));
    assert_eq!(path_extension("a/.hidden"), None);
    assert_eq!(path_extension("noext"), None);
    assert!(get_image_type("png").is_some());
    assert!(get_image_type("txt").is_none());
    let t = get_image_type("jpeg").unwrap();
    assert_eq!(get_image_mime_type(&t), "image/jpeg");
}

#[test]
fn content_encoding_tags() {
    let bytes: Vec<u8> = vec![1, 2, 3, 250];
    let res = encode_content(&bytes, "pic.png");
    assert_eq!(res.encoding, "base64-url");
    let expected = base64::Engine::encode(&base64::engine::general_purpose::STANDARD, &bytes);
    assert_eq!(res.content, format!("data:image/png;base64,{}", expected));

    let text: Vec<u8> = b"hello".to_vec();
    let res = encode_content(&text, "notes.txt");
    assert_eq!(res.encoding, "utf-8");
    assert_eq!(res.content, "hello");
}

#[test]
fn time_range_bounds() {
    let items: Vec<(String, i64)> = vec![
        ("b".to_string(), 300),
        ("a".to_string(), 200),
        ("r".to_string(), 100),
    ];
    // both bounds inside the walk
    let (since, until) = resolve_time_range(&items, 200, 300);
    assert_eq!(since, Some("a".to_string()));
    assert_eq!(until, Some("b".to_string()));
    // nothing older than the start: fall back to the oldest commit
    let (since, until) = resolve_time_range(&items, 50, 250);
    assert_eq!(since, Some("r".to_string()));
    assert_eq!(until, Some("a".to_string()));
    // nothing at or below the end
    let (_, until) = resolve_time_range(&items, 50, 10);
    assert_eq!(until, None);
    // empty walk
    let empty: Vec<(String, i64)> = Vec::new();
    assert_eq!(resolve_time_range(&empty, 0, 0), (None, None));
}

#[test]
fn pick_first_in_range() {
    let items: Vec<(String, i64)> = vec![
        ("b".to_string(), 300),
        ("a".to_string(), 200),
        ("r".to_string(), 100),
    ];
    assert_eq!(pick_in_time_range(&items, 150, 250), Some("a".to_string()));
    assert_eq!(pick_in_time_range(&items, 400, 500), None);
}

#[test]
fn graph_builds_linear_history() {
    // newest first: b -> a -> r
    let records = vec![
        record("b", "Ada", "ada@example.com", 300, "third", &["a"]),
        record("a", "Ada", "ada@example.com", 200, "second", &["r"]),
        record("r", "Grace", "grace@example.com", 100, "first", &[]),
    ];
    let stash: Vec<String> = Vec::new();
    let tips = vec![("main".to_string(), "b".to_string())];
    let g = build_history_graph(&records, &stash, &tips).unwrap();
    assert_eq!(g.commits.len(), 3);
    assert_eq!(g.commit_indices.len(), 3);
    for (i, (oid, pos)) in g.commit_indices.iter().enumerate() {
        assert_eq!(*pos, i);
        assert_eq!(*oid, g.commits[i].oid);
    }
    let b = commit_index_of(&g, "b").unwrap();
    let a = commit_index_of(&g, "a").unwrap();
    let r = commit_index_of(&g, "r").unwrap();
    assert_eq!(g.commits[b].parents, vec!["a".to_string()]);
    assert_eq!(g.commits[a].children, vec!["b".to_string()]);
    assert_eq!(g.commits[r].children, vec!["a".to_string()]);
    assert!(g.commits[b].children.is_empty());
    assert!(!g.commits[b].is_merge);
    assert_eq!(g.commits[b].timestamp, 300);
    assert_eq!(g.commits[b].message, "third");
    assert_eq!(g.branches.len(), 1);
    assert_eq!(g.branches[0].name, "main");
    assert_eq!(g.branches[0].last_commit_id, "b");
    // two distinct authors, each id present for its nodes
    assert_eq!(g.authors.len(), 2);
    assert_ne!(g.authors[0].id, g.authors[1].id);
}

#[test]
fn graph_truncates_octopus_merges() {
    let records = vec![
        record("m", "Ada", "ada@example.com", 400, "octopus", &["pa", "pb", "pc"]),
        record("pa", "Ada", "ada@example.com", 300, "one", &[]),
        record("pb", "Ada", "ada@example.com", 200, "two", &[]),
        record("pc", "Ada", "ada@example.com", 100, "three", &[]),
    ];
    let stash: Vec<String> = Vec::new();
    let tips: Vec<(String, String)> = Vec::new();
    let g = build_history_graph(&records, &stash, &tips).unwrap();
    let m = commit_index_of(&g, "m").unwrap();
    assert_eq!(g.commits[m].parents, vec!["pa".to_string(), "pb".to_string()]);
    assert!(g.commits[m].is_merge);
    // the third parent is kept as a node but receives no back-link
    let pc = commit_index_of(&g, "pc").unwrap();
    assert!(g.commits[pc].children.is_empty());
}

#[test]
fn graph_skips_stash_and_clips_messages() {
    let long = "x".repeat(130) + "\nsecond line";
    let records = vec![
        record("b", "Ada", "ada@example.com", 300, &long, &["a"]),
        record("s", "Ada", "ada@example.com", 250, "stash", &["a"]),
        record("a", "Ada", "ada@example.com", 200, "line one\nline two", &[]),
    ];
    let stash = vec!["s".to_string()];
    let tips: Vec<(String, String)> = Vec::new();
    let g = build_history_graph(&records, &stash, &tips).unwrap();
    assert_eq!(g.commits.len(), 2);
    assert!(commit_index_of(&g, "s").is_none());
    let b = commit_index_of(&g, "b").unwrap();
    assert_eq!(g.commits[b].message, "x".repeat(120));
    let a = commit_index_of(&g, "a").unwrap();
    assert_eq!(g.commits[a].message, "line one");
}

#[test]
fn doubled_parent_links_yield_one_back_link() {
    let records = vec![
        record("m", "Ada", "ada@example.com", 400, "doubled", &["pa", "pa"]),
        record("pa", "Ada", "ada@example.com", 300, "base", &[]),
    ];
    let stash: Vec<String> = Vec::new();
    let tips: Vec<(String, String)> = Vec::new();
    let g = build_history_graph(&records, &stash, &tips).unwrap();
    let pa = commit_index_of(&g, "pa").unwrap();
    assert_eq!(g.commits[pa].children, vec!["m".to_string()]);
}

#[test]
fn graph_reports_missing_parents() {
    let records = vec![
        record("b", "Ada", "ada@example.com", 300, "tip", &["gone"]),
        record("a", "Ada", "ada@example.com", 200, "base", &[]),
    ];
    let stash: Vec<String> = Vec::new();
    let tips: Vec<(String, String)> = Vec::new();
    assert!(build_history_graph(&records, &stash, &tips).is_err());
}

#[test]
fn graph_rendering_lists_nodes_and_edges() {
    let records = vec![
        record("bbbbbbbbbb", "Ada", "ada@example.com", 300, "tip", &["aaaaaaaaaa"]),
        record("aaaaaaaaaa", "Ada", "ada@example.com", 200, "base", &[]),
    ];
    let stash: Vec<String> = Vec::new();
    let tips: Vec<(String, String)> = Vec::new();
    let g = build_history_graph(&records, &stash, &tips).unwrap();
    let text = render_graph_text(&g.commits);
    assert_eq!(
        text,
        "digraph {\n  bbbbbbb\n  aaaaaaa -> bbbbbbb\n  aaaaaaa\n}\n"
    );
}

#[test]
fn authors_tally_counts_and_dedups() {
    let mut records = vec![
        record("1", "Ada", "ada@example.com", 1, "a", &[]),
        record("2", "Ada", "ada@example.com", 2, "b", &[]),
        record("3", "Grace", "grace@example.com", 3, "c", &[]),
    ];
    // a commit with no email counts towards nobody
    records.push(CommitRecord {
        oid: "4".to_string(),
        author_name: Some("Ghost".to_string()),
        author_email: None,
        timestamp: 4,
        message: None,
        parents: Vec::new(),
        tree_oid: String::new(),
    });
    let authors = tally_authors(&records);
    assert_eq!(authors.len(), 2);
    let ada = authors.iter().find(|a| a.name == "Ada").unwrap();
    assert_eq!(ada.num_commits, 2);
    assert_eq!(ada.email, "ada@example.com");
    assert_eq!(ada.gravatar_hash, format!("{:x}", md5::compute("ada@example.com")));
    let grace = authors.iter().find(|a| a.name == "Grace").unwrap();
    assert_eq!(grace.num_commits, 1);
}

#[test]
fn blame_table_dedups_commits() {
    // three lines, all last changed by commit "aa" -- one table entry
    let contents = vec!["l1".to_string(), "l2".to_string(), "l3".to_string()];
    let attr = || LineAttribution {
        commit_id: "aa".to_string(),
        author_name: "Ada".to_string(),
        author_email: "ada@example.com".to_string(),
        timestamp: 200,
    };
    let attrs = vec![attr(), attr(), attr()];
    let b = build_blame("file.txt".to_string(), &contents, &attrs);
    assert_eq!(b.lines.len(), 3);
    assert_eq!(b.commits.len(), 1);
    assert_eq!(b.commits[0].commit_id, "aa");
    assert_eq!(b.commits[0].timestamp, "200");
    for (i, line) in b.lines.iter().enumerate() {
        assert_eq!(line.line_no, i + 1);
        assert_eq!(line.commit_id, "aa");
        assert_eq!(line.content, contents[i]);
    }
}

#[test]
fn tree_events_balance_openings_and_closings() {
    let items = vec![
        TreeItem::Leaf { name: "readme.md".to_string() },
        TreeItem::Dir {
            name: "src".to_string(),
            items: vec![
                TreeItem::Leaf { name: "main.rs".to_string() },
                TreeItem::Dir { name: "sub".to_string(), items: Vec::new() },
            ],
        },
    ];
    let prefix: Vec<String> = Vec::new();
    let events = tree_events(&items, &prefix, 8);
    // announcements first, in tree order
    assert_eq!(events[0].path, vec!["readme.md".to_string()]);
    assert_eq!(events[0].loading, None);
    match events[0].kind {
        Some(CustomValue::Number(k)) => assert_eq!(k, 4),
        _ => panic!("leaf kind should be a pattern index"),
    }
    assert_eq!(events[1].path, vec!["src".to_string()]);
    assert_eq!(events[1].loading, Some(true));
    // the final event closes the root, with an empty path
    let last = events.last().unwrap();
    assert_eq!(last.path.len(), 0);
    assert_eq!(last.loading, Some(false));
    // each opened path closes exactly once, and after its opening
    let paths: Vec<Vec<String>> = events.iter().map(|e| e.path.clone()).collect();
    for (i, e) in events.iter().enumerate() {
        if e.loading == Some(true) {
            let closes: Vec<usize> = events
                .iter()
                .enumerate()
                .filter(|(_, c)| c.loading == Some(false) && c.path == e.path)
                .map(|(j, _)| j)
                .collect();
            assert_eq!(closes.len(), 1, "path {:?} should close once", paths[i]);
            assert!(closes[0] > i);
        }
    }
    // descendants of src stay between its opening and closing
    let open_src = events.iter().position(|e| e.loading == Some(true) && e.path == vec!["src".to_string()]).unwrap();
    let close_src = events.iter().position(|e| e.loading == Some(false) && e.path == vec!["src".to_string()]).unwrap();
    for (j, e) in events.iter().enumerate() {
        if e.path.len() > 1 && e.path[0] == "src" {
            assert!(open_src < j && j < close_src);
        }
    }
}
