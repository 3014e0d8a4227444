use codex_potter::frontmatter::extract_frontmatter;
use codex_potter::roots::{
    find_codex_home, find_repo_root, repo_dirs_between, repo_skill_dir, skill_roots,
};
use codex_potter::skill_file::{
    interface_from_overlay, skill_from_frontmatter, SkillField, SkillFrontmatter, SkillParseError,
};
use codex_potter::skills::{load_skills, skill_less, SkillInterface, SkillMetadata, SkillScope};
use codex_potter::walker::{
    classify_entry, DirWalk, EntryAction, EntryKind, MAX_SCAN_DEPTH, MAX_SKILLS_DIRS_PER_ROOT,
};

fn skill(name: &str, path: &str, scope: SkillScope) -> SkillMetadata {
    SkillMetadata {
        name: name.to_string(),
        description: format!("{name} description"),
        short_description: None,
        interface: None,
        path: path.to_string(),
        scope,
    }
}

fn yaml_frontmatter(yaml: &str) -> Result<SkillFrontmatter, serde_yaml::Error> {
    let value: serde_yaml::Value = serde_yaml::from_str(yaml)?;
    let text = |v: Option<&serde_yaml::Value>| v.and_then(|v| v.as_str()).map(str::to_string);
    Ok(SkillFrontmatter {
        name: text(value.get("name")).unwrap_or_default(),
        description: text(value.get("description")).unwrap_or_default(),
        short_description: text(value.get("metadata").and_then(|m| m.get("short-description"))),
    })
}

#[test]
fn parses_frontmatter_name_description_and_short_description() {
    let contents = r#"---
name: my-skill
description: My test skill.
metadata:
  short-description: Short!
---

# Body
"#;
    let yaml = extract_frontmatter(contents).expect("frontmatter");
    let fm = yaml_frontmatter(&yaml).expect("parse");
    let parsed = skill_from_frontmatter(
        &fm,
        "/skills/my-skill/SKILL.md".to_string(),
        SkillScope::User,
        None,
    )
    .expect("parse");
    assert_eq!(parsed.name, "my-skill");
    assert_eq!(parsed.description, "My test skill.");
    assert_eq!(parsed.short_description.as_deref(), Some("Short!"));
    assert_eq!(parsed.scope, SkillScope::User);
}

#[test]
fn frontmatter_block_is_extracted_with_crlf_stripped() {
    assert_eq!(
        extract_frontmatter("---\r\nname: a\r\r\ndescription: b\r\n---\r\nbody\n").as_deref(),
        Some("name: a\ndescription: b\n")
    );
    assert_eq!(extract_frontmatter("---\n---\n").as_deref(), Some(""));
    assert_eq!(
        extract_frontmatter("---\nname: a\n--- \n---").as_deref(),
        Some("name: a\n--- \n")
    );
}

#[test]
fn frontmatter_without_delimiters_is_rejected() {
    assert_eq!(extract_frontmatter("name: a\n---\n"), None);
    assert_eq!(extract_frontmatter("---\nname: a\ndescription: b\n"), None);
    assert_eq!(extract_frontmatter(""), None);
    assert_eq!(extract_frontmatter(" ---\nname: a\n---\n"), None);
}

#[test]
fn blank_required_fields_are_reported() {
    let fm = SkillFrontmatter {
        name: "  ".to_string(),
        description: "d".to_string(),
        short_description: None,
    };
    assert_eq!(
        skill_from_frontmatter(&fm, "p".to_string(), SkillScope::Repo, None),
        Err(SkillParseError::MissingField(SkillField::Name))
    );
    let fm = SkillFrontmatter {
        name: " n ".to_string(),
        description: "\t".to_string(),
        short_description: None,
    };
    assert_eq!(
        skill_from_frontmatter(&fm, "p".to_string(), SkillScope::Repo, None),
        Err(SkillParseError::MissingField(SkillField::Description))
    );
    assert_eq!(SkillField::Name.key(), "name");
    assert_eq!(SkillField::Description.key(), "description");
}

#[test]
fn fields_are_trimmed_and_blank_short_description_dropped() {
    let fm = SkillFrontmatter {
        name: "  tool \n".to_string(),
        description: " does things ".to_string(),
        short_description: Some("   ".to_string()),
    };
    let m = skill_from_frontmatter(&fm, "/x/SKILL.md".to_string(), SkillScope::Admin, None)
        .expect("valid");
    assert_eq!(m.name, "tool");
    assert_eq!(m.description, "does things");
    assert_eq!(m.short_description, None);
    assert_eq!(m.path, "/x/SKILL.md");
    assert_eq!(m.scope, SkillScope::Admin);
}

#[test]
fn invalid_skill_is_skipped_and_valid_one_kept() {
    let a = "---\nname: a\ndescription: A skill\n---\n";
    let b = "---\nname: [unclosed\ndescription: broken\n---\n";
    let mut found = Vec::new();
    for (path, contents) in [("/root/skills/a/SKILL.md", a), ("/root/skills/b/SKILL.md", b)] {
        let yaml = extract_frontmatter(contents).expect("frontmatter");
        match yaml_frontmatter(&yaml) {
            Ok(fm) => found.push(
                skill_from_frontmatter(&fm, path.to_string(), SkillScope::User, None)
                    .expect("valid"),
            ),
            Err(_) => continue,
        }
    }
    let skills = load_skills(found);
    assert_eq!(skills.len(), 1);
    assert_eq!(skills[0].name, "a");
    assert_eq!(skills[0].description, "A skill");
}

#[test]
fn overlay_display_name_wins() {
    let interface = interface_from_overlay(&Some("  A Tool ".to_string()), &None);
    assert_eq!(
        interface,
        Some(SkillInterface { display_name: Some("A Tool".to_string()), short_description: None })
    );
    let mut m = skill("tool", "/p/SKILL.md", SkillScope::User);
    m.interface = interface;
    assert_eq!(m.display_name(), "A Tool");
    let plain = skill("tool", "/p/SKILL.md", SkillScope::User);
    assert_eq!(plain.display_name(), "tool");
}

#[test]
fn blank_overlay_is_dropped() {
    assert_eq!(interface_from_overlay(&Some(" ".to_string()), &Some("".to_string())), None);
    assert_eq!(interface_from_overlay(&None, &None), None);
    assert_eq!(
        interface_from_overlay(&None, &Some(" short ".to_string())),
        Some(SkillInterface { display_name: None, short_description: Some("short".to_string()) })
    );
}

#[test]
fn display_description_prefers_overlay_then_short_then_full() {
    let mut m = skill("tool", "/p/SKILL.md", SkillScope::User);
    assert_eq!(m.display_description(), "tool description");
    m.short_description = Some("short".to_string());
    assert_eq!(m.display_description(), "short");
    m.interface = Some(SkillInterface { display_name: None, short_description: Some("overlay".to_string()) });
    assert_eq!(m.display_description(), "overlay");
    assert_eq!(m.display_name(), "tool");
}

#[test]
fn duplicates_keep_the_earliest_root() {
    let mut first = skill("dup", "/same/SKILL.md", SkillScope::User);
    first.description = "first".to_string();
    let mut second = skill("dup", "/same/SKILL.md", SkillScope::Repo);
    second.description = "second".to_string();
    let skills = load_skills(vec![first.clone(), skill("other", "/o/SKILL.md", SkillScope::User), second]);
    assert_eq!(skills.len(), 2);
    let kept: Vec<_> = skills.iter().filter(|s| s.path == "/same/SKILL.md").collect();
    assert_eq!(kept.len(), 1);
    assert_eq!(kept[0].description, "first");
    assert_eq!(kept[0].scope, SkillScope::User);
}

#[test]
fn result_is_sorted_by_scope_then_name_then_path() {
    let skills = load_skills(vec![
        skill("b", "/admin/b", SkillScope::Admin),
        skill("z", "/sys/z", SkillScope::System),
        skill("a", "/user/2", SkillScope::User),
        skill("a", "/user/1", SkillScope::User),
        skill("y", "/repo/y", SkillScope::Repo),
        skill("B", "/user/B", SkillScope::User),
    ]);
    let order: Vec<(&str, &str)> = skills.iter().map(|s| (s.name.as_str(), s.path.as_str())).collect();
    assert_eq!(
        order,
        vec![
            ("y", "/repo/y"),
            ("B", "/user/B"),
            ("a", "/user/1"),
            ("a", "/user/2"),
            ("z", "/sys/z"),
            ("b", "/admin/b"),
        ]
    );
    for pair in skills.windows(2) {
        assert!(!skill_less(&pair[1], &pair[0]));
    }
    assert!(load_skills(Vec::new()).is_empty());
}

#[test]
fn entries_are_classified() {
    assert_eq!(classify_entry(".hidden", EntryKind::Dir, true), EntryAction::Skip);
    assert_eq!(classify_entry(".SKILL.md", EntryKind::File, true), EntryAction::Skip);
    assert_eq!(classify_entry("SKILL.md", EntryKind::File, true), EntryAction::Candidate);
    assert_eq!(classify_entry("skill.md", EntryKind::File, true), EntryAction::Skip);
    assert_eq!(classify_entry("SKILL.md", EntryKind::Symlink, true), EntryAction::FollowLink);
    assert_eq!(classify_entry("linked", EntryKind::Symlink, false), EntryAction::Skip);
    assert_eq!(classify_entry("sub", EntryKind::Dir, false), EntryAction::Descend);
    assert_eq!(classify_entry("fifo", EntryKind::Other, true), EntryAction::Skip);
}

#[test]
fn walk_stops_at_the_depth_cap() {
    let mut walk = DirWalk::new("/root".to_string());
    assert_eq!(walk.next_dir(), Some(("/root".to_string(), 0)));
    walk.enqueue_dir("/root/d6".to_string(), MAX_SCAN_DEPTH);
    walk.enqueue_dir("/root/d7".to_string(), MAX_SCAN_DEPTH + 1);
    assert_eq!(walk.next_dir(), Some(("/root/d6".to_string(), 6)));
    assert_eq!(walk.next_dir(), None);
    assert_eq!(walk.visited_count(), 2);
    assert!(!walk.is_truncated());
}

#[test]
fn directory_reached_twice_is_walked_once() {
    let mut walk = DirWalk::new("/root".to_string());
    walk.next_dir();
    walk.enqueue_dir("/root/skill".to_string(), 1);
    walk.enqueue_dir("/root/skill".to_string(), 1);
    walk.enqueue_dir("/root".to_string(), 2);
    assert_eq!(walk.next_dir(), Some(("/root/skill".to_string(), 1)));
    assert_eq!(walk.next_dir(), None);
    assert_eq!(walk.visited_count(), 2);
}

#[test]
fn walk_is_truncated_at_the_visit_cap() {
    let mut walk = DirWalk::new("/root".to_string());
    for i in 1..MAX_SKILLS_DIRS_PER_ROOT {
        walk.enqueue_dir(format!("/root/{i}"), 1);
    }
    assert_eq!(walk.visited_count(), MAX_SKILLS_DIRS_PER_ROOT);
    assert!(!walk.is_truncated());
    walk.enqueue_dir("/root/extra".to_string(), 1);
    assert!(walk.is_truncated());
    assert_eq!(walk.visited_count(), MAX_SKILLS_DIRS_PER_ROOT);
    let mut n = 0;
    while walk.next_dir().is_some() {
        n += 1;
    }
    assert_eq!(n, MAX_SKILLS_DIRS_PER_ROOT);
}

#[test]
fn repo_dirs_stop_at_the_repository_root() {
    let ancestors: Vec<String> = ["/r/a/b", "/r/a", "/r", "/"].iter().map(|s| s.to_string()).collect();
    assert_eq!(find_repo_root(&vec![false, false, true, true]), Some(2));
    assert_eq!(
        repo_dirs_between(&ancestors, &vec![false, false, true, true]),
        vec!["/r/a/b", "/r/a", "/r"]
    );
    assert_eq!(repo_dirs_between(&ancestors, &vec![false; 4]), ancestors);
    assert_eq!(repo_dirs_between(&ancestors, &vec![true, false, false, false]), vec!["/r/a/b"]);
}

#[test]
fn roots_are_listed_in_scan_order() {
    assert_eq!(repo_skill_dir("/r/a"), "/r/a/.codex/skills");
    let home = find_codex_home(None, Some("/home/u".to_string()));
    assert_eq!(home.as_deref(), Some("/home/u/.codex"));
    assert_eq!(find_codex_home(Some(String::new()), None), None);
    assert_eq!(
        find_codex_home(Some("/custom".to_string()), Some("/home/u".to_string())).as_deref(),
        Some("/custom")
    );
    let roots = skill_roots(&vec!["/r/a/.codex/skills".to_string()], &home, true);
    let listed: Vec<(&str, SkillScope, bool)> =
        roots.iter().map(|r| (r.path.as_str(), r.scope, r.follow_symlinks)).collect();
    assert_eq!(
        listed,
        vec![
            ("/r/a/.codex/skills", SkillScope::Repo, true),
            ("/home/u/.codex/skills/.system", SkillScope::System, false),
            ("/home/u/.codex/skills", SkillScope::User, true),
            ("/etc/codex/skills", SkillScope::Admin, true),
        ]
    );
    assert_eq!(skill_roots(&Vec::new(), &None, true).len(), 1);
    assert!(skill_roots(&Vec::new(), &None, false).is_empty());
    assert_eq!(skill_roots(&Vec::new(), &Some("/h/".to_string()), false)[1].path, "/h/skills");
    assert_eq!(repo_skill_dir(""), ".codex/skills");
}

#[test]
fn scope_ranks_follow_precedence() {
    assert_eq!(SkillScope::Repo.rank(), 0);
    assert_eq!(SkillScope::User.rank(), 1);
    assert_eq!(SkillScope::System.rank(), 2);
    assert_eq!(SkillScope::Admin.rank(), 3);
}

#[test]
fn paths_are_ordered_by_components() {
    let skills = load_skills(vec![
        skill("s", "/a-b", SkillScope::Repo),
        skill("s", "/a/b", SkillScope::Repo),
        skill("s", "/a", SkillScope::Repo),
    ]);
    let paths: Vec<&str> = skills.iter().map(|s| s.path.as_str()).collect();
    assert_eq!(paths, vec!["/a", "/a/b", "/a-b"]);
    let mut sorted_by_path: Vec<std::path::PathBuf> =
        paths.iter().rev().map(std::path::PathBuf::from).collect();
    sorted_by_path.sort();
    let expected: Vec<std::path::PathBuf> = paths.iter().map(std::path::PathBuf::from).collect();
    assert_eq!(sorted_by_path, expected);
}
