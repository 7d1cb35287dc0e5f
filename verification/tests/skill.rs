use bugs::skill::{Skill, SkillRegistry};

#[test]
fn parses_front_matter() {
    let content = "---\nname: code-review\ndescription: \"审查 Rust 代码，找出潜在问题\"\nrequires: [\"read\"]\n---\n# Code Review\nbody";
    let s = Skill::parse("code-review".into(), content.into());
    assert_eq!(s.name, "code-review");
    assert_eq!(s.description, "审查 Rust 代码，找出潜在问题");
    assert_eq!(s.instructions, "\n# Code Review\nbody");
    assert!(s.requires.is_empty());
    assert!(s.os.is_none());
}

#[test]
fn no_front_matter() {
    let s = Skill::parse("x".into(), "just text".into());
    assert_eq!(s.description, "");
    assert_eq!(s.instructions, "just text");
    let s = Skill::parse("y".into(), "---\nno end".into());
    assert_eq!(s.description, "");
    assert_eq!(s.instructions, "---\nno end");
}

#[test]
fn description_takes_second_field_only() {
    let s = Skill::parse("z".into(), "---\r\ndescription:  a: b\r\n---".into());
    assert_eq!(s.description, "a");
    assert_eq!(s.instructions, "");
}

#[test]
fn registry_insert_get_list() {
    let mut r = SkillRegistry::new();
    assert!(r.get("a").is_none());
    r.insert(Skill::parse("a".into(), "one".into()));
    r.insert(Skill::parse("b".into(), "two".into()));
    r.insert(Skill::parse("a".into(), "three".into()));
    assert_eq!(r.list().len(), 2);
    assert_eq!(r.get("a").unwrap().instructions, "three");
}
