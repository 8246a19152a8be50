use zero_agent::skill::{parse_frontmatter, skill_from_frontmatter, validate_name, Skill, SkillDef, SkillFrontmatter, SkillRegistry};

fn read_frontmatter(yaml: &str) -> Result<SkillFrontmatter, String> {
    let v: serde_yaml::Value = serde_yaml::from_str(yaml).map_err(|e| e.to_string())?;
    let text = |key: &str| v.get(key).and_then(|x| x.as_str()).map(|s| s.to_string());
    let tools = v
        .get("allowed-tools")
        .and_then(|x| x.as_sequence())
        .map(|s| s.iter().filter_map(|x| x.as_str().map(|s| s.to_string())).collect())
        .unwrap_or_default();
    Ok(SkillFrontmatter { name: text("name"), description: text("description"), allowed_tools: tools })
}

fn parse(filename: &str, content: &str) -> Result<SkillDef<u32>, String> {
    let default_name = filename.trim_end_matches(".md");
    let (yaml, body) = parse_frontmatter(content);
    let fm = yaml.map(|y| read_frontmatter(&y));
    skill_from_frontmatter(fm, body, default_name, filename)
}

#[test]
fn test_full_frontmatter() {
    let d = parse("skill-full.md", "---\nname: my-skill\ndescription: Does something useful.\n---\n\nAlways be helpful.").unwrap();
    assert_eq!(d.skill.name, "my-skill");
    assert_eq!(d.skill.description, "Does something useful.");
    assert_eq!(d.skill.instructions, vec!["Always be helpful."]);
    assert!(d.allowed_tools.is_empty());
}

#[test]
fn test_allowed_tools() {
    let d = parse("skill-tools.md", "---\nname: my-skill\ndescription: A skill.\nallowed-tools:\n  - calculator\n  - json_validate\n---\n\nUse tools.").unwrap();
    assert_eq!(d.allowed_tools, vec!["calculator", "json_validate"]);
}

#[test]
fn test_default_name_from_filename() {
    let d = parse("test-skill.md", "---\ndescription: A skill.\n---\n\nBody.").unwrap();
    assert_eq!(d.skill.name, "test-skill");
}

#[test]
fn test_missing_description_is_error() {
    assert!(parse("skill-nodesc.md", "---\nname: no-desc\n---\n\nBody.").is_err());
}

#[test]
fn test_invalid_name() {
    assert!(parse("skill-badname.md", "---\nname: Bad_Name\ndescription: x\n---").is_err());
}

#[test]
fn frontmatter_split_and_line_breaks() {
    let (yaml, body) = parse_frontmatter("---\r\nname: a\r\n---\r\n\r\n  Body text  \r\n");
    assert_eq!(yaml.as_deref(), Some("name: a"));
    assert_eq!(body, "Body text");
    let (yaml, body) = parse_frontmatter("no frontmatter\rhere");
    assert_eq!(yaml, None);
    assert_eq!(body, "no frontmatter\nhere");
    // an opening without a closing line is no frontmatter
    let (yaml, body) = parse_frontmatter("---\nname: a\n");
    assert_eq!(yaml, None);
    assert_eq!(body, "---\nname: a\n");
}

#[test]
fn name_rules_and_their_messages() {
    assert_eq!(validate_name("good-name_2"), Ok(()));
    assert_eq!(validate_name(&"a".repeat(65)), Err("name exceeds 64 characters (65)".to_string()));
    assert!(validate_name(&"a".repeat(64)).is_ok());
    assert_eq!(
        validate_name("Bad"),
        Err("name must contain only lowercase letters, digits, hyphens, and underscores".to_string())
    );
    assert_eq!(validate_name("-a"), Err("name must not start or end with a hyphen".to_string()));
    assert_eq!(validate_name("a-"), Err("name must not start or end with a hyphen".to_string()));
    assert_eq!(validate_name("a--b"), Err("name must not contain consecutive hyphens".to_string()));
    // the length counts bytes
    assert_eq!(validate_name(&"é".repeat(33)), Err("name exceeds 64 characters (66)".to_string()));
}

#[test]
fn description_rules_and_messages() {
    let e = parse("x.md", "---\nname: x\ndescription: \"   \"\n---\nbody").err().unwrap();
    assert_eq!(e, "x.md: description is required");
    let long = "d".repeat(1025);
    let e = parse("x.md", &format!("---\nname: x\ndescription: {}\n---\nbody", long)).err().unwrap();
    assert_eq!(e, "x.md: description exceeds 1024 characters");
    let e = parse("x.md", "---\nname: Bad\ndescription: fine\n---\n").err().unwrap();
    assert_eq!(e, "x.md: name must contain only lowercase letters, digits, hyphens, and underscores");
    let e = skill_from_frontmatter::<u32>(Some(Err("bad yaml".to_string())), String::new(), "x", "x.md").err().unwrap();
    assert_eq!(e, "invalid frontmatter in x.md: bad yaml");
    // without frontmatter there is no description
    let e = parse("plain.md", "just a body").err().unwrap();
    assert_eq!(e, "plain.md: description is required");
}

#[test]
fn empty_body_gives_no_instruction() {
    let d = parse("s.md", "---\nname: s\ndescription: d\n---\n   \n").unwrap();
    assert!(d.skill.instructions.is_empty());
    assert!(d.skill.tools.is_empty());
}

#[test]
fn skill_sections() {
    let s: Skill<u32> = Skill::new("calc", "Does math").with_instruction("Be exact").with_instruction("Show work");
    assert_eq!(s.to_summary_section(), "- calc : Does math");
    assert_eq!(s.to_instructions_section(), "\n\n## Skill: calc\n- Be exact\n- Show work\n");
    let empty: Skill<u32> = Skill::new("e", "d");
    assert_eq!(empty.to_instructions_section(), "");
    let with_tool = empty.with_tool(7);
    assert_eq!(with_tool.tools, vec![7]);
}

#[test]
fn registry_replaces_by_name_and_keeps_order_of_names() {
    let mut reg: SkillRegistry<u32> = SkillRegistry::new();
    reg.register(Skill::new("b", "first"));
    reg.register(Skill::new("a", "other"));
    reg.register(Skill::new("b", "second"));
    assert_eq!(reg.get("b").unwrap().description, "second");
    assert!(reg.get("c").is_none());
    let mut names = reg.names();
    names.sort();
    assert_eq!(names, vec!["a", "b"]);
    let many = reg.get_many(&vec!["a".to_string(), "zz".to_string(), "b".to_string()]);
    let got: Vec<&str> = many.iter().map(|s| s.name.as_str()).collect();
    assert_eq!(got, vec!["a", "b"]);
}
