use modify::search::{
    mod_info_all_lines, mod_info_lines, print_mod_info, ModHit, SearchCommand, SearchOutput,
};

const ANSWER: &str = r#"{
  "hits": [
    {
      "slug": "sodium",
      "title": "Sodium",
      "description": "A modern rendering engine",
      "project_type": "mod",
      "client_side": "required",
      "server_side": "unsupported",
      "versions": ["1.19.4", "1.20", "1.20.1"]
    },
    {
      "slug": "lithium",
      "title": 7,
      "versions": ["1.20", 3, null]
    }
  ],
  "total_hits": 2
}"#;

fn sodium_lines() -> Vec<String> {
    vec![
        "=================== Sodium ===================".to_string(),
        "\u{2022} A modern rendering engine".to_string(),
        "\u{2022} Slug: sodium".to_string(),
        "\u{2022} Type: mod".to_string(),
        "\u{2022} Client side: required".to_string(),
        "\u{2022} Server side: unsupported".to_string(),
        "\u{2022} Versions: 1.19.4, 1.20, 1.20.1".to_string(),
    ]
}

fn lithium_lines() -> Vec<String> {
    vec![
        "======================  ======================".to_string(),
        "\u{2022} ".to_string(),
        "\u{2022} Slug: lithium".to_string(),
        "\u{2022} Type: ".to_string(),
        "\u{2022} Client side: ".to_string(),
        "\u{2022} Server side: ".to_string(),
        "\u{2022} Versions: 1.20, , ".to_string(),
    ]
}

#[test]
fn search_answer_is_described_hit_by_hit() {
    let lines = print_mod_info(ANSWER).unwrap();
    let mut expected = sodium_lines();
    expected.extend(lithium_lines());
    assert_eq!(lines, expected);
}

#[test]
fn search_answer_without_hits_gives_no_lines() {
    assert_eq!(print_mod_info("{}").unwrap(), Vec::<String>::new());
    assert_eq!(print_mod_info(r#"{"hits": []}"#).unwrap(), Vec::<String>::new());
    assert_eq!(print_mod_info(r#"{"hits": "none"}"#).unwrap(), Vec::<String>::new());
    assert_eq!(print_mod_info("[1, 2]").unwrap(), Vec::<String>::new());
    assert_eq!(print_mod_info("null").unwrap(), Vec::<String>::new());
}

#[test]
fn search_answer_that_is_no_json_is_an_error() {
    assert!(print_mod_info("").is_err());
    assert!(print_mod_info("{\"hits\": [").is_err());
    assert!(print_mod_info("not json").is_err());
    let error = print_mod_info("{").unwrap_err();
    assert!(!error.message.is_empty());
}

#[test]
fn search_hit_members_that_are_no_text_count_as_empty() {
    let answer = r#"{"hits": [{"slug": ["x"], "title": null, "description": {"a": 1},
        "project_type": true, "client_side": 1.5, "server_side": "optional",
        "versions": "1.20"}]}"#;
    let lines = print_mod_info(answer).unwrap();
    assert_eq!(
        lines[1..],
        [
            "\u{2022} ".to_string(),
            "\u{2022} Slug: ".to_string(),
            "\u{2022} Type: ".to_string(),
            "\u{2022} Client side: ".to_string(),
            "\u{2022} Server side: optional".to_string(),
            "\u{2022} Versions: ".to_string(),
        ]
    );
}

#[test]
fn search_lines_of_several_hits_follow_each_other() {
    let hit = |slug: &str| ModHit {
        slug: slug.to_string(),
        title: slug.to_uppercase(),
        description: String::new(),
        project_type: "mod".to_string(),
        client_side: String::new(),
        server_side: String::new(),
        versions: Vec::new(),
    };
    let hits = vec![hit("a"), hit("b")];
    let mut expected = mod_info_lines(&hits[0]);
    expected.extend(mod_info_lines(&hits[1]));
    assert_eq!(mod_info_all_lines(&hits), expected);
    assert_eq!(mod_info_all_lines(&Vec::new()), Vec::<String>::new());
    assert_eq!(expected[7], "===================== B ======================");
    assert_eq!(expected[13], "\u{2022} Versions: ");
}

#[test]
fn search_lines_of_one_hit() {
    let hit = ModHit {
        slug: "sodium".to_string(),
        title: "Sodium".to_string(),
        description: "A modern rendering engine".to_string(),
        project_type: "mod".to_string(),
        client_side: "required".to_string(),
        server_side: "unsupported".to_string(),
        versions: vec!["1.19.4".to_string(), "1.20".to_string(), "1.20.1".to_string()],
    };
    assert_eq!(mod_info_lines(&hit), sodium_lines());
}

#[test]
fn search_command_texts() {
    assert_eq!(SearchCommand.description(), "search for mods");
    assert_eq!(SearchCommand.prompt(), "Enter mod to search for: ");
}

#[test]
fn search_report_of_an_answer() {
    match SearchCommand.report(Ok(ANSWER.to_string())) {
        SearchOutput::Lines(lines) => {
            assert_eq!(lines.len(), 14);
            assert_eq!(lines[..7], sodium_lines()[..]);
        }
        SearchOutput::Complaint(line) => panic!("unexpected complaint: {}", line),
    }
}

#[test]
fn search_report_of_a_failure() {
    match SearchCommand.report(Err("timed out".to_string())) {
        SearchOutput::Complaint(line) => assert_eq!(line, "Error: timed out"),
        SearchOutput::Lines(_) => panic!("expected a complaint"),
    }
    match SearchCommand.report(Ok("<html>".to_string())) {
        SearchOutput::Complaint(line) => assert!(line.starts_with("Error: ")),
        SearchOutput::Lines(_) => panic!("expected a complaint"),
    }
}
