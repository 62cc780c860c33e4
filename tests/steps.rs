use rswarm::steps::{extract_xml_steps, parse_steps_from_xml};
use rswarm::SwarmError;

#[test]
fn extract_finds_block_and_trims_rest() {
    let text = "  Intro text.\n<steps><step number=\"1\" action=\"run_once\"><prompt>Hi</prompt></step></steps>\n  Outro.  ";
    let (rest, block) = extract_xml_steps(text).unwrap();
    assert_eq!(rest, "Intro text.\n\n  Outro.");
    assert_eq!(
        block.as_deref(),
        Some("<steps><step number=\"1\" action=\"run_once\"><prompt>Hi</prompt></step></steps>")
    );
}

#[test]
fn extract_round_trip_restores_text() {
    let prefix = "Be kind. ";
    let program = "<steps name=\"p\"><step number=\"2\" action=\"loop\"><prompt>Go</prompt></step></steps>";
    let suffix = " Done.";
    let text = format!("{}{}{}", prefix, program, suffix);
    let (rest, block) = extract_xml_steps(&text).unwrap();
    let block = block.unwrap();
    assert_eq!(block, program);
    assert_eq!(format!("{}{}{}", prefix, block, suffix), text);
    assert_eq!(rest, format!("{}{}", prefix, suffix).trim());
}

#[test]
fn extract_without_block() {
    let (rest, block) = extract_xml_steps("  plain instructions \n").unwrap();
    assert_eq!(rest, "plain instructions");
    assert!(block.is_none());
    let (rest, block) = extract_xml_steps("<stepsx>no</stepsx> <steps> unterminated").unwrap();
    assert_eq!(rest, "<stepsx>no</stepsx> <steps> unterminated");
    assert!(block.is_none());
}

#[test]
fn parse_reads_steps_in_order() {
    let xml = "<steps>\n  <step number=\"1\" action=\"run_once\"><prompt>First</prompt></step>\n  <step action=\"loop\" number=\"2\" agent=\"helper\">\n    <prompt>Second</prompt>\n  </step>\n</steps>";
    let steps = parse_steps_from_xml(xml).unwrap().steps;
    assert_eq!(steps.len(), 2);
    assert_eq!(steps[0].number, 1);
    assert_eq!(steps[0].action, "run_once");
    assert_eq!(steps[0].agent, None);
    assert_eq!(steps[0].prompt, "First");
    assert_eq!(steps[1].number, 2);
    assert_eq!(steps[1].action, "loop");
    assert_eq!(steps[1].agent.as_deref(), Some("helper"));
    assert_eq!(steps[1].prompt, "Second");
}

#[test]
fn parse_empty_program() {
    let steps = parse_steps_from_xml("<steps></steps>").unwrap().steps;
    assert!(steps.is_empty());
    let steps = parse_steps_from_xml("  <steps >\n </steps>  ").unwrap().steps;
    assert!(steps.is_empty());
}

#[test]
fn parse_keeps_zero_number_for_later_check() {
    let steps = parse_steps_from_xml("<steps><step number=\"0\" action=\"run_once\"><prompt></prompt></step></steps>")
        .unwrap()
        .steps;
    assert_eq!(steps[0].number, 0);
    assert_eq!(steps[0].prompt, "");
}

#[test]
fn parse_rejects_malformed_markup() {
    let cases = [
        "",
        "<step number=\"1\" action=\"run_once\"><prompt>x</prompt></step>",
        "<steps><step number=\"1\" action=\"run_once\"><prompt>x</prompt></step>",
        "<steps><step action=\"run_once\"><prompt>x</prompt></step></steps>",
        "<steps><step number=\"1\"><prompt>x</prompt></step></steps>",
        "<steps><step number=\"one\" action=\"run_once\"><prompt>x</prompt></step></steps>",
        "<steps><step number=\"99999999999999999999999\" action=\"run_once\"><prompt>x</prompt></step></steps>",
        "<steps><step number=\"1\" action=\"run_once\">x</step></steps>",
        "<steps></steps> trailing",
        "<steps><step number=\"1\" action=\"run_once\"><prompt>a & b</prompt></step></steps>",
        "<steps><step number=\"1\" number=\"2\" action=\"run_once\"><prompt>x</prompt></step></steps>",
        "<steps><step number=\"1\" action=\"run<once\"><prompt>x</prompt></step></steps>",
    ];
    for case in cases.iter() {
        assert!(matches!(parse_steps_from_xml(case), Err(SwarmError::XmlError(_))), "accepted: {}", case);
    }
}

#[test]
fn block_tag_ends_at_any_non_word_character() {
    let (rest, block) = extract_xml_steps("Hi <steps-v2></steps> there").unwrap();
    assert_eq!(block.as_deref(), Some("<steps-v2></steps>"));
    assert_eq!(rest, "Hi  there");
    let (_, none) = extract_xml_steps("<stepsx></steps>").unwrap();
    assert!(none.is_none());
}
