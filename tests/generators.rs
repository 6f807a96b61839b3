use greeting_e2e::{
    generate_random_message, parse_message, select_json_lines, tasks_from_payloads, E2EError,
    GreetingCmd, GreetingTemplate, LocalMessageGenerator,
};

fn template(to: &str, from: &str, heading: &str, message: &str) -> GreetingTemplate {
    GreetingTemplate {
        to: to.to_string(),
        from: from.to_string(),
        heading: heading.to_string(),
        message: message.to_string(),
    }
}

#[test]
fn try_loading_greeting() {
    let greeting = template("bjarne", "arne", "new year", "happy new year");
    assert!(greeting.validate().is_ok());
}

#[test]
fn template_lengths_are_checked() {
    assert!(matches!(
        template("b", "", "h", "m").validate(),
        Err(E2EError::ValidationError(_))
    ));
    assert!(template("b", &"a".repeat(20), "h", "m").validate().is_ok());
    assert!(template("b", &"a".repeat(21), "h", "m").validate().is_err());
    assert!(template("b", "a", &"h".repeat(50), &"m".repeat(50)).validate().is_ok());
    assert!(template("b", "a", &"h".repeat(51), "m").validate().is_err());
    assert!(template("b", "a", "h", &"m".repeat(51)).validate().is_err());
    assert!(template("b", "a", "h", "").validate().is_err());
    assert!(template("b", &"\u{e5}".repeat(20), "h", "m").validate().is_ok());
}

#[test]
fn local_generator_writes_fixed_greeting() {
    let t = LocalMessageGenerator.generate_message().unwrap();
    assert_eq!(t.to, "Greeting recipient");
    assert_eq!(t.from, "Greeting sender");
    assert_eq!(t.heading, "Greeting heading");
    assert_eq!(t.message, "Greeting main message");
}

#[test]
fn random_message_has_fresh_reference() {
    let a = generate_random_message();
    let b = generate_random_message();
    assert_eq!(a.to, "arne");
    assert_eq!(a.from, "arne");
    assert_eq!(a.heading, "chrismas carg");
    assert_eq!(a.message, "Happy christmas");
    assert_eq!(a.external_reference.len(), 36);
    assert_ne!(a.external_reference, b.external_reference);
    assert!(a.created.secs > 1_700_000_000);
}

#[test]
fn command_from_template_keeps_content() {
    let t = template("to", "from", "heading", "message");
    let c = GreetingCmd::from_template(&t);
    assert_eq!(c.to, "to");
    assert_eq!(c.from, "from");
    assert_eq!(c.heading, "heading");
    assert_eq!(c.message, "message");
    assert_eq!(c.external_reference.chars().count(), 36);
}

#[test]
fn failed_payloads_are_dropped() {
    let payloads = vec![
        Ok(template("a", "b", "c", "d")),
        Err(E2EError::GenerateMessageError("no reply".to_string())),
        Ok(template("e", "f", "g", "h")),
    ];
    let tasks = tasks_from_payloads(&payloads);
    assert_eq!(tasks.len(), 2);
    assert_eq!(tasks[0].message.to, "a");
    assert_eq!(tasks[1].message.message, "h");
    assert!(tasks.iter().all(|t| t.message_id.is_none() && t.greeting_logg_entry.is_none()));
    assert_ne!(tasks[0].external_reference, tasks[1].external_reference);
}

#[test]
fn parse_message_cuts_out_object() {
    let reply = "Here is the JSON:\n{\n  \"to\": \"Ann\",\n  \"from\": \"Bo\"\n}\nHave fun.".to_string();
    assert_eq!(parse_message(reply), "{  \"to\": \"Ann\",  \"from\": \"Bo\"}");
}

#[test]
fn parse_message_trims_brace_lines() {
    let reply = "intro\r\n   {  \r\n\"a\": 1\r\n\t}\r\noutro\r\n".to_string();
    assert_eq!(parse_message(reply), "   {  \"a\": 1\t}");
}

#[test]
fn parse_message_without_object_is_empty() {
    assert_eq!(parse_message("no json here\nat all".to_string()), "");
    assert_eq!(parse_message(String::new()), "");
}

#[test]
fn closing_brace_line_is_kept_outside_object() {
    let lines = vec!["x".to_string(), "}".to_string(), "y".to_string()];
    assert_eq!(select_json_lines(&lines), "}");
}

fn is_uuid_v7_text(s: &str) -> bool {
    let c: Vec<char> = s.chars().collect();
    c.len() == 36
        && c.iter().enumerate().all(|(i, ch)| {
            if i == 8 || i == 13 || i == 18 || i == 23 {
                *ch == '-'
            } else {
                ch.is_ascii_digit() || ('a'..='f').contains(ch)
            }
        })
        && c[14] == '7'
        && "89ab".contains(c[19])
}

#[test]
fn external_reference_is_uuid_v7_text() {
    let m = generate_random_message();
    assert!(is_uuid_v7_text(&m.external_reference));
    assert!(m.created.nanos < 1_000_000_000);
    let c = GreetingCmd::from_template(&template("a", "b", "c", "d"));
    assert!(is_uuid_v7_text(&c.external_reference));
}

#[test]
fn bare_carriage_return_at_end_stays_in_line() {
    assert_eq!(parse_message("{\n}\r".to_string()), "{}\r");
}
