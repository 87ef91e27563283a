use oxidenms::tools::template::{TemplateFailure, TemplateTool};

#[test]
fn default_template_renders() {
    let mut tool = TemplateTool::new();
    tool.render_template();
    assert_eq!(tool.error_msg, "");
    assert!(tool
        .rendered_output
        .contains("crypto isakmp key Cisco123! address 192.168.1.1"));
    assert!(tool
        .rendered_output
        .contains("crypto ipsec transform-set TS1 esp-aes esp-sha-hmac"));
}

#[test]
fn later_variable_wins() {
    let mut tool = TemplateTool::new();
    tool.template_content = "x={{ a }}".to_string();
    tool.vars = vec![
        ("a".to_string(), "1".to_string()),
        ("a".to_string(), "2".to_string()),
    ];
    tool.render_template();
    assert_eq!(tool.rendered_output, "x=2");
}

#[test]
fn syntax_error_is_reported() {
    let mut tool = TemplateTool::new();
    tool.rendered_output = "previous".to_string();
    tool.template_content = "{{ unclosed".to_string();
    tool.render_template();
    assert!(tool.error_msg.starts_with("Template error: "));
    assert_eq!(tool.rendered_output, "previous");
}

#[test]
fn outcome_messages() {
    let mut tool = TemplateTool::new();
    tool.apply_render_outcome(Err(TemplateFailure::Missing("m".to_string())));
    assert_eq!(tool.error_msg, "Template not found: m");
    tool.apply_render_outcome(Err(TemplateFailure::Render("r".to_string())));
    assert_eq!(tool.error_msg, "Render failed: r");
    tool.apply_render_outcome(Ok("out".to_string()));
    assert_eq!(tool.error_msg, "");
    assert_eq!(tool.rendered_output, "out");
}
