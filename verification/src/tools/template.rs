//! The configuration template tool: fills a Jinja template with variables
//! (the rendering is `minijinja`'s).

use vstd::prelude::*;

use crate::text::push_str;

verus! {

/// The tool's state: the template's name and text, the variables, and the
/// last output or error.
#[derive(Debug, Clone)]
pub struct TemplateTool {
    pub template_name: String,
    pub template_content: String,
    pub vars: Vec<(String, String)>,
    pub rendered_output: String,
    pub error_msg: String,
}

/// Why rendering failed, with `minijinja`'s message: the template did not
/// compile, it could not be found after being added, or rendering it
/// failed.
#[derive(Debug, Clone)]
pub enum TemplateFailure {
    Syntax(String),
    Missing(String),
    Render(String),
}

/// The stage (0 compile, 1 lookup, 2 render) and message of a failure.
pub open spec fn failure_view(f: TemplateFailure) -> (u8, Seq<char>) {
    match f {
        TemplateFailure::Syntax(m) => (0, m@),
        TemplateFailure::Missing(m) => (1, m@),
        TemplateFailure::Render(m) => (2, m@),
    }
}

/// The variables as pairs of texts.
pub open spec fn pairs(vars: Seq<(String, String)>) -> Seq<(Seq<char>, Seq<char>)> {
    vars.map_values(|v: (String, String)| (v.0@, v.1@))
}

/// What `minijinja` gives for a template of a name and text rendered with
/// string variables (a later variable of the same name wins): the output,
/// or the stage that failed and `minijinja`'s message.
pub uninterp spec fn minijinja_render(
    name: Seq<char>,
    source: Seq<char>,
    vars: Seq<(Seq<char>, Seq<char>)>,
) -> Result<Seq<char>, (u8, Seq<char>)>;

/// Renders a template with `minijinja`: `Environment::new`, then
/// `add_template_owned` with the name and text, `get_template` by the
/// name, and `render` with the variables gathered in a `BTreeMap`. Claims
/// that the outcome is `minijinja`'s for these arguments; each error is
/// carried as its `Display` text.
#[verifier::external_body]
fn render_with_minijinja(name: &str, source: &str, vars: &[(String, String)]) -> (r: Result<
    String,
    TemplateFailure,
>)
    ensures
        match r {
            Ok(s) => minijinja_render(name@, source@, pairs(vars@)) == Ok::<
                Seq<char>,
                (u8, Seq<char>),
            >(s@),
            Err(f) => minijinja_render(name@, source@, pairs(vars@)) == Err::<
                Seq<char>,
                (u8, Seq<char>),
            >(failure_view(f)),
        },
{
    let mut env = minijinja::Environment::new();
    if let Err(e) = env.add_template_owned(name.to_string(), source.to_string()) {
        return Err(TemplateFailure::Syntax(e.to_string()));
    }
    let tmpl = match env.get_template(name) {
        Ok(t) => t,
        Err(e) => return Err(TemplateFailure::Missing(e.to_string())),
    };
    let map: std::collections::BTreeMap<String, String> = vars.iter().cloned().collect();
    tmpl.render(map).map_err(|e| TemplateFailure::Render(e.to_string()))
}

/// The message shown for a failure.
pub open spec fn failure_message(f: (u8, Seq<char>)) -> Seq<char> {
    if f.0 == 0 {
        "Template error: "@ + f.1
    } else if f.0 == 1 {
        "Template not found: "@ + f.1
    } else {
        "Render failed: "@ + f.1
    }
}

impl Default for TemplateTool {
    /// An IPsec VPN base template with its three variables.
    fn default() -> (r: TemplateTool)
        ensures
            r.template_name@ == "VPN_Base"@,
            r.vars.len() == 3,
            r.rendered_output@ == Seq::<char>::empty(),
            r.error_msg@ == Seq::<char>::empty(),
    {
        TemplateTool {
            template_name: "VPN_Base".to_owned(),
            template_content: "crypto isakmp policy 10
 encr aes
 hash sha
 authentication pre-share
 group 14
 lifetime 86400
crypto isakmp key {{ psk }} address {{ remote_ip }}

crypto ipsec transform-set {{ ts_name }} esp-aes esp-sha-hmac".to_owned(),
            vars: vec![
                ("psk".to_owned(), "Cisco123!".to_owned()),
                ("remote_ip".to_owned(), "192.168.1.1".to_owned()),
                ("ts_name".to_owned(), "TS1".to_owned()),
            ],
            rendered_output: String::new(),
            error_msg: String::new(),
        }
    }
}

impl TemplateTool {
    /// The tool with its default template.
    pub fn new() -> (r: TemplateTool)
        ensures
            r.template_name@ == "VPN_Base"@,
            r.vars.len() == 3,
            r.rendered_output@ == Seq::<char>::empty(),
            r.error_msg@ == Seq::<char>::empty(),
    {
        TemplateTool::default()
    }

    /// Takes in the outcome of a rendering: the output on success (the
    /// error cleared), else the error message (the last output kept).
    pub fn apply_render_outcome(&mut self, outcome: Result<String, TemplateFailure>)
        ensures
            final(self).template_name == old(self).template_name,
            final(self).template_content == old(self).template_content,
            final(self).vars == old(self).vars,
            match outcome {
                Ok(s) => final(self).rendered_output@ == s@ && final(self).error_msg@ == Seq::<
                    char,
                >::empty(),
                Err(f) => final(self).rendered_output == old(self).rendered_output
                    && final(self).error_msg@ == failure_message(failure_view(f)),
            },
    {
        self.error_msg = String::new();
        match outcome {
            Ok(res) => {
                self.rendered_output = res;
            },
            Err(TemplateFailure::Syntax(m)) => {
                let mut e = "Template error: ".to_owned();
                push_str(&mut e, m.as_str());
                self.error_msg = e;
            },
            Err(TemplateFailure::Missing(m)) => {
                let mut e = "Template not found: ".to_owned();
                push_str(&mut e, m.as_str());
                self.error_msg = e;
            },
            Err(TemplateFailure::Render(m)) => {
                let mut e = "Render failed: ".to_owned();
                push_str(&mut e, m.as_str());
                self.error_msg = e;
            },
        }
    }

    /// Renders the template with the variables.
    pub fn render_template(&mut self)
        ensures
            final(self).template_name == old(self).template_name,
            final(self).template_content == old(self).template_content,
            final(self).vars == old(self).vars,
            match minijinja_render(
                old(self).template_name@,
                old(self).template_content@,
                pairs(old(self).vars@),
            ) {
                Ok(s) => final(self).rendered_output@ == s && final(self).error_msg@ == Seq::<
                    char,
                >::empty(),
                Err(f) => final(self).rendered_output == old(self).rendered_output
                    && final(self).error_msg@ == failure_message(f),
            },
    {
        let outcome = render_with_minijinja(
            self.template_name.as_str(),
            self.template_content.as_str(),
            self.vars.as_slice(),
        );
        self.apply_render_outcome(outcome);
    }
}

} // verus!
