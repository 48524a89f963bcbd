use handlebars::{
    to_json, BlockContext, BlockParams, Context, Handlebars, Helper, HelperDef, HelperResult,
    Output, RenderContext, RenderError, Renderable,
};
use hogan::json::{Json, JsonNumber};
use hogan::transform::helper_comma_delimited_list::ListPlan;
use hogan::transform::{
    old_escape_html, CommaDelimitedListHelper, EqualHelper, HelperAction, HelperError,
    LowercaseHelper, OrHelper, UrlAddSlashHelper, UrlRmPathHelper, UrlRmSlashHelper,
    YamlStringHelper,
};
use serde_json::Value;

const CONFIG_TEST: &str = r#"{
  "Environment": "TEST",
  "ConfigData": {
    "Memcache": {
      "Servers": [
        { "Endpoint": "192.168.1.100", "Port": "1122" },
        { "Endpoint": "192.168.1.101", "Port": "1122" },
        { "Endpoint": "192.168.1.102", "Port": "1122" }
      ]
    },
    "Region": { "Key": "TEST" },
    "DB": { "Endpoint": "host-name\\TEST\"" },
    "SlashService": { "endpoint": "https://slash.com/" },
    "NonSlashService": {
      "endpoint": "https://nonslash.com",
      "notAnEndpoint": "no-protocol.no-slash.com"
    },
    "PathService": {
      "endpoint": "https://path.com/path/remove-this",
      "trailingSlash": "https://trailing-path.com/path/remove-this/"
    },
    "UpperCaseString": "UPPERCASE"
  }
}"#;

fn config_fixture() -> Value {
    let mut config: Value = serde_json::from_str(CONFIG_TEST).unwrap();
    config["ConfigData"].take()
}

fn to_model(v: &Value) -> Json {
    match v {
        Value::Null => Json::Null,
        Value::Bool(b) => Json::Bool(*b),
        Value::Number(n) => {
            if let Some(u) = n.as_u64() {
                Json::Number(JsonNumber::PosInt(u))
            } else if let Some(i) = n.as_i64() {
                Json::Number(JsonNumber::NegInt(i))
            } else {
                Json::Number(JsonNumber::Float(n.as_f64().unwrap_or(0.0).to_bits()))
            }
        }
        Value::String(s) => Json::String(s.clone()),
        Value::Array(a) => Json::Array(a.iter().map(to_model).collect()),
        Value::Object(m) => {
            Json::Object(m.iter().map(|(k, v)| (k.clone(), to_model(v))).collect())
        }
    }
}

fn render_error(e: HelperError, param: Option<&handlebars::PathAndJson>) -> RenderError {
    match e {
        HelperError::MissingParam { message } => RenderError::new(message),
        HelperError::WrongParamType { message } => {
            RenderError::new(format!("{}: {:?}", message, param))
        }
    }
}

struct StringGlue<F>(F);

impl<F> HelperDef for StringGlue<F>
where
    F: Fn(Option<&Json>) -> Result<String, HelperError> + Send + Sync,
{
    fn call<'reg: 'rc, 'rc>(
        &self,
        h: &Helper<'reg, 'rc>,
        _: &'reg Handlebars<'reg>,
        _: &'rc Context,
        _: &mut RenderContext<'reg, 'rc>,
        out: &mut dyn Output,
    ) -> HelperResult {
        let param = h.param(0).map(|p| to_model(p.value()));
        match (self.0)(param.as_ref()) {
            Ok(text) => {
                out.write(&text)?;
                Ok(())
            }
            Err(e) => Err(render_error(e, h.param(0))),
        }
    }
}

struct ComparisonGlue<F>(F);

impl<F> HelperDef for ComparisonGlue<F>
where
    F: Fn(Option<&Json>, Option<&Json>, bool) -> Result<HelperAction, HelperError> + Send + Sync,
{
    fn call<'reg: 'rc, 'rc>(
        &self,
        h: &Helper<'reg, 'rc>,
        r: &'reg Handlebars<'reg>,
        ctx: &'rc Context,
        rc: &mut RenderContext<'reg, 'rc>,
        out: &mut dyn Output,
    ) -> HelperResult {
        let left = h.param(0).map(|p| to_model(p.value()));
        let right = h.param(1).map(|p| to_model(p.value()));
        match (self.0)(left.as_ref(), right.as_ref(), h.is_block()) {
            Ok(HelperAction::RenderTemplate) => match h.template() {
                Some(t) => t.render(r, ctx, rc, out),
                None => Ok(()),
            },
            Ok(HelperAction::RenderInverse) => match h.inverse() {
                Some(t) => t.render(r, ctx, rc, out),
                None => Ok(()),
            },
            Ok(HelperAction::Write(text)) => {
                out.write(&text)?;
                Ok(())
            }
            Ok(HelperAction::Nothing) => Ok(()),
            Err(e) => Err(render_error(e, h.param(0))),
        }
    }
}

struct CommaListGlue;

impl HelperDef for CommaListGlue {
    fn call<'reg: 'rc, 'rc>(
        &self,
        h: &Helper<'reg, 'rc>,
        r: &'reg Handlebars<'reg>,
        ctx: &'rc Context,
        rc: &mut RenderContext<'reg, 'rc>,
        out: &mut dyn Output,
    ) -> HelperResult {
        let value = h.param(0);
        let param = value.map(|p| to_model(p.value()));
        match CommaDelimitedListHelper.plan(param.as_ref(), h.template().is_some()) {
            Err(e) => Err(render_error(e, value)),
            Ok(ListPlan::Nothing) => Ok(()),
            Ok(ListPlan::RenderEach { .. }) => {
                let (value, template) = match (value, h.template()) {
                    (Some(v), Some(t)) => (v, t),
                    _ => return Ok(()),
                };
                let list = match value.value() {
                    Value::Array(list) => list,
                    _ => return Ok(()),
                };
                let mut rendered = Vec::new();
                for (i, item) in list.iter().enumerate() {
                    let mut local_rc = rc.clone();
                    if let Some(block_rc) = local_rc.block_mut() {
                        if let Some(inner_path) = value.context_path() {
                            let block_path = block_rc.base_path_mut();
                            block_path.append(&mut inner_path.to_owned());
                            block_path.push(i.to_string());
                        }
                    }
                    if let Some(block_param) = h.block_param() {
                        let mut new_block = BlockContext::new();
                        let mut block_params = BlockParams::new();
                        block_params.add_value(block_param, to_json(item))?;
                        new_block.set_block_params(block_params);
                        local_rc.push_block(new_block);
                    }
                    rendered.push(template.renders(r, ctx, &mut local_rc)?);
                }
                out.write(&CommaDelimitedListHelper.join(&rendered))?;
                Ok(())
            }
        }
    }
}

fn test_against_configs(handlebars: &Handlebars, template: &str, expected: &str) {
    let config_rendered = handlebars.render_template(template, &config_fixture());
    assert!(config_rendered.is_ok());
    assert_eq!(&config_rendered.unwrap(), expected);

    let null_rendered = handlebars.render_template(template, &Value::Null);
    assert!(null_rendered.is_ok());
    assert_eq!(&null_rendered.unwrap(), "");
}

fn equal_glue() -> Box<dyn HelperDef + Send + Sync> {
    Box::new(ComparisonGlue(|l: Option<&Json>, r: Option<&Json>, b: bool| {
        EqualHelper.evaluate(l, r, b)
    }))
}

fn or_glue() -> Box<dyn HelperDef + Send + Sync> {
    Box::new(ComparisonGlue(|l: Option<&Json>, r: Option<&Json>, b: bool| {
        OrHelper.evaluate(l, r, b)
    }))
}

#[test]
fn helper_comma_delimited_list_test_comma_list() {
    let mut handlebars = Handlebars::new();
    handlebars.register_helper("comma-list", Box::new(CommaListGlue));

    test_against_configs(
        &handlebars,
        "{{#comma-list Memcache.Servers}}{{Endpoint}}:{{Port}}{{/comma-list}}",
        "192.168.1.100:1122,192.168.1.101:1122,192.168.1.102:1122",
    );
}

#[test]
fn helper_equal_test_equal() {
    let mut handlebars = Handlebars::new();
    handlebars.register_helper("equal", equal_glue());
    handlebars.register_helper("eq", equal_glue());

    let templates = vec![
        (r#"{{#equal Region.Key "TEST"}}Foo{{/equal}}"#, "Foo"),
        (r#"{{#equal Region.Key null}}{{else}}Bar{{/equal}}"#, "Bar"),
        (r#"{{#eq Region.Key "TEST"}}Foo{{/eq}}"#, "Foo"),
        (r#"{{#eq Region.Key null}}{{else}}Bar{{/eq}}"#, "Bar"),
        (r#"{{#if (equal Region.Key "TEST")}}Foo{{/if}}"#, "Foo"),
        (
            r#"{{#if (equal Region.Key null)}}{{else}}Bar{{/if}}"#,
            "Bar",
        ),
        (r#"{{#if (eq Region.Key "TEST")}}Foo{{/if}}"#, "Foo"),
        (r#"{{#if (eq Region.Key null)}}{{else}}Bar{{/if}}"#, "Bar"),
    ];

    for (template, expected) in templates {
        test_against_configs(&handlebars, template, expected)
    }
}

#[test]
fn helper_lowercase_test_lowercase() {
    let mut handlebars = Handlebars::new();
    handlebars.register_helper(
        "lowercase",
        Box::new(StringGlue(|p: Option<&Json>| LowercaseHelper.render(p))),
    );

    test_against_configs(&handlebars, "{{lowercase UpperCaseString}}", "uppercase");
}

#[test]
fn test_or() {
    let mut handlebars = Handlebars::new();
    handlebars.register_helper("eq", equal_glue());
    handlebars.register_helper("or", or_glue());

    let templates = vec![
        (
            r#"{{#or (eq Region.Key "TEST") (eq Region.Key "TEST2")}}Foo{{/or}}"#,
            "Foo",
        ),
        (
            r#"{{#or (eq Region.Key null) (eq Region.Key "NO")}}{{else}}Bar{{/or}}"#,
            "Bar",
        ),
        (
            r#"{{#if (or (eq Region.Key "TEST") (eq Region.Key "TEST2"))}}Foo{{/if}}"#,
            "Foo",
        ),
        (
            r#"{{#if (or (eq Region.Key null) (eq Region.Key "NO"))}}{{else}}Bar{{/if}}"#,
            "Bar",
        ),
    ];

    for (template, expected) in templates {
        test_against_configs(&handlebars, template, expected)
    }
}

#[test]
fn helper_url_add_slash_test_url_add_slash() {
    let mut handlebars = Handlebars::new();
    handlebars.register_helper(
        "url-add-slash",
        Box::new(StringGlue(|p: Option<&Json>| UrlAddSlashHelper.render(p))),
    );

    let templates = vec![
        (
            "{{url-add-slash NonSlashService.endpoint}}",
            "https://nonslash.com/",
        ),
        (
            "{{url-add-slash NonSlashService.notAnEndpoint}}",
            "no-protocol.no-slash.com",
        ),
    ];

    for (template, expected) in templates {
        test_against_configs(&handlebars, template, expected)
    }
}

#[test]
fn helper_url_rm_path_test_url_rm_path() {
    let mut handlebars = Handlebars::new();
    handlebars.register_helper(
        "url-rm-path",
        Box::new(StringGlue(|p: Option<&Json>| UrlRmPathHelper.render(p))),
    );

    let templates = vec![
        (
            "{{url-rm-path PathService.endpoint}}",
            "https://path.com/path",
        ),
        (
            "{{url-rm-path PathService.trailingSlash}}",
            "https://trailing-path.com/path",
        ),
    ];

    for (template, expected) in templates {
        test_against_configs(&handlebars, template, expected)
    }
}

#[test]
fn helper_url_rm_path_test_double_url_rm_path() {
    let mut handlebars = Handlebars::new();
    handlebars.register_helper(
        "url-rm-path",
        Box::new(StringGlue(|p: Option<&Json>| UrlRmPathHelper.render(p))),
    );

    test_against_configs(
        &handlebars,
        "{{url-rm-path (url-rm-path PathService.trailingSlash)}}",
        "https://trailing-path.com",
    );
}

#[test]
fn helper_url_rm_slash_test_url_rm_slash() {
    let mut handlebars = Handlebars::new();
    handlebars.register_helper(
        "url-rm-slash",
        Box::new(StringGlue(|p: Option<&Json>| UrlRmSlashHelper.render(p))),
    );

    test_against_configs(
        &handlebars,
        "{{url-rm-slash SlashService.endpoint}}",
        "https://slash.com",
    );
}

#[test]
fn helper_yaml_string_test_yaml_string() {
    let mut handlebars = Handlebars::new();
    handlebars.register_helper(
        "yaml-string",
        Box::new(StringGlue(|p: Option<&Json>| YamlStringHelper.render(p))),
    );

    test_against_configs(
        &handlebars,
        "{{yaml-string DB.Endpoint}}",
        r#"host-name\\TEST\""#,
    );
}

#[test]
fn readme_comma_list_example() {
    let mut handlebars = Handlebars::new();
    handlebars.register_helper("comma-list", Box::new(CommaListGlue));
    let config: Value = serde_json::from_str(
        r#"{"Memcache": {"Servers": [
            {"Endpoint": "192.168.1.100", "Port": "1122"},
            {"Endpoint": "192.168.1.101", "Port": "1122"},
            {"Endpoint": "192.168.1.102", "Port": "1122"}]}}"#,
    )
    .unwrap();
    let rendered = handlebars
        .render_template(
            "{{#comma-list Memcache.Servers}}{{Endpoint}}:{{Port}}{{/comma-list}}",
            &config,
        )
        .unwrap();
    assert_eq!(
        rendered,
        "192.168.1.100:1122,192.168.1.101:1122,192.168.1.102:1122"
    );
}

#[test]
fn readme_yaml_string_example() {
    let out = YamlStringHelper
        .render(Some(&Json::String("C:\\Program Files\\My App".to_string())))
        .unwrap();
    assert_eq!(out, r#"C:\\Program Files\\My App"#);
}

#[test]
fn readme_url_examples() {
    let s = |t: &str| Json::String(t.to_string());
    assert_eq!(
        UrlRmSlashHelper.render(Some(&s("https://slash.com/"))).unwrap(),
        "https://slash.com"
    );
    assert_eq!(
        UrlAddSlashHelper.render(Some(&s("https://nonslash.com"))).unwrap(),
        "https://nonslash.com/"
    );
    assert_eq!(
        UrlRmPathHelper
            .render(Some(&s("https://path.com/path/remove-this")))
            .unwrap(),
        "https://path.com/path"
    );
}

#[test]
fn url_add_then_rm_slash_round_trip() {
    let s = Json::String("https://example.com/a".to_string());
    let added = UrlAddSlashHelper.render(Some(&s)).unwrap();
    assert_eq!(added, "https://example.com/a/");
    let removed = UrlRmSlashHelper
        .render(Some(&Json::String(added)))
        .unwrap();
    assert_eq!(removed, "https://example.com/a");
}

#[test]
fn string_helpers_report_missing_and_wrong_params() {
    assert_eq!(
        UrlRmSlashHelper.render(None),
        Err(HelperError::MissingParam {
            message: "Param not found for helper \"url-rm-slash\"".to_string()
        })
    );
    assert_eq!(
        LowercaseHelper.render(Some(&Json::Bool(true))),
        Err(HelperError::WrongParamType {
            message: "Param type is not string for helper \"lowercase\"".to_string()
        })
    );
    assert_eq!(YamlStringHelper.render(Some(&Json::Null)), Ok(String::new()));
}

#[test]
fn yaml_string_escapes_control_characters() {
    let out = YamlStringHelper
        .render(Some(&Json::String("a\nb\t\u{1}\"".to_string())))
        .unwrap();
    assert_eq!(out, "a\\nb\\t\\u0001\\\"");
}

#[test]
fn comparison_helpers_report_missing_params() {
    assert_eq!(
        EqualHelper.evaluate(None, None, true),
        Err(HelperError::MissingParam {
            message: "Left param not found for helper \"equal\"".to_string()
        })
    );
    assert_eq!(
        OrHelper.evaluate(Some(&Json::Null), None, false),
        Err(HelperError::MissingParam {
            message: "Right param not found for helper \"or\"".to_string()
        })
    );
}

#[test]
fn equal_helper_inline_and_block() {
    let a = Json::String("x".to_string());
    let b = Json::String("x".to_string());
    assert_eq!(
        EqualHelper.evaluate(Some(&a), Some(&b), false),
        Ok(HelperAction::Write("true".to_string()))
    );
    assert_eq!(
        EqualHelper.evaluate(Some(&a), Some(&Json::Null), false),
        Ok(HelperAction::Nothing)
    );
    assert_eq!(
        EqualHelper.evaluate(Some(&a), Some(&Json::Null), true),
        Ok(HelperAction::RenderInverse)
    );
}

#[test]
fn or_helper_needs_a_nonempty_string() {
    let empty = Json::String(String::new());
    let full = Json::String("x".to_string());
    assert_eq!(
        OrHelper.evaluate(Some(&empty), Some(&Json::Bool(true)), true),
        Ok(HelperAction::RenderInverse)
    );
    assert_eq!(
        OrHelper.evaluate(Some(&empty), Some(&full), true),
        Ok(HelperAction::RenderTemplate)
    );
}

#[test]
fn comma_list_plan_and_join() {
    let list = Json::Array(vec![Json::Null, Json::Null]);
    assert_eq!(
        CommaDelimitedListHelper.plan(Some(&list), true),
        Ok(ListPlan::RenderEach { count: 2 })
    );
    assert_eq!(
        CommaDelimitedListHelper.plan(Some(&list), false),
        Ok(ListPlan::Nothing)
    );
    assert_eq!(
        CommaDelimitedListHelper.plan(Some(&Json::Bool(false)), true),
        Err(HelperError::WrongParamType {
            message: "Param type is not array for helper \"comma-list\"".to_string()
        })
    );
    let parts = vec!["a".to_string(), "b".to_string(), "c".to_string()];
    assert_eq!(CommaDelimitedListHelper.join(&parts), "a,b,c");
    assert_eq!(CommaDelimitedListHelper.join(&Vec::new()), "");
}

#[test]
fn escape_html_entities() {
    assert_eq!(old_escape_html("<a href=\"x\">&'</a>"), "&lt;a href=&quot;x&quot;&gt;&amp;'&lt;/a&gt;");
    assert_eq!(old_escape_html("plain text"), "plain text");
}

fn string_glue<F>(f: F) -> Box<dyn HelperDef + Send + Sync>
where
    F: Fn(Option<&Json>) -> Result<String, HelperError> + Send + Sync + 'static,
{
    Box::new(StringGlue(f))
}

#[test]
fn helpers_test_comma_list() {
    let mut handlebars = Handlebars::new();
    handlebars.register_helper("comma-list", Box::new(CommaListGlue));

    test_against_configs(
        &handlebars,
        "{{#comma-list Memcache.Servers}}{{Endpoint}}:{{Port}}{{/comma-list}}",
        "192.168.1.100:1122,192.168.1.101:1122,192.168.1.102:1122",
    );
}

#[test]
fn helpers_test_equal() {
    let mut handlebars = Handlebars::new();
    handlebars.register_helper("equal", equal_glue());

    let templates = vec![
        (r#"{{#equal Region.Key "TEST"}}Foo{{/equal}}"#, "Foo"),
        (r#"{{#equal Region.Key null}}{{else}}Bar{{/equal}}"#, "Bar"),
    ];

    for (template, expected) in templates {
        test_against_configs(&handlebars, template, expected)
    }
}

#[test]
fn helpers_test_yaml_string() {
    let mut handlebars = Handlebars::new();
    handlebars.register_helper(
        "yaml-string",
        string_glue(|p: Option<&Json>| YamlStringHelper.render(p)),
    );

    test_against_configs(
        &handlebars,
        "{{yaml-string DB.Endpoint}}",
        r#"host-name\\TEST\""#,
    );
}

#[test]
fn helpers_test_url_rm_slash() {
    let mut handlebars = Handlebars::new();
    handlebars.register_helper(
        "url-rm-slash",
        string_glue(|p: Option<&Json>| UrlRmSlashHelper.render(p)),
    );

    test_against_configs(
        &handlebars,
        "{{url-rm-slash SlashService.endpoint}}",
        "https://slash.com",
    );
}

#[test]
fn helpers_test_url_add_slash() {
    let mut handlebars = Handlebars::new();
    handlebars.register_helper(
        "url-add-slash",
        string_glue(|p: Option<&Json>| UrlAddSlashHelper.render(p)),
    );

    let templates = vec![
        (
            "{{url-add-slash NonSlashService.endpoint}}",
            "https://nonslash.com/",
        ),
        (
            "{{url-add-slash NonSlashService.notAnEndpoint}}",
            "no-protocol.no-slash.com",
        ),
    ];

    for (template, expected) in templates {
        test_against_configs(&handlebars, template, expected)
    }
}

#[test]
fn helpers_test_url_rm_path() {
    let mut handlebars = Handlebars::new();
    handlebars.register_helper(
        "url-rm-path",
        string_glue(|p: Option<&Json>| UrlRmPathHelper.render(p)),
    );

    let templates = vec![
        (
            "{{url-rm-path PathService.endpoint}}",
            "https://path.com/path",
        ),
        (
            "{{url-rm-path PathService.trailingSlash}}",
            "https://trailing-path.com/path",
        ),
    ];

    for (template, expected) in templates {
        test_against_configs(&handlebars, template, expected)
    }
}

#[test]
fn helpers_test_double_url_rm_path() {
    let mut handlebars = Handlebars::new();
    handlebars.register_helper(
        "url-rm-path",
        string_glue(|p: Option<&Json>| UrlRmPathHelper.render(p)),
    );

    test_against_configs(
        &handlebars,
        "{{url-rm-path (url-rm-path PathService.trailingSlash)}}",
        "https://trailing-path.com",
    );
}

#[test]
fn helpers_test_lowercase() {
    let mut handlebars = Handlebars::new();
    handlebars.register_helper(
        "lowercase",
        string_glue(|p: Option<&Json>| LowercaseHelper.render(p)),
    );

    test_against_configs(&handlebars, "{{lowercase UpperCaseString}}", "uppercase");
}

#[test]
fn yaml_string_output_reads_back_as_the_text() {
    for text in ["C:\\Program Files\\My App", "a\"b\n\t\u{1}\u{1f}/é", ""] {
        let out = YamlStringHelper
            .render(Some(&Json::String(text.to_string())))
            .unwrap();
        let back: String = serde_json::from_str(&format!("\"{}\"", out)).unwrap();
        assert_eq!(back, text);
    }
}
