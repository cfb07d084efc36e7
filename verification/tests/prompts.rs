//! Prompts and the templates that they are made of.
use flovo::json::parse_json;
use flovo::prompt::{PromptBase, PromptFactory, PromptKind, TemplateLoad};
use flovo::value::Json;

fn j(text: &str) -> Json {
    parse_json(text).unwrap()
}

fn templates() -> tera::Tera {
    let mut tera = tera::Tera::default();
    tera.add_raw_template("hello.md", "你好，{{ params.name }}！剩余次数：{{ params.remaining }}")
        .unwrap();
    tera.add_raw_template("intent.md", "用户说：{{ params.text }}").unwrap();
    tera
}

fn factory() -> PromptFactory {
    match PromptFactory::new("prompts", TemplateLoad::Loaded(templates())) {
        Ok(factory) => factory,
        Err(e) => panic!("{}", e.to_text()),
    }
}

#[test]
fn test_factory_new_ok() {
    assert!(PromptFactory::new("prompts", TemplateLoad::Loaded(templates())).is_ok());
    assert_eq!(factory().template_dir(), "prompts");
}

#[test]
fn test_factory_new_missing_dir() {
    let result = PromptFactory::new("/nonexistent/path/xyz", TemplateLoad::Missing);
    let msg = result.err().unwrap().to_text();
    assert!(msg.contains("not found") || msg.contains("Not found"), "got: {msg}");
    assert_eq!(msg, "IO error: Template directory not found: /nonexistent/path/xyz");
}

#[test]
fn templates_that_do_not_load_are_reported() {
    let result = PromptFactory::new("d", TemplateLoad::Failed("broken".to_string()));
    assert_eq!(
        result.err().unwrap().to_text(),
        "Failed to load templates from 'd': broken"
    );
    let mut factory = factory();
    let error = factory.reload(Err("broken".to_string())).unwrap_err();
    assert_eq!(error.to_text(), "Template error: broken");
    assert_eq!(factory.template_names().len(), 2);
    factory.reload(Ok(tera::Tera::default())).unwrap();
    assert!(factory.template_names().is_empty());
}

#[test]
fn test_build_prompt_chat() {
    let params = j(r#"{ "name": "张三", "remaining": 3 }"#);
    let prompt = factory().chat("hello.md", &params).unwrap();
    assert_eq!(prompt.kind, PromptKind::Chat);
    assert!(prompt.content.contains("张三"));
    assert!(prompt.content.contains("3"));
    assert_eq!(prompt.as_str(), "你好，张三！剩余次数：3");
}

#[test]
fn test_build_prompt_chat_stream() {
    let params = j(r#"{ "name": "李四", "remaining": 5 }"#);
    let prompt = factory().chat_stream("hello.md", &params).unwrap();
    assert_eq!(prompt.kind, PromptKind::ChatStream);
}

#[test]
fn test_build_prompt_intent_analysis() {
    let params = j(r#"{ "text": "我有点累了" }"#);
    let prompt = factory().intent_analysis("intent.md", &params).unwrap();
    assert_eq!(prompt.kind, PromptKind::IntentAnalysis);
    assert!(prompt.content.contains("我有点累了"));
}

#[test]
fn test_template_not_found() {
    let error = factory().chat("nonexistent.md", &j("{}")).unwrap_err();
    assert_eq!(
        error.to_text(),
        "Template 'nonexistent.md' not found in 'prompts': Template 'nonexistent.md' not found"
    );
}

#[test]
fn templates_that_are_not_there_are_known_before() {
    let missing = factory().missing_error(PromptKind::Chat, "nonexistent.md", &j("{}")).unwrap();
    assert_eq!(
        missing.to_text(),
        "Template 'nonexistent.md' not found in 'prompts': Template 'nonexistent.md' not found"
    );
    assert!(factory().missing_error(PromptKind::Chat, "hello.md", &j("{}")).is_none());
}

#[test]
fn renderings_that_fail_are_reported() {
    let error = factory().chat("hello.md", &j("{}")).unwrap_err();
    assert_eq!(
        error.to_text(),
        "Failed to render template 'hello.md': Failed to render 'hello.md'"
    );
    let finish = |rendered: Result<String, String>| {
        PromptFactory::finish_prompt(PromptKind::Chat, "t", "d", rendered)
            .map(|p| p.content)
            .map_err(|e| e.to_text())
    };
    assert_eq!(finish(Ok("text".to_string())), Ok("text".to_string()));
    assert_eq!(
        finish(Err("x not found".to_string())),
        Err("Template 't' not found in 'd': x not found".to_string())
    );
    assert_eq!(
        finish(Err("x".to_string())),
        Err("Failed to render template 't': x".to_string())
    );
}

#[test]
fn test_template_names() {
    let mut names = factory().template_names();
    assert_eq!(names.len(), 2);
    names.sort();
    assert_eq!(names, vec!["hello.md", "intent.md"]);
}

#[test]
fn prompts_keep_their_text() {
    let prompt = PromptBase::new(PromptKind::Chat, "text".to_string());
    assert_eq!(prompt.as_str(), "text");
}
