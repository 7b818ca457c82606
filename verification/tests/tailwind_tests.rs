use viontin_gems::tailwind::compiler::{
    collect_classes, compile_contents, compile_source, content_patterns, extract_classes, full_pattern,
};
use viontin_gems::tailwind::config::{TailwindConfig, TomlConfig, TomlOutput};
use viontin_gems::tailwind::{compile_source as gem_compile_source, Gem};
use viontin_gems::gems::GemKind;

fn sorted(mut v: Vec<String>) -> Vec<String> {
    v.sort();
    v
}

#[test]
fn extract_classes_from_both_quote_styles() {
    let html = r#"<div class="p-4  bg-red-500"><span CLASS='text-white p-4'>x</span></div>"#;
    assert_eq!(sorted(extract_classes(html)), vec!["bg-red-500", "p-4", "text-white"]);
}

#[test]
fn extract_classes_edge_cases() {
    assert!(extract_classes("").is_empty());
    assert!(extract_classes("class=\"\"").is_empty());
    assert!(extract_classes("no attributes here").is_empty());
    assert_eq!(extract_classes("class=\"unclosed a"), vec!["unclosed", "a"]);
    assert_eq!(sorted(extract_classes("Class=\"é-1 x\" class='y'")), vec!["x", "y", "é-1"]);
    assert_eq!(extract_classes("class = \"spaced\""), Vec::<String>::new());
    assert_eq!(extract_classes("class=\"a\" class=\"a\""), vec!["a"]);
}

#[test]
fn collect_classes_across_files() {
    let files = vec!["class=\"a b\"".to_string(), "class='b c'".to_string()];
    assert_eq!(sorted(collect_classes(&files)), vec!["a", "b", "c"]);
}

#[test]
fn compile_without_classes_is_empty() {
    assert_eq!(compile_source("nothing").unwrap(), "");
    assert!(gem_compile_source("nothing").ok().unwrap().is_empty());
    assert_eq!(compile_contents(&vec!["plain".to_string()]), Ok(String::new()));
}

#[test]
fn compile_with_classes_emits_css() {
    let css = compile_source("<p class=\"bg-blue-500\"></p>").unwrap();
    assert!(css.contains("bg-blue-500"));
    let css = compile_contents(&vec!["<p class=\"text-white\"></p>".to_string()]).unwrap();
    assert!(css.contains("text-white"));
}

#[test]
fn compile_skips_unknown_classes() {
    assert_eq!(compile_source("<p class=\"zzqq-nonsense\"></p>").unwrap(), "");
    let css = compile_source("<p class=\"zzqq-nonsense p-4\"></p>").unwrap();
    assert!(css.contains("p-4"));
    assert!(!css.contains("zzqq"));
}

#[test]
fn compile_contents_needs_files() {
    assert_eq!(compile_contents(&vec![]), Err("No content files found".to_string()));
}

#[test]
fn patterns_and_roots() {
    assert_eq!(content_patterns(), vec!["src/**/*.rs", "src/**/*.html", "html/**/*.html"]);
    assert_eq!(full_pattern("/proj", "src/**/*.rs"), "/proj/src/**/*.rs");
    assert_eq!(full_pattern("/proj", "/abs/*.html"), "/abs/*.html");
}

#[test]
fn config_from_toml() {
    assert_eq!(TailwindConfig::default().output_path, "assets/tailwind.css");
    assert_eq!(TailwindConfig::from_toml(None).output_path, "assets/tailwind.css");
    let no_output = TomlConfig { output: None };
    assert_eq!(TailwindConfig::from_toml(Some(no_output)).output_path, "assets/tailwind.css");
    let no_path = TomlConfig { output: Some(TomlOutput { path: None }) };
    assert_eq!(TailwindConfig::from_toml(Some(no_path)).output_path, "assets/tailwind.css");
    let set = TomlConfig { output: Some(TomlOutput { path: Some("public/app.css".to_string()) }) };
    assert_eq!(TailwindConfig::from_toml(Some(set)).output_path, "public/app.css");
}

#[test]
fn tailwind_meta() {
    let m = Gem.meta();
    assert_eq!(m.name, "tailwind");
    assert_eq!(m.version, "0.1.0");
    assert_eq!(m.kind, GemKind::Theme);
}
