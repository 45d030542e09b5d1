use gul::autonomous::ai_codegen::{AiCodeGenerator, AiProvider, CodeGenRequest};

fn request(prompt: &str, language: &str) -> CodeGenRequest {
    CodeGenRequest {
        prompt: prompt.to_string(),
        language: language.to_string(),
        context: vec![],
        max_tokens: 500,
        temperature_percent: 70,
    }
}

#[test]
fn test_code_generator_creation() {
    let gen = AiCodeGenerator::new(AiProvider::OpenAI);
    assert_eq!(*gen.provider(), AiProvider::OpenAI);
}

#[test]
fn test_fibonacci_generation() {
    let mut gen = AiCodeGenerator::new(AiProvider::Local);
    let request = CodeGenRequest {
        prompt: "Create a function to calculate fibonacci numbers".to_string(),
        language: "rust".to_string(),
        context: vec![],
        max_tokens: 500,
        temperature_percent: 70,
    };

    let response = gen.generate_code(request).unwrap();
    assert!(response.code.contains("fibonacci"));
    assert!(response.confidence_percent as f32 / 100.0 > 0.0);
}

#[test]
fn test_code_completion() {
    let gen = AiCodeGenerator::new(AiProvider::Local);
    let completions = gen.complete_code("fn ", &[]);
    assert!(!completions.is_empty());
}

#[test]
fn test_bug_fix_suggestions() {
    let gen = AiCodeGenerator::new(AiProvider::Local);
    let suggestions = gen.suggest_fix("cannot find value `x`", "println!(x);");
    assert!(!suggestions.is_empty());
}

#[test]
fn test_test_generation() {
    let gen = AiCodeGenerator::new(AiProvider::Local);
    let tests = gen.generate_tests("fn add(a: i32, b: i32) -> i32 { a + b }", "rust");
    assert!(tests.contains("#[test]"));
}

#[test]
fn test_cache() {
    let mut gen = AiCodeGenerator::new(AiProvider::Local);
    let request = CodeGenRequest {
        prompt: "test".to_string(),
        language: "rust".to_string(),
        context: vec![],
        max_tokens: 100,
        temperature_percent: 50,
    };

    gen.generate_code(request.clone()).unwrap();
    assert_eq!(gen.cache_size(), 1);

    // Second call should use cache
    gen.generate_code(request).unwrap();
    assert_eq!(gen.cache_size(), 1);

    gen.clear_cache();
    assert_eq!(gen.cache_size(), 0);
}

#[test]
fn test_http_server_generation() {
    let mut gen = AiCodeGenerator::new(AiProvider::Local);
    let request = CodeGenRequest {
        prompt: "Create an HTTP server".to_string(),
        language: "rust".to_string(),
        context: vec![],
        max_tokens: 500,
        temperature_percent: 70,
    };

    let response = gen.generate_code(request).unwrap();
    assert!(response.code.contains("TcpListener") || response.code.contains("HTTP"));
}

#[test]
fn models_follow_the_provider() {
    assert_eq!(AiCodeGenerator::new(AiProvider::OpenAI).model(), "gpt-4");
    assert_eq!(AiCodeGenerator::new(AiProvider::Local).model(), "codellama");
    assert_eq!(AiCodeGenerator::default().model(), "codellama");
    assert_eq!(*AiCodeGenerator::default().provider(), AiProvider::Local);
    assert_eq!(AiCodeGenerator::new(AiProvider::Custom("mine".to_string())).model(), "mine");
    let chosen = AiCodeGenerator::new(AiProvider::OpenAI)
        .with_api_key("k".to_string())
        .with_model("other".to_string());
    assert_eq!(chosen.model(), "other");
    assert_eq!(*chosen.provider(), AiProvider::OpenAI);
}

#[test]
fn templates_are_chosen_by_the_words_of_the_prompt() {
    let mut gen = AiCodeGenerator::default();
    let code = |gen: &mut AiCodeGenerator, prompt: &str, language: &str| {
        gen.generate_code(request(prompt, language)).unwrap().code
    };
    assert!(code(&mut gen, "A FUNCTION for Fibonacci", "python").starts_with("def fibonacci(n: int)"));
    assert_eq!(
        code(&mut gen, "fibonacci function", "go"),
        "// Fibonacci function in go\n// Not implemented"
    );
    // without the word "function" the fibonacci template is not chosen
    assert_eq!(
        code(&mut gen, "fibonacci", "rust"),
        "// Generated code for: fibonacci\n// Language: rust\n\n// TODO: Implement functionality\n"
    );
    assert!(code(&mut gen, "Sort a list", "rust").starts_with("pub fn quick_sort<T: Ord>"));
    assert_eq!(code(&mut gen, "sort", "c"), "// Sort function in c\n// Not implemented");
    // "sort" comes before "http server"
    assert!(code(&mut gen, "sort http server", "rust").starts_with("pub fn quick_sort"));
    assert_eq!(code(&mut gen, "http server", "js"), "// HTTP server in js\n// Not implemented");
    assert!(code(&mut gen, "a Struct for users", "rust")
        .starts_with("// Generated from: a Struct for users\n\n#[derive(Debug, Clone)]\npub struct DataStructure {"));
    assert_eq!(
        code(&mut gen, "a class", "java"),
        "// Data structure in java\n// Not implemented"
    );
}

#[test]
fn response_in_full() {
    let mut gen = AiCodeGenerator::default();
    let response = gen.generate_code(request("hello", "gul")).unwrap();
    assert_eq!(
        response.code,
        "// Generated code for: hello\n// Language: gul\n\n// TODO: Implement functionality\n"
    );
    assert_eq!(
        response.explanation,
        "Generated gul code for: hello\n\nThe code implements the requested functionality with:\n- Type safety\n- Error handling\n- Performance optimization\n\nLines of code: 4"
    );
    assert_eq!(response.confidence_percent, 85);
    assert_eq!(
        response.suggestions,
        vec!["Consider adding error handling", "Add unit tests for this function"]
    );
    let fib = gen.generate_code(request("fibonacci function", "rust")).unwrap();
    assert!(fib.explanation.ends_with("Lines of code: 21"));
    assert!(fib.code.ends_with("    b\n}"));
}

#[test]
fn cache_is_keyed_by_prompt_colon_language() {
    let mut gen = AiCodeGenerator::default();
    let first = gen.generate_code(request("a:b", "c")).unwrap();
    // another request with the same key gets the kept answer
    let second = gen.generate_code(request("a", "b:c")).unwrap();
    assert_eq!(gen.cache_size(), 1);
    assert_eq!(second.code, first.code);
    assert_eq!(second.explanation, first.explanation);
    gen.generate_code(request("a", "c")).unwrap();
    assert_eq!(gen.cache_size(), 2);
    gen.clear_cache();
    let fresh = gen.generate_code(request("a", "b:c")).unwrap();
    assert_eq!(
        fresh.code,
        "// Generated code for: a\n// Language: b:c\n\n// TODO: Implement functionality\n"
    );
}

#[test]
fn completions_by_the_end_of_the_prefix() {
    let gen = AiCodeGenerator::default();
    assert_eq!(
        gen.complete_code("pub fn ", &[]),
        vec!["main() {", "new() -> Self {", "process() -> Result<(), Error> {"]
    );
    assert_eq!(gen.complete_code("pub ", &[]), vec!["fn ", "struct ", "enum "]);
    assert_eq!(gen.complete_code("impl ", &[]), vec!["Default for ", "Display for "]);
    assert!(gen.complete_code("fn", &[]).is_empty());
    assert!(gen.complete_code("", &[]).is_empty());
    assert!(gen.complete_code("fn x", &["fn ".to_string()]).is_empty());
}

#[test]
fn fixes_by_the_words_of_the_message() {
    let gen = AiCodeGenerator::default();
    assert_eq!(
        gen.suggest_fix("cannot find type mismatch borrow", ""),
        vec!["Add the missing import or use statement", "Check if the name is spelled correctly"]
    );
    assert_eq!(
        gen.suggest_fix("a type mismatch in borrow", ""),
        vec![
            "Add type conversion using .into() or as",
            "Check the expected type in the function signature"
        ]
    );
    assert_eq!(
        gen.suggest_fix("cannot borrow `x` as mutable", ""),
        vec!["Consider cloning the value", "Use a reference instead of moving the value"]
    );
    assert!(gen.suggest_fix("Cannot Find", "").is_empty());
}

#[test]
fn tests_for_other_languages_are_not_implemented() {
    let gen = AiCodeGenerator::default();
    assert_eq!(gen.generate_tests("x", "python"), "// Tests for python\n// Not implemented");
    let rust = gen.generate_tests("", "rust");
    assert!(rust.starts_with("#[cfg(test)]\nmod tests {\n    use super::*;\n"));
    assert!(rust.ends_with("// Generated 3 test cases for the provided code\n"));
    assert_eq!(rust.matches("#[test]").count(), 3);
}
