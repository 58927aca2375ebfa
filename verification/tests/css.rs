//! The style sheet sanitizer on safe and dangerous CSS.
use md_conv::security::css::{check_lowercased_css, check_serialized_css_for_dangerous_urls};
use md_conv::security::sanitize_css;


#[test]
fn security_test_safe_css_passes() {
    let css = "body { color: red; }";
    let sanitized = sanitize_css(css).unwrap();
    // lightningcss minifies, so spaces might be gone
    assert!(sanitized.contains("color:red") || sanitized.contains("color: red"));
}

#[test]
fn security_test_dangerous_url_blocked() {
    let css = "body { background: url('javascript:alert(1)') }";
    let result = sanitize_css(css);
    assert!(result.is_err(), "CSS with javascript: should be REJECTED by defense-in-depth");
}

#[test]
fn security_test_import_blocked() {
    let css = "@import 'evil.css';";
    assert!(sanitize_css(css).is_err());
}

#[test]
fn security_test_obfuscated_url_blocked() {
    // lightningcss handles escapes automatically during parsing
    let css = r"body { background: url('\6a\61\76\61\73\63\72\69\70\74:alert(1)') }";
    let result = sanitize_css(css);
    assert!(result.is_err(), "Obfuscated javascript: should be REJECTED");
}


#[test]
fn security_test_complex_valid_css() {
    let css = r#"
        .container {
            display: flex;
            justify-content: center;
            background: linear-gradient(to right, #fff, #000);
        }
        @media (max-width: 768px) {
            .container { flex-direction: column; }
        }
    "#;
    let result = sanitize_css(css);
    assert!(result.is_ok(), "Complex valid CSS should pass");
}

#[test]
fn security_test_valid_url_with_https() {
    // Regular https URLs should be allowed
    let css = "body { background: url('https://example.com/image.png'); }";
    let result = sanitize_css(css);
    assert!(result.is_ok(), "HTTPS URLs should be allowed");
}

#[test]
fn security_test_javascript_url_case_insensitive() {
    let cases = vec![
        "a { background: url('JAVASCRIPT:alert(1)'); }",
        "a { background: url('JavaScript:alert(1)'); }",
        "a { background: url('jAvAsCrIpT:alert(1)'); }",
    ];

    for css in cases {
        let result = sanitize_css(css);
        if result.is_ok() {
            let sanitized = result.unwrap();
            assert!(
                !sanitized.to_lowercase().contains("javascript:"),
                "Case variant should be blocked: {}",
                css
            );
        }
    }
}

#[test]
fn security_test_vbscript_url_blocked() {
    let css = "a { background: url('vbscript:alert(1)'); }";
    let result = sanitize_css(css);
    if result.is_ok() {
        let sanitized = result.unwrap();
        assert!(!sanitized.contains("vbscript:"));
    }
}

#[test]
fn security_test_data_url_blocked() {
    let css = r#"body { background: url("data:text/html,<script>alert(1)</script>"); }"#;
    let result = sanitize_css(css);
    if result.is_ok() {
        let sanitized = result.unwrap();
        assert!(!sanitized.contains("data:text/html"));
    }
}

#[test]
fn security_test_file_url_blocked() {
    let css = "body { background: url('file:///etc/passwd'); }";
    let result = sanitize_css(css);
    if result.is_ok() {
        let sanitized = result.unwrap();
        assert!(!sanitized.contains("file:"));
    }
}

#[test]
fn security_test_import_with_url_blocked() {
    let css = "@import url('https://evil.com/steal.css');";
    let result = sanitize_css(css);
    assert!(result.is_err());
}

#[test]
fn security_test_empty_css() {
    let result = sanitize_css("");
    assert!(result.is_ok());
    assert!(result.unwrap().is_empty());
}

#[test]
fn security_test_whitespace_only_css() {
    let result = sanitize_css("   \n\t  ");
    assert!(result.is_ok());
}

#[test]
fn security_test_legitimate_import_like_classname() {
    // A class named '.import-button' should be allowed
    let css = ".import-button { color: blue; }";
    let result = sanitize_css(css);
    // 'import' without '@' should pass
    assert!(result.is_ok(), "import without @ should pass");
}

#[test]
fn security_test_very_long_css() {
    let css = ".class { color: red; }\n".repeat(1000);
    let result = sanitize_css(&css);
    assert!(result.is_ok(), "Long CSS should be handled");
}

#[test]
fn security_test_css_with_comments() {
    let css = "/* This is a comment */ body { color: red; }";
    let result = sanitize_css(css);
    assert!(result.is_ok(), "CSS with comments should be parsed");
}

#[test]
fn security_test_css_with_pseudo_elements() {
    let css = "p::first-line { font-weight: bold; }";
    let result = sanitize_css(css);
    assert!(result.is_ok(), "Pseudo-elements should work");
}

#[test]
fn security_test_css_with_pseudo_classes() {
    let css = "a:hover { color: blue; }";
    let result = sanitize_css(css);
    assert!(result.is_ok(), "Pseudo-classes should work");
}

#[test]
fn security_test_css_keyframes() {
    let css = r#"
        @keyframes slide {
            from { transform: translateX(0); }
            to { transform: translateX(100px); }
        }
    "#;
    let result = sanitize_css(css);
    assert!(result.is_ok(), "Keyframes should be allowed");
}

#[test]
fn security_test_css_font_face() {
    let css = r#"
        @font-face {
            font-family: 'CustomFont';
            src: url('https://example.com/font.woff2') format('woff2');
        }
    "#;
    let result = sanitize_css(css);
    assert!(result.is_ok(), "Font-face with HTTPS should be allowed");
}

#[test]
fn security_test_css_variables() {
    let css = r#"
        :root {
            --primary-color: #007bff;
        }
        body {
            color: var(--primary-color);
        }
    "#;
    let result = sanitize_css(css);
    assert!(result.is_ok(), "CSS variables should work");
}

#[test]
fn security_test_css_calc() {
    let css = "div { width: calc(100% - 20px); }";
    let result = sanitize_css(css);
    assert!(result.is_ok(), "calc() should work");
}

#[test]
fn security_test_css_grid() {
    let css = r#"
        .grid {
            display: grid;
            grid-template-columns: repeat(3, 1fr);
            gap: 10px;
        }
    "#;
    let result = sanitize_css(css);
    assert!(result.is_ok(), "Grid layout should work");
}

#[test]
fn security_test_css_flexbox() {
    let css = r#"
        .flex {
            display: flex;
            flex-direction: row;
            justify-content: space-between;
            align-items: center;
        }
    "#;
    let result = sanitize_css(css);
    assert!(result.is_ok(), "Flexbox should work");
}


#[test]
fn css_test_safe_css_passes() {
    let css = "body { color: red; }";
    let sanitized = sanitize_css(css).unwrap();
    // lightningcss minifies, so spaces might be gone
    assert!(sanitized.contains("color:red") || sanitized.contains("color: red"));
}

#[test]
fn css_test_dangerous_url_blocked() {
    let css = "body { background: url('javascript:alert(1)') }";
    let result = sanitize_css(css);
    assert!(result.is_err(), "CSS with javascript: should be REJECTED by defense-in-depth");
}

#[test]
fn css_test_import_blocked() {
    let css = "@import 'evil.css';";
    assert!(sanitize_css(css).is_err());
}

#[test]
fn css_test_obfuscated_url_blocked() {
    // lightningcss handles escapes automatically during parsing
    let css = r"body { background: url('\6a\61\76\61\73\63\72\69\70\74:alert(1)') }";
    let result = sanitize_css(css);
    assert!(result.is_err(), "Obfuscated javascript: should be REJECTED");
}


#[test]
fn css_test_complex_valid_css() {
    let css = r#"
        .container {
            display: flex;
            justify-content: center;
            background: linear-gradient(to right, #fff, #000);
        }
        @media (max-width: 768px) {
            .container { flex-direction: column; }
        }
    "#;
    let result = sanitize_css(css);
    assert!(result.is_ok(), "Complex valid CSS should pass");
}

#[test]
fn css_test_valid_url_with_https() {
    // Regular https URLs should be allowed
    let css = "body { background: url('https://example.com/image.png'); }";
    let result = sanitize_css(css);
    assert!(result.is_ok(), "HTTPS URLs should be allowed");
}

#[test]
fn css_test_javascript_url_case_insensitive() {
    let cases = vec![
        "a { background: url('JAVASCRIPT:alert(1)'); }",
        "a { background: url('JavaScript:alert(1)'); }",
        "a { background: url('jAvAsCrIpT:alert(1)'); }",
    ];

    for css in cases {
        let result = sanitize_css(css);
        if result.is_ok() {
            let sanitized = result.unwrap();
            assert!(
                !sanitized.to_lowercase().contains("javascript:"),
                "Case variant should be blocked: {}",
                css
            );
        }
    }
}

#[test]
fn css_test_vbscript_url_blocked() {
    let css = "a { background: url('vbscript:alert(1)'); }";
    let result = sanitize_css(css);
    if result.is_ok() {
        let sanitized = result.unwrap();
        assert!(!sanitized.contains("vbscript:"));
    }
}

#[test]
fn css_test_data_url_blocked() {
    let css = r#"body { background: url("data:text/html,<script>alert(1)</script>"); }"#;
    let result = sanitize_css(css);
    if result.is_ok() {
        let sanitized = result.unwrap();
        assert!(!sanitized.contains("data:text/html"));
    }
}

#[test]
fn css_test_file_url_blocked() {
    let css = "body { background: url('file:///etc/passwd'); }";
    let result = sanitize_css(css);
    if result.is_ok() {
        let sanitized = result.unwrap();
        assert!(!sanitized.contains("file:"));
    }
}

#[test]
fn css_test_import_with_url_blocked() {
    let css = "@import url('https://evil.com/steal.css');";
    let result = sanitize_css(css);
    assert!(result.is_err());
}

#[test]
fn css_test_empty_css() {
    let result = sanitize_css("");
    assert!(result.is_ok());
    assert!(result.unwrap().is_empty());
}

#[test]
fn css_test_whitespace_only_css() {
    let result = sanitize_css("   \n\t  ");
    assert!(result.is_ok());
}

#[test]
fn css_test_legitimate_import_like_classname() {
    // A class named '.import-button' should be allowed
    let css = ".import-button { color: blue; }";
    let result = sanitize_css(css);
    // 'import' without '@' should pass
    assert!(result.is_ok(), "import without @ should pass");
}

#[test]
fn css_test_very_long_css() {
    let css = ".class { color: red; }\n".repeat(1000);
    let result = sanitize_css(&css);
    assert!(result.is_ok(), "Long CSS should be handled");
}

#[test]
fn css_test_css_with_comments() {
    let css = "/* This is a comment */ body { color: red; }";
    let result = sanitize_css(css);
    assert!(result.is_ok(), "CSS with comments should be parsed");
}

#[test]
fn css_test_css_with_pseudo_elements() {
    let css = "p::first-line { font-weight: bold; }";
    let result = sanitize_css(css);
    assert!(result.is_ok(), "Pseudo-elements should work");
}

#[test]
fn css_test_css_with_pseudo_classes() {
    let css = "a:hover { color: blue; }";
    let result = sanitize_css(css);
    assert!(result.is_ok(), "Pseudo-classes should work");
}

#[test]
fn css_test_css_keyframes() {
    let css = r#"
        @keyframes slide {
            from { transform: translateX(0); }
            to { transform: translateX(100px); }
        }
    "#;
    let result = sanitize_css(css);
    assert!(result.is_ok(), "Keyframes should be allowed");
}

#[test]
fn css_test_css_font_face() {
    let css = r#"
        @font-face {
            font-family: 'CustomFont';
            src: url('https://example.com/font.woff2') format('woff2');
        }
    "#;
    let result = sanitize_css(css);
    assert!(result.is_ok(), "Font-face with HTTPS should be allowed");
}

#[test]
fn css_test_css_variables() {
    let css = r#"
        :root {
            --primary-color: #007bff;
        }
        body {
            color: var(--primary-color);
        }
    "#;
    let result = sanitize_css(css);
    assert!(result.is_ok(), "CSS variables should work");
}

#[test]
fn css_test_css_calc() {
    let css = "div { width: calc(100% - 20px); }";
    let result = sanitize_css(css);
    assert!(result.is_ok(), "calc() should work");
}

#[test]
fn css_test_css_grid() {
    let css = r#"
        .grid {
            display: grid;
            grid-template-columns: repeat(3, 1fr);
            gap: 10px;
        }
    "#;
    let result = sanitize_css(css);
    assert!(result.is_ok(), "Grid layout should work");
}

#[test]
fn css_test_css_flexbox() {
    let css = r#"
        .flex {
            display: flex;
            flex-direction: row;
            justify-content: space-between;
            align-items: center;
        }
    "#;
    let result = sanitize_css(css);
    assert!(result.is_ok(), "Flexbox should work");
}

#[test]
fn import_error_names_the_url() {
    let err = sanitize_css("@import 'evil.css';").unwrap_err();
    assert_eq!(err.exit_code(), 5);
    assert_eq!(
        err.message(),
        "Security violation: Security check failed: @import rules are not allowed: evil.css"
    );
}

#[test]
fn dangerous_scheme_error_message() {
    let err = sanitize_css("a { background: url('JavaScript:alert(1)') }").unwrap_err();
    assert_eq!(
        err.message(),
        "Security violation: CSS contains dangerous URL scheme: 'javascript'. This is blocked for security reasons."
    );
}

#[test]
fn blob_urls_are_blocked() {
    let result = sanitize_css("a { background: url('blob:https://example.com/x') }");
    assert!(result.is_err());
}

#[test]
fn serialized_check_ignores_case() {
    assert!(check_serialized_css_for_dangerous_urls("a{b:url(FILE:///x)}").is_err());
    assert!(check_serialized_css_for_dangerous_urls("a{b:url(https://x)}").is_ok());
}

#[test]
fn lowercased_check_is_exact() {
    assert!(check_lowercased_css("a{b:url(https://x)}").is_ok());
    // The text is taken as already lower-cased.
    assert!(check_lowercased_css("a{b:url(JAVASCRIPT:x)}").is_ok());
    let err = check_lowercased_css("a{b:url(data:x)} c{d:url(blob:y)}").unwrap_err();
    assert_eq!(
        err.message(),
        "Security violation: CSS contains dangerous URL scheme: 'data'. This is blocked for security reasons."
    );
}
