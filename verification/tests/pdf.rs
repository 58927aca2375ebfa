//! PDF page setup, browser discovery and launch, network idleness, and the browser pool.
use md_conv::config::PdfOptions;
use md_conv::renderer::pdf::{
    browser_args, chrome_not_found_message, first_found, get_platform_chrome_paths, margin_spec,
    paper_format, path_from_lookup_output, path_lookup_plan, print_plan, timeout_message,
    paper_from_lowercase, split_margin, IdleTracker, MarginUnit, PaperFormat, Platform,
    WindowsDirs,
};
use md_conv::renderer::pool::{should_recycle, Checkout, PoolLedger, PooledEntry};

fn no_dirs() -> WindowsDirs {
    WindowsDirs { program_files: String::new(), program_files_x86: String::new(), local_app_data: String::new() }
}

#[test]
fn paper_formats_ignore_case() {
    assert_eq!(paper_format("A4"), Some(PaperFormat::A4));
    assert_eq!(paper_format("letter"), Some(PaperFormat::Letter));
    assert_eq!(paper_format("Legal"), Some(PaperFormat::Legal));
    assert_eq!(paper_format("TABLOID"), Some(PaperFormat::Tabloid));
    assert_eq!(paper_format("a3"), Some(PaperFormat::A3));
    assert_eq!(paper_format("B5"), None);
}

#[test]
fn margins_split_into_number_and_unit() {
    let m = margin_spec("25.4mm");
    assert_eq!((m.number.as_str(), m.unit), ("25.4", MarginUnit::Mm));
    let m = margin_spec("  1IN ");
    assert_eq!((m.number.as_str(), m.unit), ("1", MarginUnit::In));
    let m = margin_spec("2.5Cm");
    assert_eq!((m.number.as_str(), m.unit), ("2.5", MarginUnit::Cm));
    let m = margin_spec("96px");
    assert_eq!((m.number.as_str(), m.unit), ("96", MarginUnit::Px));
    let m = margin_spec("72pt");
    assert_eq!((m.number.as_str(), m.unit), ("72", MarginUnit::Pt));
    let m = margin_spec("15");
    assert_eq!((m.number.as_str(), m.unit), ("15", MarginUnit::Bare));
    let m = margin_spec("   ");
    assert_eq!((m.number.as_str(), m.unit), ("", MarginUnit::Bare));
}

#[test]
fn print_plan_follows_options() {
    let options = PdfOptions {
        format: Some("Letter".into()),
        margin: Some("10mm".into()),
        margin_top: Some("1in".into()),
        landscape: true,
        print_background: true,
        footer_template: Some("<span class=\"pageNumber\"></span>".into()),
        ..PdfOptions::default()
    };
    let plan = print_plan(&options);
    assert_eq!(plan.paper, Some(PaperFormat::Letter));
    let top = plan.margin_top.unwrap();
    assert_eq!((top.number.as_str(), top.unit), ("1", MarginUnit::In));
    let left = plan.margin_left.unwrap();
    assert_eq!((left.number.as_str(), left.unit), ("10", MarginUnit::Mm));
    assert!(plan.landscape && plan.print_background);
    assert!(plan.display_header_footer);
    assert!(plan.header_template.is_none());

    let plain = print_plan(&PdfOptions::default());
    assert!(plain.paper.is_none() && plain.margin_top.is_none() && !plain.display_header_footer);
}

#[test]
fn timeout_message_names_the_seconds() {
    assert_eq!(timeout_message(30), "PDF generation timed out after 30s");
}

#[test]
fn linux_candidates_in_order() {
    let c = get_platform_chrome_paths(Platform::Linux, &no_dirs());
    assert_eq!(c.len(), 6);
    assert_eq!(c[0], "/usr/bin/google-chrome");
    assert_eq!(c[5], "/usr/bin/brave-browser");
    let mac = get_platform_chrome_paths(Platform::MacOs, &no_dirs());
    assert_eq!(mac[1], "/Applications/Chromium.app/Contents/MacOS/Chromium");
}

#[test]
fn windows_candidates_use_the_environment() {
    let dirs = WindowsDirs {
        program_files: "/pf".into(),
        program_files_x86: "/pf86".into(),
        local_app_data: "/local".into(),
    };
    let c = get_platform_chrome_paths(Platform::Windows, &dirs);
    assert_eq!(c.len(), 4);
    assert!(c[0].starts_with("/pf"));
    assert!(c[0].ends_with("chrome.exe"));
    assert!(c[3].ends_with("msedge.exe"));
}

#[test]
fn first_existing_candidate() {
    assert_eq!(first_found(&vec![false, true, true]), Some(1));
    assert_eq!(first_found(&vec![false, false]), None);
}

#[test]
fn lookup_command_and_output() {
    let (cmd, names) = path_lookup_plan(Platform::Linux);
    assert_eq!(cmd, "which");
    assert_eq!(names[0], "chromium");
    let (cmd, names) = path_lookup_plan(Platform::Windows);
    assert_eq!(cmd, "where");
    assert_eq!(names, vec!["chrome".to_string(), "msedge".to_string()]);
    assert_eq!(path_from_lookup_output("/usr/bin/chromium\n/snap/bin/chromium\n"), Some("/usr/bin/chromium".into()));
    assert_eq!(path_from_lookup_output("  C:\\chrome.exe\r\n"), Some("C:\\chrome.exe".into()));
    assert_eq!(path_from_lookup_output(""), None);
    assert_eq!(path_from_lookup_output("   \nlater"), None);
}

#[test]
fn not_found_message_lists_locations() {
    let m = chrome_not_found_message(&vec!["/a".to_string(), "/b".to_string()]);
    assert!(m.starts_with("Could not find Chrome/Chromium. Please:\n"));
    assert!(m.ends_with("Searched locations:\n  /a\n  /b"));
}

#[test]
fn sandbox_switch_only_when_asked() {
    let safe = browser_args(false);
    assert_eq!(safe.len(), 9);
    assert!(!safe.iter().any(|a| a == "--no-sandbox"));
    let unsafe_args = browser_args(true);
    assert_eq!(unsafe_args.last().map(String::as_str), Some("--no-sandbox"));
}

#[test]
fn network_idle_tracking() {
    let mut t = IdleTracker::new(0);
    assert!(!t.is_idle(50));
    assert!(t.is_idle(100));
    t.request_sent("r1", 120);
    t.request_sent("r2", 130);
    t.request_sent("r1", 140);
    assert!(!t.is_idle(1000));
    t.loading_finished("r1", 150);
    assert!(!t.is_idle(1000));
    t.loading_finished("r2", 160);
    assert!(!t.is_idle(200));
    assert!(t.is_idle(260));
}

#[test]
fn recycling_rule() {
    assert!(!should_recycle(300, 49));
    assert!(should_recycle(301, 0));
    assert!(should_recycle(0, 50));
}

#[test]
fn pool_reuses_last_returned_browser() {
    let mut pool: PoolLedger<&str> = PoolLedger::new();
    assert_eq!(pool.stats(), (0, 0));
    assert!(matches!(pool.checkout(0), Checkout::Launch));
    assert!(matches!(pool.checkout(0), Checkout::Launch));
    assert_eq!(pool.stats(), (0, 2));
    assert!(pool.checkin(PooledEntry::new("first", 0), 10).is_none());
    let mut second = PooledEntry::new("second", 5);
    second.mark_used();
    assert!(pool.checkin(second, 20).is_none());
    assert_eq!(pool.stats(), (2, 0));
    match pool.checkout(30) {
        Checkout::Reuse(e) => {
            assert_eq!(e.browser, "second");
            assert_eq!(e.render_count, 1);
        }
        _ => panic!("expected the last returned browser"),
    }
    assert_eq!(pool.stats(), (1, 1));
}

#[test]
fn pool_replaces_worn_browsers() {
    let mut pool: PoolLedger<&str> = PoolLedger::new();
    assert!(matches!(pool.checkout(0), Checkout::Launch));
    assert!(pool.checkin(PooledEntry::new("old", 0), 100).is_none());
    assert!(matches!(pool.checkout(400), Checkout::Replace(e) if e.browser == "old"));
    // A worn browser handed back is closed, not kept.
    let mut worn = PooledEntry::new("worn", 400);
    for _ in 0..50 {
        worn.mark_used();
    }
    assert!(pool.checkin(worn, 401).is_some());
    assert_eq!(pool.stats(), (0, 0));
    assert!(pool.has_room());
}

#[test]
fn pool_shutdown_drains_waiting_browsers() {
    let mut pool: PoolLedger<u32> = PoolLedger::new();
    let _ = pool.checkout(0);
    let _ = pool.checkout(0);
    let _ = pool.checkout(0);
    assert!(!pool.has_room());
    assert!(pool.checkin(PooledEntry::new(1, 0), 1).is_none());
    assert!(pool.checkin(PooledEntry::new(2, 0), 1).is_none());
    let drained = pool.drain();
    assert_eq!(drained.iter().map(|e| e.browser).collect::<Vec<_>>(), vec![1, 2]);
    assert_eq!(pool.stats(), (0, 1));
}

#[test]
fn print_plan_paper_formats() {
    for (name, paper) in [
        ("Letter", Some(PaperFormat::Letter)),
        ("legal", Some(PaperFormat::Legal)),
        ("Tabloid", Some(PaperFormat::Tabloid)),
        ("A4", Some(PaperFormat::A4)),
        ("B7", None),
    ] {
        let options = PdfOptions { format: Some(name.into()), ..PdfOptions::default() };
        assert_eq!(print_plan(&options).paper, paper, "{name}");
    }
}

#[test]
fn print_plan_landscape_and_templates() {
    let options = PdfOptions {
        landscape: true,
        header_template: Some("<div>H</div>".into()),
        ..PdfOptions::default()
    };
    let plan = print_plan(&options);
    assert!(plan.landscape);
    assert!(plan.display_header_footer);
    assert_eq!(plan.header_template.as_deref(), Some("<div>H</div>"));
    assert!(plan.footer_template.is_none());
}

#[test]
fn print_plan_all_margins() {
    let options = PdfOptions {
        margin_top: Some("1in".into()),
        margin_bottom: Some("2cm".into()),
        margin_left: Some("10mm".into()),
        margin_right: Some("72pt".into()),
        margin: Some("5mm".into()),
        ..PdfOptions::default()
    };
    let plan = print_plan(&options);
    let units: Vec<MarginUnit> = [plan.margin_top, plan.margin_bottom, plan.margin_left, plan.margin_right]
        .into_iter()
        .map(|m| m.unwrap().unit)
        .collect();
    assert_eq!(units, vec![MarginUnit::In, MarginUnit::Cm, MarginUnit::Mm, MarginUnit::Pt]);
}

#[test]
fn margin_units_in_any_case_and_spacing() {
    let m = margin_spec("20MM");
    assert_eq!((m.number.as_str(), m.unit), ("20", MarginUnit::Mm));
    let m = margin_spec("1.5In");
    assert_eq!((m.number.as_str(), m.unit), ("1.5", MarginUnit::In));
    let m = margin_spec("\t 25mm \n");
    assert_eq!((m.number.as_str(), m.unit), ("25", MarginUnit::Mm));
    let m = margin_spec("abcmm");
    assert_eq!((m.number.as_str(), m.unit), ("abc", MarginUnit::Mm));
}

#[test]
fn split_and_paper_on_lowercase_text() {
    let m = split_margin("3pt");
    assert_eq!((m.number.as_str(), m.unit), ("3", MarginUnit::Pt));
    let m = split_margin("3PT");
    assert_eq!((m.number.as_str(), m.unit), ("3PT", MarginUnit::Bare));
    assert_eq!(paper_from_lowercase("a3"), Some(PaperFormat::A3));
    assert_eq!(paper_from_lowercase("A3"), None);
}

// The page setup as the print command receives it; the inches are computed by the program.

fn plan_for(options: PdfOptions) -> md_conv::renderer::pdf::PrintPlan {
    print_plan(&options)
}

#[test]
fn test_print_params_a4() {
    let plan = plan_for(PdfOptions { format: Some("A4".to_string()), ..PdfOptions::default() });
    assert_eq!(plan.paper, Some(PaperFormat::A4));
}

#[test]
fn test_print_params_landscape() {
    let plan = plan_for(PdfOptions { landscape: true, ..PdfOptions::default() });
    assert!(plan.landscape);
}

#[test]
fn test_print_params_unknown_format() {
    let plan = plan_for(PdfOptions { format: Some("unknown_format".to_string()), ..PdfOptions::default() });
    assert!(plan.paper.is_none(), "Unknown format should not set paper dimensions");
}

#[test]
fn test_print_params_all_margins() {
    let plan = plan_for(PdfOptions {
        margin_top: Some("10mm".to_string()),
        margin_bottom: Some("20mm".to_string()),
        margin_left: Some("15mm".to_string()),
        margin_right: Some("25mm".to_string()),
        ..PdfOptions::default()
    });
    let sides: Vec<(String, MarginUnit)> = [plan.margin_top, plan.margin_bottom, plan.margin_left, plan.margin_right]
        .into_iter()
        .map(|m| {
            let m = m.unwrap();
            (m.number, m.unit)
        })
        .collect();
    assert_eq!(
        sides,
        vec![
            ("10".to_string(), MarginUnit::Mm),
            ("20".to_string(), MarginUnit::Mm),
            ("15".to_string(), MarginUnit::Mm),
            ("25".to_string(), MarginUnit::Mm),
        ]
    );
}

#[test]
fn test_print_params_with_header_footer() {
    let options = PdfOptions {
        header_template: Some("<span class='date'></span>".to_string()),
        footer_template: Some("<span class='pageNumber'></span>".to_string()),
        ..PdfOptions::default()
    };
    let plan = print_plan(&options);
    assert!(plan.display_header_footer);
    assert_eq!(plan.header_template, options.header_template);
    assert_eq!(plan.footer_template, options.footer_template);
}

#[test]
fn test_print_params_letter_format() {
    assert_eq!(plan_for(PdfOptions { format: Some("letter".into()), ..PdfOptions::default() }).paper, Some(PaperFormat::Letter));
}

#[test]
fn test_print_params_legal_format() {
    assert_eq!(plan_for(PdfOptions { format: Some("legal".into()), ..PdfOptions::default() }).paper, Some(PaperFormat::Legal));
}

#[test]
fn test_print_params_tabloid_format() {
    assert_eq!(plan_for(PdfOptions { format: Some("tabloid".into()), ..PdfOptions::default() }).paper, Some(PaperFormat::Tabloid));
}

fn parts(text: &str) -> (String, MarginUnit) {
    let m = margin_spec(text);
    (m.number, m.unit)
}

#[test]
fn test_margin_parsing_uppercase_unit() {
    assert_eq!(parts("25.4MM"), ("25.4".to_string(), MarginUnit::Mm));
}

#[test]
fn test_margin_parsing_mixed_case_unit() {
    assert_eq!(parts("25.4Mm"), ("25.4".to_string(), MarginUnit::Mm));
}

#[test]
fn test_margin_parsing_extra_whitespace() {
    assert_eq!(parts("  25.4mm  "), ("25.4".to_string(), MarginUnit::Mm));
}

#[test]
fn test_margin_parsing_empty_string() {
    // No number: the program falls back to the default margin.
    assert_eq!(parts(""), (String::new(), MarginUnit::Bare));
}

#[test]
fn test_margin_parsing_whitespace_only() {
    assert_eq!(parts("   "), (String::new(), MarginUnit::Bare));
}

#[test]
fn test_margin_parsing_invalid_number() {
    assert_eq!(parts("abc"), ("abc".to_string(), MarginUnit::Bare));
}

#[test]
fn test_margin_parsing_default() {
    // No unit: millimetres are meant.
    assert_eq!(parts("25.4"), ("25.4".to_string(), MarginUnit::Bare));
}

#[test]
fn test_margin_parsing_negative_value() {
    assert_eq!(parts("-10mm"), ("-10".to_string(), MarginUnit::Mm));
}

#[test]
fn default_options_print_backgrounds() {
    assert!(PdfOptions::default().print_background);
    assert!(print_plan(&PdfOptions::default()).print_background);
}
