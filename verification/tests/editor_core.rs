use markdown_editor::anchor::{slug, AnchorRegistry};
use markdown_editor::digits::dec_string;
use markdown_editor::events::ParseEvent;
use markdown_editor::outline::{li_markup, toc_markup, OutlineBuilder, TocEntry};
use markdown_editor::pipeline::{render_once, Renderer};
use markdown_editor::scheduler::HighlightScheduler;
use markdown_editor::slug::slug_base;

fn run_events(events: Vec<ParseEvent>) -> Vec<TocEntry> {
    let mut builder = OutlineBuilder::new();
    for ev in events.iter() {
        builder.observe(ev);
    }
    builder.finish()
}

#[test]
fn slug_character_filtering() {
    let mut registry = AnchorRegistry::new();
    let anchor = slug("Hello, World! 123", &mut registry);
    assert_eq!(anchor, "hello-world-123");
}

#[test]
fn slug_base_case_folds_and_filters() {
    assert_eq!(slug_base("Hello, World! 123"), "hello-world-123");
    assert_eq!(slug_base("  A  B  "), "--a--b--");
    assert_eq!(slug_base("!!!"), "");
    assert_eq!(slug_base("already-hyphened"), "already-hyphened");
}

#[test]
fn slug_base_handles_unicode() {
    assert_eq!(slug_base("École"), "école");
    assert_eq!(slug_base("ÆØÅ"), "æøå");
}

#[test]
fn slug_suffixes_collisions() {
    let mut registry = AnchorRegistry::new();
    assert_eq!(slug("Intro", &mut registry), "intro");
    assert_eq!(slug("Intro", &mut registry), "intro-1");
    assert_eq!(slug("Intro", &mut registry), "intro-2");
    assert!(registry.contains(&"intro-1".to_string()));
    assert!(!registry.contains(&"intro-3".to_string()));
}

#[test]
fn slug_empty_heading_participates_in_uniqueness() {
    let mut registry = AnchorRegistry::new();
    assert_eq!(slug("!!!", &mut registry), "");
    assert_eq!(slug("???", &mut registry), "-1");
    assert_eq!(slug("", &mut registry), "-2");
}

#[test]
fn slug_many_collisions_use_decimal_counters() {
    let mut registry = AnchorRegistry::new();
    let mut last = String::new();
    for _ in 0..12 {
        last = slug("x", &mut registry);
    }
    assert_eq!(last, "x-11");
}

#[test]
fn dec_string_writes_decimal() {
    assert_eq!(dec_string(0), "0");
    assert_eq!(dec_string(7), "7");
    assert_eq!(dec_string(10), "10");
    assert_eq!(dec_string(90210), "90210");
}

#[test]
fn anchor_uniqueness_on_identical_headings() {
    let events = vec![
        ParseEvent::HeadingStart(1),
        ParseEvent::Text("Intro".to_string()),
        ParseEvent::HeadingEnd,
        ParseEvent::HeadingStart(2),
        ParseEvent::Text("Intro".to_string()),
        ParseEvent::HeadingEnd,
        ParseEvent::HeadingStart(3),
        ParseEvent::Text("Intro".to_string()),
        ParseEvent::HeadingEnd,
    ];
    let entries = run_events(events);
    assert_eq!(entries.len(), 3);
    assert_eq!(entries[0].anchor, "intro");
    assert_eq!(entries[1].anchor, "intro-1");
    assert_eq!(entries[2].anchor, "intro-2");
}

#[test]
fn order_preservation() {
    let events = vec![
        ParseEvent::HeadingStart(1),
        ParseEvent::Text("Alpha".to_string()),
        ParseEvent::HeadingEnd,
        ParseEvent::Other,
        ParseEvent::Text("ignored between headings".to_string()),
        ParseEvent::HeadingStart(2),
        ParseEvent::Text("Beta".to_string()),
        ParseEvent::HeadingEnd,
        ParseEvent::HeadingStart(1),
        ParseEvent::Text("Gamma".to_string()),
        ParseEvent::HeadingEnd,
    ];
    let entries = run_events(events);
    let texts: Vec<&str> = entries.iter().map(|e| e.text.as_str()).collect();
    assert_eq!(texts, vec!["Alpha", "Beta", "Gamma"]);
    assert_eq!(entries[0].level, 1);
    assert_eq!(entries[1].level, 2);
    assert_eq!(entries[2].level, 1);
}

#[test]
fn heading_text_runs_concatenate_without_separator() {
    let events = vec![
        ParseEvent::HeadingStart(1),
        ParseEvent::Text("Hello ".to_string()),
        ParseEvent::Text("World".to_string()),
        ParseEvent::HeadingEnd,
    ];
    let entries = run_events(events);
    assert_eq!(entries.len(), 1);
    assert_eq!(entries[0].text, "Hello World");
    assert_eq!(entries[0].anchor, "hello-world");
}

#[test]
fn orphan_event_tolerance() {
    let events = vec![
        ParseEvent::HeadingEnd,
        ParseEvent::Text("stray".to_string()),
        ParseEvent::HeadingEnd,
        ParseEvent::Other,
    ];
    let entries = run_events(events);
    assert_eq!(entries.len(), 0);
}

#[test]
fn level_classification_markup() {
    let h1 = li_markup(1, &"One".to_string(), &"one".to_string());
    assert_eq!(
        h1,
        "<li class=\"flex items-center mt-3\"><a href=\"#one\" class=\"hover:text-blue-500 \
         font-semibold text-sm text-gray-800 dark:text-gray-200\">One</a></li>"
    );
    let h2 = li_markup(2, &"Two".to_string(), &"two".to_string());
    assert_eq!(
        h2,
        "<li class=\"flex items-center mt-1\"><a href=\"#two\" class=\"hover:text-blue-500 \
         text-sm text-gray-600 dark:text-gray-400\">Two</a></li>"
    );
    let h4 = li_markup(4, &"Four".to_string(), &"four".to_string());
    assert_eq!(
        h4,
        "<li class=\"flex items-center mt-1 ml-4\"><span class=\"mr-2 text-gray-400 \
         dark:text-gray-500\">></span><a href=\"#four\" class=\"hover:text-blue-500 \
         text-sm text-gray-600 dark:text-gray-400\">Four</a></li>"
    );
    let h6 = li_markup(6, &"Four".to_string(), &"four".to_string());
    assert_eq!(h6, h4);
}

#[test]
fn toc_markup_wraps_entries() {
    let entries = run_events(vec![
        ParseEvent::HeadingStart(1),
        ParseEvent::Text("Hi".to_string()),
        ParseEvent::HeadingEnd,
    ]);
    let toc = toc_markup(&entries);
    assert_eq!(
        toc,
        "<ul class=\"list-none pl-0\"><li class=\"flex items-center mt-3\"><a href=\"#hi\" \
         class=\"hover:text-blue-500 font-semibold text-sm text-gray-800 \
         dark:text-gray-200\">Hi</a></li></ul>"
    );
    let empty = toc_markup(&Vec::new());
    assert_eq!(empty, "<ul class=\"list-none pl-0\"></ul>");
}

#[test]
fn render_once_builds_toc_and_body() {
    let r = render_once("# Hi\n\nSome text.\n");
    assert_eq!(r.body_html, "<h1>Hi</h1>\n<p>Some text.</p>\n");
    assert!(r.toc_markup.contains("href=\"#hi\""));
    assert!(r.toc_markup.starts_with("<ul class=\"list-none pl-0\">"));
    assert!(r.toc_markup.ends_with("</ul>"));
}

#[test]
fn render_once_identical_headings_get_distinct_anchors() {
    let r = render_once("# Intro\n\n# Intro\n\n# Intro\n");
    assert!(r.toc_markup.contains("href=\"#intro\""));
    assert!(r.toc_markup.contains("href=\"#intro-1\""));
    assert!(r.toc_markup.contains("href=\"#intro-2\""));
}

#[test]
fn render_once_mixed_levels() {
    let r = render_once("# One\n\n## Two\n\n#### Four\n");
    let first = r.toc_markup.find("#one").expect("h1 anchor");
    let second = r.toc_markup.find("#two").expect("h2 anchor");
    let third = r.toc_markup.find("#four").expect("h4 anchor");
    assert!(first < second && second < third);
    assert!(r.toc_markup.contains("mt-3"));
    assert!(r.toc_markup.contains("mt-1 ml-4"));
    assert!(r.toc_markup.contains("<span class=\"mr-2 text-gray-400 dark:text-gray-500\">></span>"));
    assert_eq!(r.body_html, "<h1>One</h1>\n<h2>Two</h2>\n<h4>Four</h4>\n");
}

#[test]
fn render_empty_document_is_well_formed() {
    let r = render_once("");
    assert_eq!(r.toc_markup, "<ul class=\"list-none pl-0\"></ul>");
    assert_eq!(r.body_html, "");
}

#[test]
fn idempotent_memoization() {
    let mut renderer = Renderer::new();
    assert_eq!(renderer.transform_count(), 0);
    let content = "# Title\n\nBody text.\n".to_string();
    let first = renderer.render(&content);
    assert_eq!(renderer.transform_count(), 1);
    let second = renderer.render(&content);
    assert_eq!(renderer.transform_count(), 1);
    assert_eq!(first.toc_markup, second.toc_markup);
    assert_eq!(first.body_html, second.body_html);
    let other = "# Title2\n".to_string();
    let third = renderer.render(&other);
    assert_eq!(renderer.transform_count(), 2);
    assert!(third.body_html != first.body_html);
    renderer.render(&content);
    assert_eq!(renderer.transform_count(), 3);
}

#[test]
fn scheduler_commits_and_fires() {
    let mut s = HighlightScheduler::new();
    let t1 = s.commit();
    assert_eq!(t1, 1);
    assert_eq!(s.fire(t1), Some(1));
    assert_eq!(s.fire(t1), None);
}

#[test]
fn scheduler_stale_task_targets_latest_commit() {
    let mut s = HighlightScheduler::new();
    let t1 = s.commit();
    let t2 = s.commit();
    assert_eq!(s.fire(t1), Some(2));
    assert_eq!(s.fire(t2), Some(2));
    assert_eq!(s.fire(7), None);
}
