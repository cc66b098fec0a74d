use why::analyzer::rust_analyzer::{PathSegment, SourceContent, SourceFile, SourcePath, SyntaxEvent};
use why::analyzer::{AnalysisError, AnalysisResult, DependencyAnalyzer};
use why::tui::app::{App, FilterOption, SortOption};
use why::tui::event::{Event, EventConfig, Key};
use why::tui::ui::{bar_width, importance_color, Margin, Rect, RectExt, ScoreColor};

const MANIFEST: &str = r#"
[dependencies]
delta = "1"
Alpha = "1"
charlie = { version = "1", features = ["x"] }

[dev-dependencies]
bravo = "1"

[build-dependencies]
echo = "1"
"#;

fn call(dep: &str, function: &str) -> SyntaxEvent {
    SyntaxEvent::Path(SourcePath {
        segments: vec![
            PathSegment { ident: dep.to_string(), has_arguments: false },
            PathSegment { ident: function.to_string(), has_arguments: false },
        ],
    })
}

fn result() -> AnalysisResult {
    let mut files = Vec::new();
    for i in 0..12 {
        let mut events = vec![call("delta", "run")];
        if i < 3 {
            events.push(call("charlie", "go"));
        }
        if i < 5 {
            events.push(call("echo", "Build"));
        }
        files.push(SourceFile { path: format!("src/f{}.rs", i), content: SourceContent::Parsed(events) });
    }
    DependencyAnalyzer::new("p").analyze("p/Cargo.toml", MANIFEST, &files, &None).ok().unwrap()
}

fn loaded() -> App {
    let mut app = App::new("p".to_string(), None);
    assert!(app.run_analysis(Ok(result())).is_ok());
    app
}

fn names(app: &App) -> Vec<String> {
    let deps = &app.analysis.as_ref().unwrap().dependencies;
    app.filtered_dependencies().into_iter().map(|i| deps[i].name.clone()).collect()
}

#[test]
fn sort_options_cycle() {
    assert_eq!(SortOption::Name.next(), SortOption::UsageCount);
    assert_eq!(SortOption::UsageCount.next(), SortOption::Importance);
    assert_eq!(SortOption::Importance.next(), SortOption::Type);
    assert_eq!(SortOption::Type.next(), SortOption::Removable);
    assert_eq!(SortOption::Removable.next(), SortOption::Name);
    assert_eq!(SortOption::Name.as_str(), "Name");
    assert_eq!(SortOption::UsageCount.as_str(), "Usage Count");
    assert_eq!(SortOption::Importance.as_str(), "Importance");
    assert_eq!(SortOption::Type.as_str(), "Type");
    assert_eq!(SortOption::Removable.as_str(), "Removable");
}

#[test]
fn filter_options_cycle() {
    assert_eq!(FilterOption::All.next(), FilterOption::Normal);
    assert_eq!(FilterOption::Normal.next(), FilterOption::Dev);
    assert_eq!(FilterOption::Dev.next(), FilterOption::Build);
    assert_eq!(FilterOption::Build.next(), FilterOption::Unused);
    assert_eq!(FilterOption::Unused.next(), FilterOption::Removable);
    assert_eq!(FilterOption::Removable.next(), FilterOption::All);
    assert_eq!(FilterOption::All.as_str(), "All");
    assert_eq!(FilterOption::Normal.as_str(), "Normal");
    assert_eq!(FilterOption::Dev.as_str(), "Dev");
    assert_eq!(FilterOption::Build.as_str(), "Build");
    assert_eq!(FilterOption::Unused.as_str(), "Unused");
    assert_eq!(FilterOption::Removable.as_str(), "Removable");
}

#[test]
fn a_new_display_shows_nothing() {
    let app = App::new("proj".to_string(), Some("serde".to_string()));
    assert_eq!(app.project_path, "proj");
    assert!(app.analysis.is_none());
    assert!(!app.should_quit);
    assert_eq!(app.current_tab, 0);
    assert_eq!(app.sort_option, SortOption::Name);
    assert_eq!(app.filter_option, FilterOption::All);
    assert_eq!(app.filter_dep.as_deref(), Some("serde"));
    assert!(app.filtered_dependencies().is_empty());
    assert_eq!(app.actual_selected_index(), None);
}

#[test]
fn the_list_is_sorted_by_name_in_the_order_of_strings() {
    let app = loaded();
    assert_eq!(names(&app), vec!["Alpha", "bravo", "charlie", "delta", "echo"]);
}

#[test]
fn the_list_can_be_reversed() {
    let mut app = loaded();
    app.sort_reverse = true;
    assert_eq!(names(&app), vec!["echo", "delta", "charlie", "bravo", "Alpha"]);
}

#[test]
fn the_list_can_be_sorted_by_numbers_and_keeps_ties_in_order() {
    let mut app = loaded();
    app.sort_option = SortOption::UsageCount;
    // the analysis lists Alpha, charlie, delta, bravo, echo
    assert_eq!(names(&app), vec!["Alpha", "bravo", "charlie", "echo", "delta"]);
    app.sort_reverse = true;
    assert_eq!(names(&app), vec!["delta", "echo", "charlie", "Alpha", "bravo"]);
    app.sort_reverse = false;
    app.sort_option = SortOption::Type;
    assert_eq!(names(&app), vec!["Alpha", "charlie", "delta", "bravo", "echo"]);
    app.sort_option = SortOption::Removable;
    assert_eq!(names(&app), vec!["delta", "echo", "Alpha", "charlie", "bravo"]);
    app.sort_option = SortOption::Importance;
    assert_eq!(names(&app), vec!["Alpha", "bravo", "charlie", "echo", "delta"]);
}

#[test]
fn the_list_can_be_filtered() {
    let mut app = loaded();
    app.filter_option = FilterOption::Normal;
    assert_eq!(names(&app), vec!["Alpha", "charlie", "delta"]);
    app.filter_option = FilterOption::Dev;
    assert_eq!(names(&app), vec!["bravo"]);
    app.filter_option = FilterOption::Build;
    assert_eq!(names(&app), vec!["echo"]);
    app.filter_option = FilterOption::Unused;
    assert_eq!(names(&app), vec!["Alpha", "bravo"]);
    app.filter_option = FilterOption::Removable;
    assert_eq!(names(&app), vec!["Alpha", "bravo", "charlie"]);
}

#[test]
fn the_search_ignores_case() {
    let mut app = loaded();
    app.search_query = "AL".to_string();
    assert_eq!(names(&app), vec!["Alpha"]);
    app.search_query = "a".to_string();
    assert_eq!(names(&app), vec!["Alpha", "bravo", "charlie", "delta"]);
    app.filter_option = FilterOption::Dev;
    assert_eq!(names(&app), vec!["bravo"]);
    app.search_query = "zzz".to_string();
    assert!(names(&app).is_empty());
    assert_eq!(app.actual_selected_index(), None);
}

#[test]
fn the_selection_points_into_the_analysis() {
    let mut app = loaded();
    assert_eq!(app.actual_selected_index(), Some(0));
    app.selected_dependency = 1;
    assert_eq!(app.actual_selected_index(), Some(3));
    app.selected_dependency = 5;
    assert_eq!(app.actual_selected_index(), None);
}

#[test]
fn the_dependency_that_was_asked_for_is_selected() {
    let mut app = App::new("p".to_string(), Some("delta".to_string()));
    assert!(app.run_analysis(Ok(result())).is_ok());
    assert_eq!(app.selected_dependency, 2);
    let mut other = App::new("p".to_string(), Some("nothing".to_string()));
    other.selected_dependency = 4;
    assert!(other.run_analysis(Ok(result())).is_ok());
    assert_eq!(other.selected_dependency, 4);
    let mut failed = App::new("p".to_string(), None);
    assert!(matches!(
        failed.run_analysis(Err(AnalysisError::TooManyDependencies)),
        Err(AnalysisError::TooManyDependencies)
    ));
    assert!(failed.analysis.is_none());
}

#[test]
fn keys_move_between_tabs_and_views() {
    let mut app = loaded();
    app.selected_dependency = 3;
    app.handle_key_event(Key::Tab);
    assert_eq!((app.current_tab, app.selected_dependency), (1, 0));
    app.handle_key_event(Key::Right);
    app.handle_key_event(Key::Char('l'));
    assert_eq!(app.detail_view, 2);
    app.handle_key_event(Key::Right);
    assert_eq!(app.detail_view, 0);
    app.handle_key_event(Key::Left);
    assert_eq!(app.detail_view, 2);
    app.handle_key_event(Key::Char('h'));
    assert_eq!(app.detail_view, 1);
    app.handle_key_event(Key::Tab);
    app.handle_key_event(Key::Tab);
    assert_eq!(app.current_tab, 0);
    app.handle_key_event(Key::Right);
    assert_eq!(app.detail_view, 1);
    app.handle_key_event(Key::BackTab);
    assert_eq!(app.current_tab, 2);
    app.handle_key_event(Key::BackTab);
    assert_eq!(app.current_tab, 1);
}

#[test]
fn keys_move_the_selection_around_the_list() {
    let mut app = loaded();
    app.handle_key_event(Key::Up);
    assert_eq!(app.selected_dependency, 4);
    app.handle_key_event(Key::Down);
    assert_eq!(app.selected_dependency, 0);
    app.handle_key_event(Key::Char('j'));
    app.handle_key_event(Key::Char('j'));
    assert_eq!(app.selected_dependency, 2);
    app.handle_key_event(Key::Char('k'));
    assert_eq!(app.selected_dependency, 1);
    app.filter_option = FilterOption::Dev;
    app.handle_key_event(Key::Down);
    assert_eq!(app.selected_dependency, 0);
    app.search_query = "zzz".to_string();
    app.handle_key_event(Key::Down);
    assert_eq!(app.selected_dependency, 0);
    app.handle_key_event(Key::Up);
    assert_eq!(app.selected_dependency, 0);
    let mut empty = App::new("p".to_string(), None);
    empty.selected_dependency = 7;
    empty.handle_key_event(Key::Down);
    assert_eq!(empty.selected_dependency, 7);
}

#[test]
fn keys_change_the_options() {
    let mut app = loaded();
    app.selected_dependency = 2;
    app.handle_key_event(Key::Char('s'));
    assert_eq!(app.sort_option, SortOption::UsageCount);
    assert_eq!(app.selected_dependency, 2);
    app.handle_key_event(Key::Char('r'));
    assert!(app.sort_reverse);
    app.handle_key_event(Key::Char('r'));
    assert!(!app.sort_reverse);
    app.handle_key_event(Key::Char('f'));
    assert_eq!(app.filter_option, FilterOption::Normal);
    assert_eq!(app.selected_dependency, 0);
    app.handle_key_event(Key::Char('?'));
    assert!(app.show_help);
    app.handle_key_event(Key::Char('?'));
    assert!(!app.show_help);
    app.handle_key_event(Key::Other);
    app.handle_key_event(Key::Enter);
    app.handle_key_event(Key::Char('x'));
    assert!(!app.should_quit);
    app.handle_key_event(Key::Char('q'));
    assert!(app.should_quit);
    let mut other = loaded();
    other.handle_key_event(Key::Esc);
    assert!(other.should_quit);
}

#[test]
fn keys_edit_the_search_text() {
    let mut app = loaded();
    app.search_query = "old".to_string();
    app.handle_key_event(Key::Char('/'));
    assert!(app.is_searching);
    assert_eq!(app.search_query, "");
    for c in ['q', 'u', 'é', '?'] {
        app.handle_key_event(Key::Char(c));
    }
    assert_eq!(app.search_query, "qué?");
    assert!(!app.should_quit);
    app.handle_key_event(Key::Backspace);
    app.handle_key_event(Key::Tab);
    assert_eq!(app.search_query, "qué");
    assert_eq!(app.current_tab, 0);
    app.handle_key_event(Key::Enter);
    assert!(!app.is_searching);
    assert_eq!(app.search_query, "qué");
    app.handle_key_event(Key::Char('/'));
    app.handle_key_event(Key::Backspace);
    assert_eq!(app.search_query, "");
    app.handle_key_event(Key::Char('a'));
    app.handle_key_event(Key::Esc);
    assert!(!app.is_searching);
    assert_eq!(app.search_query, "");
    assert!(!app.should_quit);
}

#[test]
fn ticks_count_and_wrap() {
    let mut app = loaded();
    app.handle_event(Event::Tick);
    app.tick();
    assert_eq!(app.tick_count, 2);
    app.tick_count = usize::MAX;
    app.handle_event(Event::Tick);
    assert_eq!(app.tick_count, 0);
    app.handle_event(Event::Key(Key::Tab));
    assert_eq!(app.current_tab, 1);
    assert_eq!(app.tick_count, 0);
    assert_eq!(EventConfig { tick_rate: 100 }.tick_rate, 100);
}

#[test]
fn a_margin_shrinks_a_rectangle() {
    let r = Rect { x: 10, y: 20, width: 30, height: 8 };
    assert_eq!(r.inner(&Margin { vertical: 1, horizontal: 2 }), Rect { x: 12, y: 21, width: 26, height: 6 });
    assert_eq!(r.inner(&Margin { vertical: 9, horizontal: 100 }), Rect { x: 25, y: 24, width: 0, height: 0 });
    assert_eq!(r.inner(&Margin { vertical: 0, horizontal: 0 }), r);
    let odd = Rect { x: 0, y: 0, width: 5, height: 1 };
    assert_eq!(odd.inner(&Margin { vertical: 1, horizontal: 3 }), Rect { x: 2, y: 0, width: 1, height: 1 });
}

#[test]
fn importance_colors_follow_the_thresholds() {
    assert_eq!(importance_color(1_000_000), ScoreColor::Success);
    assert_eq!(importance_color(700_001), ScoreColor::Success);
    assert_eq!(importance_color(700_000), ScoreColor::Warning);
    assert_eq!(importance_color(300_001), ScoreColor::Warning);
    assert_eq!(importance_color(300_000), ScoreColor::Error);
    assert_eq!(importance_color(0), ScoreColor::Error);
}

#[test]
fn a_bar_shows_the_share_of_a_count() {
    assert_eq!(bar_width(0, 12, 10), 0);
    assert_eq!(bar_width(3, 12, 10), 2);
    assert_eq!(bar_width(5, 12, 10), 4);
    assert_eq!(bar_width(11, 12, 10), 9);
    assert_eq!(bar_width(12, 12, 10), 10);
    assert_eq!(bar_width(40, 12, 10), 10);
    assert_eq!(bar_width(1, 1, 0), 0);
    assert_eq!(bar_width(usize::MAX - 1, usize::MAX, usize::MAX), usize::MAX - 1);
    assert_eq!(bar_width(usize::MAX - 1, usize::MAX, 7), 6);
    assert_eq!(bar_width(usize::MAX, 1, 10), 10);
}
