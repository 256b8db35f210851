use input_gatherer::config::find_layout;
use input_gatherer::layout::{resolve, resolve_from, LayoutSource};

fn text(s: &str) -> Option<String> {
    Some(String::from(s))
}

#[test]
fn config_line_with_blanks_around_key_and_value() {
    assert_eq!(find_layout("  KEYBOARD-LAYOUT =  us  "), text("us"));
    assert_eq!(resolve(None, text("  KEYBOARD-LAYOUT =  us  ")), "us");
}

#[test]
fn config_without_matching_line_falls_back() {
    assert_eq!(find_layout("FONT = lat9\nKEYMAP = de\n"), None);
    assert_eq!(resolve(None, text("FONT = lat9\nKEYMAP = de\n")), "");
}

#[test]
fn config_with_two_matching_lines_yields_first() {
    let config = "# keyboard\nKEYBOARD-LAYOUT=fr\nKEYBOARD-LAYOUT=de\n";
    assert_eq!(find_layout(config), text("fr"));
    assert_eq!(resolve(None, text(config)), "fr");
}

#[test]
fn override_takes_precedence_over_config() {
    assert_eq!(resolve(text("de"), text("KEYBOARD-LAYOUT = us\n")), "de");
    assert_eq!(resolve(text("de"), None), "de");
}

#[test]
fn empty_override_is_still_the_override() {
    assert_eq!(resolve(text(""), text("KEYBOARD-LAYOUT = us\n")), "");
}

#[test]
fn neither_override_nor_config_yields_empty_layout() {
    assert_eq!(resolve(None, None), "");
    assert_eq!(resolve(None, text("")), "");
}

#[test]
fn sources_yield_what_they_hold() {
    assert_eq!(LayoutSource::Override(text("de")).produce(), text("de"));
    assert_eq!(LayoutSource::Override(None).produce(), None);
    assert_eq!(LayoutSource::ConfigText(text("KEYBOARD-LAYOUT=us")).produce(), text("us"));
    assert_eq!(LayoutSource::ConfigText(text("FONT=lat9")).produce(), None);
    assert_eq!(LayoutSource::ConfigText(None).produce(), None);
}

#[test]
fn first_yielding_source_decides() {
    let sources = vec![
        LayoutSource::ConfigText(None),
        LayoutSource::Override(None),
        LayoutSource::ConfigText(text("FONT=lat9\nKEYBOARD-LAYOUT=se\n")),
        LayoutSource::Override(text("de")),
    ];
    assert_eq!(resolve_from(&sources), "se");
    assert_eq!(resolve_from(&Vec::new()), "");
    assert_eq!(resolve_from(&vec![LayoutSource::Override(None)]), "");
}
