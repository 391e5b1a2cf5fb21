use tinymd::convert::convert_to_html;
use tinymd::convert::TagState;

fn lines_of(items: &[&str]) -> Vec<String> {
    let mut lines: Vec<String> = Vec::new();
    for item in items {
        lines.push(String::from(*item));
    }
    lines
}

#[test]
fn end_to_end_example() {
    let lines = lines_of(&["# Title", "Hello world", "", "# Next"]);
    let fragments = convert_to_html(&lines);
    assert_eq!(
        fragments,
        vec![
            String::from("\n<h1>Title</h1>\n"),
            String::from("<p>Hello world</p>\n"),
            String::from("\n<h1>Next</h1>\n"),
        ]
    );
}

#[test]
fn single_paragraph_line() {
    let lines = lines_of(&["plain text"]);
    let fragments = convert_to_html(&lines);
    assert_eq!(fragments, vec![String::from("<p>plain text</p>\n")]);
}

#[test]
fn empty_input_gives_no_fragments() {
    let lines: Vec<String> = Vec::new();
    let fragments = convert_to_html(&lines);
    assert_eq!(fragments.len(), 0);
    let mut document = String::new();
    for fragment in &fragments {
        document.push_str(fragment);
    }
    assert_eq!(document, "");
}

#[test]
fn bare_marker_line_keeps_empty_heading() {
    let lines = lines_of(&["#"]);
    let fragments = convert_to_html(&lines);
    assert_eq!(fragments, vec![String::from("\n<h1></h1>\n")]);
}

#[test]
fn empty_line_is_elided() {
    let lines = lines_of(&[""]);
    let fragments = convert_to_html(&lines);
    assert_eq!(fragments.len(), 0);
}

#[test]
fn heading_drops_marker_and_separator() {
    let lines = lines_of(&["# Heading"]);
    let fragments = convert_to_html(&lines);
    assert_eq!(fragments, vec![String::from("\n<h1>Heading</h1>\n")]);
}

#[test]
fn heading_cut_is_fixed_width() {
    let lines = lines_of(&["#Title"]);
    let fragments = convert_to_html(&lines);
    assert_eq!(fragments, vec![String::from("\n<h1>itle</h1>\n")]);
}

#[test]
fn paragraph_text_is_verbatim() {
    let lines = lines_of(&["hello <b> & world"]);
    let fragments = convert_to_html(&lines);
    assert_eq!(fragments, vec![String::from("<p>hello <b> & world</p>\n")]);
}

#[test]
fn consecutive_paragraphs_are_self_closed() {
    let lines = lines_of(&["first", "second"]);
    let fragments = convert_to_html(&lines);
    assert_eq!(
        fragments,
        vec![
            String::from("<p>first</p>\n"),
            String::from("<p>second</p>\n"),
        ]
    );
}

#[test]
fn consecutive_headings_are_self_closed() {
    let lines = lines_of(&["# One", "# Two"]);
    let fragments = convert_to_html(&lines);
    assert_eq!(
        fragments,
        vec![
            String::from("\n<h1>One</h1>\n"),
            String::from("\n<h1>Two</h1>\n"),
        ]
    );
}

#[test]
fn fragment_count_is_lines_minus_elided() {
    let lines = lines_of(&["# Title", "Hello world", "", "# Next"]);
    let fragments = convert_to_html(&lines);
    assert_eq!(fragments.len(), lines.len() - 1);
    assert!(fragments.len() <= lines.len());
}

#[test]
fn reordering_unrelated_lines_keeps_fragment_content() {
    let one = convert_to_html(&lines_of(&["alpha", "# Mid", "beta"]));
    let two = convert_to_html(&lines_of(&["beta", "# Mid", "alpha"]));
    assert_eq!(one[0], "<p>alpha</p>\n");
    assert_eq!(one[2], "<p>beta</p>\n");
    assert_eq!(two[0], "<p>beta</p>\n");
    assert_eq!(two[2], "<p>alpha</p>\n");
    assert_eq!(one[1], two[1]);
}

#[test]
fn process_line_clears_flags_after_paragraph() {
    let mut state = TagState::new();
    let fragment = state.process_line("some text");
    assert_eq!(fragment, "<p>some text</p>\n");
    assert!(!state.paragraph_open);
    assert!(!state.heading_open);
}

#[test]
fn process_line_clears_flags_after_heading() {
    let mut state = TagState::new();
    let fragment = state.process_line("# Top");
    assert_eq!(fragment, "\n<h1>Top</h1>\n");
    assert!(!state.paragraph_open);
    assert!(!state.heading_open);
}

#[test]
fn process_line_closes_carried_blocks_first() {
    let mut state = TagState {
        paragraph_open: true,
        heading_open: false,
    };
    let fragment = state.process_line("# After");
    assert_eq!(fragment, "</p>\n\n<h1>After</h1>\n");
    assert!(!state.paragraph_open);
    assert!(!state.heading_open);
}

#[test]
fn process_line_closes_carried_heading_before_paragraph() {
    let mut state = TagState {
        paragraph_open: false,
        heading_open: true,
    };
    let fragment = state.process_line("after");
    assert_eq!(fragment, "</h1>\n<p>after</p>\n");
    assert!(!state.paragraph_open);
    assert!(!state.heading_open);
}

#[test]
fn process_line_builds_degenerate_empty_paragraph() {
    let mut state = TagState::new();
    let fragment = state.process_line("");
    assert_eq!(fragment, "<p></p>\n");
    assert!(!state.paragraph_open);
    assert!(!state.heading_open);
}
