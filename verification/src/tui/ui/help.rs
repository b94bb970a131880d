//! The help view's text: key bindings and the current charset.

use vstd::prelude::*;

use crate::app::state::AppState;

verus! {

broadcast use vstd::string::group_string_axioms;

pub struct Help;

/// The help text's lines for the current charset's name.
pub open spec fn help_text_lines(charset_name: Seq<char>) -> Seq<Seq<char>> {
    seq![
        "Key Bindings:"@,
        "  q - Quit"@,
        "  h - Show this help"@,
        "  l - Library view"@,
        "  m - Bookmarks view"@,
        "  b - Add bookmark"@,
        "  / - Start search"@,
        "  n - Next search match"@,
        "  p - Previous search match"@,
        "  c - Cycle charset (UTF-8 → GB2312 → GBK → GB18030)"@,
        "  j/PageDown/Down - Next page"@,
        "  k/PageUp/Up - Previous page"@,
        "  n - Next chapter"@,
        "  p - Previous chapter"@,
        "  d - Delete bookmark (in bookmarks view)"@,
        ""@,
        "Current Charset: "@ + charset_name,
        ""@,
        "lostower - Terminal E-book Reader"@,
    ]
}

impl Help {
    /// The lines of the help text.
    pub fn lines(state: &AppState) -> (lines: Vec<String>)
        ensures
            lines.deep_view() == help_text_lines(state.current_charset.spec_name()),
    {
        let mut charset_line = String::from_str("Current Charset: ");
        charset_line.push_str(state.current_charset.name());
        let lines = vec![
            String::from_str("Key Bindings:"),
            String::from_str("  q - Quit"),
            String::from_str("  h - Show this help"),
            String::from_str("  l - Library view"),
            String::from_str("  m - Bookmarks view"),
            String::from_str("  b - Add bookmark"),
            String::from_str("  / - Start search"),
            String::from_str("  n - Next search match"),
            String::from_str("  p - Previous search match"),
            String::from_str("  c - Cycle charset (UTF-8 → GB2312 → GBK → GB18030)"),
            String::from_str("  j/PageDown/Down - Next page"),
            String::from_str("  k/PageUp/Up - Previous page"),
            String::from_str("  n - Next chapter"),
            String::from_str("  p - Previous chapter"),
            String::from_str("  d - Delete bookmark (in bookmarks view)"),
            String::from_str(""),
            charset_line,
            String::from_str(""),
            String::from_str("lostower - Terminal E-book Reader"),
        ];
        assert(lines.deep_view() =~= help_text_lines(state.current_charset.spec_name()));
        lines
    }
}

} // verus!
