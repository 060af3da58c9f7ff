//! The picker front-end's parsing side.  Spawning the picker is I/O and
//! lives outside the engine; what it prints — an optional pressed-key token
//! and an optional selected line — is parsed here, and the plain session
//! name is recovered from a formatted display line.
use vstd::prelude::*;

use crate::strutil::{
    find_char_from, index_of_char, lines_v, opt_str_view, split_whitespace_tokens, split_ws_v,
    strs_view, trim_v, trim_ws,
};

verus! {

/// What the picker returned: the pressed "expect" key token, if any, and
/// the selected display line, if any.
#[derive(Debug, Clone, PartialEq)]
pub struct FzfResult {
    pub key: Option<String>,
    pub selection: Option<String>,
}

/// Presentation switches for the picker front-end.
#[derive(Debug, Clone, PartialEq)]
pub struct FzfInterface {
    pub preview_enabled: bool,
    pub force_no_popup: bool,
}

/// What the picker's raw output denotes: nothing when it printed nothing,
/// a bare selection when it printed one line, and a key token followed by
/// the selection when it printed two or more.
pub open spec fn fzf_result_v(raw: Seq<char>) -> (Option<Seq<char>>, Option<Seq<char>>) {
    let lines = lines_v(trim_v(raw));
    if lines.len() == 0 {
        (None, None)
    } else if lines.len() == 1 {
        (None, Some(lines[0]))
    } else {
        (Some(lines[0]), Some(lines[1]))
    }
}

/// The plain session name inside a formatted display line: the second
/// whitespace-separated token (the first is the colored icon), without any
/// trailing source annotation in parentheses; a line with fewer than two
/// tokens is returned whole.
pub open spec fn extract_name_v(sel: Seq<char>) -> Seq<char> {
    let tokens = split_ws_v(sel);
    if tokens.len() >= 2 {
        let name_part = tokens[1];
        match index_of_char(name_part, '(', 0) {
            Some(i) => trim_v(name_part.take(i)),
            None => name_part,
        }
    } else {
        sel
    }
}

impl FzfInterface {
    /// A picker with the preview pane enabled, using the embedded popup
    /// presentation when available.
    pub fn new() -> (r: FzfInterface)
        ensures
            r.preview_enabled,
            !r.force_no_popup,
    {
        FzfInterface { preview_enabled: true, force_no_popup: false }
    }

    /// The same picker with the preview toggle replaced.
    pub fn with_preview_enabled(self, enabled: bool) -> (r: FzfInterface)
        ensures
            r.preview_enabled == enabled,
            r.force_no_popup == self.force_no_popup,
    {
        FzfInterface { preview_enabled: enabled, ..self }
    }

    /// The same picker with the plain-presentation override replaced.
    pub fn with_force_no_popup(self, force: bool) -> (r: FzfInterface)
        ensures
            r.preview_enabled == self.preview_enabled,
            r.force_no_popup == force,
    {
        FzfInterface { force_no_popup: force, ..self }
    }

    /// Parse the picker's raw output into key token and selection.
    pub fn parse_fzf_result(&self, result: &str) -> (r: FzfResult)
        ensures
            (opt_str_view(r.key), opt_str_view(r.selection)) == fzf_result_v(result@),
    {
        let trimmed = trim_ws(result);
        let lines = crate::strutil::split_lines(trimmed);
        if lines.len() == 0 {
            FzfResult { key: None, selection: None }
        } else if lines.len() == 1 {
            proof {
                assert(lines_v(trim_v(result@))[0] == strs_view(lines@)[0]);
            }
            FzfResult { key: None, selection: Some(lines[0].clone()) }
        } else {
            proof {
                assert(lines_v(trim_v(result@))[0] == strs_view(lines@)[0]);
                assert(lines_v(trim_v(result@))[1] == strs_view(lines@)[1]);
            }
            FzfResult { key: Some(lines[0].clone()), selection: Some(lines[1].clone()) }
        }
    }

    /// Recover the plain session name from a formatted display line.
    pub fn extract_session_name(&self, formatted_selection: &str) -> (r: String)
        ensures
            r@ == extract_name_v(formatted_selection@),
    {
        let tokens = split_whitespace_tokens(formatted_selection);
        if tokens.len() >= 2 {
            let name_part = &tokens[1];
            proof {
                assert(strs_view(tokens@)[1] == name_part@);
            }
            match find_char_from(name_part.as_str(), '(', 0) {
                Some(open_paren) => {
                    let before = name_part.as_str().substring_char(0, open_paren);
                    proof {
                        assert(before@ =~= name_part@.take(open_paren as int));
                    }
                    trim_ws(before).to_owned()
                },
                None => name_part.clone(),
            }
        } else {
            formatted_selection.to_owned()
        }
    }
}

} // verus!
