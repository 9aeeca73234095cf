//! The options that the Shifra Tk binding hands to a new Tcl interpreter.

use vstd::prelude::*;
use vstd::string::StringExecFns;

use crate::text::{opt_view, string_push};

verus! {

/// The Tcl `argv` value carrying Tk's `-sync` and `-use <window>` options,
/// or `None` when neither is asked for.
pub open spec fn spec_tk_argv(sync: bool, use_window: Option<Seq<char>>) -> Option<Seq<char>> {
    if !sync && use_window is None {
        None
    } else {
        let sync_part = if sync {
            "-sync"@
        } else {
            seq![]
        };
        let use_part = match use_window {
            Some(w) => (if sync {
                seq![' ']
            } else {
                seq![]
            }) + "-use "@ + w,
            None => seq![],
        };
        Some(sync_part + use_part)
    }
}

/// The view of an optional owned string.
pub open spec fn opt_string_view(o: Option<String>) -> Option<Seq<char>> {
    match o {
        Some(s) => Some(s@),
        None => None,
    }
}

/// Build the Tcl `argv` value for the `sync` and `use` constructor options
/// (`sync` is a C-style flag: any non-zero value asks for it).
pub fn tk_argv(sync: i32, use_window: Option<&str>) -> (r: Option<String>)
    ensures
        opt_string_view(r) == spec_tk_argv(sync != 0, opt_view(use_window)),
{
    if sync == 0 && use_window.is_none() {
        return None;
    }
    let mut argv = String::new();
    if sync != 0 {
        argv.append("-sync");
    }
    if let Some(w) = use_window {
        if sync != 0 {
            string_push(&mut argv, ' ');
        }
        argv.append("-use ");
        argv.append(w);
    }
    Some(argv)
}

} // verus!
