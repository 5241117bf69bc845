//! Honesty gates for static recompilation: what the pipeline does not claim.

use vstd::prelude::*;

use crate::text::{bool_word, push_bool};

verus! {

/// The pipeline does not generate an operating system.
pub const GENERATES_OS: bool = false;

/// Automatic fixing of a reconstruction is not complete.
pub const AUTO_FIX_COMPLETE: bool = false;

/// Pipeline still incomplete as a product.
pub const STATIC_RECOMP_COMPLETE: bool = false;

/// Win32 / PE imports / SEH are not covered.
pub const WIN32_ABI_COMPLETE: bool = false;

/// Never claim arbitrary PE execution.
pub const RUNS_ANY_PE: bool = false;

pub const BANNER: &'static str = "≠ Wine / ≠ Win32 completo: `static_recomp_complete: false` · `win32_abi_complete: false` · `runs_any_pe: false` — lift estático SIR ≠ correr .exe arbitrário.";

/// The honesty section of a report, in Markdown.
pub open spec fn honesty_markdown() -> Seq<char> {
    "## Honesty (static recomp)\n\n- "@ + BANNER@ + "\n- `generates_os: "@ + bool_word(GENERATES_OS)
        + "` · `auto_fix_complete: "@ + bool_word(AUTO_FIX_COMPLETE)
        + "`\n- `static_recomp_complete: "@ + bool_word(STATIC_RECOMP_COMPLETE)
        + "` · `win32_abi_complete: "@ + bool_word(WIN32_ABI_COMPLETE) + "` · `runs_any_pe: "@
        + bool_word(RUNS_ANY_PE) + "`\n"@
}

/// Renders the honesty section: the banner and every honesty flag.
pub fn markdown_section() -> (s: String)
    ensures
        s@ == honesty_markdown(),
{
    let mut s = String::from_str("## Honesty (static recomp)\n\n- ");
    s.append(BANNER);
    s.append("\n- `generates_os: ");
    push_bool(&mut s, GENERATES_OS);
    s.append("` · `auto_fix_complete: ");
    push_bool(&mut s, AUTO_FIX_COMPLETE);
    s.append("`\n- `static_recomp_complete: ");
    push_bool(&mut s, STATIC_RECOMP_COMPLETE);
    s.append("` · `win32_abi_complete: ");
    push_bool(&mut s, WIN32_ABI_COMPLETE);
    s.append("` · `runs_any_pe: ");
    push_bool(&mut s, RUNS_ANY_PE);
    s.append("`\n");
    s
}

} // verus!
