//! Workspace context data and the pure text edits behind the memory files.
//! Reading and writing the files themselves is an outer concern.

use vstd::prelude::*;
use crate::util::{
    str_chars, chars_to_string, copy_range, spec_find, find_sub_from, lemma_spec_find_bounds,
    extend_chars,
};

verus! {

/// All workspace files assembled for injection into the system prompt.
pub struct BootstrapContext {
    pub soul: String,
    pub identity: String,
    pub agents: String,
    pub tools: String,
    pub user: String,
    pub heartbeat: String,
    pub memory: String,
    pub goals: String,
    pub bootstrap: Option<String>,
    pub skills: Vec<SkillContext>,
}

/// One loaded skill file.
pub struct SkillContext {
    pub name: String,
    pub content: String,
}

/// The long-term memory file with one entry added under a section: right
/// after the section's header line when the header occurs, else with the
/// section appended at the end.
pub open spec fn spec_insert_memory(
    content: Seq<char>,
    header: Seq<char>,
    entry: Seq<char>,
) -> Seq<char> {
    match spec_find(content, header, 0) {
        Some(pos) => {
            let insert_pos = match spec_find(content, "\n"@, pos) {
                Some(nl) => nl + 1,
                None => content.len() as int,
            };
            content.subrange(0, insert_pos) + "- "@ + entry + "\n"@ + content.subrange(
                insert_pos, content.len() as int)
        },
        None => content + "\n"@ + header + "\n- "@ + entry + "\n"@,
    }
}

/// Compute the long-term memory file content with an entry appended under a
/// section (written as `## <section>`); the section is created at the end
/// when missing.  Persisting the result is the caller's concern.
pub fn append_long_term_memory(content: &str, section: &str, entry: &str) -> (r: String)
    ensures
        r@ == spec_insert_memory(content@, "## "@ + section@, entry@),
{
    let cv = str_chars(content);
    let mut header: Vec<char> = str_chars("## ");
    proof {
        reveal_strlit("## ");
        reveal_strlit("\n");
        reveal_strlit("- ");
        reveal_strlit("\n- ");
    }
    let sv = str_chars(section);
    extend_chars(&mut header, &sv);
    proof {
        assert(header@ =~= "## "@ + section@);
    }
    let newline = str_chars("\n");
    let n = cv.len();
    match find_sub_from(&cv, &header, 0) {
        Some(pos) => {
            proof {
                lemma_spec_find_bounds(cv@, header@, 0);
            }
            let insert_pos: usize = match find_sub_from(&cv, &newline, pos) {
                Some(nl) => {
                    proof {
                        lemma_spec_find_bounds(cv@, newline@, pos as int);
                    }
                    nl + 1
                },
                None => n,
            };
            let mut out = copy_range(&cv, 0, insert_pos);
            out.push('-');
            out.push(' ');
            let ev = str_chars(entry);
            extend_chars(&mut out, &ev);
            out.push('\n');
            let tail = copy_range(&cv, insert_pos, n);
            extend_chars(&mut out, &tail);
            proof {
                assert(out@ =~= cv@.subrange(0, insert_pos as int) + "- "@ + entry@ + "\n"@
                    + cv@.subrange(insert_pos as int, n as int));
            }
            chars_to_string(&out)
        },
        None => {
            let mut out = copy_range(&cv, 0, n);
            out.push('\n');
            extend_chars(&mut out, &header);
            out.push('\n');
            out.push('-');
            out.push(' ');
            let ev = str_chars(entry);
            extend_chars(&mut out, &ev);
            out.push('\n');
            proof {
                assert(cv@.subrange(0, n as int) =~= cv@);
                assert(out@ =~= cv@ + "\n"@ + ("## "@ + section@) + "\n- "@ + entry@ + "\n"@);
            }
            chars_to_string(&out)
        },
    }
}

} // verus!
