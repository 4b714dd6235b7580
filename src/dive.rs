//! Dive preps: named grounding documents for a session, their names, their
//! scaffold, and what is read into them.

use vstd::prelude::*;
use crate::checkpoint::{decimal_text, is_decimal_of};
use crate::json::{json_get, json_parse_of, json_str_at, json_text, json_text_of, parse_json, str_eq};
use crate::render::{byte_len, fit_prefix, prefix_within, utf8_len};
use crate::text::{
    chars_of, copy_str, join, join_lines, lines_of, push_str, split_lines, starts_with,
    str_starts_with, trim, trim_str,
};

verus! {

// ---------------------------------------------------------------------------
// Names
// ---------------------------------------------------------------------------

pub open spec fn prep_name_char(c: char) -> bool {
    ('a' <= c && c <= 'z') || ('0' <= c && c <= '9') || c == '-'
}

/// A prep name: 1 to 64 characters of lower-case letters, digits and hyphens,
/// starting with a letter.
pub open spec fn valid_prep_name(s: Seq<char>) -> bool {
    &&& 0 < s.len() <= 64
    &&& 'a' <= s[0] && s[0] <= 'z'
    &&& forall|i: int| 0 <= i < s.len() ==> prep_name_char(#[trigger] s[i])
}

/// Whether `name` can name a prep.
pub fn is_valid_prep_name(name: &str) -> (r: bool)
    ensures
        r == valid_prep_name(name@),
{
    let v = chars_of(name);
    if v.len() == 0 || v.len() > 64 {
        return false;
    }
    if !('a' <= v[0] && v[0] <= 'z') {
        return false;
    }
    let mut i: usize = 0;
    while i < v.len()
        invariant
            i <= v.len(),
            v@ == name@,
            forall|k: int| 0 <= k < i ==> prep_name_char(#[trigger] v@[k]),
        decreases v.len() - i,
    {
        let c = v[i];
        if !(('a' <= c && c <= 'z') || ('0' <= c && c <= '9') || c == '-') {
            proof {
                assert(!prep_name_char(v@[i as int]));
            }
            return false;
        }
        i += 1;
    }
    true
}

/// The scaffold of a new prep.
pub fn default_prep_content(name: &str) -> (r: String)
    ensures
        r@ == "# Dive: "@ + name@ + "\n\nIntent: \n\n## Focus\n\n## Constraints\n"@,
{
    let mut r = copy_str("# Dive: ");
    push_str(&mut r, name);
    push_str(&mut r, "\n\nIntent: \n\n## Focus\n\n## Constraints\n");
    r
}

/// A prep in the list: marked with `* ` where it is the current one.
pub fn prep_list_line(prep: &str, current: Option<&str>) -> (r: String)
    ensures
        r@ == (if current matches Some(c) && c@ == prep@ {
            "* "@
        } else {
            "  "@
        }) + prep@,
{
    let is_current = match current {
        Some(c) => str_eq(c, prep),
        None => false,
    };
    let mut r = copy_str(
        if is_current {
            "* "
        } else {
            "  "
        },
    );
    push_str(&mut r, prep);
    r
}

/// `s` cut to at most `max_len` bytes at a whole character, with `...` where
/// it was cut.
pub fn truncate(s: &str, max_len: usize) -> (r: String)
    ensures
        r@ == if fit_prefix(s@, max_len as int).len() < s@.len() {
            fit_prefix(s@, max_len as int) + "..."@
        } else {
            s@
        },
{
    let (mut kept, cut) = prefix_within(s, max_len);
    if cut {
        push_str(&mut kept, "...");
        kept
    } else {
        copy_str(s)
    }
}

// ---------------------------------------------------------------------------
// Workflows
// ---------------------------------------------------------------------------

/// The workflow steps for an intent type; exploring is the default.
pub open spec fn workflow_text(intent_type: Seq<char>) -> Seq<char> {
    if intent_type == "fix"@ {
            "1. Understand the issue\n2. Write failing test (if applicable)\n3. Implement fix\n4. Run tests\n5. Commit with clear message\n6. PR for review"@
        } else if intent_type == "plan"@ {
            "1. Review available context\n2. Identify options and trade-offs\n3. Draft plan with concrete steps\n4. Surface risks and dependencies\n5. Document decision rationale"@
        } else if intent_type == "review"@ {
            "1. Gather recent work artifacts\n2. Identify patterns, learnings, surprises\n3. Surface insights worth capturing\n4. Document findings"@
        } else if intent_type == "ship"@ {
            "1. Verify all tests pass\n2. Check constraints and guardrails\n3. Review changes for completeness\n4. Create PR with full context\n5. Address review feedback\n6. Deploy when approved"@
        } else {
            "1. Understand the problem space\n2. Read relevant code/docs\n3. Ask clarifying questions\n4. Document findings\n5. Identify next steps"@
        }
}

/// The workflow steps for an intent type; exploring is the default.
pub fn get_workflow(intent_type: &str) -> (r: String)
    ensures
        r@ == workflow_text(intent_type@),
{
    if str_eq(intent_type, "fix") {
        copy_str(
            "1. Understand the issue\n2. Write failing test (if applicable)\n3. Implement fix\n4. Run tests\n5. Commit with clear message\n6. PR for review",
        )
    } else if str_eq(intent_type, "plan") {
        copy_str(
            "1. Review available context\n2. Identify options and trade-offs\n3. Draft plan with concrete steps\n4. Surface risks and dependencies\n5. Document decision rationale",
        )
    } else if str_eq(intent_type, "review") {
        copy_str(
            "1. Gather recent work artifacts\n2. Identify patterns, learnings, surprises\n3. Surface insights worth capturing\n4. Document findings",
        )
    } else if str_eq(intent_type, "ship") {
        copy_str(
            "1. Verify all tests pass\n2. Check constraints and guardrails\n3. Review changes for completeness\n4. Create PR with full context\n5. Address review feedback\n6. Deploy when approved",
        )
    } else {
        copy_str(
            "1. Understand the problem space\n2. Read relevant code/docs\n3. Ask clarifying questions\n4. Document findings\n5. Identify next steps",
        )
    }
}

// ---------------------------------------------------------------------------
// Project overview
// ---------------------------------------------------------------------------

/// The state after reading lines of a project file: inside the overview,
/// stopped at the next section, the lines kept, and their bytes.
pub open spec fn overview_scan(ls: Seq<Seq<char>>) -> (bool, bool, Seq<Seq<char>>, int)
    decreases ls.len(),
{
    if ls.len() == 0 {
        (false, false, seq![], 0)
    } else {
        let (inside, stopped, kept, bytes) = overview_scan(ls.drop_last());
        let l = ls.last();
        if stopped {
            (inside, stopped, kept, bytes)
        } else if starts_with(l, "# "@) {
            (true, false, kept, bytes)
        } else if starts_with(l, "## "@) && inside {
            (inside, true, kept, bytes)
        } else if inside && bytes < 800 {
            (inside, false, kept.push(l), bytes + utf8_len(l))
        } else {
            (inside, false, kept, bytes)
        }
    }
}

/// The overview of a project file: the lines after its first `# ` heading up
/// to the next `## ` heading (until 800 bytes are kept), trimmed; where there
/// are none, its first 500 characters.
pub open spec fn overview_of(content: Seq<char>) -> Seq<char> {
    let kept = overview_scan(lines_of(content)).2;
    if kept.len() == 0 {
        if content.len() > 500 {
            content.take(500)
        } else {
            content
        }
    } else {
        trim(join(kept, "\n"@))
    }
}

/// The overview of a project file.
pub fn summarize_claude_md(content: &str) -> (r: String)
    ensures
        r@ == overview_of(content@),
{
    let lines = split_lines(content);
    let ghost ls = lines.deep_view();
    let mut kept: Vec<String> = Vec::new();
    let mut inside = false;
    let mut stopped = false;
    let mut bytes: u128 = 0;
    let mut i: usize = 0;
    while i < lines.len()
        invariant
            i <= lines.len(),
            ls == lines.deep_view(),
            ls == lines_of(content@),
            bytes < 800 + 4 * (usize::MAX as u128),
            overview_scan(ls.take(i as int)) == (inside, stopped, kept.deep_view(), bytes as int),
        decreases lines.len() - i,
    {
        proof {
            assert(ls.take(i + 1).drop_last() =~= ls.take(i as int));
            assert(ls.take(i + 1).last() == lines[i as int]@);
        }
        let line = lines[i].as_str();
        if stopped {
        } else if str_starts_with(line, "# ") {
            inside = true;
        } else if str_starts_with(line, "## ") && inside {
            stopped = true;
        } else if inside && bytes < 800 {
            let n = byte_len(line);
            let ghost before = kept.deep_view();
            kept.push(copy_str(line));
            proof {
                assert(kept.deep_view() =~= before.push(line@));
            }
            proof {
                assert(lines[i as int]@ == line@);
                lemma_utf8_len_bound(line@);
            }
            bytes = bytes + n;
        }
        i += 1;
    }
    proof {
        assert(ls.take(lines.len() as int) =~= ls);
    }
    if kept.len() == 0 {
        let v = chars_of(content);
        if v.len() > 500 {
            proof {
                assert(v@.subrange(0, 500) =~= content@.take(500));
            }
            crate::text::string_of(&v, 0, 500)
        } else {
            copy_str(content)
        }
    } else {
        proof {
            assert(kept.deep_view().skip(0) =~= kept.deep_view());
        }
        let joined = join_lines(&kept, 0, "\n");
        trim_str(joined.as_str())
    }
}

// ---------------------------------------------------------------------------
// Documents read from outside
// ---------------------------------------------------------------------------

/// The markdown of a dive pack from the service's JSON answer: an error where
/// the answer is not JSON, reports an error, or has no `rendered_md` string.
pub fn dive_pack_markdown(response: &str) -> (r: Result<String, String>)
    ensures
        match json_parse_of(response@) {
            None => r matches Err(m) && m@ == "Failed to parse dive pack response"@,
            Some(j) => match json_get(j, "error"@) {
                Some(e) => r matches Err(m) && m@ == "OH API error: "@ + json_text_of(e),
                None => match json_str_at(j, "rendered_md"@) {
                    Some(md) => r matches Ok(s) && s@ == md,
                    None => r matches Err(m) && m@ == "Dive pack missing rendered_md field"@,
                },
            },
        },
{
    let j = match parse_json(response) {
        Some(j) => j,
        None => return Err(copy_str("Failed to parse dive pack response")),
    };
    if let Some(e) = j.get("error") {
        let mut m = copy_str("OH API error: ");
        let t = json_text(e);
        push_str(&mut m, t.as_str());
        return Err(m);
    }
    match j.str_at("rendered_md") {
        Some(md) => Ok(md),
        None => Err(copy_str("Dive pack missing rendered_md field")),
    }
}

/// A string setting from the service's JSON configuration file.
pub fn config_value(content: &str, key: &str) -> (r: Result<String, String>)
    ensures
        match json_parse_of(content@) {
            None => r matches Err(m) && m@ == "Failed to parse config"@,
            Some(j) => match json_str_at(j, key@) {
                Some(v) => r matches Ok(s) && s@ == v,
                None => r matches Err(m) && m@ == "Key '"@ + key@ + "' not found in config"@,
            },
        },
{
    let j = match parse_json(content) {
        Some(j) => j,
        None => return Err(copy_str("Failed to parse config")),
    };
    match j.str_at(key) {
        Some(v) => Ok(v),
        None => {
            let mut m = copy_str("Key '");
            push_str(&mut m, key);
            push_str(&mut m, "' not found in config");
            Err(m)
        },
    }
}

proof fn lemma_utf8_len_bound(s: Seq<char>)
    ensures
        0 <= utf8_len(s) <= 4 * s.len(),
    decreases s.len(),
{
    if s.len() > 0 {
        lemma_utf8_len_bound(s.drop_first());
    }
}

// ---------------------------------------------------------------------------
// Scaffolding a dive session
// ---------------------------------------------------------------------------

/// The lines that sum up a repository's state, from the output of
/// `git branch --show-current`, `git status --short` and `git log --oneline -3`
/// (each where the command succeeded).
pub open spec fn git_info_lines(
    branch: Option<Seq<char>>,
    status: Option<Seq<char>>,
    log: Option<Seq<char>>,
    status_count: Seq<char>,
) -> Seq<Seq<char>> {
    let b = match branch {
        Some(o) => if trim(o).len() > 0 {
            seq!["- Branch: `"@ + trim(o) + "`"@]
        } else {
            seq![]
        },
        None => seq![],
    };
    let s = match status {
        Some(o) => if lines_of(o).len() > 0 {
            seq!["- "@ + status_count + " uncommitted change(s)"@]
        } else {
            seq!["- Working tree clean"@]
        },
        None => seq![],
    };
    let l = match log {
        Some(o) => if trim(o).len() > 0 {
            seq!["\nRecent commits:"@] + lines_of(trim(o)).map_values(|x: Seq<char>| "  "@ + x)
        } else {
            seq![]
        },
        None => seq![],
    };
    b + s + l
}

/// The repository summary: its lines joined, or `None` where there are none.
pub open spec fn git_summary_of(
    branch: Option<Seq<char>>,
    status: Option<Seq<char>>,
    log: Option<Seq<char>>,
    status_count: Seq<char>,
) -> Option<Seq<char>> {
    let ls = git_info_lines(branch, status, log, status_count);
    if ls.len() == 0 {
        None
    } else {
        Some(join(ls, "\n"@))
    }
}

fn push_line(info: &mut Vec<String>, line: String)
    ensures
        final(info).deep_view() == old(info).deep_view().push(line@),
{
    let ghost before = info.deep_view();
    info.push(line);
    proof {
        assert(info.deep_view() =~= before.push(line@));
    }
}

/// Sums up a repository's state for a dive session; an error where no git
/// command succeeded.
pub fn git_context_summary(branch: Option<&str>, status: Option<&str>, log: Option<&str>) -> (r:
    Result<String, String>)
    ensures
        exists|n: Seq<char>|
            (status matches Some(o) ==> is_decimal_of(n, lines_of(o@).len() as int)) && match
                #[trigger] git_summary_of(
                crate::select::opt_str_view(branch),
                crate::select::opt_str_view(status),
                crate::select::opt_str_view(log),
                n,
            ) {
                None => r matches Err(m) && m@ == "Not a git repository"@,
                Some(t) => r matches Ok(s) && s@ == t,
            },
{
    let mut info: Vec<String> = Vec::new();
    if let Some(o) = branch {
        let b = trim_str(o);
        if !b.as_str().is_empty() {
            let mut line = copy_str("- Branch: `");
            push_str(&mut line, b.as_str());
            push_str(&mut line, "`");
            push_line(&mut info, line);
        }
    }
    let ghost after_branch = info.deep_view();
    let mut count = String::new();
    if let Some(o) = status {
        let n = split_lines(o).len();
        count = decimal_text(n as u64);
        if n > 0 {
            let mut line = copy_str("- ");
            push_str(&mut line, count.as_str());
            push_str(&mut line, " uncommitted change(s)");
            push_line(&mut info, line);
        } else {
            push_line(&mut info, copy_str("- Working tree clean"));
        }
    }
    let ghost after_status = info.deep_view();
    if let Some(o) = log {
        let t = trim_str(o);
        if !t.as_str().is_empty() {
            push_line(&mut info, copy_str("\nRecent commits:"));
            let ls = split_lines(t.as_str());
            let ghost base = info.deep_view();
            let mut i: usize = 0;
            while i < ls.len()
                invariant
                    i <= ls.len(),
                    info.deep_view() == base + ls.deep_view().take(i as int).map_values(
                        |x: Seq<char>| "  "@ + x,
                    ),
                decreases ls.len() - i,
            {
                let mut line = copy_str("  ");
                push_str(&mut line, ls[i].as_str());
                push_line(&mut info, line);
                proof {
                    assert(ls.deep_view().take(i + 1).map_values(|x: Seq<char>| "  "@ + x)
                        =~= ls.deep_view().take(i as int).map_values(|x: Seq<char>| "  "@ + x).push(
                        "  "@ + ls[i as int]@,
                    ));
                    assert(info.deep_view() =~= base + ls.deep_view().take(i + 1).map_values(
                        |x: Seq<char>| "  "@ + x,
                    ));
                }
                i += 1;
            }
            proof {
                assert(ls.deep_view().take(ls.len() as int) =~= ls.deep_view());
            }
        }
    }
    proof {
        let ls = git_info_lines(
            crate::select::opt_str_view(branch),
            crate::select::opt_str_view(status),
            crate::select::opt_str_view(log),
            count@,
        );
        assert(info.deep_view() =~= ls);
    }
    let r = if info.len() == 0 {
        Err(copy_str("Not a git repository"))
    } else {
        proof {
            assert(info.deep_view().skip(0) =~= info.deep_view());
        }
        Ok(join_lines(&info, 0, "\n"))
    };
    proof {
        let g = git_summary_of(
            crate::select::opt_str_view(branch),
            crate::select::opt_str_view(status),
            crate::select::opt_str_view(log),
            count@,
        );
        assert(status matches Some(o) ==> is_decimal_of(count@, lines_of(o@).len() as int));
        assert(match g {
            None => r matches Err(m) && m@ == "Not a git repository"@,
            Some(t) => r matches Ok(s) && s@ == t,
        });
    }
    r
}

/// The sections of a dive session document, one per line.
pub open spec fn dive_sections(
    intent_type: Seq<char>,
    started: Seq<char>,
    intent: Option<Seq<char>>,
    overview: Option<Seq<char>>,
    git: Option<Seq<char>>,
) -> Seq<Seq<char>> {
    seq!["# Dive Session\n"@, "**Intent:** "@ + intent_type, "**Started:** "@ + started] + (match intent {
        Some(i) => seq!["**Focus:** "@ + i],
        None => seq![],
    }) + seq![seq![], "## Context\n"@] + (match overview {
        Some(o) => seq!["### Project\n"@, o, seq![]],
        None => seq![],
    }) + (match git {
        Some(g) => seq!["### Git State\n"@, g, seq![]],
        None => seq![],
    }) + seq!["## Workflow\n"@, workflow_text(intent_type)]
}

fn push_section(sections: &mut Vec<String>, a: &str, b: &str)
    ensures
        final(sections).deep_view() == old(sections).deep_view().push(a@ + b@),
{
    let mut line = copy_str(a);
    push_str(&mut line, b);
    let ghost before = sections.deep_view();
    sections.push(line);
    proof {
        assert(sections.deep_view() =~= before.push(a@ + b@));
    }
}

fn push_one(sections: &mut Vec<String>, a: &str)
    ensures
        final(sections).deep_view() == old(sections).deep_view().push(a@),
{
    let line = copy_str(a);
    let ghost before = sections.deep_view();
    sections.push(line);
    proof {
        assert(sections.deep_view() =~= before.push(a@));
    }
}

/// The document of a dive session: its intent, start, focus, the project
/// overview and repository state where known, and the workflow.
pub fn dive_document(
    intent_type: &str,
    started: &str,
    intent: Option<&str>,
    overview: Option<&str>,
    git: Option<&str>,
) -> (r: String)
    ensures
        r@ == join(
            dive_sections(
                intent_type@,
                started@,
                crate::select::opt_str_view(intent),
                crate::select::opt_str_view(overview),
                crate::select::opt_str_view(git),
            ),
            "\n"@,
        ),
{
    proof {
        reveal_strlit("");
        assert(""@ =~= Seq::<char>::empty());
    }
    let mut sections: Vec<String> = Vec::new();
    push_one(&mut sections, "# Dive Session\n");
    push_section(&mut sections, "**Intent:** ", intent_type);
    push_section(&mut sections, "**Started:** ", started);
    let ghost head = sections.deep_view();
    proof {
        assert(head =~= seq!["# Dive Session\n"@, "**Intent:** "@ + intent_type@, "**Started:** "@ + started@]);
    }
    if let Some(i) = intent {
        push_section(&mut sections, "**Focus:** ", i);
    }
    let ghost after_focus = sections.deep_view();
    proof {
        assert(after_focus =~= head + match crate::select::opt_str_view(intent) {
            Some(i) => seq!["**Focus:** "@ + i],
            None => seq![],
        });
    }
    push_one(&mut sections, "");
    push_one(&mut sections, "## Context\n");
    let ghost after_context = sections.deep_view();
    proof {
        assert(after_context =~= after_focus + seq![seq![], "## Context\n"@]);
    }
    if let Some(o) = overview {
        push_one(&mut sections, "### Project\n");
        push_one(&mut sections, o);
        push_one(&mut sections, "");
    }
    let ghost after_overview = sections.deep_view();
    proof {
        assert(after_overview =~= after_context + match crate::select::opt_str_view(overview) {
            Some(o) => seq!["### Project\n"@, o, seq![]],
            None => seq![],
        });
    }
    if let Some(g) = git {
        push_one(&mut sections, "### Git State\n");
        push_one(&mut sections, g);
        push_one(&mut sections, "");
    }
    let ghost after_git = sections.deep_view();
    proof {
        assert(after_git =~= after_overview + match crate::select::opt_str_view(git) {
            Some(g) => seq!["### Git State\n"@, g, seq![]],
            None => seq![],
        });
    }
    push_one(&mut sections, "## Workflow\n");
    let w = get_workflow(intent_type);
    push_one(&mut sections, w.as_str());
    proof {
        let ex = dive_sections(
            intent_type@,
            started@,
            crate::select::opt_str_view(intent),
            crate::select::opt_str_view(overview),
            crate::select::opt_str_view(git),
        );
        assert(sections.deep_view() =~= after_git + seq!["## Workflow\n"@, workflow_text(intent_type@)]);
        assert(sections.deep_view() =~= ex);
        assert(sections.deep_view().skip(0) =~= sections.deep_view());
    }
    join_lines(&sections, 0, "\n")
}

} // verus!
