//! What the system prompt says of the features of a session.

use super::prompt;
use super::HistoryView;
use crate::text;
use vstd::prelude::*;

verus! {

/// Whether a text is without a character.
spec fn lacks(s: Seq<char>, c: char) -> bool {
    forall|i: int| 0 <= i < s.len() ==> #[trigger] s[i] != c
}

/// Whether `p` and `h` follow one another at `i`.
spec fn ph_at(s: Seq<char>, i: int) -> bool {
    s[i] == 'p' && s[i + 1] == 'h'
}

/// Whether `p` and `h` follow one another nowhere in a text, and it does not
/// start with the second of them.
spec fn lacks_ph(s: Seq<char>) -> bool {
    &&& s.len() > 0
    &&& s[0] != 'h'
    &&& forall|i: int| 0 <= i < s.len() - 1 ==> !#[trigger] ph_at(s, i)
}

proof fn lemma_lacks_both(a: Seq<char>, b: Seq<char>, c: char)
    requires
        lacks(a, c),
        lacks(b, c),
    ensures
        lacks(a + b, c),
{
    let s = a + b;
    assert forall|i: int| 0 <= i < s.len() implies #[trigger] s[i] != c by {
        if i < a.len() {
            assert(s[i] == a[i]);
        } else {
            assert(s[i] == b[i - a.len()]);
        }
    }
}

proof fn lemma_lacks_ph_both(a: Seq<char>, b: Seq<char>)
    requires
        lacks_ph(a),
        lacks_ph(b),
    ensures
        lacks_ph(a + b),
{
    let s = a + b;
    assert forall|i: int| 0 <= i < s.len() - 1 implies !#[trigger] ph_at(s, i) by {
        if i < a.len() - 1 {
            assert(!ph_at(a, i));
        } else if i >= a.len() {
            assert(!ph_at(b, i - a.len()));
        } else {
            assert(s[i + 1] == b[0]);
        }
    }
}

proof fn lemma_prompt_intro()
    ensures
        lacks(prompt::PROMPT_INTRO@, '8'),
        lacks_ph(prompt::PROMPT_INTRO@),
{
    reveal_strlit(
        r#"You are Sofos, an AI coding assistant. You have access to tools that allow you to:
"#,
    );
}

proof fn lemma_prompt_guidance()
    ensures
        lacks(prompt::PROMPT_GUIDANCE@, '8'),
        lacks_ph(prompt::PROMPT_GUIDANCE@),
{
    reveal_strlit(
        r#"

When helping users:
- Be concise and practical
- Context interpretation: When users refer to "this code", "these files", or similar context-dependent terms without specifying a path, they mean the code in the current working directory
- ALWAYS explore first: Use list_directory to find files before trying to read them if you're unsure of their location
- Use your tools to read files before suggesting changes
"#,
    );
}

proof fn lemma_prompt_access()
    ensures
        lacks(prompt::PROMPT_ACCESS@, '8'),
        lacks_ph(prompt::PROMPT_ACCESS@),
{
    reveal_strlit(
        r#"
- Search the web when you need current information or documentation
- Execute bash commands safely with 3-tier permission system:
  * Tier 1 (Allowed): Build tools (cargo, npm, python), read-only ops (ls, cat, grep) execute automatically
  * Tier 2 (Forbidden): Destructive commands (rm, chmod, sudo) are always blocked
  * Tier 3 (Ask): Unknown commands prompt user for permission
  * Parent directory traversal (..) is always blocked in bash commands
- Never run destructive or irreversible shell commands (e.g., rm -rf, rm, rmdir, dd, mkfs*, fdisk/parted, wipefs, chmod/chown -R on broad paths, truncate, :>, >/dev/sd*, kill -9 on system services).
Prefer read-only commands and dry-runs; if a potentially destructive action seems necessary, stop and request explicit confirmation before proceeding.
- Explain your reasoning when using tools

Outside Workspace Access (three separate scopes, each prompted independently):
- Read scope: read_file and list_directory can access absolute or ~/ paths. If not pre-configured, the user is prompted to allow access and can optionally remember the decision.
- Write scope: "#,
    );
}

proof fn lemma_prompt_closing()
    ensures
        lacks(prompt::PROMPT_CLOSING@, '8'),
        lacks_ph(prompt::PROMPT_CLOSING@),
{
    reveal_strlit(
        r#" can write to absolute or ~/ paths. The user is prompted for Write access separately from Read.
- Bash scope: bash commands can reference absolute or ~/ paths. The user is prompted for Bash path access. Use absolute paths (not ..) for external directories.
- All three scopes are independent — Read access does not grant Write or Bash access.
- When accessing external paths, just use the absolute or ~/ path directly. If not yet allowed, the user will be prompted interactively.
- Images: users can view images by including the path in their message (works for both workspace and permitted outside paths)

Image Vision:
- When users include image paths (.jpg, .png, .gif, .webp) or URLs in their message, you will see the image
- Local images: relative paths (in workspace) or absolute/~/ paths (if permitted in config)
- Web images: URLs starting with http:// or https://
- You do NOT need to use any tool to view images - they are automatically loaded and shown to you
- If asked to view an image, tell the user to include the image path or URL in their message

CRITICAL - Making Changes:
- NEVER make code changes or file modifications unless explicitly instructed by the user
- When the user asks for suggestions or improvements, DESCRIBE what you would change without implementing it
- Only implement changes when the user gives explicit approval (e.g., "do it", "implement that", "make the change")
- If unsure whether to implement or just suggest, always ask first

Testing after code changes:
- After editing code files (not comments, README, or documentation), ALWAYS test the changes using execute_bash
- Run appropriate build/test commands based on the project type:
  * Rust: 'cargo build' and/or 'cargo test'
  * JavaScript/TypeScript: 'npm run build' and/or 'npm test'
  * Python: 'python -m pytest' or 'python -m unittest'
  * Go: 'go build' and/or 'go test'
- If tests fail, fix the errors and test again
- Do NOT run tests for changes to: comments only, README.md, documentation files, or configuration files

Your goal is to help users with coding tasks efficiently and accurately.
Always use the metric system for all measurements. If the user uses other units, convert them and answer in metric.
Show imperial units only when the user explicitly asks for them."#,
    );
}

proof fn lemma_edit_with_morph()
    ensures
        lacks(prompt::EDIT_WITH_MORPH@, '8'),
{
    reveal_strlit(
        "- When creating new files, use the write_file tool\n- When editing existing files, ALWAYS use the morph_edit_file tool (ultra-fast, 10,500+ tokens/sec)",
    );
}

proof fn lemma_edit_without_morph()
    ensures
        lacks(prompt::EDIT_WITHOUT_MORPH@, '8'),
        lacks_ph(prompt::EDIT_WITHOUT_MORPH@),
{
    reveal_strlit(
        "- When creating or editing code, use the write_file tool",
    );
}

proof fn lemma_write_tools_with_morph()
    ensures
        lacks(prompt::WRITE_TOOLS_WITH_MORPH@, '8'),
{
    reveal_strlit(
        "write_file, edit_file, and morph_edit_file",
    );
}

proof fn lemma_write_tools_without_morph()
    ensures
        lacks(prompt::WRITE_TOOLS_WITHOUT_MORPH@, '8'),
        lacks_ph(prompt::WRITE_TOOLS_WITHOUT_MORPH@),
{
    reveal_strlit(
        "write_file and edit_file",
    );
}

proof fn lemma_feature_line(i: int)
    requires
        0 <= i < 7,
    ensures
        lacks(prompt::feature_lines(false)[i], '8'),
        lacks_ph(prompt::feature_lines(false)[i]),
{
    reveal_strlit("1. Read files in the current project directory");
    reveal_strlit("2. Write/create files in the current project directory");
    reveal_strlit("3. List directory contents");
    reveal_strlit("4. Create directories");
    reveal_strlit("5. Search the web for information");
    reveal_strlit("6. Execute read-only bash commands (for testing code)");
    reveal_strlit("7. View images (user includes image path or URL in their message)");
}

proof fn lemma_feature_lines(n: int)
    requires
        1 <= n <= 7,
    ensures
        lacks(text::joined(prompt::feature_lines(false).take(n), "\n"@), '8'),
        lacks_ph(text::joined(prompt::feature_lines(false).take(n), "\n"@)),
    decreases n,
{
    let all = prompt::feature_lines(false);
    let part = all.take(n);
    lemma_feature_line(n - 1);
    assert(part.last() == all[n - 1]);
    if n > 1 {
        lemma_feature_lines(n - 1);
        assert(part.drop_last() =~= all.take(n - 1));
        let before = text::joined(all.take(n - 1), "\n"@);
        reveal_strlit("\n");
        lemma_lacks_both(before, "\n"@, '8');
        lemma_lacks_both(before + "\n"@, part.last(), '8');
        lemma_lacks_ph_both(before, "\n"@);
        lemma_lacks_ph_both(before + "\n"@, part.last());
    }
}

/// Without code search the number of its line stands nowhere in the prompt.
proof fn lemma_no_code_search(has_morph: bool)
    ensures
        lacks(prompt::system_text(has_morph, false, None), '8'),
{
    lemma_prompt_intro();
    lemma_prompt_guidance();
    lemma_prompt_access();
    lemma_prompt_closing();
    lemma_edit_with_morph();
    lemma_edit_without_morph();
    lemma_write_tools_with_morph();
    lemma_write_tools_without_morph();
    lemma_feature_lines(7);
    let lines = prompt::feature_lines(false);
    assert(lines.take(7) =~= lines);
    let edit = if has_morph {
        prompt::EDIT_WITH_MORPH@
    } else {
        prompt::EDIT_WITHOUT_MORPH@
    };
    let write = if has_morph {
        prompt::WRITE_TOOLS_WITH_MORPH@
    } else {
        prompt::WRITE_TOOLS_WITHOUT_MORPH@
    };
    let p1 = prompt::PROMPT_INTRO@ + text::joined(lines, "\n"@);
    lemma_lacks_both(prompt::PROMPT_INTRO@, text::joined(lines, "\n"@), '8');
    let p2 = p1 + prompt::PROMPT_GUIDANCE@;
    lemma_lacks_both(p1, prompt::PROMPT_GUIDANCE@, '8');
    let p3 = p2 + edit;
    lemma_lacks_both(p2, edit, '8');
    let p4 = p3 + prompt::PROMPT_ACCESS@;
    lemma_lacks_both(p3, prompt::PROMPT_ACCESS@, '8');
    let p5 = p4 + write;
    lemma_lacks_both(p4, write, '8');
    lemma_lacks_both(p5, prompt::PROMPT_CLOSING@, '8');
}

proof fn lemma_no_morph(has_code_search: bool)
    ensures
        lacks_ph(prompt::system_text(false, has_code_search, None)),
{
    lemma_prompt_intro();
    lemma_prompt_guidance();
    lemma_prompt_access();
    lemma_prompt_closing();
    lemma_edit_without_morph();
    lemma_write_tools_without_morph();
    lemma_feature_lines(7);
    let base = prompt::feature_lines(false);
    assert(base.take(7) =~= base);
    let lines = text::joined(prompt::feature_lines(has_code_search), "\n"@);
    assert(lacks_ph(lines)) by {
        if has_code_search {
            let search = "8. Search code using ripgrep"@;
            reveal_strlit("8. Search code using ripgrep");
            reveal_strlit("\n");
            let before = text::joined(base, "\n"@);
            assert(prompt::feature_lines(true).drop_last() =~= base);
            lemma_lacks_ph_both(before, "\n"@);
            lemma_lacks_ph_both(before + "\n"@, search);
        }
    }
    let p1 = prompt::PROMPT_INTRO@ + lines;
    lemma_lacks_ph_both(prompt::PROMPT_INTRO@, lines);
    let p2 = p1 + prompt::PROMPT_GUIDANCE@;
    lemma_lacks_ph_both(p1, prompt::PROMPT_GUIDANCE@);
    let p3 = p2 + prompt::EDIT_WITHOUT_MORPH@;
    lemma_lacks_ph_both(p2, prompt::EDIT_WITHOUT_MORPH@);
    let p4 = p3 + prompt::PROMPT_ACCESS@;
    lemma_lacks_ph_both(p3, prompt::PROMPT_ACCESS@);
    let p5 = p4 + prompt::WRITE_TOOLS_WITHOUT_MORPH@;
    lemma_lacks_ph_both(p4, prompt::WRITE_TOOLS_WITHOUT_MORPH@);
    lemma_lacks_ph_both(p5, prompt::PROMPT_CLOSING@);
}

proof fn lemma_occurs_between(before: Seq<char>, p: Seq<char>, behind: Seq<char>)
    ensures
        text::occurs(before + p + behind, p),
{
    let s = before + p + behind;
    assert(s.subrange(before.len() as int, (before.len() + p.len()) as int) =~= p);
    assert(text::occurs_at(s, p, before.len() as int));
}

proof fn lemma_says_code_search(has_morph: bool)
    ensures
        text::occurs(
            prompt::system_text(has_morph, true, None),
            "8. Search code using ripgrep"@,
        ),
{
    let search = "8. Search code using ripgrep"@;
    let lines = prompt::feature_lines(true);
    let base = lines.drop_last();
    let before = prompt::PROMPT_INTRO@ + (text::joined(base, "\n"@) + "\n"@);
    let all = prompt::system_text(has_morph, true, None);
    let behind = all.skip((before.len() + search.len()) as int);
    assert(all =~= before + search + behind);
    lemma_occurs_between(before, search, behind);
}

proof fn lemma_says_morph(has_code_search: bool)
    ensures
        text::occurs(prompt::system_text(true, has_code_search, None), "morph_edit_file"@),
{
    let name = "morph_edit_file"@;
    let before = prompt::PROMPT_INTRO@ + text::joined(
        prompt::feature_lines(has_code_search),
        "\n"@,
    ) + prompt::PROMPT_GUIDANCE@ + prompt::EDIT_WITH_MORPH@ + prompt::PROMPT_ACCESS@;
    let tools = prompt::WRITE_TOOLS_WITH_MORPH@;
    reveal_strlit("morph_edit_file");
    reveal_strlit("write_file, edit_file, and morph_edit_file");
    let start = tools.take(tools.len() - name.len());
    assert(tools =~= start + name);
    let all = prompt::system_text(true, has_code_search, None);
    assert(all =~= (before + start) + name + prompt::PROMPT_CLOSING@);
    lemma_occurs_between(before + start, name, prompt::PROMPT_CLOSING@);
}

/// A new history has no messages and one system text, which speaks of code
/// search exactly where the session has it, and of the edit tool exactly
/// where the session has that one. The user's own instructions come behind
/// all else.
pub proof fn prompt_names_the_features(
    has_morph: bool,
    has_code_search: bool,
    instructions: Seq<char>,
)
    ensures
        ({
            let bare = HistoryView::fresh(has_morph, has_code_search, None);
            let told = HistoryView::fresh(has_morph, has_code_search, Some(instructions));
            let s = bare.system[0].text;
            &&& bare.messages.len() == 0
            &&& bare.system.len() == 1
            &&& text::occurs(s, "8. Search code using ripgrep"@) == has_code_search
            &&& text::occurs(s, "morph_edit_file"@) == has_morph
            &&& told.messages.len() == 0
            &&& told.system.len() == 1
            &&& told.system[0].text == s + "\n\n"@ + instructions
        }),
{
    let s = prompt::system_text(has_morph, has_code_search, None);
    if has_code_search {
        lemma_says_code_search(has_morph);
    } else {
        lemma_no_code_search(has_morph);
        let search = "8. Search code using ripgrep"@;
        reveal_strlit("8. Search code using ripgrep");
        assert forall|i: int| !#[trigger] text::occurs_at(s, search, i) by {
            if text::occurs_at(s, search, i) {
                assert(s.subrange(i, i + search.len())[0] == search[0]);
                assert(s[i] == '8');
            }
        }
    }
    if has_morph {
        lemma_says_morph(has_code_search);
    } else {
        lemma_no_morph(has_code_search);
        let name = "morph_edit_file"@;
        reveal_strlit("morph_edit_file");
        assert forall|i: int| !#[trigger] text::occurs_at(s, name, i) by {
            if text::occurs_at(s, name, i) {
                let part = s.subrange(i, i + name.len());
                assert(part[3] == name[3] && part[4] == name[4]);
                assert(ph_at(s, i + 3));
            }
        }
    }
}

} // verus!
