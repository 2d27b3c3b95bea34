use vstd::prelude::*;

verus! {

/// The text of a hook, empty when there is none.
pub open spec fn hook_text(hook: Option<String>) -> Seq<char> {
    match hook {
        Some(h) => h@,
        None => seq![],
    }
}

/// A one-off command for the shell: stop at the first failure, run the
/// hook, then the command.
pub open spec fn shell_script_text(hook: Seq<char>, command: Seq<char>) -> Seq<char> {
    "set -e\n "@ + hook + "\n "@ + command
}

/// The start-up file of an interactive shell: it removes itself, then runs
/// the hook.
pub open spec fn rcfile_text(path: Seq<char>, hook: Seq<char>) -> Seq<char> {
    "rm -f "@ + path + "\n"@ + hook
}

/// The line of a `.gitignore` that leaves the state directory out.
pub open spec fn state_entry() -> Seq<char> {
    "/.hb-state"@
}

/// The `len` characters of `text` from position `i` on.
pub open spec fn window(text: Seq<char>, i: int, len: int) -> Seq<char> {
    text.subrange(i, i + len)
}

/// Whether `pattern` occurs in `text`.
pub open spec fn occurs_in(text: Seq<char>, pattern: Seq<char>) -> bool {
    exists|i: int| 0 <= i <= text.len() - pattern.len() && #[trigger] window(text, i, pattern.len() as int) == pattern
}

pub fn shell_script(hook: &Option<String>, command: &str) -> (r: String)
    ensures
        r@ == shell_script_text(hook_text(*hook), command@),
{
    let mut r = String::from_str("set -e\n ");
    match hook {
        Some(h) => r.append(h.as_str()),
        None => {},
    }
    r.append("\n ");
    r.append(command);
    proof {
        reveal_strlit("set -e\n ");
        reveal_strlit("\n ");
        if hook is None {
            assert(r@ =~= shell_script_text(hook_text(*hook), command@));
        }
    }
    r
}

pub fn rcfile(path: &str, hook: &str) -> (r: String)
    ensures
        r@ == rcfile_text(path@, hook@),
{
    let mut r = String::from_str("rm -f ");
    r.append(path);
    r.append("\n");
    r.append(hook);
    proof {
        reveal_strlit("rm -f ");
        reveal_strlit("\n");
    }
    r
}

/// Whether a `.gitignore` already leaves the state directory out.
pub fn ignores_state_dir(gitignore: &str) -> (r: bool)
    ensures
        r == occurs_in(gitignore@, state_entry()),
{
    let pattern = String::from_str("/.hb-state");
    proof { reveal_strlit("/.hb-state"); }
    let n = gitignore.unicode_len();
    let m = pattern.as_str().unicode_len();
    if n < m {
        return false;
    }
    let mut i: usize = 0;
    while i <= n - m
        invariant
            n == gitignore@.len(),
            m == pattern@.len(),
            pattern@ == state_entry(),
            0 < m <= n,
            forall|j: int| 0 <= j < i ==> #[trigger] window(gitignore@, j, m as int) != pattern@,
        decreases n - m + 1 - i,
    {
        let candidate = String::from_str(gitignore.substring_char(i, i + m));
        if candidate == pattern {
            assert(window(gitignore@, i as int, m as int) == pattern@);
            return true;
        }
        i = i + 1;
    }
    false
}

} // verus!
