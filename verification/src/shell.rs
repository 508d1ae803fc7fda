//! The Explorer integration's own logic: the command lines registered for
//! the context menus, and which of the files handed over by the shell are
//! opened in the window. Writing the registry stays with the installer.

use vstd::prelude::*;

verus! {

fn concat3(a: &str, b: &str, c: &str) -> (s: String)
    ensures
        s@ == a@ + b@ + c@,
{
    let mut s = a.to_string();
    s.append(b);
    s.append(c);
    s
}

/// The command registered for a selected item: the quoted executable, the
/// action, and Explorer's `%1` (the item) quoted.
pub fn command_line(exe: &str, action: &str) -> (r: String)
    ensures
        r@ == "\""@ + exe@ + "\" "@ + action@ + " \"%1\""@,
{
    let mut r = concat3("\"", exe, "\" ");
    r.append(action);
    r.append(" \"%1\"");
    r
}

/// The command registered for a folder's background: like
/// `command_line`, with Explorer's `%V` (the current folder).
pub fn bg_command_line(exe: &str, action: &str) -> (r: String)
    ensures
        r@ == "\""@ + exe@ + "\" "@ + action@ + " \"%V\""@,
{
    let mut r = concat3("\"", exe, "\" ");
    r.append(action);
    r.append(" \"%V\"");
    r
}

/// The paths whose flag says they exist, in order.
pub open spec fn existing(paths: Seq<String>, exists: Seq<bool>) -> Seq<String>
    decreases paths.len(),
{
    if paths.len() == 0 {
        Seq::empty()
    } else {
        let rest = existing(paths.drop_last(), exists);
        if exists[paths.len() - 1] {
            rest.push(paths.last())
        } else {
            rest
        }
    }
}

/// The files a shell copy (or move, when `moving`) opens the window with:
/// those of `paths` that exist (`exists[i]` for `paths[i]`). Fails when the
/// shell handed over nothing, or nothing that exists.
pub fn shell_sources(paths: Vec<String>, exists: &Vec<bool>, moving: bool) -> (r: Result<Vec<String>, String>)
    requires
        exists@.len() == paths@.len(),
    ensures
        paths@.len() == 0 ==> (r matches Err(e) && e@ == (if moving {
            "No files specified for shell move"@
        } else {
            "No files specified for shell copy"@
        })),
        paths@.len() > 0 && existing(paths@, exists@).len() == 0 ==> (r matches Err(e) && e@
            == "No valid source files"@),
        existing(paths@, exists@).len() > 0 ==> (r matches Ok(v) && v@ == existing(paths@, exists@)),
{
    if paths.len() == 0 {
        if moving {
            return Err("No files specified for shell move".to_string());
        } else {
            return Err("No files specified for shell copy".to_string());
        }
    }
    let mut valid: Vec<String> = Vec::new();
    let mut i: usize = 0;
    while i < paths.len()
        invariant
            i <= paths@.len(),
            exists@.len() == paths@.len(),
            valid@ == existing(paths@.take(i as int), exists@),
        decreases paths@.len() - i,
    {
        proof {
            assert(paths@.take(i + 1).drop_last() =~= paths@.take(i as int));
        }
        if exists[i] {
            valid.push(paths[i].clone());
        }
        i += 1;
    }
    proof {
        assert(paths@.take(i as int) =~= paths@);
    }
    if valid.len() == 0 {
        return Err("No valid source files".to_string());
    }
    Ok(valid)
}

} // verus!
