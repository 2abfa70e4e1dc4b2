//! Named, delimited blocks of generated shell text inside a larger file.
//!
//! A block starts at a line equal to its marker and ends at the next line
//! that is exactly a closing brace.
use crate::shell::{source_line_of, Shell};
use crate::text::{
    chars_of, contains, contains_chars, extend, join_lines, join_with_newlines, lines_of,
    split_lines, string_of, trim, trim_chars, trim_end, trim_end_chars, views,
};
use vstd::prelude::*;

verus! {

/// The first line of the block for `name`.
pub open spec fn marker_of(name: Seq<char>) -> Seq<char> {
    "# Provider function for "@ + name
}

/// The generated block for `name`: a wrapper function that forwards its
/// arguments to the `use` subcommand of the program `cmd`, with the name put
/// first.
pub open spec fn block_of(name: Seq<char>, cmd: Seq<char>) -> Seq<char> {
    marker_of(name) + "\n"@ + name + "() {\n    "@ + cmd + " use "@ + name + " \"$@\"\n}\n"@
}

/// A line that ends a block.
pub open spec fn is_close(l: Seq<char>) -> bool {
    l == seq!['}']
}

/// Scans `ls`, dropping each block that starts at a line equal to `m`; the flag
/// tells whether the scan ends inside such a block.
pub open spec fn scan(ls: Seq<Seq<char>>, m: Seq<char>) -> (Seq<Seq<char>>, bool)
    decreases ls.len(),
{
    if ls.len() == 0 {
        (Seq::empty(), false)
    } else {
        let (kept, inside) = scan(ls.drop_last(), m);
        let l = ls.last();
        if l == m {
            (kept, true)
        } else if inside {
            (kept, !is_close(l))
        } else {
            (kept.push(l), false)
        }
    }
}

/// The lines of `ls` outside every block that starts at a line equal to `m`.
pub open spec fn without_block(ls: Seq<Seq<char>>, m: Seq<char>) -> Seq<Seq<char>> {
    scan(ls, m).0
}

/// What is left of `text` once the blocks for `name` are dropped, without
/// trailing whitespace.
pub open spec fn remainder(text: Seq<char>, name: Seq<char>) -> Seq<char> {
    trim_end(join_lines(without_block(lines_of(text), marker_of(name))))
}

/// `text` with the block for `name` replaced by a fresh one at its end.
pub open spec fn upserted(text: Seq<char>, name: Seq<char>, cmd: Seq<char>) -> Seq<char> {
    let c = remainder(text, name);
    if c.len() == 0 {
        block_of(name, cmd)
    } else {
        c + "\n\n"@ + block_of(name, cmd)
    }
}

/// The startup file after making sure it sources a file with `line`; `None`
/// when the file already holds the line and is left alone.
pub open spec fn rc_updated(rc: Option<Seq<char>>, line: Seq<char>) -> Option<Seq<char>> {
    match rc {
        None => Some(line + "\n"@),
        Some(t) => if contains(t, line) {
            None
        } else {
            Some(trim(t) + "\n"@ + line + "\n"@)
        },
    }
}

/// What to do with a file.
#[derive(Clone, Debug, PartialEq, Eq)]
pub enum FileEdit {
    /// Leave it as it is (or absent).
    Keep,
    /// Replace its content.
    Write(String),
    /// Delete it.
    Delete,
}

/// The new content of a dialect's function file and, where it must change,
/// of its startup file.
#[derive(Clone, Debug, PartialEq, Eq)]
pub struct ShellEdit {
    pub func_content: String,
    pub rc_content: Option<String>,
}

/// The generated block for `name`, calling the program `command`.
pub fn block_text(name: &str, command: &str) -> (r: String)
    ensures
        r@ == block_of(name@, command@),
{
    let mut r = String::from_str("# Provider function for ");
    r.append(name);
    r.append("\n");
    r.append(name);
    r.append("() {\n    ");
    r.append(command);
    r.append(" use ");
    r.append(name);
    r.append(" \"$@\"\n}\n");
    r
}

fn marker_chars(name: &str) -> (r: Vec<char>)
    ensures
        r@ == marker_of(name@),
{
    let mut m = String::from_str("# Provider function for ");
    m.append(name);
    chars_of(m.as_str())
}

fn same_line(m: &Vec<char>, l: &Vec<char>) -> (r: bool)
    ensures
        r == (l@ == m@),
{
    if m.len() != l.len() {
        return false;
    }
    let mut i: usize = 0;
    while i < m.len()
        invariant
            i <= m.len() <= l.len(),
            forall|k: int| 0 <= k < i ==> m@[k] == l@[k],
        decreases m.len() - i,
    {
        if m[i] != l[i] {
            return false;
        }
        i = i + 1;
    }
    assert(m@ =~= l@);
    true
}

fn is_closing(l: &Vec<char>) -> (r: bool)
    ensures
        r == is_close(l@),
{
    let r = l.len() == 1 && l[0] == '}';
    assert(r ==> l@ =~= seq!['}']);
    r
}

/// The lines of `ls` outside every block that starts at a line equal to `m`.
pub fn drop_block(ls: &Vec<Vec<char>>, m: &Vec<char>) -> (r: Vec<Vec<char>>)
    ensures
        views(r@) == without_block(views(ls@), m@),
{
    let mut kept: Vec<Vec<char>> = Vec::new();
    let mut inside = false;
    let mut i: usize = 0;
    assert(views(ls@).take(0) =~= Seq::<Seq<char>>::empty());
    while i < ls.len()
        invariant
            i <= ls.len(),
            (views(kept@), inside) == scan(views(ls@).take(i as int), m@),
        decreases ls.len() - i,
    {
        let ghost t = views(ls@).take(i as int + 1);
        assert(t.drop_last() =~= views(ls@).take(i as int));
        let l = &ls[i];
        if same_line(m, l) {
            inside = true;
        } else if inside {
            inside = !is_closing(l);
        } else {
            let ghost before = views(kept@);
            kept.push(l.clone());
            assert(views(kept@) =~= before.push(l@));
        }
        i = i + 1;
    }
    assert(views(ls@).take(ls.len() as int) =~= views(ls@));
    kept
}

fn remainder_chars(text: &str, name: &str) -> (r: Vec<char>)
    ensures
        r@ == remainder(text@, name@),
{
    let ls = split_lines(&chars_of(text));
    let kept = drop_block(&ls, &marker_chars(name));
    trim_end_chars(&join_with_newlines(&kept))
}

/// `existing` with the block for `name` dropped wherever it stands and a
/// fresh one appended, after a blank line where anything else is left.
pub fn upsert_block(existing: &str, name: &str, command: &str) -> (r: String)
    ensures
        r@ == upserted(existing@, name@, command@),
{
    let c = remainder_chars(existing, name);
    let block = block_text(name, command);
    if c.len() == 0 {
        block
    } else {
        let mut r = c;
        r.push('\n');
        r.push('\n');
        extend(&mut r, &chars_of(block.as_str()));
        proof {
            reveal_strlit("\n\n");
        }
        assert(r@ =~= c@ + "\n\n"@ + block@);
        string_of(&r)
    }
}

/// The edit that removes the block for `name` from a function file with
/// content `existing` (`None`: no such file). A file left with nothing but
/// whitespace is deleted.
pub fn remove_provider_function(existing: Option<&str>, name: &str) -> (r: FileEdit)
    ensures
        existing is None ==> r is Keep,
        existing matches Some(t) ==> (if remainder(t@, name@).len() == 0 {
            r is Delete
        } else {
            r matches FileEdit::Write(s) && s@ == remainder(t@, name@)
        }),
{
    match existing {
        None => FileEdit::Keep,
        Some(t) => {
            let c = remainder_chars(t, name);
            if c.len() == 0 {
                FileEdit::Delete
            } else {
                FileEdit::Write(string_of(&c))
            }
        },
    }
}

/// The new content of a startup file `existing` (`None`: no such file) that
/// must source a file with `line`; `None` when it already does.
pub fn rc_update(existing: Option<&str>, line: &str) -> (r: Option<String>)
    ensures
        r matches Some(s) ==> rc_updated(
            match existing {
                Some(t) => Some(t@),
                None => None,
            },
            line@,
        ) == Some(s@),
        r is None ==> rc_updated(
            match existing {
                Some(t) => Some(t@),
                None => None,
            },
            line@,
        ) is None,
{
    let lc = chars_of(line);
    proof {
        reveal_strlit("\n");
    }
    match existing {
        None => {
            let mut r = lc;
            r.push('\n');
            assert(r@ =~= line@ + "\n"@);
            Some(string_of(&r))
        },
        Some(t) => {
            let tc = chars_of(t);
            if contains_chars(&tc, &lc) {
                None
            } else {
                let mut r = trim_chars(&tc);
                r.push('\n');
                extend(&mut r, &lc);
                r.push('\n');
                assert(r@ =~= trim(t@) + "\n"@ + line@ + "\n"@);
                Some(string_of(&r))
            }
        },
    }
}

/// The edits that register `name` for `shell`, with wrappers that call the
/// program `command`: its block upserted into the
/// function file at `func_path` (content `existing_func`, `None` when
/// absent), and the startup file (content `existing_rc`) made to source it.
pub fn append_provider_function(
    existing_func: Option<&str>,
    existing_rc: Option<&str>,
    name: &str,
    command: &str,
    shell: Shell,
    func_path: &str,
) -> (r: ShellEdit)
    ensures
        r.func_content@ == upserted(
            match existing_func {
                Some(t) => t@,
                None => Seq::empty(),
            },
            name@,
            command@,
        ),
        rc_updated(
            match existing_rc {
                Some(t) => Some(t@),
                None => None,
            },
            source_line_of(func_path@),
        ) == match r.rc_content {
            Some(s) => Some(s@),
            None => None,
        },
{
    let func_content = match existing_func {
        Some(t) => upsert_block(t, name, command),
        None => {
            proof {
                reveal_strlit("");
            }
            upsert_block("", name, command)
        },
    };
    let line = shell.source_command(func_path);
    let rc_content = rc_update(existing_rc, line.as_str());
    ShellEdit { func_content, rc_content }
}

} // verus!
