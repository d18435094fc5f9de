//! The scripted session strategy's logic: the automation script that answers
//! the password prompt, and the clean-up of what that automation echoes.
use crate::session::texts;
use crate::text::{chars_of, contains, str_contains};
use vstd::prelude::*;

verus! {

/// Whether `c` must be escaped inside a double-quoted Tcl word.
pub open spec fn tcl_special(c: char) -> bool {
    c == '\\' || c == '"' || c == '$' || c == '\u{5b}' || c == '\u{5d}'
}

/// `s` with a backslash before each character special in a quoted Tcl word.
pub open spec fn tcl_escaped(s: Seq<char>) -> Seq<char>
    decreases s.len(),
{
    if s.len() == 0 {
        seq![]
    } else {
        tcl_escaped(s.drop_last()) + if tcl_special(s.last()) {
            seq!['\\', s.last()]
        } else {
            seq![s.last()]
        }
    }
}

/// `s` as one double-quoted Tcl word.
pub open spec fn tcl_word(s: Seq<char>) -> Seq<char> {
    seq!['"'] + tcl_escaped(s) + seq!['"']
}

/// Quotes `s` as one double-quoted Tcl word.
pub fn tcl_quote(s: &str) -> (r: String)
    ensures
        r@ == tcl_word(s@),
{
    let chars = chars_of(s);
    let mut r = String::new();
    r.append("\"");
    proof {
        reveal_strlit("\"");
        reveal_strlit("\\");
    }
    let mut i: usize = 0;
    while i < chars.len()
        invariant
            chars@ == s@,
            i <= chars@.len(),
            r@ == seq!['"'] + tcl_escaped(s@.take(i as int)),
        decreases chars@.len() - i,
    {
        assert(s@.take(i as int + 1).drop_last() =~= s@.take(i as int));
        let c = chars[i];
        let ghost prev = r@;
        assert(s@.take(i as int + 1).last() == c);
        if c == '\\' || c == '"' || c == '$' || c == '\u{5b}' || c == '\u{5d}' {
            r.append("\\");
            proof {
                reveal_strlit("\\");
            }
            assert(r@ =~= prev + seq!['\\']);
        }
        let one = s.substring_char(i, i + 1);
        assert(one@ =~= seq![c]);
        r.append(one);
        assert(tcl_special(c) ==> r@ =~= prev + seq!['\\', c]);
        assert(!tcl_special(c) ==> r@ =~= prev + seq![c]);
        i = i + 1;
        assert(r@ =~= seq!['"'] + tcl_escaped(s@.take(i as int)));
    }
    assert(s@.take(chars@.len() as int) =~= s@);
    r.append("\"");
    assert(r@ =~= tcl_word(s@));
    r
}

/// The words of `args`, each quoted and preceded by a space.
pub open spec fn tcl_words(args: Seq<Seq<char>>) -> Seq<char>
    decreases args.len(),
{
    if args.len() == 0 {
        seq![]
    } else {
        tcl_words(args.drop_last()) + seq![' '] + tcl_word(args.last())
    }
}

/// Script start: the overall deadline, then the client launched.
pub open spec fn script_head() -> Seq<char> {
    "set timeout 15\nspawn ssh"@
}

/// First exchange: answer the password prompt, or stop on a refused or
/// silent connection, or forward the exit code of a session that ended.
pub open spec fn script_answer() -> Seq<char> {
    "\nexpect {\n  -nocase \"password:\" { send -- "@
}

/// Second exchange: a repeated prompt means a wrong password; otherwise the
/// session's own exit code is forwarded.
pub open spec fn script_tail() -> Seq<char> {
    "\\r }\n  \"Connection refused\" { exit 1 }\n  timeout { puts \"Connection timed out\"; exit 1 }\n  eof { catch wait result; exit [lindex $result 3] }\n}\nexpect {\n  -nocase \"password:\" { puts \"Permission denied\"; exit 1 }\n  timeout { puts \"Connection timed out\"; exit 1 }\n  eof\n}\ncatch wait result\nexit [lindex $result 3]\n"@
}

/// The automation script that runs the session client with `args` and
/// answers its password prompt with `password`.
pub open spec fn session_script_spec(args: Seq<Seq<char>>, password: Seq<char>) -> Seq<char> {
    script_head() + tcl_words(args) + script_answer() + tcl_word(password) + script_tail()
}

/// Builds the automation script for the client arguments `args`.
pub fn session_script(args: &Vec<String>, password: &str) -> (r: String)
    ensures
        r@ == session_script_spec(texts(args@), password@),
{
    let mut r = "set timeout 15\nspawn ssh".to_owned();
    let ghost all = texts(args@);
    let mut i: usize = 0;
    while i < args.len()
        invariant
            i <= args@.len(),
            all == texts(args@),
            r@ == script_head() + tcl_words(all.take(i as int)),
        decreases args@.len() - i,
    {
        assert(all.take(i as int + 1).drop_last() =~= all.take(i as int));
        r.append(" ");
        let w = tcl_quote(args[i].as_str());
        r.append(w.as_str());
        proof {
            reveal_strlit(" ");
        }
        i = i + 1;
        assert(r@ =~= script_head() + tcl_words(all.take(i as int)));
    }
    assert(all.take(args@.len() as int) =~= all);
    r.append("\nexpect {\n  -nocase \"password:\" { send -- ");
    let pw = tcl_quote(password);
    r.append(pw.as_str());
    r.append(
        "\\r }\n  \"Connection refused\" { exit 1 }\n  timeout { puts \"Connection timed out\"; exit 1 }\n  eof { catch wait result; exit [lindex $result 3] }\n}\nexpect {\n  -nocase \"password:\" { puts \"Permission denied\"; exit 1 }\n  timeout { puts \"Connection timed out\"; exit 1 }\n  eof\n}\ncatch wait result\nexit [lindex $result 3]\n",
    );
    assert(r@ =~= session_script_spec(texts(args@), password@));
    r
}

/// The lines of `s`, split at each line feed; the last may be empty.
pub open spec fn split_lines(s: Seq<char>) -> Seq<Seq<char>>
    decreases s.len(),
{
    if s.len() == 0 {
        seq![seq![]]
    } else {
        let p = split_lines(s.drop_last());
        if s.last() == '\n' {
            p.push(seq![])
        } else {
            p.update(p.len() - 1, p.last().push(s.last()))
        }
    }
}

/// Whether `s` begins with `p`.
pub open spec fn starts_with(s: Seq<char>, p: Seq<char>) -> bool {
    p.len() <= s.len() && s.take(p.len() as int) == p
}

/// Whether `line` holds only spaces, tabs and carriage returns.
pub open spec fn is_blank(line: Seq<char>) -> bool {
    forall|i: int| 0 <= i < line.len() ==> line[i] == ' ' || line[i] == '\t' || line[i] == '\r'
}

/// Whether `line` is an echo of the automation rather than command output:
/// a blank line, the spawn banner, the password prompt, or a warning that a
/// host key was added to the trust store.
pub open spec fn is_echo_artifact(line: Seq<char>) -> bool {
    is_blank(line) || starts_with(line, "spawn "@) || contains(line, "assword:"@) || starts_with(
        line,
        "Warning: Permanently added"@,
    )
}

/// The lines of `lines` that are not echo artifacts, joined by line feeds.
pub open spec fn kept_text(lines: Seq<Seq<char>>) -> Seq<char>
    decreases lines.len(),
{
    if lines.len() == 0 {
        seq![]
    } else {
        let prev = kept_text(lines.drop_last());
        let l = lines.last();
        if is_echo_artifact(l) {
            prev
        } else if prev.len() == 0 {
            l
        } else {
            prev + seq!['\n'] + l
        }
    }
}

/// Captured output with the automation's echoes removed.
pub open spec fn strip_spec(output: Seq<char>) -> Seq<char> {
    kept_text(split_lines(output))
}

/// Whether `line` holds only spaces, tabs and carriage returns.
fn blank_line(line: &Vec<char>) -> (r: bool)
    ensures
        r == is_blank(line@),
{
    let mut i: usize = 0;
    while i < line.len()
        invariant
            i <= line@.len(),
            forall|k: int| 0 <= k < i ==> line@[k] == ' ' || line@[k] == '\t' || line@[k] == '\r',
        decreases line@.len() - i,
    {
        let c = line[i];
        if c != ' ' && c != '\t' && c != '\r' {
            return false;
        }
        i = i + 1;
    }
    true
}

/// Whether `line` begins with `p`.
fn begins_with(line: &Vec<char>, p: &str) -> (r: bool)
    ensures
        r == starts_with(line@, p@),
{
    let pc = chars_of(p);
    if pc.len() > line.len() {
        return false;
    }
    let mut i: usize = 0;
    while i < pc.len()
        invariant
            pc@ == p@,
            pc@.len() <= line@.len(),
            i <= pc@.len(),
            forall|k: int| 0 <= k < i ==> line@[k] == pc@[k],
        decreases pc@.len() - i,
    {
        if line[i] != pc[i] {
            assert(line@.take(pc@.len() as int)[i as int] != p@[i as int]);
            return false;
        }
        i = i + 1;
    }
    assert(line@.take(pc@.len() as int) =~= p@);
    true
}

/// Whether a captured line is an echo of the automation.
pub fn echo_artifact(line: &str) -> (r: bool)
    ensures
        r == is_echo_artifact(line@),
{
    let chars = chars_of(line);
    blank_line(&chars) || begins_with(&chars, "spawn ") || str_contains(line, "assword:")
        || begins_with(&chars, "Warning: Permanently added")
}

/// Appends `line` to the kept text `out` unless it is an echo artifact.
fn keep_line(out: &mut String, line: &str)
    ensures
        final(out)@ == (if is_echo_artifact(line@) {
            old(out)@
        } else if old(out)@.len() == 0 {
            line@
        } else {
            old(out)@ + seq!['\n'] + line@
        }),
{
    if !echo_artifact(line) {
        if out.as_str().is_empty() {
            out.append(line);
            assert(final(out)@ =~= line@);
        } else {
            out.append("\n");
            proof {
                reveal_strlit("\n");
            }
            out.append(line);
        }
    }
}

/// Removes from captured output the lines that the automation echoed: blank
/// lines, the spawn banner, the password prompt and host-key warnings. The
/// other lines are kept, in order, joined by line feeds.
pub fn strip_echo_artifacts(output: &str) -> (r: String)
    ensures
        r@ == strip_spec(output@),
{
    let chars = chars_of(output);
    let n = chars.len();
    let mut out = String::new();
    let mut start: usize = 0;
    let ghost mut done: Seq<Seq<char>> = seq![];
    let mut i: usize = 0;
    assert(output@.take(0) =~= Seq::<char>::empty());
    assert(output@.subrange(0, 0) =~= Seq::<char>::empty());
    assert(split_lines(output@.take(0)) =~= done.push(output@.subrange(0, 0)));
    while i < n
        invariant
            n == chars@.len(),
            chars@ == output@,
            start <= i <= n,
            split_lines(output@.take(i as int)) == done.push(output@.subrange(start as int, i as int)),
            out@ == kept_text(done),
        decreases n - i,
    {
        let ghost cur = output@.subrange(start as int, i as int);
        assert(output@.take(i as int + 1).drop_last() =~= output@.take(i as int));
        assert(output@.take(i as int + 1).last() == chars@[i as int]);
        if chars[i] == '\n' {
            let line = output.substring_char(start, i);
            keep_line(&mut out, line);
            proof {
                assert(done.push(cur).drop_last() =~= done);
                done = done.push(cur);
                assert(output@.subrange(i as int + 1, i as int + 1) =~= Seq::<char>::empty());
            }
            start = i + 1;
        } else {
            assert(cur.push(chars@[i as int]) =~= output@.subrange(start as int, i as int + 1));
            assert(done.push(cur).update(done.len() as int, cur.push(chars@[i as int])) =~= done.push(
                output@.subrange(start as int, i as int + 1),
            ));
        }
        i = i + 1;
    }
    let line = output.substring_char(start, n);
    keep_line(&mut out, line);
    assert(output@.take(n as int) =~= output@);
    assert(done.push(line@).drop_last() =~= done);
    out
}

} // verus!
