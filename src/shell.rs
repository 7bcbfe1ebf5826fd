use vstd::prelude::*;
use vstd::string::{StrSliceExecFns, StringExecFns};

verus! {

/// What a zsh command runs first, so that the user's configuration is loaded.
pub const ZSH_PRELUDE: &'static str = "source ~/.zshrc 2>/dev/null; source ~/.zprofile 2>/dev/null; ";

/// What a bash command runs first, so that the user's configuration is loaded.
pub const BASH_PRELUDE: &'static str =
    "source ~/.bash_profile 2>/dev/null; source ~/.bashrc 2>/dev/null; ";

/// The shell used when neither the environment nor the user database names one.
pub const DEFAULT_SHELL: &'static str = "/bin/zsh";

pub const ZSH: &'static str = "zsh";

pub const BASH: &'static str = "bash";

/// `n` occurs in `h` as a contiguous run.
pub open spec fn has_infix(h: Seq<char>, n: Seq<char>) -> bool {
    exists|i: int| 0 <= i && i + n.len() <= h.len() && #[trigger] h.subrange(i, i + n.len()) == n
}

/// Whether `needle` occurs in `hay`.
pub fn contains_text(hay: &str, needle: &str) -> (r: bool)
    ensures
        r == has_infix(hay@, needle@),
{
    let h = hay.unicode_len();
    let n = needle.unicode_len();
    if n > h {
        return false;
    }
    let mut i: usize = 0;
    while i <= h - n
        invariant
            h == hay@.len(),
            n == needle@.len(),
            n <= h,
            i <= h - n + 1,
            forall|k: int| 0 <= k < i ==> #[trigger] hay@.subrange(k, k + n) != needle@,
        decreases h - n + 1 - i,
    {
        let mut j: usize = 0;
        while j < n && hay.get_char(i + j) == needle.get_char(j)
            invariant
                h == hay@.len(),
                n == needle@.len(),
                i + n <= h,
                j <= n,
                forall|k: int| 0 <= k < j ==> hay@[i + k] == needle@[k],
            decreases n - j,
        {
            j = j + 1;
        }
        if j == n {
            assert(hay@.subrange(i as int, i + n) =~= needle@);
            return true;
        }
        assert(hay@.subrange(i as int, i + n)[j as int] != needle@[j as int]);
        i = i + 1;
    }
    false
}

/// The text the shell is asked to run: the command, after the prelude that loads the
/// configuration of zsh or bash when the shell is one of those.
pub open spec fn wrapped_command_text(shell: Seq<char>, command: Seq<char>) -> Seq<char> {
    if has_infix(shell, ZSH@) {
        ZSH_PRELUDE@ + command
    } else if has_infix(shell, BASH@) {
        BASH_PRELUDE@ + command
    } else {
        command
    }
}

/// The text to hand to `shell -l -c` to run `command`.
pub fn shell_wrapped_command(shell: &str, command: &str) -> (r: String)
    ensures
        r@ == wrapped_command_text(shell@, command@),
{
    if contains_text(shell, ZSH) {
        ZSH_PRELUDE.to_owned().concat(command)
    } else if contains_text(shell, BASH) {
        BASH_PRELUDE.to_owned().concat(command)
    } else {
        command.to_owned()
    }
}

/// The length of the first line of `t`: the characters before the first newline.
pub open spec fn line_len(t: Seq<char>) -> nat
    decreases t.len(),
{
    if t.len() == 0 {
        0
    } else if t[0] == '\n' {
        0
    } else {
        1 + line_len(t.drop_first())
    }
}

/// The first line of `t`, without a carriage return that comes just before its newline.
pub open spec fn first_line(t: Seq<char>) -> Seq<char> {
    let e = line_len(t) as int;
    if e < t.len() && e > 0 && t[e - 1] == '\r' {
        t.subrange(0, e - 1)
    } else {
        t.subrange(0, e)
    }
}

/// What follows the last colon of `line`; the whole line when it has none.
pub open spec fn after_last_colon(line: Seq<char>) -> Seq<char>
    decreases line.len(),
{
    if line.len() == 0 {
        line
    } else if line.last() == ':' {
        Seq::empty()
    } else {
        after_last_colon(line.drop_last()).push(line.last())
    }
}

/// The last field of the first line of the user database `t` that mentions `home`: the
/// login shell of the user whose home that is.
pub open spec fn passwd_shell(t: Seq<char>, home: Seq<char>) -> Option<Seq<char>>
    decreases t.len(),
{
    if t.len() == 0 {
        None
    } else if has_infix(first_line(t), home) {
        Some(after_last_colon(first_line(t)))
    } else if line_len(t) < t.len() {
        passwd_shell(t.subrange(line_len(t) + 1int, t.len() as int), home)
    } else {
        None
    }
}

proof fn lemma_line_len(t: Seq<char>, e: int)
    requires
        0 <= e <= t.len(),
        forall|k: int| 0 <= k < e ==> t[k] != '\n',
        e == t.len() || t[e] == '\n',
    ensures
        line_len(t) == e,
    decreases e,
{
    if e > 0 {
        lemma_line_len(t.drop_first(), e - 1);
    }
}

proof fn lemma_after_last_colon(line: Seq<char>, k: int)
    requires
        -1 <= k < line.len(),
        k == -1 || line[k] == ':',
        forall|m: int| k < m < line.len() ==> line[m] != ':',
    ensures
        after_last_colon(line) == line.subrange(k + 1, line.len() as int),
    decreases line.len(),
{
    if line.len() > 0 && line.last() != ':' {
        lemma_after_last_colon(line.drop_last(), k);
        assert(line.subrange(k + 1, line.len() as int) =~= line.drop_last().subrange(
            k + 1,
            line.len() - 1,
        ).push(line.last()));
    } else if line.len() > 0 {
        assert(k == line.len() - 1);
    }
}

/// What follows the last colon of `line`; the whole line when it has none.
pub fn last_field(line: &str) -> (r: &str)
    ensures
        r@ == after_last_colon(line@),
{
    let n = line.unicode_len();
    let mut i: usize = n;
    while i > 0 && line.get_char(i - 1) != ':'
        invariant
            n == line@.len(),
            i <= n,
            forall|m: int| i <= m < n ==> line@[m] != ':',
        decreases i,
    {
        i = i - 1;
    }
    proof {
        lemma_after_last_colon(line@, i as int - 1);
    }
    line.substring_char(i, n)
}

/// The login shell that the user database `passwd` gives for the user whose home is
/// `home`: the last field of the first line that mentions it.
pub fn login_shell_from_passwd(passwd: &str, home: &str) -> (r: Option<String>)
    ensures
        match r {
            Some(s) => passwd_shell(passwd@, home@) == Some(s@),
            None => passwd_shell(passwd@, home@) is None,
        },
{
    let n = passwd.unicode_len();
    let ghost t = passwd@;
    let mut start: usize = 0;
    proof {
        assert(t.subrange(0, n as int) =~= t);
    }
    while start < n
        invariant
            n == t.len(),
            t == passwd@,
            start <= n,
            passwd_shell(t, home@) == passwd_shell(t.subrange(start as int, n as int), home@),
        decreases n - start,
    {
        let ghost rest = t.subrange(start as int, n as int);
        let mut e: usize = start;
        while e < n && passwd.get_char(e) != '\n'
            invariant
                n == t.len(),
                t == passwd@,
                start <= e <= n,
                forall|k: int| start <= k < e ==> t[k] != '\n',
            decreases n - e,
        {
            e = e + 1;
        }
        proof {
            lemma_line_len(rest, e - start);
        }
        let cut = if e < n && e > start && passwd.get_char(e - 1) == '\r' {
            e - 1
        } else {
            e
        };
        let line = passwd.substring_char(start, cut);
        proof {
            assert(line@ =~= first_line(rest));
        }
        if contains_text(line, home) {
            let shell = last_field(line);
            return Some(shell.to_owned());
        }
        if e == n {
            return None;
        }
        proof {
            assert(rest.subrange(e - start + 1, rest.len() as int) =~= t.subrange(
                e + 1,
                n as int,
            ));
        }
        start = e + 1;
    }
    proof {
        assert(t.subrange(start as int, n as int).len() == 0);
    }
    None
}

/// The shell to run commands with: the one the environment names, else the one the user
/// database gives for `home`, else zsh.
pub open spec fn chosen_shell(
    env_shell: Option<Seq<char>>,
    passwd: Option<Seq<char>>,
    home: Seq<char>,
) -> Seq<char> {
    match env_shell {
        Some(s) => s,
        None => match passwd {
            Some(t) => match passwd_shell(t, home) {
                Some(s) => s,
                None => DEFAULT_SHELL@,
            },
            None => DEFAULT_SHELL@,
        },
    }
}

pub fn choose_shell(env_shell: Option<String>, passwd: Option<&str>, home: &str) -> (r: String)
    ensures
        r@ == chosen_shell(
            match env_shell {
                Some(s) => Some(s@),
                None => None,
            },
            match passwd {
                Some(t) => Some(t@),
                None => None,
            },
            home@,
        ),
{
    match env_shell {
        Some(s) => s,
        None => match passwd {
            Some(t) => match login_shell_from_passwd(t, home) {
                Some(s) => s,
                None => DEFAULT_SHELL.to_owned(),
            },
            None => DEFAULT_SHELL.to_owned(),
        },
    }
}

} // verus!
