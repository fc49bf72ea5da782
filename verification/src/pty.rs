//! Launching the shell: which program, with which arguments and environment, and
//! what is written for it to load shelvd's shell integration.

use vstd::prelude::*;
use crate::completion::opt_text;
use crate::text::{below, char_rows, chars_of, path_below, same_chars, split_chars, split_has_a_piece, split_of_tail, split_on, sub_chars, trim, trimmed};

verus! {

/// The size of a pseudo-terminal, in cells and pixels.
#[derive(Clone, Copy, Debug, PartialEq, Eq, Structural)]
pub struct PtySize {
    pub rows: u16,
    pub cols: u16,
    pub pixel_width: u16,
    pub pixel_height: u16,
}

/// How to launch the child process.
#[derive(Clone, Debug)]
pub struct PtyOptions {
    /// Program to run. `None` uses `$SHELL` / the platform default shell.
    pub shell: Option<String>,
    /// Extra arguments passed to the shell. When non-empty, integration
    /// injection is skipped (the caller is driving the command line itself).
    pub args: Vec<String>,
    /// Working directory for the child.
    pub cwd: Option<String>,
    /// Additional environment variables (applied after defaults, so they win).
    pub env: Vec<(String, String)>,
    /// Initial PTY size.
    pub size: PtySize,
    /// Auto-inject shelvd's shell integration (OSC-133 command blocks) when the
    /// shell is recognized (bash/zsh/fish). On by default — no dotfile edit
    /// needed; the generated init sources the user's own config first.
    pub shell_integration: bool,
}

impl Default for PtyOptions {
    fn default() -> (o: Self)
        ensures
            o.shell.is_none(),
            o.args@.len() == 0,
            o.cwd.is_none(),
            o.env@.len() == 0,
            o.size == (PtySize { rows: 24, cols: 80, pixel_width: 0, pixel_height: 0 }),
            o.shell_integration,
    {
        PtyOptions {
            shell: None,
            args: Vec::new(),
            cwd: None,
            env: Vec::new(),
            size: PtySize { rows: 24, cols: 80, pixel_width: 0, pixel_height: 0 },
            shell_integration: true,
        }
    }
}

/// A message from the PTY reader thread.
#[derive(Clone, Debug, PartialEq, Eq)]
pub enum PtyMsg {
    /// A chunk of raw bytes read from the child.
    Output(Vec<u8>),
    /// The child closed the PTY (EOF) or the reader stopped.
    Exit,
}

/// The shells whose integration shelvd can auto-inject.
#[derive(Clone, Copy, PartialEq, Eq, Debug, Structural)]
pub enum ShellKind {
    Bash,
    Zsh,
    Fish,
    Other,
}

/// The last of the pieces of a path that names anything: not empty, and not the
/// current directory.
pub open spec fn last_name(pieces: Seq<Seq<char>>) -> Seq<char>
    decreases pieces.len(),
{
    if pieces.len() == 0 {
        Seq::empty()
    } else if pieces.last().len() == 0 || pieces.last() == seq!['.'] {
        last_name(pieces.drop_last())
    } else {
        pieces.last()
    }
}

/// `s` without the dashes at its start.
pub open spec fn without_dashes(s: Seq<char>) -> Seq<char>
    decreases s.len(),
{
    if s.len() > 0 && s[0] == '-' {
        without_dashes(s.skip(1))
    } else {
        s
    }
}

/// The shell that a program path names.
pub open spec fn kind_of(path: Seq<char>) -> ShellKind {
    let name = without_dashes(last_name(split_on(path, '/')));
    if name == "bash"@ {
        ShellKind::Bash
    } else if name == "zsh"@ {
        ShellKind::Zsh
    } else if name == "fish"@ {
        ShellKind::Fish
    } else {
        ShellKind::Other
    }
}

impl ShellKind {
    /// Classify a shell by its program path's file name. Login shells arrive with
    /// a leading dash, as in `-bash`.
    pub fn detect(path: &str) -> (k: Self)
        ensures
            k == kind_of(path@),
    {
        let chars = chars_of(path);
        let pieces = split_chars(&chars, '/');
        let ghost p = split_on(path@, '/');
        let mut n: usize = pieces.len();
        proof {
            assert(p.take(p.len() as int) =~= p);
        }
        while n > 0 && (pieces[n - 1].len() == 0 || (pieces[n - 1].len() == 1 && pieces[n - 1][0]
            == '.'))
            invariant
                n <= pieces.len(),
                char_rows(pieces@) == p,
                last_name(p) == last_name(p.take(n as int)),
            decreases n,
        {
            proof {
                let last = p.take(n as int).last();
                assert(last == pieces@[n - 1]@);
                if last.len() == 1 {
                    assert(last =~= seq!['.']);
                }
                assert(p.take(n as int).drop_last() =~= p.take(n - 1));
            }
            n = n - 1;
        }
        let name: Vec<char> = if n == 0 {
            Vec::new()
        } else {
            sub_chars(&pieces[n - 1], 0, pieces[n - 1].len())
        };
        proof {
            if n > 0 {
                let last = p.take(n as int).last();
                assert(last == pieces@[n - 1]@);
                assert(name@ =~= last);
                assert(seq!['.'][0] == '.');
            } else {
                assert(name@ =~= Seq::empty());
            }
            assert(name@ == last_name(p));
            assert(name@.skip(0) =~= name@);
        }
        let mut i: usize = 0;
        while i < name.len() && name[i] == '-'
            invariant
                i <= name.len(),
                without_dashes(name@) == without_dashes(name@.skip(i as int)),
            decreases name.len() - i,
        {
            proof {
                assert(name@.skip(i as int)[0] == name@[i as int]);
                assert(name@.skip(i as int).skip(1) =~= name@.skip(i + 1));
            }
            i = i + 1;
        }
        let bare = sub_chars(&name, i, name.len());
        proof {
            assert(bare@ =~= name@.skip(i as int));
            if i < name.len() {
                assert(name@.skip(i as int)[0] == name@[i as int]);
            }
        }
        let bash = chars_of("bash");
        let zsh = chars_of("zsh");
        let fish = chars_of("fish");
        if same_chars(&bare, &bash) {
            ShellKind::Bash
        } else if same_chars(&bare, &zsh) {
            ShellKind::Zsh
        } else if same_chars(&bare, &fish) {
            ShellKind::Fish
        } else {
            ShellKind::Other
        }
    }
}

/// The shell to run: the configured one, else the environment's; none where that
/// is blank.
pub open spec fn shell_choice(configured: Option<Seq<char>>, env: Option<Seq<char>>) -> Option<Seq<char>> {
    let s = match configured {
        Some(s) => Some(s),
        None => env,
    };
    match s {
        Some(s) => if trimmed(s).len() == 0 {
            None
        } else {
            Some(s)
        },
        None => None,
    }
}

/// Resolve the shell program: the configured one, else `$SHELL`; `None` (the
/// platform's default) where that is blank.
pub fn resolve_shell(configured: &Option<String>, env_shell: Option<String>) -> (s: Option<String>)
    ensures
        opt_text(s) == shell_choice(opt_text(*configured), opt_text(env_shell)),
{
    let s: Option<String> = match configured {
        Some(s) => Some(s.clone()),
        None => env_shell,
    };
    match s {
        Some(s) => {
            let t = trim(s.as_str());
            if chars_of(t.as_str()).len() == 0 {
                None
            } else {
                Some(s)
            }
        },
        None => None,
    }
}

/// Which integration to inject: the shell's own, unless it is switched off or the
/// caller drives the command line itself.
pub fn integration_kind(opts: &PtyOptions, shell: &Option<String>) -> (k: ShellKind)
    ensures
        k == if !opts.shell_integration || opts.args@.len() > 0 {
            ShellKind::Other
        } else {
            match *shell {
                Some(s) => kind_of(s@),
                None => ShellKind::Other,
            }
        },
{
    if !opts.shell_integration || opts.args.len() > 0 {
        return ShellKind::Other;
    }
    match shell {
        Some(s) => ShellKind::detect(s.as_str()),
        None => ShellKind::Other,
    }
}

/// A file to write in the integration directory.
#[derive(Clone, Debug, PartialEq, Eq)]
pub struct InitFile {
    pub name: String,
    pub body: String,
}

/// What makes a shell load the integration: files to write, arguments to add, and
/// variables to set.
#[derive(Clone, Debug, PartialEq, Eq)]
pub struct IntegrationPlan {
    pub files: Vec<InitFile>,
    pub args: Vec<String>,
    pub env: Vec<(String, String)>,
}

/// A plan with its texts as characters.
pub ghost struct PlanView {
    pub files: Seq<(Seq<char>, Seq<char>)>,
    pub args: Seq<Seq<char>>,
    pub env: Seq<(Seq<char>, Seq<char>)>,
}

/// Pairs of strings as characters.
pub open spec fn pair_views(v: Seq<(String, String)>) -> Seq<(Seq<char>, Seq<char>)> {
    v.map_values(|p: (String, String)| (p.0@, p.1@))
}

impl IntegrationPlan {
    pub open spec fn view(&self) -> PlanView {
        PlanView {
            files: self.files@.map_values(|f: InitFile| (f.name@, f.body@)),
            args: crate::terminal::string_views(self.args@),
            env: pair_views(self.env@),
        }
    }
}

/// The start of bash's init file: it loads what bash would have loaded.
pub open spec fn bash_preamble() -> Seq<char> {
    "# Generated by shelvd. Loads your bash config, then shelvd integration.\nif [ -f /etc/bash.bashrc ]; then source /etc/bash.bashrc; fi\nif [ -f \"$HOME/.bashrc\" ]; then source \"$HOME/.bashrc\"; fi\n"@
}

/// zsh's environment file: it loads the user's own.
pub open spec fn zsh_env_body() -> Seq<char> {
    "[ -f \"$SHELVD_USER_ZDOTDIR/.zshenv\" ] && source \"$SHELVD_USER_ZDOTDIR/.zshenv\"\n"@
}

/// The start of zsh's init file: it restores the user's directory and loads what
/// zsh would have loaded.
pub open spec fn zsh_preamble() -> Seq<char> {
    "ZDOTDIR=\"$SHELVD_USER_ZDOTDIR\"\n[ -f \"$SHELVD_USER_ZDOTDIR/.zshrc\" ] && source \"$SHELVD_USER_ZDOTDIR/.zshrc\"\n"@
}

/// The plan for a shell, with its files in directory `dir`, the user's own zsh
/// directory `zdotdir`, and the integration `script`.
pub open spec fn plan_for(
    kind: ShellKind,
    dir: Seq<char>,
    zdotdir: Seq<char>,
    script: Seq<char>,
) -> Option<PlanView> {
    match kind {
        ShellKind::Other => None,
        ShellKind::Bash => Some(
            PlanView {
                files: seq![("init.bash"@, bash_preamble() + script)],
                args: seq!["--rcfile"@, below(dir, "init.bash"@), "-i"@],
                env: Seq::empty(),
            },
        ),
        ShellKind::Fish => Some(
            PlanView {
                files: seq![("shelvd.fish"@, script)],
                args: seq!["-C"@, "source "@ + below(dir, "shelvd.fish"@)],
                env: Seq::empty(),
            },
        ),
        ShellKind::Zsh => Some(
            PlanView {
                files: seq![
                    (".zshenv"@, zsh_env_body()),
                    (".zshrc"@, zsh_preamble() + script),
                ],
                args: Seq::empty(),
                env: seq![("SHELVD_USER_ZDOTDIR"@, zdotdir), ("ZDOTDIR"@, dir)],
            },
        ),
    }
}

fn joined(a: &str, b: &str) -> (s: String)
    ensures
        s@ == a@ + b@,
{
    let mut s = a.to_owned();
    s.append(b);
    s
}

/// Plan the generated init file(s) so that the shell loads the user's own config
/// and then shelvd's integration; `None` for shells we don't recognize.
pub fn plan_integration(kind: ShellKind, dir: &str, zdotdir: &str, script: &str) -> (p: Option<
    IntegrationPlan,
>)
    ensures
        match plan_for(kind, dir@, zdotdir@, script@) {
            Some(v) => p.is_some() && p->0@ == v,
            None => p.is_none(),
        },
{
    match kind {
        ShellKind::Other => None,
        ShellKind::Bash => {
            // bash --rcfile reads this instead of ~/.bashrc, so the usual files
            // are sourced first, then the integration.
            let head = "# Generated by shelvd. Loads your bash config, then shelvd integration.\nif [ -f /etc/bash.bashrc ]; then source /etc/bash.bashrc; fi\nif [ -f \"$HOME/.bashrc\" ]; then source \"$HOME/.bashrc\"; fi\n";
            let f = InitFile { name: "init.bash".to_owned(), body: joined(head, script) };
            let p = IntegrationPlan {
                files: vec![f],
                args: vec!["--rcfile".to_owned(), path_below(dir, "init.bash"), "-i".to_owned()],
                env: Vec::new(),
            };
            proof {
                let v = plan_for(kind, dir@, zdotdir@, script@)->0;
                assert(p@.files =~= v.files);
                assert(p@.args =~= v.args);
                assert(p@.env =~= v.env);
            }
            Some(p)
        },
        ShellKind::Fish => {
            // fish -C runs after the user's config.fish.
            let f = InitFile { name: "shelvd.fish".to_owned(), body: script.to_owned() };
            let source = joined("source ", path_below(dir, "shelvd.fish").as_str());
            let p = IntegrationPlan {
                files: vec![f],
                args: vec!["-C".to_owned(), source],
                env: Vec::new(),
            };
            proof {
                let v = plan_for(kind, dir@, zdotdir@, script@)->0;
                assert(p@.files =~= v.files);
                assert(p@.args =~= v.args);
                assert(p@.env =~= v.env);
            }
            Some(p)
        },
        ShellKind::Zsh => {
            // zsh reads $ZDOTDIR/.zshenv then .zshrc; point ZDOTDIR at the
            // generated files, which load the user's from their real directory.
            let env_body = "[ -f \"$SHELVD_USER_ZDOTDIR/.zshenv\" ] && source \"$SHELVD_USER_ZDOTDIR/.zshenv\"\n";
            let head = "ZDOTDIR=\"$SHELVD_USER_ZDOTDIR\"\n[ -f \"$SHELVD_USER_ZDOTDIR/.zshrc\" ] && source \"$SHELVD_USER_ZDOTDIR/.zshrc\"\n";
            let f0 = InitFile { name: ".zshenv".to_owned(), body: env_body.to_owned() };
            let f1 = InitFile { name: ".zshrc".to_owned(), body: joined(head, script) };
            let p = IntegrationPlan {
                files: vec![f0, f1],
                args: Vec::new(),
                env: vec![
                    ("SHELVD_USER_ZDOTDIR".to_owned(), zdotdir.to_owned()),
                    ("ZDOTDIR".to_owned(), dir.to_owned()),
                ],
            };
            proof {
                let v = plan_for(kind, dir@, zdotdir@, script@)->0;
                assert(p@.files =~= v.files);
                assert(p@.args =~= v.args);
                assert(p@.env =~= v.env);
            }
            Some(p)
        },
    }
}

/// How the child is to be started.
#[derive(Clone, Debug, PartialEq, Eq)]
pub struct Launch {
    /// Program to run; `None` for the platform's default shell.
    pub program: Option<String>,
    pub args: Vec<String>,
    pub cwd: Option<String>,
    /// Variables to set, in order: a later one wins.
    pub env: Vec<(String, String)>,
}

/// The variables that every child gets.
pub open spec fn base_env() -> Seq<(Seq<char>, Seq<char>)> {
    seq![
        ("TERM"@, "xterm-256color"@),
        ("COLORTERM"@, "truecolor"@),
        ("TERM_PROGRAM"@, "shelvd"@),
    ]
}

/// How the child is started with these options, the shell that was chosen, and
/// the integration, if there is one: the sensible defaults first, then what the
/// integration needs, then the caller's own variables, which so override
/// everything.
pub fn plan_launch(opts: &PtyOptions, shell: Option<String>, integration: Option<IntegrationPlan>) -> (l:
    Launch)
    ensures
        l.program == shell,
        l.cwd == opts.cwd,
        crate::terminal::string_views(l.args@) == crate::terminal::string_views(opts.args@)
            + match integration {
            Some(p) => p@.args,
            None => Seq::empty(),
        },
        pair_views(l.env@) == base_env() + match integration {
            Some(p) => p@.env,
            None => Seq::empty(),
        } + pair_views(opts.env@),
{
    let mut args: Vec<String> = Vec::new();
    let mut env: Vec<(String, String)> = vec![
        ("TERM".to_owned(), "xterm-256color".to_owned()),
        ("COLORTERM".to_owned(), "truecolor".to_owned()),
        ("TERM_PROGRAM".to_owned(), "shelvd".to_owned()),
    ];
    proof {
        assert(pair_views(env@) =~= base_env());
    }
    push_strings(&mut args, &opts.args);
    proof {
        assert(crate::terminal::string_views(args@) =~= crate::terminal::string_views(opts.args@));
    }
    match &integration {
        Some(p) => {
            push_strings(&mut args, &p.args);
            push_pairs(&mut env, &p.env);
        },
        None => {
            proof {
                assert(crate::terminal::string_views(args@) =~= crate::terminal::string_views(
                    opts.args@,
                ) + Seq::<Seq<char>>::empty());
                assert(pair_views(env@) =~= base_env() + Seq::<(Seq<char>, Seq<char>)>::empty());
            }
        },
    }
    push_pairs(&mut env, &opts.env);
    Launch { program: shell, args, cwd: opts.cwd.clone(), env }
}

fn push_strings(to: &mut Vec<String>, from: &Vec<String>)
    ensures
        crate::terminal::string_views(final(to)@) == crate::terminal::string_views(old(to)@)
            + crate::terminal::string_views(from@),
{
    let ghost head = crate::terminal::string_views(to@);
    let ghost tail = crate::terminal::string_views(from@);
    let mut i: usize = 0;
    proof {
        assert(head + tail.take(0) =~= head);
    }
    while i < from.len()
        invariant
            i <= from.len(),
            tail == crate::terminal::string_views(from@),
            crate::terminal::string_views(to@) == head + tail.take(i as int),
        decreases from.len() - i,
    {
        let ghost before = crate::terminal::string_views(to@);
        to.push(from[i].clone());
        proof {
            assert(crate::terminal::string_views(to@) =~= before.push(tail[i as int]));
            assert(before.push(tail[i as int]) =~= head + tail.take(i + 1));
        }
        i = i + 1;
    }
    proof {
        assert(tail.take(tail.len() as int) =~= tail);
    }
}

fn push_pairs(to: &mut Vec<(String, String)>, from: &Vec<(String, String)>)
    ensures
        pair_views(final(to)@) == pair_views(old(to)@) + pair_views(from@),
{
    let ghost head = pair_views(to@);
    let ghost tail = pair_views(from@);
    let mut i: usize = 0;
    proof {
        assert(head + tail.take(0) =~= head);
    }
    while i < from.len()
        invariant
            i <= from.len(),
            tail == pair_views(from@),
            pair_views(to@) == head + tail.take(i as int),
        decreases from.len() - i,
    {
        let ghost before = pair_views(to@);
        to.push((from[i].0.clone(), from[i].1.clone()));
        proof {
            assert(pair_views(to@) =~= before.push(tail[i as int]));
            assert(before.push(tail[i as int]) =~= head + tail.take(i + 1));
        }
        i = i + 1;
    }
    proof {
        assert(tail.take(tail.len() as int) =~= tail);
    }
}

/// What came of reading from the child.
#[derive(Clone, Copy, Debug, PartialEq, Eq, Structural)]
pub enum ReadEvent {
    /// This many bytes; none at the end of the stream.
    Bytes(usize),
    /// The read was interrupted by a signal.
    Interrupted,
    /// The read failed.
    Failed,
}

/// What the reader does next.
#[derive(Clone, Copy, Debug, PartialEq, Eq, Structural)]
pub enum ReaderStep {
    /// Pass the bytes on and read again.
    Forward,
    /// Read again.
    Again,
    /// Report that the child is gone, and stop.
    Finish,
}

/// Decide what the reader does next: the stream ends on an empty read or an
/// error, and an interrupted read is tried again.
pub fn reader_step(event: ReadEvent) -> (s: ReaderStep)
    ensures
        s == match event {
            ReadEvent::Bytes(n) => if n == 0 {
                ReaderStep::Finish
            } else {
                ReaderStep::Forward
            },
            ReadEvent::Interrupted => ReaderStep::Again,
            ReadEvent::Failed => ReaderStep::Finish,
        },
{
    match event {
        ReadEvent::Bytes(n) => if n == 0 {
            ReaderStep::Finish
        } else {
            ReaderStep::Forward
        },
        ReadEvent::Interrupted => ReaderStep::Again,
        ReadEvent::Failed => ReaderStep::Finish,
    }
}

proof fn last_piece(dir: Seq<char>, name: Seq<char>)
    requires
        !name.contains('/'),
        name.len() > 0,
        name != seq!['.'],
    ensures
        last_name(split_on(dir + seq!['/'] + name, '/')) == name,
        last_name(split_on(name, '/')) == name,
{
    let head = dir + seq!['/'];
    split_of_tail(head, name, '/');
    split_has_a_piece(head, '/');
    assert(head.drop_last() =~= dir);
    assert(head.last() == '/');
    assert(split_on(head, '/').last() =~= Seq::empty());
    assert(Seq::<char>::empty() + name =~= name);
    let p = split_on(head + name, '/');
    assert(p.last() == name);
    split_of_tail(Seq::empty(), name, '/');
    assert(split_on(Seq::<char>::empty(), '/') =~= seq![Seq::<char>::empty()]);
    assert(split_on(name, '/').last() == name);
}

/// A shell is known by its file name, wherever it is installed and whether or not it is
/// started as a login shell, which puts a dash in front.
pub proof fn shells_are_known_by_their_name(dir: Seq<char>, name: Seq<char>)
    requires
        !name.contains('/'),
        name.len() > 0,
        name != seq!['.'],
    ensures
        kind_of(dir + seq!['/'] + name) == kind_of(name),
        kind_of(dir + seq!['/'] + (seq!['-'] + name)) == kind_of(name),
        name[0] != '-' ==> {
            &&& kind_of(name) == ShellKind::Bash <==> name == "bash"@
            &&& kind_of(name) == ShellKind::Zsh <==> name == "zsh"@
            &&& kind_of(name) == ShellKind::Fish <==> name == "fish"@
        },
{
    let login = seq!['-'] + name;
    last_piece(dir, name);
    assert(!login.contains('/')) by {
        if login.contains('/') {
            let i = choose|i: int| 0 <= i < login.len() && login[i] == '/';
            assert(name[i - 1] == '/');
        }
    }
    assert(login.len() > 1);
    last_piece(dir, login);
    assert(login.skip(1) =~= name);
    reveal_strlit("bash");
    reveal_strlit("zsh");
    reveal_strlit("fish");
    assert("bash"@.len() == 4 && "bash"@[0] == 'b');
    assert("zsh"@.len() == 3);
    assert("fish"@.len() == 4 && "fish"@[0] == 'f');
}

/// The configured shell is run, and without one the environment's; a blank name counts
/// as none.
pub proof fn the_configured_shell_wins(configured: Seq<char>, env: Option<Seq<char>>)
    ensures
        trimmed(configured).len() > 0 ==> shell_choice(Some(configured), env) == Some(configured),
        trimmed(configured).len() == 0 ==> shell_choice(Some(configured), env).is_none(),
        env matches Some(e) ==> trimmed(e).len() > 0 ==> shell_choice(None, env) == Some(e),
        env matches Some(e) ==> trimmed(e).len() == 0 ==> shell_choice(None, env).is_none(),
        shell_choice(None, None).is_none(),
{
}

/// Every known shell loads the integration, which is the end of the last file written,
/// from the directory that it was written to; no other shell does.
pub proof fn known_shells_load_the_integration(
    kind: ShellKind,
    dir: Seq<char>,
    zdotdir: Seq<char>,
    script: Seq<char>,
)
    ensures
        ({
            let p = plan_for(kind, dir, zdotdir, script);
            let v = p->0;
            let body = v.files.last().1;
            &&& p.is_none() <==> kind == ShellKind::Other
            &&& p.is_some() ==> body.len() >= script.len() && body.skip(body.len() - script.len()) == script
            &&& kind == ShellKind::Bash ==> v.args == seq!["--rcfile"@, below(dir, v.files[0].0), "-i"@]
            &&& kind == ShellKind::Fish ==> v.args == seq!["-C"@, "source "@ + below(dir, v.files[0].0)]
            &&& kind == ShellKind::Zsh ==> v.args.len() == 0
            &&& kind == ShellKind::Zsh ==> v.env.contains(("ZDOTDIR"@, dir))
            &&& kind == ShellKind::Zsh ==> v.env.contains(("SHELVD_USER_ZDOTDIR"@, zdotdir))
            &&& kind == ShellKind::Zsh ==> v.files[1].0 == ".zshrc"@ && v.files[0].0 == ".zshenv"@
            &&& kind == ShellKind::Bash || kind == ShellKind::Fish ==> v.env.len() == 0 && v.files.len() == 1
        }),
{
    let p = plan_for(kind, dir, zdotdir, script);
    if p.is_some() {
        let v = p->0;
        let body = v.files.last().1;
        assert(body.skip(body.len() - script.len()) =~= script);
        if kind == ShellKind::Zsh {
            assert(v.env[0] == ("SHELVD_USER_ZDOTDIR"@, zdotdir));
            assert(v.env[1] == ("ZDOTDIR"@, dir));
        }
    }
}

} // verus!
