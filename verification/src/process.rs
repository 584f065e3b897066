//! The command protocol between the library and its host.
//!
//! Every operation that needs `git`, `gh` or a shell is written as a pure step
//! function: given the outcomes of the commands it asked for so far, it either
//! asks for the next command ([`Step::Run`]) or finishes ([`Step::Done`]).
//! The host runs the requested command and calls the step function again with
//! the outcome appended.
use vstd::prelude::*;

verus! {

/// The program a command runs.
#[derive(Clone, Debug)]
pub enum Program {
    /// `git`.
    Git,
    /// The GitHub CLI (`gh`), at the path the host resolved.
    Gh,
    /// An executable given by path (a user's shell, for example).
    Path(String),
    /// Not a process: read the file named by the single argument (relative to
    /// the directory) and hand back its text as standard output, or the read
    /// error (a file that is not UTF-8 included) as the outcome's error.
    ReadFile,
    /// Not a process: create the directory named by the single argument,
    /// with its missing parents; the outcome's error is the failure's message.
    CreateDirAll,
    /// Not a process: write the second argument as the whole content of the
    /// file named by the first (relative to the directory).
    WriteFile,
    /// Not a process: the canonical absolute form of the path named by the
    /// single argument (joined to the directory), as standard output; the
    /// outcome's error is the failure's message.
    Canonicalize,
}

/// A command to run: program, working directory, arguments, extra environment.
#[derive(Clone, Debug)]
pub struct Invocation {
    pub program: Program,
    pub dir: Option<String>,
    pub args: Vec<String>,
    pub env: Vec<(String, String)>,
}

/// What a finished command produced (output decoded as UTF-8, lossily).
#[derive(Clone, Debug)]
pub struct Output {
    pub success: bool,
    pub stdout: String,
    pub stderr: String,
}

/// The outcome of asking for a command: its output, or the text of the error that
/// kept it from being started.
pub type Outcome = Result<Output, String>;

/// The next thing an operation needs.
#[derive(Clone, Debug)]
pub enum Step<T> {
    /// Run this command, then call the step function again with its outcome appended.
    Run(Invocation),
    /// The operation finished with this value.
    Done(T),
}

/// The mathematical form of a [`Program`].
pub enum ProgramView {
    Git,
    Gh,
    Path(Seq<char>),
    ReadFile,
    CreateDirAll,
    WriteFile,
    Canonicalize,
}

/// The mathematical form of an [`Invocation`].
pub struct InvocationView {
    pub program: ProgramView,
    pub dir: Option<Seq<char>>,
    pub args: Seq<Seq<char>>,
    pub env: Seq<(Seq<char>, Seq<char>)>,
}

/// The character sequences of a sequence of strings.
pub open spec fn strs(v: Seq<String>) -> Seq<Seq<char>> {
    v.map_values(|s: String| s@)
}

pub open spec fn opt_str(o: Option<String>) -> Option<Seq<char>> {
    match o {
        Some(s) => Some(s@),
        None => None,
    }
}

impl View for Program {
    type V = ProgramView;

    open spec fn view(&self) -> ProgramView {
        match self {
            Program::Git => ProgramView::Git,
            Program::Gh => ProgramView::Gh,
            Program::Path(p) => ProgramView::Path(p@),
            Program::ReadFile => ProgramView::ReadFile,
            Program::CreateDirAll => ProgramView::CreateDirAll,
            Program::WriteFile => ProgramView::WriteFile,
            Program::Canonicalize => ProgramView::Canonicalize,
        }
    }
}

impl View for Invocation {
    type V = InvocationView;

    open spec fn view(&self) -> InvocationView {
        InvocationView {
            program: self.program@,
            dir: opt_str(self.dir),
            args: strs(self.args@),
            env: self.env@.map_values(|kv: (String, String)| (kv.0@, kv.1@)),
        }
    }
}

/// `git` run in `dir` with `args`.
pub open spec fn git(dir: Seq<char>, args: Seq<Seq<char>>) -> InvocationView {
    InvocationView { program: ProgramView::Git, dir: Some(dir), args, env: seq![] }
}

/// `gh` run in `dir` with `args`.
pub open spec fn gh(dir: Seq<char>, args: Seq<Seq<char>>) -> InvocationView {
    InvocationView { program: ProgramView::Gh, dir: Some(dir), args, env: seq![] }
}

/// The step asks for exactly the command `inv`.
pub open spec fn runs<T>(s: Step<T>, inv: InvocationView) -> bool {
    s matches Step::Run(i) && i@ == inv
}

/// The step finished with a value.
pub open spec fn is_done<T>(s: Step<T>) -> bool {
    s is Done
}

/// The finished value of a step.
pub open spec fn done_value<T>(s: Step<T>) -> T
    recommends
        s is Done,
{
    s->Done_0
}

/// The step finished with `Ok(v)` where `v` spells `text`.
pub open spec fn done_ok_text(s: Step<Result<String, String>>, text: Seq<char>) -> bool {
    s matches Step::Done(Ok(v)) && v@ == text
}

/// The step finished with `Err(e)` where `e` spells `text`.
pub open spec fn done_err_text<T>(s: Step<Result<T, String>>, text: Seq<char>) -> bool {
    s matches Step::Done(Err(e)) && e@ == text
}

/// The character-level form of a textual result.
pub open spec fn res_text(r: Result<String, String>) -> Result<Seq<char>, Seq<char>> {
    match r {
        Ok(v) => Ok(v@),
        Err(e) => Err(e@),
    }
}

/// The step finished with a textual result whose character form is `v`.
pub open spec fn done_text(s: Step<Result<String, String>>, v: Result<Seq<char>, Seq<char>>) -> bool {
    s matches Step::Done(r) && res_text(r) == v
}

/// The mathematical form of a [`Step`].
pub enum Next<V> {
    Run(InvocationView),
    Done(V),
}

/// A textual-result step in mathematical form.
pub open spec fn text_step(s: Step<Result<String, String>>) -> Next<Result<Seq<char>, Seq<char>>> {
    match s {
        Step::Run(i) => Next::Run(i@),
        Step::Done(r) => Next::Done(res_text(r)),
    }
}

/// A step without a value beyond success, in mathematical form.
pub open spec fn unit_step(s: Step<Result<(), String>>) -> Next<Result<(), Seq<char>>> {
    match s {
        Step::Run(i) => Next::Run(i@),
        Step::Done(Ok(_)) => Next::Done(Ok(())),
        Step::Done(Err(e)) => Next::Done(Err(e@)),
    }
}

/// A yes/no step in mathematical form.
pub open spec fn bool_step(s: Step<bool>) -> Next<bool> {
    match s {
        Step::Run(i) => Next::Run(i@),
        Step::Done(b) => Next::Done(b),
    }
}

/// A step with a list of strings, in mathematical form.
pub open spec fn list_step(s: Step<Result<Vec<String>, String>>) -> Next<
    Result<Seq<Seq<char>>, Seq<char>>,
> {
    match s {
        Step::Run(i) => Next::Run(i@),
        Step::Done(Ok(v)) => Next::Done(Ok(strs(v@))),
        Step::Done(Err(e)) => Next::Done(Err(e@)),
    }
}

/// A step whose value has a view, in mathematical form.
pub open spec fn step_view<T: View>(s: Step<T>) -> Next<T::V> {
    match s {
        Step::Run(i) => Next::Run(i@),
        Step::Done(v) => Next::Done(v@),
    }
}

/// The executable at `program` with `args`, in the host's working directory.
pub open spec fn exe(program: Seq<char>, args: Seq<Seq<char>>) -> InvocationView {
    InvocationView { program: ProgramView::Path(program), dir: None, args, env: seq![] }
}

/// Reading the file `path` under `dir`.
pub open spec fn read_file(dir: Seq<char>, path: Seq<char>) -> InvocationView {
    InvocationView { program: ProgramView::ReadFile, dir: Some(dir), args: seq![path], env: seq![] }
}

/// Creating the directory `path` and its missing parents.
pub open spec fn create_dir_all(path: Seq<char>) -> InvocationView {
    InvocationView { program: ProgramView::CreateDirAll, dir: None, args: seq![path], env: seq![] }
}

/// Writing `content` to the file `name` under `dir`.
pub open spec fn write_file(dir: Seq<char>, name: Seq<char>, content: Seq<char>) -> InvocationView {
    InvocationView { program: ProgramView::WriteFile, dir: Some(dir), args: seq![name, content], env: seq![] }
}

/// The canonical form of the path `path` joined to `dir`.
pub open spec fn canonicalize(dir: Seq<char>, path: Seq<char>) -> InvocationView {
    InvocationView { program: ProgramView::Canonicalize, dir: Some(dir), args: seq![path], env: seq![] }
}

/// The command ran and reported success.
pub open spec fn succeeded(o: Outcome) -> bool {
    o matches Ok(out) && out.success
}

/// The command's standard output, or nothing when it did not start.
pub open spec fn stdout_of(o: Outcome) -> Seq<char> {
    match o {
        Ok(out) => out.stdout@,
        Err(_) => seq![],
    }
}

/// The command's standard error, or nothing when it did not start.
pub open spec fn stderr_of(o: Outcome) -> Seq<char> {
    match o {
        Ok(out) => out.stderr@,
        Err(_) => seq![],
    }
}

/// An owned copy of a string slice.
pub fn own(s: &str) -> (r: String)
    ensures
        r@ == s@,
{
    s.to_owned()
}

/// `git` in `dir` with `args`.
pub fn git_in(dir: &str, args: Vec<String>) -> (inv: Invocation)
    ensures
        inv@ == git(dir@, strs(args@)),
{
    let inv = Invocation { program: Program::Git, dir: Some(own(dir)), args, env: Vec::new() };
    assert(inv@.env =~= Seq::<(Seq<char>, Seq<char>)>::empty());
    inv
}

/// `gh` in `dir` with `args`.
pub fn gh_in(dir: &str, args: Vec<String>) -> (inv: Invocation)
    ensures
        inv@ == gh(dir@, strs(args@)),
{
    let inv = Invocation { program: Program::Gh, dir: Some(own(dir)), args, env: Vec::new() };
    assert(inv@.env =~= Seq::<(Seq<char>, Seq<char>)>::empty());
    inv
}

/// The executable at `program` with `args`.
pub fn exe_in(program: &str, args: Vec<String>) -> (inv: Invocation)
    ensures
        inv@ == exe(program@, strs(args@)),
{
    let inv = Invocation { program: Program::Path(own(program)), dir: None, args, env: Vec::new() };
    assert(inv@.env =~= Seq::<(Seq<char>, Seq<char>)>::empty());
    inv
}

/// Reading the file `path` under `dir`.
pub fn read_file_in(dir: &str, path: String) -> (inv: Invocation)
    ensures
        inv@ == read_file(dir@, path@),
{
    let args = vec![path];
    let inv = Invocation { program: Program::ReadFile, dir: Some(own(dir)), args, env: Vec::new() };
    assert(inv@.env =~= Seq::<(Seq<char>, Seq<char>)>::empty());
    assert(inv@.args =~= seq![args@[0]@]);
    inv
}

/// Creating the directory `path` and its missing parents.
pub fn create_dir_all_of(path: &str) -> (inv: Invocation)
    ensures
        inv@ == create_dir_all(path@),
{
    let args = vec![own(path)];
    let inv = Invocation { program: Program::CreateDirAll, dir: None, args, env: Vec::new() };
    assert(inv@.env =~= Seq::<(Seq<char>, Seq<char>)>::empty());
    assert(inv@.args =~= seq![path@]);
    inv
}

/// Writing `content` to the file `name` under `dir`.
pub fn write_file_in(dir: &str, name: &str, content: &str) -> (inv: Invocation)
    ensures
        inv@ == write_file(dir@, name@, content@),
{
    let args = vec![own(name), own(content)];
    let inv = Invocation { program: Program::WriteFile, dir: Some(own(dir)), args, env: Vec::new() };
    assert(inv@.env =~= Seq::<(Seq<char>, Seq<char>)>::empty());
    assert(inv@.args =~= seq![name@, content@]);
    inv
}

/// The canonical form of the path `path` joined to `dir`.
pub fn canonicalize_in(dir: &str, path: String) -> (inv: Invocation)
    ensures
        inv@ == canonicalize(dir@, path@),
{
    let args = vec![path];
    let inv = Invocation { program: Program::Canonicalize, dir: Some(own(dir)), args, env: Vec::new() };
    assert(inv@.env =~= Seq::<(Seq<char>, Seq<char>)>::empty());
    assert(inv@.args =~= seq![args@[0]@]);
    inv
}

/// Concatenation of two strings.
pub fn cat(a: &str, b: &str) -> (r: String)
    ensures
        r@ == a@ + b@,
{
    let mut r = a.to_owned();
    r.append(b);
    r
}

/// Concatenation of three strings.
pub fn cat3(a: &str, b: &str, c: &str) -> (r: String)
    ensures
        r@ == a@ + b@ + c@,
{
    let mut r = a.to_owned();
    r.append(b);
    r.append(c);
    r
}

/// A copy of the outcome's standard error, or an empty string.
pub fn stderr_text(o: &Outcome) -> (r: String)
    ensures
        r@ == stderr_of(*o),
{
    match o {
        Ok(out) => out.stderr.clone(),
        Err(_) => String::new(),
    }
}

/// A copy of the outcome's standard output, or an empty string.
pub fn stdout_text(o: &Outcome) -> (r: String)
    ensures
        r@ == stdout_of(*o),
{
    match o {
        Ok(out) => out.stdout.clone(),
        Err(_) => String::new(),
    }
}

/// Whether the command ran and reported success.
pub fn ok_and_success(o: &Outcome) -> (r: bool)
    ensures
        r == succeeded(*o),
{
    match o {
        Ok(out) => out.success,
        Err(_) => false,
    }
}

} // verus!
