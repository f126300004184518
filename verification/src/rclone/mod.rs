//! How rclone is invoked, and how its replies are read.
//!
//! Running the rclone program is the caller's part: it asks for an
//! [`Invocation`], runs it, and hands back what the process reported as a
//! [`CommandOutput`]. The functions here decide what that reply means.

use crate::text::{
    chars_of, lemma_newline_pieces_nonempty, lines_of, newline_pieces, string_views, strip_cr,
    text_lines,
};
use vstd::prelude::*;
use vstd::utf8::{decode_utf8, valid_utf8};

verus! {

broadcast use vstd::string::group_string_axioms;

/// Represents an rclone remote
#[derive(Debug, Clone)]
pub struct Remote {
    pub name: String,
    pub remote_type: String,
}

/// Represents a file or directory in rclone
#[derive(Debug, Clone)]
pub struct FileItem {
    pub path: String,
    pub name: String,
    pub size: i64,
    pub mime_type: String,
    pub mod_time: String,
    pub is_dir: bool,
}

/// `s` without the colons at its end (all of them, as `trim_end_matches(':')`).
pub open spec fn trim_trailing_colons(s: Seq<char>) -> Seq<char>
    decreases s.len(),
{
    if s.len() > 0 && s.last() == ':' {
        trim_trailing_colons(s.drop_last())
    } else {
        s
    }
}

/// The remote names that a sequence of lines lists: each line that is not
/// empty names one remote, without its trailing colons.
pub open spec fn line_names(lines: Seq<Seq<char>>) -> Seq<Seq<char>>
    decreases lines.len(),
{
    if lines.len() == 0 {
        Seq::empty()
    } else {
        let before = line_names(lines.drop_last());
        if lines.last().len() == 0 {
            before
        } else {
            before.push(trim_trailing_colons(lines.last()))
        }
    }
}

/// The names of the remotes that the output of `rclone listremotes` lists.
pub open spec fn remote_names(listing: Seq<char>) -> Seq<Seq<char>> {
    line_names(text_lines(listing))
}

/// The names of a sequence of remotes.
pub open spec fn names_of(remotes: Seq<Remote>) -> Seq<Seq<char>> {
    remotes.map_values(|r: Remote| r.name@)
}

/// The first line of `text`, or `"unknown"` when it has no line.
pub open spec fn first_line_or_unknown(text: Seq<char>) -> Seq<char> {
    if text_lines(text).len() == 0 {
        "unknown"@
    } else {
        text_lines(text)[0]
    }
}

/// `line` without its trailing colons.
pub fn trim_colons(line: &str) -> (res: String)
    ensures
        res@ == trim_trailing_colons(line@),
{
    let mut v = chars_of(line);
    while v.len() > 0 && v[v.len() - 1] == ':'
        invariant
            trim_trailing_colons(v@) == trim_trailing_colons(line@),
        decreases v.len(),
    {
        let ghost before = v@;
        v.pop();
        proof {
            assert(v@ =~= before.drop_last());
        }
    }
    crate::text::string_of(v.as_slice())
}

/// Reads the output of `rclone listremotes`: one remote per line that is not
/// empty, named by the line without its trailing colons, of unknown type.
pub fn parse_remotes(listing: &str) -> (remotes: Vec<Remote>)
    ensures
        names_of(remotes@) == remote_names(listing@),
        forall|i: int| 0 <= i < remotes@.len() ==> #[trigger] remotes@[i].remote_type@ == "unknown"@,
{
    let lines = lines_of(listing);
    let mut remotes: Vec<Remote> = Vec::new();
    for i in 0..lines.len()
        invariant
            string_views(lines@) == text_lines(listing@),
            names_of(remotes@) == line_names(string_views(lines@).take(i as int)),
            forall|j: int| 0 <= j < remotes@.len() ==> #[trigger] remotes@[j].remote_type@ == "unknown"@,
    {
        let ghost taken = string_views(lines@).take(i + 1);
        proof {
            assert(taken.drop_last() =~= string_views(lines@).take(i as int));
            assert(taken.last() == lines@[i as int]@);
        }
        if !lines[i].as_str().is_empty() {
            let name = trim_colons(lines[i].as_str());
            let remote = Remote { name, remote_type: "unknown".to_owned() };
            let ghost old_remotes = remotes@;
            remotes.push(remote);
            proof {
                assert(names_of(remotes@) =~= names_of(old_remotes).push(remote.name@));
            }
        }
    }
    proof {
        assert(string_views(lines@).take(lines@.len() as int) =~= string_views(lines@));
    }
    remotes
}


/// Reads the output of `rclone version`: its first line, or `"unknown"` when
/// it has none.
pub fn parse_version(text: &str) -> (version: String)
    ensures
        version@ == first_line_or_unknown(text@),
{
    let lines = lines_of(text);
    if lines.len() == 0 {
        "unknown".to_owned()
    } else {
        proof {
            assert(string_views(lines@)[0] == lines@[0]@);
        }
        lines[0].clone()
    }
}

/// The rclone location of `path` in `remote`: `remote:path`, which is
/// `remote:` for the top of the remote.
pub open spec fn remote_location(remote: Seq<char>, path: Seq<char>) -> Seq<char> {
    remote + ":"@ + path
}

/// The rclone location of `path` in `remote`.
pub fn full_path(remote: &str, path: &str) -> (location: String)
    ensures
        location@ == remote_location(remote@, path@),
{
    let mut location = remote.to_owned();
    location.append(":");
    location.append(path);
    location
}

/// What a run of rclone reported: whether it exited successfully, and the
/// bytes it wrote to its standard output and standard error.
#[derive(Debug, Clone)]
pub struct CommandOutput {
    pub success: bool,
    pub stdout: Vec<u8>,
    pub stderr: Vec<u8>,
}

/// A run of rclone to perform: the program and its arguments.
#[derive(Debug, Clone)]
pub struct Invocation {
    pub program: String,
    pub args: Vec<String>,
}

/// Why an rclone operation failed.
#[derive(Debug, Clone)]
pub enum RcloneError {
    /// rclone ran and reported failure; `stderr` is what it wrote there.
    CommandFailed { operation: String, stderr: String },
}

/// The message of a failed operation: `rclone <operation> failed: <stderr>`.
pub open spec fn failure_message(operation: Seq<char>, stderr: Seq<char>) -> Seq<char> {
    "rclone "@ + operation + " failed: "@ + stderr
}

impl RcloneError {
    /// The operation that failed.
    pub open spec fn operation_view(&self) -> Seq<char> {
        match self {
            RcloneError::CommandFailed { operation, .. } => operation@,
        }
    }

    /// What rclone wrote to its standard error.
    pub open spec fn stderr_view(&self) -> Seq<char> {
        match self {
            RcloneError::CommandFailed { stderr, .. } => stderr@,
        }
    }

    /// The text that describes the failure.
    pub fn message(&self) -> (m: String)
        ensures
            m@ == failure_message(self.operation_view(), self.stderr_view()),
    {
        match self {
            RcloneError::CommandFailed { operation, stderr } => {
                let mut m = "rclone ".to_owned();
                m.append(operation.as_str());
                m.append(" failed: ");
                m.append(stderr.as_str());
                m
            },
        }
    }
}

/// The text that `String::from_utf8_lossy` makes of `bytes`.
pub uninterp spec fn utf8_lossy(bytes: Seq<u8>) -> Seq<char>;

/// Decodes `bytes` as UTF-8 with `String::from_utf8_lossy`, which puts a
/// replacement character in place of each invalid sequence. Its result is
/// named by `utf8_lossy`; on valid UTF-8 it is the plain decoding, as the
/// standard library documents. Nothing more is stated of invalid input.
#[verifier::external_body]
fn decode_lossy(bytes: &[u8]) -> (text: String)
    ensures
        text@ == utf8_lossy(bytes@),
        valid_utf8(bytes@) ==> text@ == decode_utf8(bytes@),
{
    String::from_utf8_lossy(bytes).into_owned()
}

/// What reading an rclone reply gives: on success its standard output as
/// text, otherwise the failure of `operation` with its standard error.
pub open spec fn reply_of(operation: Seq<char>, output: CommandOutput) -> Result<Seq<char>, (Seq<char>, Seq<char>)> {
    if output.success {
        Ok(utf8_lossy(output.stdout@))
    } else {
        Err((operation, utf8_lossy(output.stderr@)))
    }
}

/// The view of an error: its operation and its standard error.
pub open spec fn error_view(e: RcloneError) -> (Seq<char>, Seq<char>) {
    (e.operation_view(), e.stderr_view())
}

/// Checks the reply of rclone to `operation`: its standard output as text
/// when it succeeded, the failure with its standard error otherwise.
pub fn check_output(operation: &str, output: &CommandOutput) -> (res: Result<String, RcloneError>)
    ensures
        match res {
            Ok(text) => {
                &&& reply_of(operation@, *output) == Ok::<Seq<char>, (Seq<char>, Seq<char>)>(text@)
                &&& valid_utf8(output.stdout@) ==> text@ == decode_utf8(output.stdout@)
            },
            Err(e) => {
                &&& reply_of(operation@, *output) == Err::<Seq<char>, (Seq<char>, Seq<char>)>(error_view(e))
                &&& valid_utf8(output.stderr@) ==> e.stderr_view() == decode_utf8(output.stderr@)
            },
        },
{
    if output.success {
        Ok(decode_lossy(output.stdout.as_slice()))
    } else {
        Err(RcloneError::CommandFailed {
            operation: operation.to_owned(),
            stderr: decode_lossy(output.stderr.as_slice()),
        })
    }
}


/// The failure that rclone reports for `operation` in `output`: its standard
/// error as text, which is the plain decoding when it is valid UTF-8.
pub open spec fn reported_failure(operation: Seq<char>, output: CommandOutput, e: RcloneError) -> bool {
    &&& !output.success
    &&& error_view(e) == (operation, utf8_lossy(output.stderr@))
    &&& valid_utf8(output.stderr@) ==> e.stderr_view() == decode_utf8(output.stderr@)
}

/// Reads the reply to `rclone listremotes`.
pub fn remotes_from_output(output: &CommandOutput) -> (res: Result<Vec<Remote>, RcloneError>)
    ensures
        match res {
            Ok(remotes) => {
                &&& output.success
                &&& names_of(remotes@) == remote_names(utf8_lossy(output.stdout@))
                &&& valid_utf8(output.stdout@) ==> names_of(remotes@) == remote_names(decode_utf8(output.stdout@))
                &&& forall|i: int| 0 <= i < remotes@.len() ==> #[trigger] remotes@[i].remote_type@ == "unknown"@
            },
            Err(e) => reported_failure("listremotes"@, *output, e),
        },
{
    match check_output("listremotes", output) {
        Ok(text) => Ok(parse_remotes(text.as_str())),
        Err(e) => Err(e),
    }
}

/// Reads the reply to `rclone lsjson`: the listing, still as JSON text.
pub fn listing_from_output(output: &CommandOutput) -> (res: Result<String, RcloneError>)
    ensures
        match res {
            Ok(text) => {
                &&& output.success
                &&& text@ == utf8_lossy(output.stdout@)
                &&& valid_utf8(output.stdout@) ==> text@ == decode_utf8(output.stdout@)
            },
            Err(e) => reported_failure("lsjson"@, *output, e),
        },
{
    check_output("lsjson", output)
}

/// Reads the reply to `rclone copy`.
pub fn copy_from_output(output: &CommandOutput) -> (res: Result<(), RcloneError>)
    ensures
        match res {
            Ok(()) => output.success,
            Err(e) => reported_failure("copy"@, *output, e),
        },
{
    match check_output("copy", output) {
        Ok(_) => Ok(()),
        Err(e) => Err(e),
    }
}

/// Reads the reply to `rclone delete`.
pub fn delete_from_output(output: &CommandOutput) -> (res: Result<(), RcloneError>)
    ensures
        match res {
            Ok(()) => output.success,
            Err(e) => reported_failure("delete"@, *output, e),
        },
{
    match check_output("delete", output) {
        Ok(_) => Ok(()),
        Err(e) => Err(e),
    }
}

/// Reads the reply to `rclone version`: the first line of its output.
pub fn version_from_output(output: &CommandOutput) -> (res: Result<String, RcloneError>)
    ensures
        match res {
            Ok(version) => {
                &&& output.success
                &&& version@ == first_line_or_unknown(utf8_lossy(output.stdout@))
                &&& valid_utf8(output.stdout@) ==> version@ == first_line_or_unknown(decode_utf8(output.stdout@))
            },
            Err(e) => reported_failure("version"@, *output, e),
        },
{
    match check_output("version", output) {
        Ok(text) => Ok(parse_version(text.as_str())),
        Err(e) => Err(e),
    }
}

/// Rclone client for interacting with rclone CLI
#[derive(Debug)]
pub struct RcloneClient {
    rclone_path: String,
}

impl View for RcloneClient {
    /// The program that the client runs.
    type V = Seq<char>;

    closed spec fn view(&self) -> Seq<char> {
        self.rclone_path@
    }
}

impl Default for RcloneClient {
    fn default() -> (client: Self)
        ensures
            client@ == "rclone"@,
    {
        Self::new()
    }
}

impl RcloneClient {
    /// Create a new rclone client
    pub fn new() -> (client: Self)
        ensures
            client@ == "rclone"@,
    {
        RcloneClient { rclone_path: "rclone".to_owned() }
    }

    /// The program that this client runs.
    pub fn rclone_path(&self) -> (path: &str)
        ensures
            path@ == self@,
    {
        self.rclone_path.as_str()
    }

    fn invocation(&self, args: Vec<String>) -> (inv: Invocation)
        ensures
            inv.program@ == self@,
            inv.args@ == args@,
    {
        Invocation { program: self.rclone_path.clone(), args }
    }

    /// The run that lists all configured remotes: `rclone listremotes`.
    pub fn list_remotes_command(&self) -> (inv: Invocation)
        ensures
            inv.program@ == self@,
            string_views(inv.args@) == seq!["listremotes"@],
    {
        let mut args: Vec<String> = Vec::new();
        args.push("listremotes".to_owned());
        let inv = self.invocation(args);
        assert(string_views(inv.args@) =~= seq!["listremotes"@]);
        inv
    }

    /// The run that lists the files at `path` in `remote`:
    /// `rclone lsjson <location>`.
    pub fn list_files_command(&self, remote: &str, path: &str) -> (inv: Invocation)
        ensures
            inv.program@ == self@,
            string_views(inv.args@) == seq!["lsjson"@, remote_location(remote@, path@)],
    {
        let mut args: Vec<String> = Vec::new();
        args.push("lsjson".to_owned());
        args.push(full_path(remote, path));
        let inv = self.invocation(args);
        assert(string_views(inv.args@) =~= seq!["lsjson"@, remote_location(remote@, path@)]);
        inv
    }

    /// The run that copies `source` to `dest`: `rclone copy <source> <dest>`.
    pub fn copy_command(&self, source: &str, dest: &str) -> (inv: Invocation)
        ensures
            inv.program@ == self@,
            string_views(inv.args@) == seq!["copy"@, source@, dest@],
    {
        let mut args: Vec<String> = Vec::new();
        args.push("copy".to_owned());
        args.push(source.to_owned());
        args.push(dest.to_owned());
        let inv = self.invocation(args);
        assert(string_views(inv.args@) =~= seq!["copy"@, source@, dest@]);
        inv
    }

    /// The run that deletes `path`: `rclone delete <path>`.
    pub fn delete_command(&self, path: &str) -> (inv: Invocation)
        ensures
            inv.program@ == self@,
            string_views(inv.args@) == seq!["delete"@, path@],
    {
        let mut args: Vec<String> = Vec::new();
        args.push("delete".to_owned());
        args.push(path.to_owned());
        let inv = self.invocation(args);
        assert(string_views(inv.args@) =~= seq!["delete"@, path@]);
        inv
    }

    /// The run that reports the version of rclone: `rclone version`.
    pub fn version_command(&self) -> (inv: Invocation)
        ensures
            inv.program@ == self@,
            string_views(inv.args@) == seq!["version"@],
    {
        let mut args: Vec<String> = Vec::new();
        args.push("version".to_owned());
        let inv = self.invocation(args);
        assert(string_views(inv.args@) =~= seq!["version"@]);
        inv
    }
}

/// What `rclone listremotes` prints for remotes named `names`: each name
/// followed by a colon, on a line of its own.
pub open spec fn listremotes_text(names: Seq<Seq<char>>) -> Seq<char>
    decreases names.len(),
{
    if names.len() == 0 {
        Seq::empty()
    } else {
        listremotes_text(names.drop_last()) + names.last() + ":\n"@
    }
}

/// Whether `name` can stand in a listing of remotes and be read back: it
/// holds no newline and does not end with a colon.
pub open spec fn listable_name(name: Seq<char>) -> bool {
    &&& forall|i: int| 0 <= i < name.len() ==> name[i] != '\n'
    &&& !(name.len() > 0 && name.last() == ':')
}

proof fn lemma_pieces_extend(x: Seq<char>, y: Seq<char>)
    requires
        forall|i: int| 0 <= i < y.len() ==> y[i] != '\n',
    ensures
        newline_pieces(x + y) == newline_pieces(x).update(
            newline_pieces(x).len() - 1,
            newline_pieces(x).last() + y,
        ),
    decreases y.len(),
{
    lemma_newline_pieces_nonempty(x);
    if y.len() == 0 {
        assert(x + y =~= x);
        assert(newline_pieces(x).last() + y =~= newline_pieces(x).last());
        assert(newline_pieces(x).update(newline_pieces(x).len() - 1, newline_pieces(x).last())
            =~= newline_pieces(x));
    } else {
        let p = newline_pieces(x);
        let last = p.len() - 1;
        lemma_pieces_extend(x, y.drop_last());
        assert((x + y).drop_last() =~= x + y.drop_last());
        assert((x + y).last() == y.last());
        assert(y.last() != '\n');
        let before = newline_pieces(x + y.drop_last());
        assert(before == p.update(last, p.last() + y.drop_last()));
        assert(before.last() == p.last() + y.drop_last());
        assert((p.last() + y.drop_last()).push(y.last()) =~= p.last() + y);
        assert(newline_pieces(x + y) == before.update(last, before.last().push(y.last())));
        assert(before.update(last, before.last().push(y.last())) =~= p.update(last, p.last() + y));
    }
}

proof fn lemma_pieces_newline(x: Seq<char>)
    ensures
        newline_pieces(x + "\n"@) == newline_pieces(x).push(Seq::<char>::empty()),
{
    reveal_strlit("\n");
    assert((x + "\n"@).drop_last() =~= x);
}

proof fn lemma_listremotes_pieces(names: Seq<Seq<char>>)
    requires
        forall|k: int| 0 <= k < names.len() ==> listable_name(#[trigger] names[k]),
    ensures
        newline_pieces(listremotes_text(names)) == names.map_values(
            |n: Seq<char>| n + ":"@,
        ).push(Seq::<char>::empty()),
    decreases names.len(),
{
    reveal_strlit(":");
    reveal_strlit(":\n");
    reveal_strlit("\n");
    if names.len() == 0 {
        assert(names.map_values(|n: Seq<char>| n + ":"@) =~= Seq::<Seq<char>>::empty());
    } else {
        let front = names.drop_last();
        let n = names.last();
        assert forall|k: int| 0 <= k < front.len() implies listable_name(#[trigger] front[k]) by {
            assert(front[k] == names[k]);
        }
        lemma_listremotes_pieces(front);
        let x = listremotes_text(front);
        let line = n + ":"@;
        assert(listable_name(names[names.len() - 1]));
        assert forall|i: int| 0 <= i < line.len() implies line[i] != '\n' by {
            if i < n.len() {
                assert(line[i] == n[i]);
            }
        }
        lemma_pieces_extend(x, line);
        lemma_pieces_newline(x + line);
        assert(listremotes_text(names) =~= x + line + "\n"@);
        assert(Seq::<char>::empty() + line =~= line);
        assert(names.map_values(|n: Seq<char>| n + ":"@) =~= front.map_values(
            |n: Seq<char>| n + ":"@,
        ).push(line));
    }
}

proof fn lemma_line_names_of_listing(names: Seq<Seq<char>>)
    requires
        forall|k: int| 0 <= k < names.len() ==> listable_name(#[trigger] names[k]),
    ensures
        line_names(names.map_values(|n: Seq<char>| strip_cr(n + ":"@))) == names,
    decreases names.len(),
{
    reveal_strlit(":");
    let lines = names.map_values(|n: Seq<char>| strip_cr(n + ":"@));
    if names.len() == 0 {
        assert(lines =~= Seq::<Seq<char>>::empty());
    } else {
        let front = names.drop_last();
        let n = names.last();
        assert forall|k: int| 0 <= k < front.len() implies listable_name(#[trigger] front[k]) by {
            assert(front[k] == names[k]);
        }
        lemma_line_names_of_listing(front);
        assert(lines.drop_last() =~= front.map_values(|n: Seq<char>| strip_cr(n + ":"@)));
        assert(listable_name(names[names.len() - 1]));
        let line = n + ":"@;
        assert(line.last() == ':');
        assert(strip_cr(line) == line);
        assert(line.drop_last() =~= n);
        assert(trim_trailing_colons(n) == n);
        assert(lines.last() == line);
        assert(names =~= front.push(n));
    }
}

/// Reading what `rclone listremotes` prints gives back the names of the
/// remotes, in order, for names that hold no newline and do not end with a
/// colon.
pub proof fn lemma_listremotes_read_back(names: Seq<Seq<char>>)
    requires
        forall|k: int| 0 <= k < names.len() ==> listable_name(#[trigger] names[k]),
    ensures
        remote_names(listremotes_text(names)) == names,
{
    lemma_listremotes_pieces(names);
    let pieces = newline_pieces(listremotes_text(names));
    let lines = names.map_values(|n: Seq<char>| n + ":"@);
    assert(pieces.drop_last() =~= lines);
    assert(pieces.drop_last().map_values(|l: Seq<char>| strip_cr(l)) =~= names.map_values(
        |n: Seq<char>| strip_cr(n + ":"@),
    ));
    lemma_line_names_of_listing(names);
}

/// Whether `s` holds no colon.
pub open spec fn has_no_colon(s: Seq<char>) -> bool {
    forall|i: int| 0 <= i < s.len() ==> s[i] != ':'
}

/// The index of the first colon in `s`, if it holds one.
pub open spec fn first_colon(s: Seq<char>) -> Option<int>
    decreases s.len(),
{
    if s.len() == 0 {
        None
    } else if s[0] == ':' {
        Some(0)
    } else {
        match first_colon(s.drop_first()) {
            Some(k) => Some(k + 1),
            None => None,
        }
    }
}

/// The remote and the path that a location `remote:path` names: split at its
/// first colon, or nothing when it holds none.
pub open spec fn split_location(location: Seq<char>) -> Option<(Seq<char>, Seq<char>)> {
    match first_colon(location) {
        Some(k) => Some((location.take(k), location.skip(k + 1))),
        None => None,
    }
}

proof fn lemma_first_colon_meaning(s: Seq<char>)
    ensures
        match first_colon(s) {
            Some(k) => 0 <= k < s.len() && s[k] == ':' && has_no_colon(s.take(k)),
            None => has_no_colon(s),
        },
    decreases s.len(),
{
    if s.len() > 0 && s[0] != ':' {
        lemma_first_colon_meaning(s.drop_first());
        match first_colon(s.drop_first()) {
            Some(k) => {
                assert forall|i: int| 0 <= i < k + 1 implies #[trigger] s.take(k + 1)[i] != ':' by {
                    if i > 0 {
                        assert(s.take(k + 1)[i] == s.drop_first().take(k)[i - 1]);
                    }
                }
            },
            None => {
                assert forall|i: int| 0 <= i < s.len() implies #[trigger] s[i] != ':' by {
                    if i > 0 {
                        assert(s[i] == s.drop_first()[i - 1]);
                    }
                }
            },
        }
    }
}

proof fn lemma_first_colon(location: Seq<char>, k: int)
    requires
        0 <= k < location.len(),
        location[k] == ':',
        has_no_colon(location.take(k)),
    ensures
        first_colon(location) == Some(k),
{
    lemma_first_colon_meaning(location);
    match first_colon(location) {
        Some(j) => {
            if j < k {
                assert(location.take(k)[j] == ':');
            }
            if k < j {
                assert(location.take(j)[k] == ':');
            }
        },
        None => {
            assert(location[k] == ':');
        },
    }
}

/// Splits a location `remote:path` at its first colon into the remote and the
/// path; `None` when it holds no colon.
pub fn split_remote_path(location: &str) -> (parts: Option<(String, String)>)
    ensures
        match parts {
            Some((remote, path)) => split_location(location@) == Some((remote@, path@)),
            None => split_location(location@) is None,
        },
{
    let chars = chars_of(location);
    let mut k: usize = 0;
    while k < chars.len() && chars[k] != ':'
        invariant
            chars@ == location@,
            k <= chars.len(),
            has_no_colon(location@.take(k as int)),
        decreases chars.len() - k,
    {
        proof {
            assert forall|i: int| 0 <= i < k + 1 implies #[trigger] location@.take(k + 1)[i] != ':' by {
                if i < k {
                    assert(location@.take(k + 1)[i] == location@.take(k as int)[i]);
                }
            }
        }
        k = k + 1;
    }
    if k == chars.len() {
        proof {
            assert(location@.take(k as int) =~= location@);
            lemma_first_colon_meaning(location@);
            if let Some(j) = first_colon(location@) {
                assert(location@[j] == ':');
            }
        }
        None
    } else {
        proof {
            lemma_first_colon(location@, k as int);
        }
        let mut remote: Vec<char> = Vec::new();
        let mut path: Vec<char> = Vec::new();
        for i in 0..k
            invariant
                chars@ == location@,
                k < chars.len(),
                remote@ == location@.take(i as int),
        {
            remote.push(chars[i]);
            proof {
                assert(location@.take(i + 1) =~= location@.take(i as int).push(location@[i as int]));
            }
        }
        for i in k + 1..chars.len()
            invariant
                chars@ == location@,
                k < chars.len(),
                path@ == location@.subrange(k + 1, i as int),
        {
            path.push(chars[i]);
            proof {
                assert(location@.subrange(k + 1, i + 1) =~= location@.subrange(k + 1, i as int).push(location@[i as int]));
            }
        }
        proof {
            assert(location@.subrange(k + 1, location@.len() as int) =~= location@.skip(k + 1));
        }
        Some((crate::text::string_of(remote.as_slice()), crate::text::string_of(path.as_slice())))
    }
}

/// Splitting a location and joining its parts again gives the location back.
pub proof fn lemma_split_then_join(location: Seq<char>)
    requires
        split_location(location) is Some,
    ensures
        split_location(location) matches Some((remote, path)) && remote_location(remote, path)
            == location,
{
    reveal_strlit(":");
    lemma_first_colon_meaning(location);
    let k = first_colon(location)->0;
    assert(location.take(k) + ":"@ + location.skip(k + 1) =~= location);
}

/// Joining a remote without a colon and a path, then splitting the location,
/// gives the remote and the path back.
pub proof fn lemma_join_then_split(remote: Seq<char>, path: Seq<char>)
    requires
        has_no_colon(remote),
    ensures
        split_location(remote_location(remote, path)) == Some((remote, path)),
{
    reveal_strlit(":");
    let location = remote_location(remote, path);
    let k = remote.len() as int;
    assert(location.take(k) =~= remote);
    assert(location.skip(k + 1) =~= path);
    assert(location[k] == ':');
    lemma_first_colon(location, k);
}

/// Whether `s` holds no newline.
pub open spec fn has_no_newline(s: Seq<char>) -> bool {
    forall|i: int| 0 <= i < s.len() ==> s[i] != '\n'
}

proof fn lemma_first_piece(s: Seq<char>)
    ensures
        has_no_newline(s) ==> newline_pieces(s) == seq![s],
        forall|k: int|
            0 <= k < s.len() && s[k] == '\n' && #[trigger] has_no_newline(s.take(k)) ==> {
                &&& newline_pieces(s).len() >= 2
                &&& newline_pieces(s)[0] == s.take(k)
            },
    decreases s.len(),
{
    lemma_newline_pieces_nonempty(s);
    if s.len() == 0 {
        assert(s =~= Seq::<char>::empty());
        assert(newline_pieces(s) =~= seq![s]);
    } else {
        let front = s.drop_last();
        lemma_first_piece(front);
        lemma_newline_pieces_nonempty(front);
        if has_no_newline(s) {
            assert(has_no_newline(front));
            assert(newline_pieces(front) == seq![front]);
            assert(s.last() != '\n');
            assert(front.push(s.last()) =~= s);
            assert(newline_pieces(s) =~= seq![s]);
        }
        assert forall|k: int|
            0 <= k < s.len() && s[k] == '\n' && #[trigger] has_no_newline(s.take(k)) implies {
                &&& newline_pieces(s).len() >= 2
                &&& newline_pieces(s)[0] == s.take(k)
            } by {
            if k == s.len() - 1 {
                assert(front =~= s.take(k));
                assert(newline_pieces(front) == seq![front]);
            } else {
                assert(front.take(k) =~= s.take(k));
                assert(front[k] == s[k]);
                assert(has_no_newline(front.take(k)));
            }
        }
    }
}

/// The version that `rclone version` reports is its first line: what comes
/// before the first newline (without a carriage return just before it), the
/// whole output when it holds no newline, and `"unknown"` when it is empty.
pub proof fn lemma_version_is_first_line(text: Seq<char>)
    ensures
        text.len() == 0 ==> first_line_or_unknown(text) == "unknown"@,
        text.len() > 0 && has_no_newline(text) ==> first_line_or_unknown(text) == text,
        forall|k: int|
            0 <= k < text.len() && text[k] == '\n' && #[trigger] has_no_newline(text.take(k))
                ==> first_line_or_unknown(text) == strip_cr(text.take(k)),
{
    lemma_first_piece(text);
    lemma_newline_pieces_nonempty(text);
    let pieces = newline_pieces(text);
    if text.len() == 0 {
        assert(text_lines(text).len() == 0);
    }
    if text.len() > 0 && has_no_newline(text) {
        assert(pieces == seq![text]);
        assert(pieces.drop_last() =~= Seq::<Seq<char>>::empty());
        assert(text_lines(text) =~= seq![text]);
    }
    assert forall|k: int|
        0 <= k < text.len() && text[k] == '\n' && #[trigger] has_no_newline(text.take(k))
            implies first_line_or_unknown(text) == strip_cr(text.take(k)) by {
        assert(pieces.len() >= 2);
        assert(pieces[0] == text.take(k));
        let ended = pieces.drop_last().map_values(|l: Seq<char>| strip_cr(l));
        assert(ended[0] == strip_cr(text.take(k)));
        if pieces.last().len() == 0 {
            assert(text_lines(text) == ended);
        } else {
            assert(text_lines(text) == ended.push(pieces.last()));
            assert(text_lines(text)[0] == ended[0]);
        }
    }
}

/// A blank line names no remote: a listing that ends a line (or is empty)
/// lists the same remotes with one more empty line after it.
pub proof fn lemma_blank_line_names_no_remote(listing: Seq<char>)
    requires
        listing.len() == 0 || listing.last() == '\n',
    ensures
        remote_names(listing + seq!['\n']) == remote_names(listing),
{
    let pieces = newline_pieces(listing);
    lemma_newline_pieces_nonempty(listing);
    let longer = listing + seq!['\n'];
    assert(longer.drop_last() =~= listing);
    assert(newline_pieces(longer) == pieces.push(Seq::<char>::empty()));
    if listing.len() > 0 {
        lemma_newline_pieces_nonempty(listing.drop_last());
        assert(pieces == newline_pieces(listing.drop_last()).push(Seq::<char>::empty()));
    }
    assert(pieces.last().len() == 0);
    let ended = pieces.drop_last().map_values(|l: Seq<char>| strip_cr(l));
    assert(text_lines(listing) == ended);
    let lines = text_lines(longer);
    assert(newline_pieces(longer).drop_last() =~= pieces);
    assert(strip_cr(Seq::<char>::empty()) == Seq::<char>::empty());
    assert(lines =~= ended.push(Seq::<char>::empty()));
    assert(lines.drop_last() =~= ended);
}

} // verus!
