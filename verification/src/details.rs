//! One commit in detail: which files it changed, and how.
//!
//! What is read here is the answer of the repository to a question about a
//! single commit. Asking is the caller's work.
use vstd::prelude::*;
use vstd::string::StringExecFns;
use crate::backend::{output_text, read_output, texts, CommandOutput};
use crate::error::{GitError, GitErrorView};
use crate::text::{chars_of, i64_of_text, lines, lines_of, parse_i64, text_of, words, words_of};

verus! {

/// How a commit changed a file.
#[derive(Clone, Copy, Debug, PartialEq, Eq)]
pub enum ChangeKind {
    Unmodified,
    Added,
    Deleted,
    Modified,
    Renamed,
    Copied,
    Ignored,
    Untracked,
    Typechange,
    Unreadable,
    Conflicted,
}

/// A change as the repository reports it: its kind and the path of the
/// file.
#[derive(Debug, PartialEq, Eq)]
pub struct FileDelta {
    pub kind: ChangeKind,
    pub file: String,
}

/// A change as it is shown: what happened to which file.
#[derive(Debug, PartialEq, Eq)]
pub struct GitChange {
    pub status: String,
    pub file: String,
}

/// What a [`GitChange`] holds, as mathematical values.
pub ghost struct ChangeView {
    pub status: Seq<char>,
    pub file: Seq<char>,
}

impl View for GitChange {
    type V = ChangeView;

    open spec fn view(&self) -> ChangeView {
        ChangeView { status: self.status@, file: self.file@ }
    }
}

/// The views of a run of changes, in the same order.
pub open spec fn change_views(changes: Seq<GitChange>) -> Seq<ChangeView> {
    Seq::new(changes.len(), |i: int| changes[i]@)
}

/// A commit with the changes it made.
#[derive(Debug, PartialEq, Eq)]
pub struct DetailedCommit {
    pub id: String,
    pub message: String,
    pub author: String,
    pub date: i64,
    pub changes: Vec<GitChange>,
}

/// What a [`DetailedCommit`] holds, as mathematical values.
pub ghost struct DetailedView {
    pub id: Seq<char>,
    pub message: Seq<char>,
    pub author: Seq<char>,
    pub date: int,
    pub changes: Seq<ChangeView>,
}

impl View for DetailedCommit {
    type V = DetailedView;

    open spec fn view(&self) -> DetailedView {
        DetailedView {
            id: self.id@,
            message: self.message@,
            author: self.author@,
            date: self.date as int,
            changes: change_views(self.changes@),
        }
    }
}

/// The word that shows a kind of change.
pub open spec fn change_label_spec(kind: ChangeKind) -> Seq<char> {
    match kind {
        ChangeKind::Added => "Added"@,
        ChangeKind::Deleted => "Deleted"@,
        ChangeKind::Modified => "Modified"@,
        ChangeKind::Renamed => "Renamed"@,
        ChangeKind::Copied => "Copied"@,
        ChangeKind::Ignored => "Ignored"@,
        ChangeKind::Untracked => "Untracked"@,
        ChangeKind::Typechange => "Type Changed"@,
        ChangeKind::Unmodified => "Unmodified"@,
        ChangeKind::Unreadable => "Unreadable"@,
        ChangeKind::Conflicted => "Conflicted"@,
    }
}

/// The word that shows a kind of change.
pub fn change_label(kind: ChangeKind) -> (label: String)
    ensures
        label@ == change_label_spec(kind),
{
    match kind {
        ChangeKind::Added => String::from_str("Added"),
        ChangeKind::Deleted => String::from_str("Deleted"),
        ChangeKind::Modified => String::from_str("Modified"),
        ChangeKind::Renamed => String::from_str("Renamed"),
        ChangeKind::Copied => String::from_str("Copied"),
        ChangeKind::Ignored => String::from_str("Ignored"),
        ChangeKind::Untracked => String::from_str("Untracked"),
        ChangeKind::Typechange => String::from_str("Type Changed"),
        ChangeKind::Unmodified => String::from_str("Unmodified"),
        ChangeKind::Unreadable => String::from_str("Unreadable"),
        ChangeKind::Conflicted => String::from_str("Conflicted"),
    }
}

/// Whether `text` begins with `prefix`.
pub open spec fn begins_with(text: Seq<char>, prefix: Seq<char>) -> bool {
    prefix.len() <= text.len() && text.take(prefix.len() as int) == prefix
}

/// Whether `text` begins with `prefix`.
pub fn starts_with(text: &[char], prefix: &[char]) -> (begins: bool)
    ensures
        begins == begins_with(text@, prefix@),
{
    if prefix.len() > text.len() {
        return false;
    }
    let mut i: usize = 0;
    while i < prefix.len()
        invariant
            i <= prefix.len() <= text.len(),
            forall|j: int| 0 <= j < i ==> text@[j] == prefix@[j],
        decreases prefix.len() - i,
    {
        if text[i] != prefix[i] {
            proof {
                assert(text@.take(prefix.len() as int)[i as int] == text@[i as int]);
            }
            return false;
        }
        i += 1;
    }
    proof {
        assert(text@.take(prefix.len() as int) =~= prefix@);
    }
    true
}

/// The changes among `deltas` to files whose paths begin with `prefix`, as
/// they are shown, in the same order.
pub open spec fn changes_under_spec(deltas: Seq<FileDelta>, prefix: Seq<char>) -> Seq<ChangeView>
    decreases deltas.len(),
{
    if deltas.len() == 0 {
        Seq::empty()
    } else {
        let earlier = changes_under_spec(deltas.drop_last(), prefix);
        let delta = deltas.last();
        if begins_with(delta.file@, prefix) {
            earlier.push(ChangeView { status: change_label_spec(delta.kind), file: delta.file@ })
        } else {
            earlier
        }
    }
}

/// The changes among `deltas` to files whose paths begin with `prefix`, as
/// they are shown.
pub fn changes_under(deltas: &Vec<FileDelta>, prefix: &str) -> (changes: Vec<GitChange>)
    ensures
        change_views(changes@) == changes_under_spec(deltas@, prefix@),
{
    let wanted = chars_of(prefix);
    let mut changes: Vec<GitChange> = Vec::new();
    let mut i: usize = 0;
    proof {
        assert(deltas@.take(0) =~= Seq::<FileDelta>::empty());
        assert(change_views(changes@) =~= Seq::<ChangeView>::empty());
    }
    while i < deltas.len()
        invariant
            i <= deltas@.len(),
            wanted@ == prefix@,
            change_views(changes@) == changes_under_spec(deltas@.take(i as int), prefix@),
        decreases deltas@.len() - i,
    {
        let delta = &deltas[i];
        let file = chars_of(delta.file.as_str());
        proof {
            assert(deltas@.take(i + 1).drop_last() =~= deltas@.take(i as int));
            assert(deltas@.take(i + 1).last() == deltas@[i as int]);
        }
        if starts_with(file.as_slice(), wanted.as_slice()) {
            let change = GitChange { status: change_label(delta.kind), file: delta.file.clone() };
            proof {
                assert(change_views(changes@.push(change)) =~= change_views(changes@).push(
                    change@,
                ));
            }
            changes.push(change);
        }
        i += 1;
    }
    proof {
        assert(deltas@.take(deltas@.len() as int) =~= deltas@);
    }
    changes
}

/// The two sides of the change that a commit made to a file: its content
/// before and after. A side where the file does not exist is empty; a file
/// that exists on neither side was not found.
pub open spec fn diff_sides_spec(before: Option<Seq<char>>, after: Option<Seq<char>>) -> Result<
    (Seq<char>, Seq<char>),
    GitErrorView,
> {
    match (before, after) {
        (None, None) => Err(GitErrorView::BackendFailure("File not found in commit"@)),
        (Some(old), None) => Ok((old, Seq::empty())),
        (None, Some(new)) => Ok((Seq::empty(), new)),
        (Some(old), Some(new)) => Ok((old, new)),
    }
}

/// The two sides of the change that a commit made to a file.
pub fn diff_sides(before: Option<String>, after: Option<String>) -> (sides: Result<
    (String, String),
    GitError,
>)
    ensures
        match diff_sides_spec(crate::backend::option_text(before), crate::backend::option_text(after)) {
            Ok(view) => sides matches Ok(pair) && pair.0@ == view.0 && pair.1@ == view.1,
            Err(view) => sides matches Err(failure) && failure@ == view,
        },
{
    match (before, after) {
        (None, None) => Err(GitError::BackendFailure(String::from_str("File not found in commit"))),
        (Some(old), None) => Ok((old, String::new())),
        (None, Some(new)) => Ok((String::new(), new)),
        (Some(old), Some(new)) => Ok((old, new)),
    }
}

/// The arguments with which `npx` writes the documentation of a project to
/// `docs_path`: those of `typedoc` for a TypeScript project, and those of
/// `jsdoc` for any other.
pub open spec fn docs_command_spec(typescript: bool, docs_path: Seq<char>) -> Seq<Seq<char>> {
    if typescript {
        seq!["typedoc"@, "--entryPointStrategy"@, "Expand"@, "src"@, "--out"@, docs_path]
    } else {
        seq!["jsdoc"@, "-r"@, "src"@, "-d"@, docs_path]
    }
}

/// The arguments with which `npx` writes the documentation of a project to
/// `docs_path`.
pub fn docs_command(typescript: bool, docs_path: &str) -> (arguments: Vec<String>)
    ensures
        texts(arguments@) == docs_command_spec(typescript, docs_path@),
{
    let mut arguments: Vec<String> = Vec::new();
    if typescript {
        arguments.push(String::from_str("typedoc"));
        arguments.push(String::from_str("--entryPointStrategy"));
        arguments.push(String::from_str("Expand"));
        arguments.push(String::from_str("src"));
        arguments.push(String::from_str("--out"));
    } else {
        arguments.push(String::from_str("jsdoc"));
        arguments.push(String::from_str("-r"));
        arguments.push(String::from_str("src"));
        arguments.push(String::from_str("-d"));
    }
    arguments.push(String::from_str(docs_path));
    proof {
        assert(texts(arguments@) =~= docs_command_spec(typescript, docs_path@));
    }
    arguments
}


/// Whether `c` is a hexadecimal digit, in either case.
pub open spec fn is_hex_char(c: char) -> bool {
    let n = c as u32;
    ||| 0x30 <= n <= 0x39
    ||| 0x41 <= n <= 0x46
    ||| 0x61 <= n <= 0x66
}

/// Whether `text` can be the identifier of a commit, whole or shortened:
/// one to forty hexadecimal digits.
pub open spec fn is_commit_id(text: Seq<char>) -> bool {
    &&& 1 <= text.len() <= 40
    &&& forall|i: int| 0 <= i < text.len() ==> is_hex_char(#[trigger] text[i])
}

/// The number that the hexadecimal digit `c` stands for.
pub open spec fn hex_value(c: char) -> int {
    let n = c as u32 as int;
    if 0x30 <= n <= 0x39 {
        n - 0x30
    } else if 0x41 <= n <= 0x46 {
        n - 0x41 + 10
    } else {
        n - 0x61 + 10
    }
}

/// The number that digit `i` of `text` stands for, and zero where `text`
/// has no such digit.
pub open spec fn hex_digit(text: Seq<char>, i: int) -> int {
    if 0 <= i < text.len() {
        hex_value(text[i])
    } else {
        0
    }
}

/// How many bytes an identifier has.
pub const ID_BYTES: usize = 20;

/// The identifier that the hexadecimal digits `text` write: twenty bytes,
/// two digits to a byte and the first of the two counting sixteenfold. A
/// text of fewer than forty digits is a shortened identifier and stands for
/// the one that goes on with zeros.
pub open spec fn id_bytes(text: Seq<char>) -> Seq<u8> {
    Seq::new(
        ID_BYTES as nat,
        |i: int| (16 * hex_digit(text, 2 * i) + hex_digit(text, 2 * i + 1)) as u8,
    )
}

/// What `git2` says of a `text` that writes no object identifier. It
/// depends on the text alone; what it is for a given text is not said here.
pub uninterp spec fn oid_complaint(text: Seq<char>) -> Seq<char>;

/// `Oid::from_str`, with `Oid::as_bytes` on what it gives and the failure
/// in its own words: the bytes of the object identifier that `text` writes.
/// There is one exactly where `text` is one to forty hexadecimal digits, and
/// its bytes are those that the digits write, with zeros for the digits that
/// a shortened one lacks. Of the words of a failure no more is claimed than
/// that the same text gives the same words.
#[verifier::external_body]
fn oid_from_str(text: &str) -> (parsed: Result<Vec<u8>, String>)
    ensures
        parsed is Ok <==> is_commit_id(text@),
        parsed matches Ok(bytes) ==> bytes@ == id_bytes(text@),
        parsed matches Err(words) ==> words@ == oid_complaint(text@),
{
    match git2::Oid::from_str(text) {
        Ok(id) => Ok(id.as_bytes().to_vec()),
        Err(failure) => Err(failure.to_string()),
    }
}

/// The failure for a `text` that writes no object identifier, given what
/// was said of it.
pub fn bad_commit_id(words: String) -> (failure: GitError)
    ensures
        failure@ == GitErrorView::InvalidIdentifier(words@),
{
    GitError::InvalidIdentifier(words)
}

/// The bytes of the object identifier that the caller's `text` writes. A
/// text that writes none is a failure that says why, in the words of
/// `git2`.
pub fn parse_commit_id(text: &str) -> (parsed: Result<Vec<u8>, GitError>)
    ensures
        match parsed {
            Ok(bytes) => is_commit_id(text@) && bytes@ == id_bytes(text@),
            Err(failure) => !is_commit_id(text@) && failure@ == GitErrorView::InvalidIdentifier(
                oid_complaint(text@),
            ),
        },
{
    match oid_from_str(text) {
        Ok(bytes) => Ok(bytes),
        Err(words) => Err(bad_commit_id(words)),
    }
}

/// The word that shows the kind of change that `git` marks with `letter`.
pub open spec fn letter_label(letter: Seq<char>) -> Option<Seq<char>> {
    if letter == seq!['A'] {
        Some("Added"@)
    } else if letter == seq!['M'] {
        Some("Modified"@)
    } else if letter == seq!['D'] {
        Some("Deleted"@)
    } else if letter == seq!['R'] {
        Some("Renamed"@)
    } else if letter == seq!['C'] {
        Some("Copied"@)
    } else if letter == seq!['T'] {
        Some("Type Changed"@)
    } else if letter == seq!['U'] {
        Some("Unmerged"@)
    } else {
        None
    }
}

/// The change that a line of the list of changed files reports: its first
/// word marks the kind of change, its second is the file. A line with
/// another first word, or with one word only, reports none.
pub open spec fn change_of_line(line: Seq<char>) -> Option<ChangeView> {
    let parts = words_of(line);
    if parts.len() >= 2 {
        match letter_label(parts[0]) {
            Some(status) => Some(ChangeView { status, file: parts[1] }),
            None => None,
        }
    } else {
        None
    }
}

/// The changes that `lines` report, in the same order.
pub open spec fn changes_of(lines: Seq<Seq<char>>) -> Seq<ChangeView>
    decreases lines.len(),
{
    if lines.len() == 0 {
        Seq::empty()
    } else {
        let earlier = changes_of(lines.drop_last());
        match change_of_line(lines.last()) {
            Some(change) => earlier.push(change),
            None => earlier,
        }
    }
}

/// `lines` one after the other, each ended with a line feed.
pub open spec fn joined_lines(lines: Seq<Seq<char>>) -> Seq<char>
    decreases lines.len(),
{
    if lines.len() == 0 {
        Seq::empty()
    } else {
        joined_lines(lines.drop_last()) + lines.last() + seq!['\n']
    }
}

/// The position of the first empty line of `lines` at or after `from`, or
/// the number of lines where there is none.
pub open spec fn first_empty(lines: Seq<Seq<char>>, from: int) -> int
    decreases lines.len() - from,
{
    if from < 0 || from >= lines.len() || lines[from].len() == 0 {
        from
    } else {
        first_empty(lines, from + 1)
    }
}

/// What `str::parse` says of a `text` that writes no `i64`. It depends on
/// the text alone; what it is for a given text is not said here.
pub uninterp spec fn int_complaint(text: Seq<char>) -> Seq<char>;

/// `str::parse` to an `i64`, asked only for the words of its failure: why
/// `text` writes no integer, and the empty text where it writes one. No more
/// is claimed than that the same text gives the same words; whether a text
/// writes an integer, and which, is decided by `parse_i64`.
#[verifier::external_body]
fn why_no_integer(text: &str) -> (words: String)
    ensures
        words@ == int_complaint(text@),
{
    match text.parse::<i64>() {
        Ok(_) => String::new(),
        Err(failure) => failure.to_string(),
    }
}

/// The failure for a third line that is no time, given what was said of
/// it.
pub fn bad_date(words: &str) -> (failure: GitError)
    ensures
        failure@ == GitErrorView::EncodingFailure("Invalid date: "@ + words@),
{
    GitError::EncodingFailure(String::from_str("Invalid date: ").concat(words))
}

/// What `git show` has printed of one commit: on the first three lines its
/// hash, the name of its author and the author time; then its message, up
/// to the first empty line; then the files it changed, one on each line.
/// Output with fewer than three lines, or with a third line that is no time,
/// cannot be read, and the failure says what is missing.
pub open spec fn details_spec(output: Seq<char>) -> Result<DetailedView, GitErrorView> {
    let lines = lines_of(output);
    if lines.len() == 0 {
        Err(GitErrorView::EncodingFailure("Missing commit hash"@))
    } else if lines.len() == 1 {
        Err(GitErrorView::EncodingFailure("Missing author"@))
    } else if lines.len() == 2 {
        Err(GitErrorView::EncodingFailure("Missing date"@))
    } else {
        match i64_of_text(lines[2]) {
            None => Err(
                GitErrorView::EncodingFailure("Invalid date: "@ + int_complaint(lines[2])),
            ),
            Some(date) => {
                let stop = first_empty(lines, 3);
                Ok(
                    DetailedView {
                        id: lines[0],
                        message: joined_lines(lines.subrange(3, stop)),
                        author: lines[1],
                        date: date as int,
                        changes: if stop < lines.len() {
                            changes_of(lines.subrange(stop + 1, lines.len() as int))
                        } else {
                            Seq::empty()
                        },
                    },
                )
            },
        }
    }
}

/// The format in which one commit is asked for: its hash, the name of its
/// author, the author time and the message, each on lines of its own.
pub open spec fn show_format() -> Seq<char> {
    "--format=%H%n%an%n%at%n%B"@
}

/// The arguments that make `git` print the commit `commit_id` of the
/// repository at `root`, with the files it changed.
pub open spec fn show_arguments_spec(root: Seq<char>, commit_id: Seq<char>) -> Seq<Seq<char>> {
    seq!["-C"@, root, "show"@, show_format(), "--name-status"@, commit_id]
}

/// The arguments that make `git` print the commit `commit_id` of the
/// repository at `root`, with the files it changed.
pub fn show_arguments(root: &str, commit_id: &str) -> (arguments: Vec<String>)
    ensures
        texts(arguments@) == show_arguments_spec(root@, commit_id@),
{
    let mut arguments: Vec<String> = Vec::new();
    arguments.push(String::from_str("-C"));
    arguments.push(String::from_str(root));
    arguments.push(String::from_str("show"));
    arguments.push(String::from_str("--format=%H%n%an%n%at%n%B"));
    arguments.push(String::from_str("--name-status"));
    arguments.push(String::from_str(commit_id));
    proof {
        assert(texts(arguments@) =~= show_arguments_spec(root@, commit_id@));
    }
    arguments
}

/// What names the attempt to print a commit, where `git` did not start.
pub open spec fn show_launch() -> Seq<char> {
    "Failed to get commit: "@
}

/// The commit that a run of `git show` has printed, or why there is none.
pub open spec fn shown_commit(outcome: Result<CommandOutput, String>) -> Result<
    DetailedView,
    GitErrorView,
> {
    match output_text(outcome, show_launch(), true) {
        Ok(text) => details_spec(text),
        Err(failure) => Err(failure),
    }
}

/// The commit that a run of `git show` has printed, or why there is none.
pub fn read_commit_details(outcome: &Result<CommandOutput, String>) -> (details: Result<
    DetailedCommit,
    GitError,
>)
    ensures
        match shown_commit(*outcome) {
            Ok(view) => details matches Ok(commit) && commit@ == view,
            Err(view) => details matches Err(failure) && failure@ == view,
        },
{
    match read_output(outcome, "Failed to get commit: ", true) {
        Ok(text) => parse_commit_details(text.as_str()),
        Err(failure) => Err(failure),
    }
}

/// Adds `line` and the line feed that ends it to `message`.
fn push_line(message: &mut String, line: &[char])
    ensures
        final(message)@ == old(message)@ + line@ + seq!['\n'],
{
    let text = text_of(line);
    message.append(text.as_str());
    message.append("\n");
    proof {
        reveal_strlit("\n");
        assert("\n"@ =~= seq!['\n']);
    }
}

/// The word that shows the kind of change that `git` marks with `letter`.
fn label_of(letter: &[char]) -> (label: Option<String>)
    ensures
        crate::backend::option_text(label) == letter_label(letter@),
{
    if letter.len() != 1 {
        proof {
            assert(letter_label(letter@) is None);
        }
        return None;
    }
    let c = letter[0];
    proof {
        assert(letter@ =~= seq![c]);
        assert forall|d: char| seq![c] == seq![d] implies c == d by {
            assert(seq![c][0] == seq![d][0]);
        }
    }
    if c == 'A' {
        Some(String::from_str("Added"))
    } else if c == 'M' {
        Some(String::from_str("Modified"))
    } else if c == 'D' {
        Some(String::from_str("Deleted"))
    } else if c == 'R' {
        Some(String::from_str("Renamed"))
    } else if c == 'C' {
        Some(String::from_str("Copied"))
    } else if c == 'T' {
        Some(String::from_str("Type Changed"))
    } else if c == 'U' {
        Some(String::from_str("Unmerged"))
    } else {
        None
    }
}

/// The change that a line of the list of changed files reports.
fn read_change(line: &[char]) -> (change: Option<GitChange>)
    ensures
        match change_of_line(line@) {
            Some(view) => change matches Some(read) && read@ == view,
            None => change is None,
        },
{
    let parts = words(line);
    if parts.len() < 2 {
        return None;
    }
    match label_of(parts[0]) {
        Some(status) => Some(GitChange { status, file: text_of(parts[1]) }),
        None => None,
    }
}

/// Reads what `git show` has printed of one commit.
pub fn parse_commit_details(output: &str) -> (details: Result<DetailedCommit, GitError>)
    ensures
        match details_spec(output@) {
            Ok(view) => details matches Ok(commit) && commit@ == view,
            Err(view) => details matches Err(failure) && failure@ == view,
        },
{
    let chars = chars_of(output);
    let rows = lines(chars.as_slice());
    let ghost all = lines_of(output@);
    if rows.len() == 0 {
        return Err(GitError::EncodingFailure(String::from_str("Missing commit hash")));
    }
    if rows.len() == 1 {
        return Err(GitError::EncodingFailure(String::from_str("Missing author")));
    }
    if rows.len() == 2 {
        return Err(GitError::EncodingFailure(String::from_str("Missing date")));
    }
    let date = match parse_i64(rows[2]) {
        Some(date) => date,
        None => {
            let words = why_no_integer(text_of(rows[2]).as_str());
            return Err(bad_date(words.as_str()));
        },
    };
    let mut message = String::new();
    let mut i: usize = 3;
    proof {
        assert(all.subrange(3, 3) =~= Seq::<Seq<char>>::empty());
    }
    while i < rows.len() && rows[i].len() > 0
        invariant
            3 <= i <= rows@.len(),
            rows@.len() == all.len(),
            forall|j: int| 0 <= j < rows@.len() ==> (#[trigger] rows@[j])@ == all[j],
            first_empty(all, 3) == first_empty(all, i as int),
            message@ == joined_lines(all.subrange(3, i as int)),
        decreases rows@.len() - i,
    {
        proof {
            assert(all.subrange(3, i + 1).drop_last() =~= all.subrange(3, i as int));
            assert(all.subrange(3, i + 1).last() == all[i as int]);
        }
        push_line(&mut message, rows[i]);
        i += 1;
    }
    let ghost stop = i as int;
    let mut changes: Vec<GitChange> = Vec::new();
    if i < rows.len() {
        i += 1;
        proof {
            assert(all.subrange(stop + 1, stop + 1) =~= Seq::<Seq<char>>::empty());
            assert(change_views(changes@) =~= Seq::<ChangeView>::empty());
        }
        while i < rows.len()
            invariant
                3 <= stop < i <= rows@.len(),
                rows@.len() == all.len(),
                forall|j: int| 0 <= j < rows@.len() ==> (#[trigger] rows@[j])@ == all[j],
                change_views(changes@) == changes_of(all.subrange(stop + 1, i as int)),
            decreases rows@.len() - i,
        {
            proof {
                assert(all.subrange(stop + 1, i + 1).drop_last() =~= all.subrange(
                    stop + 1,
                    i as int,
                ));
                assert(all.subrange(stop + 1, i + 1).last() == all[i as int]);
            }
            match read_change(rows[i]) {
                Some(change) => {
                    proof {
                        assert(change_views(changes@.push(change)) =~= change_views(
                            changes@,
                        ).push(change@));
                    }
                    changes.push(change);
                },
                None => {},
            }
            i += 1;
        }
    } else {
        proof {
            assert(change_views(changes@) =~= Seq::<ChangeView>::empty());
        }
    }
    Ok(
        DetailedCommit {
            id: text_of(rows[0]),
            message,
            author: text_of(rows[1]),
            date,
            changes,
        },
    )
}

} // verus!
