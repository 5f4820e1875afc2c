use git_history::details::{
    change_label, changes_under, diff_sides, docs_command, parse_commit_details, parse_commit_id,
    ChangeKind, DetailedCommit, FileDelta, GitChange,
};
use git_history::GitError;

fn text(s: &str) -> String {
    s.to_string()
}

fn change(status: &str, file: &str) -> GitChange {
    GitChange { status: text(status), file: text(file) }
}

#[test]
fn every_failure_describes_itself() {
    assert_eq!(GitError::RepositoryNotFound.message(), "Could not find Git repository");
    assert_eq!(
        GitError::ReferenceNotFound(text("origin/gone")).message(),
        "Could not resolve reference: origin/gone"
    );
    assert_eq!(GitError::InvalidIdentifier(text("xyz")).message(), "Invalid commit ID: xyz");
    assert_eq!(GitError::BackendFailure(text("fatal: boom")).message(), "fatal: boom");
    assert_eq!(GitError::EncodingFailure(text("Missing date")).message(), "Missing date");
}

#[test]
fn hexadecimal_identifiers_are_accepted() {
    for id in [
        "a",
        "0",
        "abc123",
        "ABCDEF",
        "0123456789abcdefABCDEF",
        "da39a3ee5e6b4b0d3255bfef95601890afd80709",
    ] {
        let parsed = parse_commit_id(id);
        assert_eq!(parsed, Ok(git2::Oid::from_str(id).unwrap().as_bytes().to_vec()), "{}", id);
    }
}

#[test]
fn an_identifier_is_the_bytes_that_its_digits_write() {
    assert_eq!(
        parse_commit_id("DA39A3EE5E6B4B0D3255BFEF95601890AFD80709"),
        Ok(vec![
            0xda, 0x39, 0xa3, 0xee, 0x5e, 0x6b, 0x4b, 0x0d, 0x32, 0x55, 0xbf, 0xef, 0x95, 0x60,
            0x18, 0x90, 0xaf, 0xd8, 0x07, 0x09
        ])
    );
    assert_eq!(
        parse_commit_id("da39a3ee5e6b4b0d3255bfef95601890afd80709"),
        parse_commit_id("DA39A3EE5E6B4B0D3255BFEF95601890AFD80709")
    );
    let mut shortened = vec![0u8; 20];
    shortened[0] = 0xab;
    shortened[1] = 0xc0;
    assert_eq!(parse_commit_id("abc"), Ok(shortened));
    let mut one = vec![0u8; 20];
    one[0] = 0x70;
    assert_eq!(parse_commit_id("7"), Ok(one));
    let bytes = parse_commit_id("0123456789abcdefABCDEF").unwrap();
    assert_eq!(
        git2::Oid::from_bytes(&bytes).unwrap().to_string(),
        "0123456789abcdefabcdef000000000000000000"
    );
}

#[test]
fn other_identifiers_are_refused_in_the_words_of_git2() {
    let refuse = |id: &str, words: &str| {
        assert_eq!(parse_commit_id(id), Err(GitError::InvalidIdentifier(text(words))), "{:?}", id);
        assert_eq!(
            parse_commit_id(id).unwrap_err().message(),
            format!("Invalid commit ID: {}", git2::Oid::from_str(id).unwrap_err())
        );
    };
    refuse("", "unable to parse OID - too short; class=Invalid (3)");
    refuse("g", "unable to parse OID - contains invalid characters; class=Invalid (3)");
    refuse("abc xyz", "unable to parse OID - contains invalid characters; class=Invalid (3)");
    refuse(" abc", "unable to parse OID - contains invalid characters; class=Invalid (3)");
    refuse("abc\n", "unable to parse OID - contains invalid characters; class=Invalid (3)");
    refuse("0x12", "unable to parse OID - contains invalid characters; class=Invalid (3)");
    refuse(
        "da39a3ee5e6b4b0d3255bfef95601890afd807090",
        "unable to parse OID - too long; class=Invalid (3)",
    );
    refuse("caf\u{e9}", "unable to parse OID - contains invalid characters; class=Invalid (3)");
}

#[test]
fn kinds_of_change_have_their_words() {
    let words = [
        (ChangeKind::Added, "Added"),
        (ChangeKind::Deleted, "Deleted"),
        (ChangeKind::Modified, "Modified"),
        (ChangeKind::Renamed, "Renamed"),
        (ChangeKind::Copied, "Copied"),
        (ChangeKind::Ignored, "Ignored"),
        (ChangeKind::Untracked, "Untracked"),
        (ChangeKind::Typechange, "Type Changed"),
        (ChangeKind::Unmodified, "Unmodified"),
        (ChangeKind::Unreadable, "Unreadable"),
        (ChangeKind::Conflicted, "Conflicted"),
    ];
    for (kind, word) in words {
        assert_eq!(change_label(kind), word);
    }
}

#[test]
fn changes_are_kept_by_the_beginning_of_their_path() {
    let deltas = vec![
        FileDelta { kind: ChangeKind::Modified, file: text("src/app.ts") },
        FileDelta { kind: ChangeKind::Added, file: text("docs/readme.md") },
        FileDelta { kind: ChangeKind::Deleted, file: text("src/old/util.ts") },
        FileDelta { kind: ChangeKind::Renamed, file: text("srcx/other.ts") },
        FileDelta { kind: ChangeKind::Typechange, file: text("sr") },
    ];
    assert_eq!(
        changes_under(&deltas, "src/"),
        vec![change("Modified", "src/app.ts"), change("Deleted", "src/old/util.ts")]
    );
    assert_eq!(
        changes_under(&deltas, "src"),
        vec![
            change("Modified", "src/app.ts"),
            change("Deleted", "src/old/util.ts"),
            change("Renamed", "srcx/other.ts"),
        ]
    );
    assert_eq!(changes_under(&deltas, "").len(), 5);
    assert_eq!(changes_under(&deltas, "lib"), vec![]);
    assert_eq!(changes_under(&vec![], "src"), vec![]);
}

#[test]
fn the_sides_of_a_change() {
    assert_eq!(diff_sides(Some(text("old")), Some(text("new"))), Ok((text("old"), text("new"))));
    assert_eq!(diff_sides(None, Some(text("new"))), Ok((text(""), text("new"))));
    assert_eq!(diff_sides(Some(text("old")), None), Ok((text("old"), text(""))));
    assert_eq!(
        diff_sides(None, None),
        Err(GitError::BackendFailure(text("File not found in commit")))
    );
}

#[test]
fn documentation_is_written_by_typedoc_or_jsdoc() {
    assert_eq!(
        docs_command(true, "/home/me/mr-manager/app"),
        vec!["typedoc", "--entryPointStrategy", "Expand", "src", "--out", "/home/me/mr-manager/app"]
    );
    assert_eq!(docs_command(false, "/docs"), vec!["jsdoc", "-r", "src", "-d", "/docs"]);
}

#[test]
fn a_commit_is_read_with_its_changes() {
    let output = "abc123\nAda Lovelace\n1700000000\nFix the parser\n\nA\tsrc/new.rs\nM\tsrc/lib.rs\nD\told.rs\nR100\ta.rs\tb.rs\nR\tc.rs\td.rs\nC\te.rs\nT\tf.rs\nU\tg.rs\nX\th.rs\nM\n\nM  spaced.rs  \n";
    assert_eq!(
        parse_commit_details(output),
        Ok(DetailedCommit {
            id: text("abc123"),
            message: text("Fix the parser\n"),
            author: text("Ada Lovelace"),
            date: 1700000000,
            changes: vec![
                change("Added", "src/new.rs"),
                change("Modified", "src/lib.rs"),
                change("Deleted", "old.rs"),
                change("Renamed", "c.rs"),
                change("Copied", "e.rs"),
                change("Type Changed", "f.rs"),
                change("Unmerged", "g.rs"),
                change("Modified", "spaced.rs"),
            ],
        })
    );
}

#[test]
fn the_message_ends_at_the_first_empty_line() {
    let output = "id\nme\n5\nline one\nline two\n\nM\tfile\n";
    let read = parse_commit_details(output).unwrap();
    assert_eq!(read.message, "line one\nline two\n");
    assert_eq!(read.changes, vec![change("Modified", "file")]);
    let no_changes = parse_commit_details("id\nme\n5\nonly message").unwrap();
    assert_eq!(no_changes.message, "only message\n");
    assert_eq!(no_changes.changes, vec![]);
    let nothing_more = parse_commit_details("id\nme\n-5").unwrap();
    assert_eq!(nothing_more.message, "");
    assert_eq!(nothing_more.date, -5);
    let empty_message = parse_commit_details("id\nme\n5\n\nA x\n").unwrap();
    assert_eq!(empty_message.message, "");
    assert_eq!(empty_message.changes, vec![change("Added", "x")]);
}

#[test]
fn a_commit_without_its_three_lines_cannot_be_read() {
    assert_eq!(
        parse_commit_details(""),
        Err(GitError::EncodingFailure(text("Missing commit hash")))
    );
    assert_eq!(parse_commit_details("id\n"), Err(GitError::EncodingFailure(text("Missing author"))));
    assert_eq!(parse_commit_details("id\nme\n"), Err(GitError::EncodingFailure(text("Missing date"))));
    assert_eq!(
        parse_commit_details("id\nme\nnow\nmsg\n"),
        Err(GitError::EncodingFailure(text("Invalid date: invalid digit found in string")))
    );
    assert_eq!(
        parse_commit_details("id\nme\n 5\nmsg\n"),
        Err(GitError::EncodingFailure(text("Invalid date: invalid digit found in string")))
    );
    assert_eq!(
        parse_commit_details("id\nme\n\nmsg\n"),
        Err(GitError::EncodingFailure(text("Invalid date: cannot parse integer from empty string")))
    );
    assert_eq!(
        parse_commit_details("id\nme\n9223372036854775808\nmsg\n"),
        Err(GitError::EncodingFailure(text(
            "Invalid date: number too large to fit in target type"
        )))
    );
}

#[test]
fn lines_may_end_with_a_carriage_return() {
    let read = parse_commit_details("id\r\nme\r\n5\r\nmsg\r\n\r\nM\tf\r\n").unwrap();
    assert_eq!(read.id, "id");
    assert_eq!(read.author, "me");
    assert_eq!(read.date, 5);
    assert_eq!(read.message, "msg\n");
    assert_eq!(read.changes, vec![change("Modified", "f")]);
}
