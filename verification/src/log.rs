//! Decoding the history that `git log` prints.
//!
//! The log is asked for in a format of the crate's own: for each commit
//! its hash, its author's name, the author time and the message, each
//! followed by a NUL, and after the last of them the word `<COMMIT>`. A
//! NUL cannot occur in what Git stores for a commit, so neither a field nor
//! a record can end early.
use vstd::prelude::*;
use vstd::slice::slice_subrange;
use crate::commit::{commit_views, BasicCommit, CommitView};
use vstd::string::StringExecFns;
use crate::error::{GitError, GitErrorView};
use crate::text::{
    chars_of, fields, find, i64_of_text, is_blank, lemma_find_from, lemma_trimmed_blank,
    parse_i64, split_fields, split_from, split_on, text_of, trim, trimmed,
};

verus! {

/// What ends a record: a NUL and the word `<COMMIT>`.
pub open spec fn record_separator() -> Seq<char> {
    seq!['\0', '<', 'C', 'O', 'M', 'M', 'I', 'T', '>']
}

/// What is said of a log with a record whose author time cannot be read.
pub open spec fn bad_time() -> Seq<char> {
    "Invalid date in the log"@
}

/// What one block of the output, the text between two separators, holds.
pub ghost enum BlockReading {
    /// No record: the block is blank or its first field is empty.
    Skipped,
    /// The record of one commit.
    Record(CommitView),
    /// A record whose third field is no author time.
    Malformed,
}

/// Field `i` of `fields`, or the empty text where there is no such field.
pub open spec fn field_at(fields: Seq<Seq<char>>, i: int) -> Seq<char> {
    if 0 <= i < fields.len() {
        fields[i]
    } else {
        Seq::empty()
    }
}

/// Reads one block. Its fields are the hash, the author, the author time
/// and the message, cut at the first three NULs and each taken without the
/// white space around it. A block that is blank, as the line break after the
/// last separator is, or whose hash field is empty holds no record.
pub open spec fn read_block(block: Seq<char>) -> BlockReading {
    let fields = split_fields(block, '\0', 4);
    if is_blank(block) || field_at(fields, 0).len() == 0 {
        BlockReading::Skipped
    } else {
        match i64_of_text(trimmed(field_at(fields, 2))) {
            Some(date) => BlockReading::Record(
                CommitView {
                    id: trimmed(field_at(fields, 0)),
                    message: trimmed(field_at(fields, 3)),
                    author: trimmed(field_at(fields, 1)),
                    date: date as int,
                },
            ),
            None => BlockReading::Malformed,
        }
    }
}

/// The commits that `blocks` hold, in their order; nothing where one of the
/// blocks is malformed.
pub open spec fn read_blocks(blocks: Seq<Seq<char>>) -> Option<Seq<CommitView>>
    decreases blocks.len(),
{
    if blocks.len() == 0 {
        Some(Seq::empty())
    } else {
        match (read_blocks(blocks.drop_last()), read_block(blocks.last())) {
            (Some(earlier), BlockReading::Skipped) => Some(earlier),
            (Some(earlier), BlockReading::Record(commit)) => Some(earlier.push(commit)),
            _ => None,
        }
    }
}

/// The commits that the output of `git log` lists, newest first as Git
/// printed them; nothing where a record is malformed.
pub open spec fn parse_log_spec(output: Seq<char>) -> Option<Seq<CommitView>> {
    read_blocks(split_on(output, record_separator()))
}

/// Once some blocks cannot be read, no blocks after them mend that.
pub proof fn lemma_read_blocks_stays_unreadable(blocks: Seq<Seq<char>>, more: Seq<Seq<char>>)
    requires
        read_blocks(blocks) is None,
    ensures
        read_blocks(blocks + more) is None,
    decreases more.len(),
{
    if more.len() == 0 {
        assert(blocks + more =~= blocks);
    } else {
        assert((blocks + more).drop_last() =~= blocks + more.drop_last());
        lemma_read_blocks_stays_unreadable(blocks, more.drop_last());
    }
}

/// The blocks can be read exactly when none of them is malformed.
pub proof fn lemma_read_blocks_unreadable(blocks: Seq<Seq<char>>)
    ensures
        read_blocks(blocks) is None <==> exists|i: int|
            0 <= i < blocks.len() && read_block(#[trigger] blocks[i]) is Malformed,
    decreases blocks.len(),
{
    if blocks.len() > 0 {
        let earlier = blocks.drop_last();
        lemma_read_blocks_unreadable(earlier);
        if read_blocks(earlier) is None {
            let i = choose|i: int|
                0 <= i < earlier.len() && read_block(#[trigger] earlier[i]) is Malformed;
            assert(blocks[i] == earlier[i]);
        } else if read_block(blocks.last()) is Malformed {
            assert(read_block(blocks[blocks.len() - 1]) is Malformed);
        } else {
            assert forall|i: int| 0 <= i < blocks.len() implies !(read_block(
                #[trigger] blocks[i],
            ) is Malformed) by {
                if i < earlier.len() {
                    assert(blocks[i] == earlier[i]);
                }
            }
        }
    }
}

/// Field `i` of the fields `parts` of `block`, or the empty text where there
/// is no such field.
fn field<'a>(block: &'a [char], parts: &Vec<&'a [char]>, i: usize) -> (part: &'a [char])
    ensures
        part@ == if i < parts@.len() {
            parts@[i as int]@
        } else {
            Seq::<char>::empty()
        },
{
    if i < parts.len() {
        parts[i]
    } else {
        slice_subrange(block, 0, 0)
    }
}

/// Reads one block of the output: the commit it records, nothing where it
/// records none, or the failure where its author time cannot be read.
pub fn parse_block(block: &[char]) -> (read: Result<Option<BasicCommit>, GitError>)
    ensures
        match read_block(block@) {
            BlockReading::Skipped => read matches Ok(None),
            BlockReading::Record(view) => read matches Ok(Some(commit)) && commit@ == view,
            BlockReading::Malformed => read matches Err(failure) && failure@
                == GitErrorView::EncodingFailure(bad_time()),
        },
{
    let parts = fields(block, '\0', 4);
    let id_field = field(block, &parts, 0);
    proof {
        lemma_trimmed_blank(block@);
    }
    if trim(block).len() == 0 || id_field.len() == 0 {
        return Ok(None);
    }
    let date_text = trim(field(block, &parts, 2));
    match parse_i64(date_text) {
        Some(date) => Ok(
            Some(
                BasicCommit {
                    id: text_of(trim(id_field)),
                    message: text_of(trim(field(block, &parts, 3))),
                    author: text_of(trim(field(block, &parts, 1))),
                    date,
                },
            ),
        ),
        None => Err(GitError::EncodingFailure(String::from_str("Invalid date in the log"))),
    }
}

/// The record separator, character by character.
fn separator() -> (chars: Vec<char>)
    ensures
        chars@ == record_separator(),
{
    let mut chars: Vec<char> = Vec::new();
    chars.push('\0');
    chars.push('<');
    chars.push('C');
    chars.push('O');
    chars.push('M');
    chars.push('M');
    chars.push('I');
    chars.push('T');
    chars.push('>');
    proof {
        assert(chars@ =~= record_separator());
    }
    chars
}

/// Decodes the output of `git log`: the commits it lists, in the order in
/// which Git printed them. A record whose author time cannot be read makes
/// the whole output unreadable; it is not passed over.
pub fn parse_git_log_output(output: &str) -> (parsed: Result<Vec<BasicCommit>, GitError>)
    ensures
        match parse_log_spec(output@) {
            Some(views) => parsed matches Ok(commits) && commit_views(commits@) == views,
            None => parsed matches Err(failure) && failure@ == GitErrorView::EncodingFailure(
                bad_time(),
            ),
        },
{
    let chars = chars_of(output);
    let text = chars.as_slice();
    let mark = separator();
    let mut commits: Vec<BasicCommit> = Vec::new();
    let ghost mut done: Seq<Seq<char>> = Seq::empty();
    let mut from: usize = 0;
    proof {
        assert(commit_views(commits@) =~= Seq::<CommitView>::empty());
        assert(done + split_from(text@, mark@, 0) =~= split_on(text@, mark@));
    }
    loop
        invariant
            text@ == output@,
            mark@ == record_separator(),
            from <= text.len(),
            split_on(text@, mark@) == done + split_from(text@, mark@, from as int),
            read_blocks(done) == Some(commit_views(commits@)),
        decreases text.len() - from,
    {
        let found = find(text, mark.as_slice(), from);
        proof {
            lemma_find_from(text@, mark@, from as int);
        }
        let end: usize = match found {
            Some(at) => at,
            None => text.len(),
        };
        let block = slice_subrange(text, from, end);
        let ghost rest = match found {
            Some(at) => split_from(text@, mark@, at + mark@.len()),
            None => Seq::<Seq<char>>::empty(),
        };
        proof {
            assert(split_from(text@, mark@, from as int) =~= seq![block@] + rest);
            assert(done + (seq![block@] + rest) =~= done.push(block@) + rest);
            assert(done.push(block@).drop_last() =~= done);
        }
        match parse_block(block) {
            Err(failure) => {
                proof {
                    lemma_read_blocks_stays_unreadable(done.push(block@), rest);
                }
                return Err(failure);
            },
            Ok(Some(commit)) => {
                proof {
                    assert(commit_views(commits@.push(commit)) =~= commit_views(commits@).push(
                        commit@,
                    ));
                }
                commits.push(commit);
            },
            Ok(None) => {},
        }
        proof {
            done = done.push(block@);
        }
        match found {
            Some(at) => {
                from = at + mark.len();
            },
            None => {
                proof {
                    assert(done + rest =~= done);
                }
                return Ok(commits);
            },
        }
    }
}

} // verus!
