//! What the git tools run, and what they read out of git's output.

use crate::mcp::error::{ErrorKind, ToolError};
use crate::mcp::exchange::{ExecReply, Next, Request, RequestView};
use crate::mcp::git_tools::{
    any_token_at, branch_in, change, conflicted_in, counter, counter_in, git_url_problem,
    has_scp_form, is_alnum, is_shell_char, law_redaction_leaves_no_credentials, line_kind,
    modified_in, parse_git_porcelain_v2, push_advice, redact_credentials, redacted, staged_in,
    token_at, untracked_in, validate_git_url, Change, CloneStage, CommitStage, CommitView,
    DiffStage, GitCloneOutcome, GitCloneParams, GitCommitOutcome, GitCommitParams, GitDiffOutcome,
    GitDiffParams, GitPushOutcome, GitPushParams, GitStatusInfo, GitStatusOutcome, GitStatusParams,
    LineKind, PushStage,
};
use crate::mcp::tools::quote;
use crate::number::{
    decimal, int_or_zero, is_digit, law_decimal_round_trip, lemma_decimal, signed,
};
use crate::text::{
    byte_size, contains_text, cut, find_char, is_space, lemma_cut, lemma_find_char, lines, split,
    split_limited, texts, trim, words,
};
use crate::text_laws::{
    is_word, law_containing_is_standing_somewhere, law_split_at_each_separator,
    law_split_limited_keeps_the_rest, law_words_stand_between_white_space,
};
use vstd::prelude::*;
use vstd::utf8::{encode_utf8, is_ascii_chars, is_ascii_chars_encode_utf8};

verus! {

/// A line of `git status --porcelain=v2 --branch`.
pub enum StatusLine {
    /// The branch that is checked out.
    Head { name: Seq<char> },
    /// How far the branch is from its upstream.
    AheadBehind { ahead: nat, behind: nat },
    /// A changed file, with its code in the index and in the worktree.
    Changed { index: char, worktree: char, fields: Seq<Seq<char>>, path: Seq<char> },
    /// A renamed or copied file, with its new and its old path.
    Renamed {
        index: char,
        worktree: char,
        fields: Seq<Seq<char>>,
        path: Seq<char>,
        from: Seq<char>,
    },
    /// A file with conflicts.
    Conflicted { fields: Seq<Seq<char>>, path: Seq<char> },
    /// A file that git does not track.
    Untracked { path: Seq<char> },
}

/// Fields, each with a blank behind it, and then the rest.
pub open spec fn spaced(fields: Seq<Seq<char>>, rest: Seq<char>) -> Seq<char>
    decreases fields.len(),
{
    if fields.len() == 0 {
        rest
    } else {
        fields[0].push(' ') + spaced(fields.skip(1), rest)
    }
}

/// No field holds a blank.
pub open spec fn are_fields(fields: Seq<Seq<char>>) -> bool {
    forall|i: int| 0 <= i < fields.len() ==> !(#[trigger] fields[i]).contains(' ')
}

/// A status code: a character of one byte that is no blank.
pub open spec fn is_code(c: char) -> bool {
    c as u32 <= 0x7f && c != ' '
}

/// The line is one that git prints.
pub open spec fn is_line(l: StatusLine) -> bool {
    match l {
        StatusLine::Head { .. } => true,
        StatusLine::AheadBehind { ahead, behind } => ahead <= i64::MAX && behind <= i64::MAX,
        StatusLine::Changed { index, worktree, fields, .. } => is_code(index) && is_code(worktree)
            && fields.len() == 6 && are_fields(fields),
        StatusLine::Renamed { index, worktree, fields, path, .. } => is_code(index) && is_code(
            worktree,
        ) && fields.len() == 7 && are_fields(fields) && !path.contains('\t'),
        StatusLine::Conflicted { fields, .. } => fields.len() == 9 && are_fields(fields),
        StatusLine::Untracked { .. } => true,
    }
}

/// The line as git prints it.
pub open spec fn line_text(l: StatusLine) -> Seq<char> {
    match l {
        StatusLine::Head { name } => "# branch.head "@ + name,
        StatusLine::AheadBehind { ahead, behind } => "# branch.ab +"@ + decimal(ahead) + " -"@
            + decimal(behind),
        StatusLine::Changed { index, worktree, fields, path } => spaced(
            seq![seq!['1'], seq![index, worktree]] + fields,
            path,
        ),
        StatusLine::Renamed { index, worktree, fields, path, from } => spaced(
            seq![seq!['2'], seq![index, worktree]] + fields,
            path.push('\t') + from,
        ),
        StatusLine::Conflicted { fields, path } => spaced(seq![seq!['u']] + fields, path),
        StatusLine::Untracked { path } => "? "@ + path,
    }
}

/// Fields are read back.
proof fn lemma_spaced(fields: Seq<Seq<char>>, rest: Seq<char>)
    requires
        are_fields(fields),
    ensures
        split_limited(spaced(fields, rest), fields.len() + 1, ' ') == fields.push(rest),
    decreases fields.len(),
{
    let s = spaced(fields, rest);
    if fields.len() == 0 {
        law_split_limited_keeps_the_rest(seq![], ' ', rest, 2);
        assert(fields.push(rest) =~= seq![rest]);
    } else {
        let others = fields.skip(1);
        assert forall|i: int| 0 <= i < others.len() implies !(#[trigger] others[i]).contains(
            ' ',
        ) by {
            assert(others[i] == fields[i + 1]);
        }
        lemma_spaced(others, rest);
        law_split_limited_keeps_the_rest(fields[0], ' ', spaced(others, rest), fields.len() + 1);
        assert(seq![fields[0]] + others.push(rest) =~= fields.push(rest));
    }
}

/// The first two fields of a line of fields.
proof fn lemma_spaced_start(fields: Seq<Seq<char>>, rest: Seq<char>)
    requires
        fields.len() > 0,
        fields[0].len() == 1,
    ensures
        spaced(fields, rest).len() >= 2,
        spaced(fields, rest)[0] == fields[0][0],
        spaced(fields, rest)[1] == ' ',
{
}

/// A prefix has the same characters.
proof fn lemma_prefix(p: Seq<char>, s: Seq<char>, i: int)
    requires
        0 <= i < p.len(),
    ensures
        p.is_prefix_of(s) ==> s.len() >= p.len() && s[i] == p[i],
{
    if p.is_prefix_of(s) {
        assert(s.subrange(0, p.len() as int)[i] == s[i]);
    }
}

/// What kind of line it is.
#[verifier::rlimit(40)]
proof fn lemma_kind(l: StatusLine)
    ensures
        line_kind(line_text(l)) == match l {
            StatusLine::Head { .. } => LineKind::Head,
            StatusLine::AheadBehind { .. } => LineKind::AheadBehind,
            StatusLine::Changed { .. } => LineKind::Ordinary,
            StatusLine::Renamed { .. } => LineKind::Rename,
            StatusLine::Conflicted { .. } => LineKind::Unmerged,
            StatusLine::Untracked { .. } => LineKind::Untracked,
        },
        l is Head ==> line_text(l).skip(14) == l->name,
        l is Untracked ==> line_text(l).skip(2) == l->Untracked_path,
        l is AheadBehind ==> line_text(l).skip(12) == "+"@ + decimal(l->ahead) + " -"@ + decimal(
            l->behind,
        ),
{
    let s = line_text(l);
    reveal_strlit("# branch.head ");
    reveal_strlit("# branch.ab ");
    reveal_strlit("1 ");
    reveal_strlit("2 ");
    reveal_strlit("u ");
    reveal_strlit("? ");
    lemma_prefix("# branch.head "@, s, 0);
    lemma_prefix("# branch.head "@, s, 9);
    lemma_prefix("# branch.ab "@, s, 0);
    lemma_prefix("1 "@, s, 0);
    lemma_prefix("2 "@, s, 0);
    lemma_prefix("u "@, s, 0);
    lemma_prefix("? "@, s, 0);
    match l {
        StatusLine::Head { name } => {
            assert(s.take(14) =~= "# branch.head "@);
            assert(s.skip(14) =~= name);
        },
        StatusLine::AheadBehind { ahead, behind } => {
            reveal_strlit("# branch.ab +");
            reveal_strlit("+");
            assert(s.take(12) =~= "# branch.ab "@);
            assert(s[9] == 'a');
            assert("# branch.head "@[9] == 'h');
            assert(s.skip(12) =~= "+"@ + decimal(ahead) + " -"@ + decimal(behind));
        },
        StatusLine::Changed { index, worktree, fields, path } => {
            lemma_spaced_start(seq![seq!['1'], seq![index, worktree]] + fields, path);
            assert(s.take(2) =~= "1 "@);
        },
        StatusLine::Renamed { index, worktree, fields, path, from } => {
            lemma_spaced_start(
                seq![seq!['2'], seq![index, worktree]] + fields,
                path.push('\t') + from,
            );
            assert(s.take(2) =~= "2 "@);
        },
        StatusLine::Conflicted { fields, path } => {
            lemma_spaced_start(seq![seq!['u']] + fields, path);
            assert(s.take(2) =~= "u "@);
        },
        StatusLine::Untracked { path } => {
            assert(s.take(2) =~= "? "@);
            assert(s.skip(2) =~= path);
        },
    }
}

/// The two codes and the path of a change.
proof fn lemma_change(l: StatusLine)
    requires
        is_line(l),
    ensures
        match l {
            StatusLine::Changed { index, worktree, path, .. } => change(line_text(l)) == Some(
                Change { codes: seq![index, worktree], path },
            ),
            StatusLine::Renamed { index, worktree, path, .. } => change(line_text(l)) == Some(
                Change { codes: seq![index, worktree], path },
            ),
            StatusLine::Conflicted { path, .. } => change(line_text(l)) is None && split_limited(
                line_text(l),
                11,
                ' ',
            ).last() == path,
            _ => change(line_text(l)) is None,
        },
{
    lemma_kind(l);
    match l {
        StatusLine::Changed { index, worktree, fields, path } => {
            let all = seq![seq!['1'], seq![index, worktree]] + fields;
            assert forall|i: int| 0 <= i < all.len() implies !(#[trigger] all[i]).contains(' ') by {
                if i >= 2 {
                    assert(all[i] == fields[i - 2]);
                }
            }
            lemma_spaced(all, path);
        },
        StatusLine::Renamed { index, worktree, fields, path, from } => {
            let all = seq![seq!['2'], seq![index, worktree]] + fields;
            assert forall|i: int| 0 <= i < all.len() implies !(#[trigger] all[i]).contains(' ') by {
                if i >= 2 {
                    assert(all[i] == fields[i - 2]);
                }
            }
            lemma_spaced(all, path.push('\t') + from);
            law_split_at_each_separator(path, '\t', from);
            assert(split(path.push('\t') + from, '\t')[0] == path);
        },
        StatusLine::Conflicted { fields, path } => {
            let all = seq![seq!['u']] + fields;
            assert forall|i: int| 0 <= i < all.len() implies !(#[trigger] all[i]).contains(' ') by {
                if i >= 1 {
                    assert(all[i] == fields[i - 1]);
                }
            }
            lemma_spaced(all, path);
        },
        _ => {},
    }
}

/// Codes of one byte are read byte by byte.
proof fn lemma_codes(index: char, worktree: char)
    requires
        is_code(index),
        is_code(worktree),
    ensures
        encode_utf8(seq![index, worktree]) == seq![index as u8, worktree as u8],
{
    let s = seq![index, worktree];
    assert(is_ascii_chars(s)) by {
        assert forall|i: int| 0 <= i < s.len() implies '\0' <= #[trigger] s[i] <= '\u{7f}' by {}
    }
    is_ascii_chars_encode_utf8(s);
    assert(s[0] as u8 == encode_utf8(s)[0]);
    assert(s[1] as u8 == encode_utf8(s)[1]);
    assert(encode_utf8(s) =~= seq![index as u8, worktree as u8]);
}

/// Every line of a status tells what it should, and nothing else: a file is
/// staged if its code in the index is no dot, and modified if its code in the
/// worktree is no dot, whatever the codes are; a renamed file is listed under
/// its new path; conflicts and untracked files are listed on their own; and the
/// branch and the two counts are those of the last lines that give them.
#[verifier::rlimit(40)]
pub proof fn law_status_reads_each_line(before: Seq<Seq<char>>, l: StatusLine)
    requires
        is_line(l),
    ensures
        ({
            let now = before.push(line_text(l));
            &&& staged_in(now) == match l {
                StatusLine::Changed { index, path, .. } => if index != '.' {
                    staged_in(before).push(path)
                } else {
                    staged_in(before)
                },
                StatusLine::Renamed { index, path, .. } => if index != '.' {
                    staged_in(before).push(path)
                } else {
                    staged_in(before)
                },
                _ => staged_in(before),
            }
            &&& modified_in(now) == match l {
                StatusLine::Changed { worktree, path, .. } => if worktree != '.' {
                    modified_in(before).push(path)
                } else {
                    modified_in(before)
                },
                StatusLine::Renamed { worktree, path, .. } => if worktree != '.' {
                    modified_in(before).push(path)
                } else {
                    modified_in(before)
                },
                _ => modified_in(before),
            }
            &&& untracked_in(now) == match l {
                StatusLine::Untracked { path } => untracked_in(before).push(path),
                _ => untracked_in(before),
            }
            &&& conflicted_in(now) == match l {
                StatusLine::Conflicted { path, .. } => conflicted_in(before).push(path),
                _ => conflicted_in(before),
            }
            &&& branch_in(now) == match l {
                StatusLine::Head { name } => name,
                _ => branch_in(before),
            }
            &&& counter_in(now, '+') == match l {
                StatusLine::AheadBehind { ahead, .. } => ahead as int,
                _ => counter_in(before, '+'),
            }
            &&& counter_in(now, '-') == match l {
                StatusLine::AheadBehind { behind, .. } => behind as int,
                _ => counter_in(before, '-'),
            }
        }),
{
    let now = before.push(line_text(l));
    assert(now.drop_last() =~= before);
    lemma_kind(l);
    lemma_change(l);
    match l {
        StatusLine::Changed { index, worktree, .. } => lemma_codes(index, worktree),
        StatusLine::Renamed { index, worktree, .. } => lemma_codes(index, worktree),
        StatusLine::AheadBehind { ahead, behind } => {
            lemma_counts(ahead, behind, counter_in(before, '+'), counter_in(before, '-'));
        },
        _ => {},
    }
}

/// The two counts are read back.
#[verifier::rlimit(40)]
proof fn lemma_counts(ahead: nat, behind: nat, x: int, y: int)
    requires
        ahead <= i64::MAX,
        behind <= i64::MAX,
    ensures
        ({
            let ws = words("+"@ + decimal(ahead) + " -"@ + decimal(behind));
            counter(ws, '+', x) == ahead && counter(ws, '-', y) == behind
        }),
{
    let a = "+"@ + decimal(ahead);
    let b = seq!['-'] + decimal(behind);
    let s = "+"@ + decimal(ahead) + " -"@ + decimal(behind);
    reveal_strlit("+");
    reveal_strlit(" -");
    lemma_decimal(ahead);
    lemma_decimal(behind);
    assert forall|i: int| 0 <= i < a.len() implies !is_space(#[trigger] a[i]) by {
        if i > 0 {
            assert(a[i] == decimal(ahead)[i - 1]);
            assert(is_digit(a[i], 10));
        }
    }
    assert forall|i: int| 0 <= i < b.len() implies !is_space(#[trigger] b[i]) by {
        if i > 0 {
            assert(b[i] == decimal(behind)[i - 1]);
            assert(is_digit(b[i], 10));
        }
    }
    assert(is_word(a) && is_word(b));
    let rest = seq![' '] + b;
    assert(s =~= Seq::<char>::empty() + a + rest);
    law_words_stand_between_white_space(seq![], a, rest);
    assert(rest =~= seq![' '] + b + Seq::<char>::empty());
    law_words_stand_between_white_space(seq![' '], b, seq![]);
    law_words_stand_between_white_space(seq![], b, seq![]);
    let ws = words(s);
    assert(ws =~= seq![a, b]);
    assert(a.skip(1) =~= decimal(ahead));
    assert(b.skip(1) =~= decimal(behind));
    law_decimal_round_trip(ahead, 0x7fff_ffff_ffff_ffff);
    law_decimal_round_trip(behind, 0x7fff_ffff_ffff_ffff);
    assert(is_digit(decimal(ahead)[0], 10));
    assert(is_digit(decimal(behind)[0], 10));
    assert(int_or_zero(decimal(ahead)) == ahead);
    assert(int_or_zero(decimal(behind)) == behind);
    reveal_with_fuel(counter, 3);
    assert(ws.drop_last() =~= seq![a]);
    assert(ws.last() == b);
    assert(ws.drop_last().last() == a);
}

/// What a line adds stays.
proof fn lemma_stays(ls: Seq<Seq<char>>, k: int)
    requires
        0 <= k < ls.len(),
    ensures
        ({
            let part = ls.take(k + 1);
            &&& staged_in(part).is_prefix_of(staged_in(ls))
            &&& modified_in(part).is_prefix_of(modified_in(ls))
            &&& untracked_in(part).is_prefix_of(untracked_in(ls))
            &&& conflicted_in(part).is_prefix_of(conflicted_in(ls))
        }),
    decreases ls.len(),
{
    let part = ls.take(k + 1);
    if k + 1 == ls.len() {
        assert(part =~= ls);
        assert(staged_in(ls).take(staged_in(ls).len() as int) =~= staged_in(ls));
        assert(modified_in(ls).take(modified_in(ls).len() as int) =~= modified_in(ls));
        assert(untracked_in(ls).take(untracked_in(ls).len() as int) =~= untracked_in(ls));
        assert(conflicted_in(ls).take(conflicted_in(ls).len() as int) =~= conflicted_in(ls));
    } else {
        let init = ls.drop_last();
        lemma_stays(init, k);
        assert(init.take(k + 1) =~= part);
        let n = staged_in(part).len() as int;
        assert(staged_in(ls).take(n) =~= staged_in(init).take(n));
        let n = modified_in(part).len() as int;
        assert(modified_in(ls).take(n) =~= modified_in(init).take(n));
        let n = untracked_in(part).len() as int;
        assert(untracked_in(ls).take(n) =~= untracked_in(init).take(n));
        let n = conflicted_in(part).len() as int;
        assert(conflicted_in(ls).take(n) =~= conflicted_in(init).take(n));
    }
}

/// A status lists the path of every line that tells of a change, and is then
/// dirty.
#[verifier::rlimit(40)]
pub proof fn law_status_misses_no_change(info: GitStatusInfo, output: Seq<char>, k: int, l: StatusLine)
    requires
        info.tells(output),
        0 <= k < lines(output).len(),
        lines(output)[k] == line_text(l),
        is_line(l),
    ensures
        match l {
            StatusLine::Changed { index, worktree, path, .. } => {
                &&& index != '.' ==> info.dirty && texts(info.staged@).contains(path)
                &&& worktree != '.' ==> info.dirty && texts(info.modified@).contains(path)
            },
            StatusLine::Renamed { index, worktree, path, .. } => {
                &&& index != '.' ==> info.dirty && texts(info.staged@).contains(path)
                &&& worktree != '.' ==> info.dirty && texts(info.modified@).contains(path)
            },
            StatusLine::Conflicted { path, .. } => info.dirty && texts(info.conflicted@).contains(
                path,
            ),
            StatusLine::Untracked { path } => info.dirty && texts(info.untracked@).contains(path),
            _ => true,
        },
{
    let ls = lines(output);
    let before = ls.take(k);
    law_status_reads_each_line(before, l);
    assert(ls.take(k + 1) =~= before.push(line_text(l)));
    lemma_stays(ls, k);
    let part = ls.take(k + 1);
    if staged_in(part).len() > 0 {
        let n = staged_in(part).len() - 1;
        assert(staged_in(ls).take(n + 1)[n] == staged_in(ls)[n]);
        assert(staged_in(ls).contains(staged_in(part).last()));
    }
    if modified_in(part).len() > 0 {
        let n = modified_in(part).len() - 1;
        assert(modified_in(ls).take(n + 1)[n] == modified_in(ls)[n]);
        assert(modified_in(ls).contains(modified_in(part).last()));
    }
    if untracked_in(part).len() > 0 {
        let n = untracked_in(part).len() - 1;
        assert(untracked_in(ls).take(n + 1)[n] == untracked_in(ls)[n]);
        assert(untracked_in(ls).contains(untracked_in(part).last()));
    }
    if conflicted_in(part).len() > 0 {
        let n = conflicted_in(part).len() - 1;
        assert(conflicted_in(ls).take(n + 1)[n] == conflicted_in(ls)[n]);
        assert(conflicted_in(ls).contains(conflicted_in(part).last()));
    }
}

/// A status is dirty exactly if it lists a path.
pub proof fn law_status_is_dirty_by_its_paths(info: GitStatusInfo, output: Seq<char>)
    requires
        info.tells(output),
    ensures
        info.dirty <==> info.staged@.len() + info.modified@.len() + info.untracked@.len()
            + info.conflicted@.len() > 0,
        lines(output).len() == 0 ==> !info.dirty && info.branch@ == "(unknown)"@ && info.ahead == 0
            && info.behind == 0,
{
    assert(texts(info.staged@).len() == info.staged@.len());
    assert(texts(info.modified@).len() == info.modified@.len());
    assert(texts(info.untracked@).len() == info.untracked@.len());
    assert(texts(info.conflicted@).len() == info.conflicted@.len());
}

// ---------------------------------------------------------------------------
// Commands
// ---------------------------------------------------------------------------

/// A word of a command: as it stands, or quoted for the shell.
pub enum Word {
    Bare(Seq<char>),
    Quoted(Seq<char>),
}

/// A word as the shell is given it.
pub open spec fn word_text(w: Word) -> Seq<char> {
    match w {
        Word::Bare(s) => s,
        Word::Quoted(s) => quote(s),
    }
}

/// Words with a blank between neighbours.
pub open spec fn command_line(ws: Seq<Word>) -> Seq<char>
    decreases ws.len(),
{
    if ws.len() == 0 {
        seq![]
    } else if ws.len() == 1 {
        word_text(ws[0])
    } else {
        command_line(ws.drop_last()) + seq![' '] + word_text(ws.last())
    }
}

/// One word more.
proof fn lemma_word_more(ws: Seq<Word>, w: Word)
    requires
        ws.len() > 0,
    ensures
        command_line(ws.push(w)) == command_line(ws) + seq![' '] + word_text(w),
{
    assert(ws.push(w).drop_last() =~= ws);
}

/// Where the repository is.
pub open spec fn repository(path: Option<String>) -> Seq<char> {
    match path {
        Some(p) => p@,
        None => "/workspace"@,
    }
}

/// `git` in a repository.
pub open spec fn git_at(path: Option<String>) -> Seq<Word> {
    seq![Word::Bare("git"@), Word::Bare("-C"@), Word::Quoted(repository(path))]
}

/// The text of `git` in a repository.
proof fn lemma_git_at(path: Option<String>)
    ensures
        command_line(git_at(path)) == "git -C "@ + quote(repository(path)),
{
    let a = seq![Word::Bare("git"@)];
    let b = a.push(Word::Bare("-C"@));
    let c = b.push(Word::Quoted(repository(path)));
    lemma_word_more(a, Word::Bare("-C"@));
    lemma_word_more(b, Word::Quoted(repository(path)));
    assert(c =~= git_at(path));
    reveal_strlit("git");
    reveal_strlit("-C");
    reveal_strlit("git -C ");
    assert(command_line(c) =~= "git -C "@ + quote(repository(path)));
}

/// The words of a clone: the depth and the branch where they are given, then
/// the URL and the directory.
pub open spec fn clone_words(p: GitCloneParams) -> Seq<Word> {
    let a = seq![Word::Bare("git"@), Word::Bare("clone"@)];
    let b = match p.depth {
        Some(d) => a.push(Word::Bare("--depth"@)).push(Word::Bare(decimal(d as nat))),
        None => a,
    };
    let c = match p.branch {
        Some(name) => b.push(Word::Bare("--branch"@)).push(Word::Quoted(name@)),
        None => b,
    };
    c.push(Word::Quoted(p.url@)).push(Word::Quoted(repository(p.path)))
}

/// The text of a clone.
#[verifier::rlimit(40)]
proof fn lemma_clone_words(p: GitCloneParams)
    ensures
        command_line(clone_words(p)) == p.command(),
{
    let a = seq![Word::Bare("git"@), Word::Bare("clone"@)];
    lemma_word_more(seq![Word::Bare("git"@)], Word::Bare("clone"@));
    assert(seq![Word::Bare("git"@)].push(Word::Bare("clone"@)) =~= a);
    reveal_strlit("git");
    reveal_strlit("clone");
    reveal_strlit("git clone");
    reveal_strlit("--depth");
    reveal_strlit(" --depth ");
    reveal_strlit("--branch");
    reveal_strlit(" --branch ");
    reveal_strlit(" ");
    assert(command_line(a) =~= "git clone"@);
    let b = match p.depth {
        Some(d) => a.push(Word::Bare("--depth"@)).push(Word::Bare(decimal(d as nat))),
        None => a,
    };
    match p.depth {
        Some(d) => {
            lemma_word_more(a, Word::Bare("--depth"@));
            lemma_word_more(a.push(Word::Bare("--depth"@)), Word::Bare(decimal(d as nat)));
            assert(command_line(b) =~= "git clone"@ + " --depth "@ + decimal(d as nat));
        },
        None => {},
    }
    let c = match p.branch {
        Some(name) => b.push(Word::Bare("--branch"@)).push(Word::Quoted(name@)),
        None => b,
    };
    match p.branch {
        Some(name) => {
            lemma_word_more(b, Word::Bare("--branch"@));
            lemma_word_more(b.push(Word::Bare("--branch"@)), Word::Quoted(name@));
            assert(command_line(c) =~= command_line(b) + " --branch "@ + quote(name@));
        },
        None => {},
    }
    lemma_word_more(c, Word::Quoted(p.url@));
    lemma_word_more(c.push(Word::Quoted(p.url@)), Word::Quoted(repository(p.path)));
    assert(command_line(clone_words(p)) =~= p.command());
}

/// A URL is one that can be cloned: it has a known scheme or names a user, a
/// host and a path, and nothing in it means anything to a shell.
pub open spec fn is_cloneable(url: Seq<char>) -> bool {
    &&& forall|i: int|
        0 <= i < url.len() ==> !seq![
            ';',
            '|',
            '&',
            '$',
            '`',
            '\'',
            '"',
            '\\',
            '\n',
            '\r',
        ].contains(#[trigger] url[i])
    &&& {
        ||| "https://"@.is_prefix_of(url)
        ||| "http://"@.is_prefix_of(url)
        ||| "git://"@.is_prefix_of(url)
        ||| "ssh://"@.is_prefix_of(url)
        ||| exists|user: Seq<char>, rest: Seq<char>|
            #![trigger user + rest]
            !user.contains(':') && !user.contains('@') && !contains_text(url, "://"@) && url == user
                + rest && rest.len() > 0 && rest[0] == '@' && rest.contains(':')
    }
}

/// A user, a host and a path are told apart by the at sign and the colon.
proof fn lemma_scp(url: Seq<char>)
    ensures
        has_scp_form(url) <==> exists|user: Seq<char>, rest: Seq<char>|
            #![trigger user + rest]
            !user.contains(':') && !user.contains('@') && !contains_text(url, "://"@) && url == user
                + rest && rest.len() > 0 && rest[0] == '@' && rest.contains(':'),
{
    lemma_find_char(url, ':', 0);
    lemma_find_char(url, '@', 0);
    let colon = find_char(url, ':', 0);
    let at = find_char(url, '@', 0);
    if has_scp_form(url) {
        let user = url.take(at);
        let rest = url.skip(at);
        assert(url =~= user + rest);
        assert(rest[colon - at] == ':');
        assert(!user.contains(':') && !user.contains('@'));
    }
    if exists|user: Seq<char>, rest: Seq<char>|
        #![trigger user + rest]
        !user.contains(':') && !user.contains('@') && !contains_text(url, "://"@) && url == user
            + rest && rest.len() > 0 && rest[0] == '@' && rest.contains(':') {
        let (user, rest) = choose|user: Seq<char>, rest: Seq<char>|
            #![trigger user + rest]
            !user.contains(':') && !user.contains('@') && !contains_text(url, "://"@) && url == user
                + rest && rest.len() > 0 && rest[0] == '@' && rest.contains(':');
        let n = user.len() as int;
        assert(url[n] == '@');
        let k = choose|k: int| 0 <= k < rest.len() && rest[k] == ':';
        assert(url[n + k] == ':');
        if at < n {
            assert(user[at] == '@');
        }
        if colon < n {
            assert(user[colon] == ':');
        }
    }
}

/// A clone is refused exactly if its URL cannot be cloned; otherwise it runs
/// `git clone` with what was asked for, and five minutes' time.
pub proof fn law_clone_runs_what_was_asked_for(
    p: &GitCloneParams,
    workspace: u128,
    r: Next<CloneStage, GitCloneOutcome>,
)
    requires
        call_ensures(GitCloneParams::start, (p, workspace), r),
    ensures
        r is Fail <==> !is_cloneable(p.url@),
        r matches Next::Fail(e) ==> e.kind == ErrorKind::InvalidParams,
        is_cloneable(p.url@) ==> r.runs(workspace, command_line(clone_words(*p)), 300),
{
    lemma_clone_words(*p);
    lemma_cloneable(p.url@);
}

/// A URL has no problem exactly if it can be cloned.
pub proof fn lemma_cloneable(url: Seq<char>)
    ensures
        git_url_problem(url) is None <==> is_cloneable(url),
{
    lemma_scp(url);
    let odd = seq![';', '|', '&', '$', '`', '\'', '"', '\\', '\n', '\r'];
    assert forall|i: int| 0 <= i < url.len() implies odd.contains(#[trigger] url[i])
        == is_shell_char(url[i]) by {
        let c = url[i];
        assert(odd[0] == ';' && odd[1] == '|' && odd[2] == '&' && odd[3] == '$' && odd[4] == '`'
            && odd[5] == '\'' && odd[6] == '"' && odd[7] == '\\' && odd[8] == '\n' && odd[9]
            == '\r');
    }
}

/// After a clone, the commit that is checked out is read in the directory of
/// the clone, and reported; the clone counts as done even if that fails.
pub proof fn law_clone_reports_its_commit(
    p: &GitCloneParams,
    workspace: u128,
    cloned: &Result<ExecReply, String>,
    next: Next<CloneStage, GitCloneOutcome>,
    head: &Result<ExecReply, String>,
    last: Next<CloneStage, GitCloneOutcome>,
)
    requires
        call_ensures(GitCloneParams::step, (p, workspace, CloneStage::Cloning, cloned), next),
        call_ensures(GitCloneParams::step, (p, workspace, CloneStage::ReadingHead, head), last),
    ensures
        next is Fail <==> cloned is Err || cloned->Ok_0.exit_code != 0,
        !(next is Fail) ==> next.runs(
            workspace,
            command_line(
                git_at(p.path).push(Word::Bare("rev-parse"@)).push(Word::Bare("HEAD"@)),
            ),
            10,
        ),
        last is Done,
        last->Done_0.path@ == repository(p.path),
        last->Done_0.url@ == p.url@,
        last->Done_0.depth == p.depth,
        last->Done_0.branch is Some <==> p.branch is Some,
        p.branch is Some ==> last->Done_0.branch->0@ == p.branch->0@,
        last->Done_0.commit_sha@ == if head is Ok && head->Ok_0.exit_code == 0 {
            trim(head->Ok_0.stdout@)
        } else {
            Seq::<char>::empty()
        },
{
    lemma_git_at(p.path);
    let a = git_at(p.path);
    lemma_word_more(a, Word::Bare("rev-parse"@));
    lemma_word_more(a.push(Word::Bare("rev-parse"@)), Word::Bare("HEAD"@));
    reveal_strlit("rev-parse");
    reveal_strlit("HEAD");
    reveal_strlit(" rev-parse HEAD");
    assert(command_line(a.push(Word::Bare("rev-parse"@)).push(Word::Bare("HEAD"@)))
        =~= "git -C "@ + quote(repository(p.path)) + " rev-parse HEAD"@);
}

/// A status is read from the output of `git status` in the repository, where
/// that succeeds.
pub proof fn law_status_is_what_git_tells(
    p: &GitStatusParams,
    workspace: u128,
    request: Request,
    reply: &Result<ExecReply, String>,
    r: Result<GitStatusOutcome, ToolError>,
)
    requires
        call_ensures(GitStatusParams::start, (p, workspace), request),
        call_ensures(GitStatusParams::finish, (p, reply), r),
    ensures
        request@ == (RequestView::Exec {
            workspace,
            command: command_line(
                git_at(p.path).push(Word::Bare("status"@)).push(
                    Word::Bare("--porcelain=v2"@),
                ).push(Word::Bare("--branch"@)).push(Word::Bare("2>&1"@)),
            ),
            timeout_secs: 30,
        }),
        reply is Ok && reply->Ok_0.exit_code == 0 ==> r is Ok && r->Ok_0 is Status
            && r->Ok_0->Status_0.tells(reply->Ok_0.stdout@),
        r matches Ok(GitStatusOutcome::Status(_)) ==> reply is Ok && reply->Ok_0.exit_code == 0,
        reply is Ok && reply->Ok_0.exit_code != 0 ==> (r is Ok <==> contains_text(
            if reply->Ok_0.stderr@.len() > 0 {
                reply->Ok_0.stderr@
            } else {
                reply->Ok_0.stdout@
            },
            "not a git repository"@,
        )),
        reply is Err ==> r is Err,
        r is Err ==> r->Err_0.kind == ErrorKind::InvalidRequest,
{
    lemma_git_at(p.path);
    let a = git_at(p.path);
    let b = a.push(Word::Bare("status"@));
    let c = b.push(Word::Bare("--porcelain=v2"@));
    let d = c.push(Word::Bare("--branch"@));
    lemma_word_more(a, Word::Bare("status"@));
    lemma_word_more(b, Word::Bare("--porcelain=v2"@));
    lemma_word_more(c, Word::Bare("--branch"@));
    lemma_word_more(d, Word::Bare("2>&1"@));
    reveal_strlit("status");
    reveal_strlit("--porcelain=v2");
    reveal_strlit("--branch");
    reveal_strlit("2>&1");
    reveal_strlit(" status --porcelain=v2 --branch 2>&1");
    assert(command_line(d.push(Word::Bare("2>&1"@))) =~= "git -C "@ + quote(repository(p.path))
        + " status --porcelain=v2 --branch 2>&1"@);
}

/// The words of a commit: the author where name and e-mail are given, and the
/// message.
pub open spec fn commit_words(p: GitCommitParams) -> Seq<Word> {
    let a = git_at(p.path);
    match (p.author_name, p.author_email) {
        (Some(name), Some(email)) => a.push(Word::Bare("-c"@)).push(
            Word::Bare("user.name="@ + quote(name@)),
        ).push(Word::Bare("-c"@)).push(Word::Bare("user.email="@ + quote(email@))).push(
            Word::Bare("commit"@),
        ).push(Word::Bare("-m"@)).push(Word::Quoted(p.message@)).push(
            Word::Bare("--author="@ + quote(name@ + " <"@ + email@ + ">"@)),
        ),
        _ => a.push(Word::Bare("commit"@)).push(Word::Bare("-m"@)).push(Word::Quoted(p.message@)),
    }
}

/// The text of a commit.
#[verifier::rlimit(40)]
proof fn lemma_commit_words(p: GitCommitParams)
    ensures
        command_line(commit_words(p)) == p.command(),
{
    lemma_git_at(p.path);
    let a = git_at(p.path);
    reveal_strlit("commit");
    reveal_strlit("-m");
    reveal_strlit(" commit -m ");
    match (p.author_name, p.author_email) {
        (Some(name), Some(email)) => {
            reveal_strlit("-c");
            reveal_strlit("user.name=");
            reveal_strlit("user.email=");
            reveal_strlit("--author=");
            reveal_strlit(" -c user.name=");
            reveal_strlit(" -c user.email=");
            reveal_strlit(" --author=");
            let b = a.push(Word::Bare("-c"@));
            let c = b.push(Word::Bare("user.name="@ + quote(name@)));
            let d = c.push(Word::Bare("-c"@));
            let e = d.push(Word::Bare("user.email="@ + quote(email@)));
            let f = e.push(Word::Bare("commit"@));
            let g = f.push(Word::Bare("-m"@));
            let h = g.push(Word::Quoted(p.message@));
            let last = Word::Bare("--author="@ + quote(name@ + " <"@ + email@ + ">"@));
            lemma_word_more(a, Word::Bare("-c"@));
            lemma_word_more(b, Word::Bare("user.name="@ + quote(name@)));
            assert(command_line(c) =~= "git -C "@ + quote(repository(p.path)) + " -c user.name="@
                + quote(name@));
            lemma_word_more(c, Word::Bare("-c"@));
            lemma_word_more(d, Word::Bare("user.email="@ + quote(email@)));
            assert(command_line(e) =~= command_line(c) + " -c user.email="@ + quote(email@));
            lemma_word_more(e, Word::Bare("commit"@));
            lemma_word_more(f, Word::Bare("-m"@));
            lemma_word_more(g, Word::Quoted(p.message@));
            assert(command_line(h) =~= command_line(e) + " commit -m "@ + quote(p.message@));
            lemma_word_more(h, last);
            assert(command_line(h.push(last)) =~= command_line(h) + " --author="@ + quote(
                name@ + " <"@ + email@ + ">"@,
            ));
        },
        _ => {
            let b = a.push(Word::Bare("commit"@));
            let c = b.push(Word::Bare("-m"@));
            lemma_word_more(a, Word::Bare("commit"@));
            lemma_word_more(b, Word::Bare("-m"@));
            lemma_word_more(c, Word::Quoted(p.message@));
            assert(command_line(c.push(Word::Quoted(p.message@))) =~= p.command());
        },
    }
}

/// A commit adds all changes first, unless that is turned off, and then commits
/// with the message and the author that were given.
pub proof fn law_commit_adds_and_commits(
    p: &GitCommitParams,
    workspace: u128,
    first: Next<CommitStage, GitCommitOutcome>,
    added: &Result<ExecReply, String>,
    second: Next<CommitStage, GitCommitOutcome>,
)
    requires
        call_ensures(GitCommitParams::start, (p, workspace), first),
        call_ensures(
            GitCommitParams::step,
            (p, workspace, CommitStage::Adding, added),
            second,
        ),
    ensures
        p.add_all == Some(false) ==> first.runs(workspace, command_line(commit_words(*p)), 30),
        p.add_all != Some(false) ==> first.runs(
            workspace,
            command_line(git_at(p.path).push(Word::Bare("add"@)).push(Word::Bare("-A"@))),
            30,
        ),
        second is Fail <==> added is Err || added->Ok_0.exit_code != 0,
        !(second is Fail) ==> second.runs(workspace, command_line(commit_words(*p)), 30),
{
    lemma_commit_words(*p);
    lemma_git_at(p.path);
    let a = git_at(p.path);
    lemma_word_more(a, Word::Bare("add"@));
    lemma_word_more(a.push(Word::Bare("add"@)), Word::Bare("-A"@));
    reveal_strlit("add");
    reveal_strlit("-A");
    reveal_strlit(" add -A");
    assert(command_line(a.push(Word::Bare("add"@)).push(Word::Bare("-A"@))) =~= "git -C "@ + quote(
        repository(p.path),
    ) + " add -A"@);
}

/// A commit that succeeded is reported with the commit, the summary and the
/// branch that git tells of afterwards, and one that found nothing to commit as
/// such; any other is a failure.
pub proof fn law_commit_is_reported(
    p: &GitCommitParams,
    workspace: u128,
    committed: &Result<ExecReply, String>,
    a: Next<CommitStage, GitCommitOutcome>,
    sha: &Result<ExecReply, String>,
    b: Next<CommitStage, GitCommitOutcome>,
    summary: &Result<ExecReply, String>,
    c: Next<CommitStage, GitCommitOutcome>,
    branch: &Result<ExecReply, String>,
    d: Next<CommitStage, GitCommitOutcome>,
)
    requires
        call_ensures(
            GitCommitParams::step,
            (p, workspace, CommitStage::Committing, committed),
            a,
        ),
        call_ensures(GitCommitParams::step, (p, workspace, CommitStage::ReadingSha, sha), b),
        b is Run ==> call_ensures(
            GitCommitParams::step,
            (p, workspace, b->stage, summary),
            c,
        ),
        b is Run && c is Run ==> call_ensures(
            GitCommitParams::step,
            (p, workspace, c->stage, branch),
            d,
        ),
    ensures
        committed is Ok && committed->Ok_0.exit_code == 0 ==> a.runs(
            workspace,
            "git -C "@ + quote(repository(p.path)) + " rev-parse HEAD"@,
            10,
        ) && a->stage == CommitStage::ReadingSha,
        a is Done <==> committed is Ok && committed->Ok_0.exit_code != 0 && contains_text(
            committed->Ok_0.stdout@ + "\n"@ + committed->Ok_0.stderr@,
            "nothing to commit"@,
        ),
        a is Done ==> a->Done_0@ == CommitView::NothingToCommit,
        b.runs(workspace, "git -C "@ + quote(repository(p.path)) + " log -1 --format='%h %s'"@, 10),
        c.runs(workspace, "git -C "@ + quote(repository(p.path)) + " branch --show-current"@, 10),
        sha is Ok && sha->Ok_0.exit_code == 0 && summary is Ok && summary->Ok_0.exit_code == 0
            && branch is Ok && branch->Ok_0.exit_code == 0 ==> {
            let hash = trim(sha->Ok_0.stdout@);
            let name = trim(branch->Ok_0.stdout@);
            &&& d is Done
            &&& d->Done_0@ == (CommitView::Committed {
                commit_sha: hash,
                short_sha: cut(hash, 7),
                branch: if name.len() == 0 {
                    "(detached HEAD)"@
                } else {
                    name
                },
                summary: trim(summary->Ok_0.stdout@),
            })
        },
{
}

/// The words of a push: forced and with an upstream where that is asked for,
/// then the remote and the branch.
pub open spec fn push_words(p: GitPushParams, branch: Seq<char>) -> Seq<Word> {
    let a = git_at(p.path).push(Word::Bare("push"@));
    let b = if p.force == Some(true) {
        a.push(Word::Bare("--force"@))
    } else {
        a
    };
    let c = if p.set_upstream == Some(true) {
        b.push(Word::Bare("-u"@))
    } else {
        b
    };
    c.push(
        Word::Quoted(
            match p.remote {
                Some(name) => name@,
                None => "origin"@,
            },
        ),
    ).push(Word::Quoted(branch))
}

/// The text of a push.
#[verifier::rlimit(40)]
proof fn lemma_push_words(p: GitPushParams, branch: Seq<char>)
    ensures
        command_line(push_words(p, branch)) == p.command(branch),
{
    lemma_git_at(p.path);
    let o = git_at(p.path);
    let a = o.push(Word::Bare("push"@));
    lemma_word_more(o, Word::Bare("push"@));
    reveal_strlit("push");
    reveal_strlit(" push");
    reveal_strlit("--force");
    reveal_strlit(" --force");
    reveal_strlit("-u");
    reveal_strlit(" -u");
    reveal_strlit(" ");
    assert(command_line(a) =~= "git -C "@ + quote(repository(p.path)) + " push"@);
    lemma_word_more(a, Word::Bare("--force"@));
    let b = if p.force == Some(true) {
        a.push(Word::Bare("--force"@))
    } else {
        a
    };
    if p.force == Some(true) {
        assert(command_line(b) =~= command_line(a) + " --force"@);
    }
    lemma_word_more(b, Word::Bare("-u"@));
    let c = if p.set_upstream == Some(true) {
        b.push(Word::Bare("-u"@))
    } else {
        b
    };
    if p.set_upstream == Some(true) {
        assert(command_line(c) =~= command_line(b) + " -u"@);
    }
    let remote = Word::Quoted(
        match p.remote {
            Some(name) => name@,
            None => "origin"@,
        },
    );
    lemma_word_more(c, remote);
    lemma_word_more(c.push(remote), Word::Quoted(branch));
    assert(command_line(push_words(p, branch)) =~= p.command(branch));
}

/// A push goes to the branch that was named, else to the one that is checked
/// out. It is done exactly if git succeeds, and its output is shown without
/// credentials.
#[verifier::rlimit(40)]
pub proof fn law_push_goes_to_the_branch(
    p: &GitPushParams,
    workspace: u128,
    first: Next<PushStage, GitPushOutcome>,
    shown: &Result<ExecReply, String>,
    second: Next<PushStage, GitPushOutcome>,
    branch: String,
    pushed: &Result<ExecReply, String>,
    last: Next<PushStage, GitPushOutcome>,
)
    requires
        call_ensures(GitPushParams::start, (p, workspace), first),
        call_ensures(
            GitPushParams::step,
            (p, workspace, PushStage::DetectingBranch, shown),
            second,
        ),
        call_ensures(
            GitPushParams::step,
            (p, workspace, PushStage::Pushing { branch }, pushed),
            last,
        ),
    ensures
        ({
            let timeout: u64 = match p.timeout_secs {
                Some(t) => t,
                None => 120,
            };
            &&& p.branch matches Some(name) ==> first.runs(
                workspace,
                command_line(push_words(*p, name@)),
                timeout,
            )
            &&& p.branch is None ==> first.runs(
                workspace,
                "git -C "@ + quote(repository(p.path)) + " branch --show-current"@,
                10,
            )
            &&& second is Run <==> shown is Ok && shown->Ok_0.exit_code == 0 && trim(
                shown->Ok_0.stdout@,
            ).len() > 0
            &&& second is Run ==> second.runs(
                workspace,
                command_line(push_words(*p, trim(shown->Ok_0.stdout@))),
                timeout,
            )
            &&& !(second is Done)
            &&& last is Done <==> pushed is Ok && pushed->Ok_0.exit_code == 0
            &&& !(last is Run)
            &&& pushed is Ok && pushed->Ok_0.exit_code != 0 ==> last is Fail && contains_text(
                last->Fail_0.message@,
                trim(redacted(pushed->Ok_0.stdout@ + "\n"@ + pushed->Ok_0.stderr@)),
            ) && ("git push failed (exit code "@ + signed(pushed->Ok_0.exit_code as int)
                + "): "@).is_prefix_of(last->Fail_0.message@)
            &&& pushed is Err ==> last is Fail && last->Fail_0.kind == ErrorKind::InvalidRequest
            &&& last is Done ==> last->Done_0.branch@ == branch@ && last->Done_0.output@ == trim(
                redacted(pushed->Ok_0.stdout@ + "\n"@ + pushed->Ok_0.stderr@),
            ) && last->Done_0.remote@ == match p.remote {
                Some(name) => name@,
                None => "origin"@,
            }
        }),
{
    match p.branch {
        Some(name) => lemma_push_words(*p, name@),
        None => {},
    }
    if shown is Ok {
        lemma_push_words(*p, trim(shown->Ok_0.stdout@));
    }
    if pushed is Ok {
        let told = trim(redacted(pushed->Ok_0.stdout@ + "\n"@ + pushed->Ok_0.stderr@));
        let head = "git push failed (exit code "@ + signed(pushed->Ok_0.exit_code as int) + "): "@;
        let tail = "."@ + push_advice(told);
        law_containing_is_standing_somewhere(head, told, tail);
        let all = head + told + "."@ + push_advice(told);
        assert(all =~= head + told + tail);
        assert(all.take(head.len() as int) =~= head);
    }
}

/// The words of a diff: of the index, as a summary and of one file where that
/// is asked for.
pub open spec fn diff_words(p: GitDiffParams, stat: bool) -> Seq<Word> {
    let a = git_at(p.path).push(Word::Bare("diff"@));
    let b = if p.staged == Some(true) {
        a.push(Word::Bare("--staged"@))
    } else {
        a
    };
    let c = if stat {
        b.push(Word::Bare("--stat"@))
    } else {
        b
    };
    match p.file_path {
        Some(file) => c.push(Word::Bare("--"@)).push(Word::Quoted(file@)),
        None => c,
    }
}

/// The text of a diff.
#[verifier::rlimit(40)]
proof fn lemma_diff_words(p: GitDiffParams, stat: bool)
    ensures
        command_line(diff_words(p, stat)) == p.command(stat),
{
    lemma_git_at(p.path);
    let o = git_at(p.path);
    let a = o.push(Word::Bare("diff"@));
    lemma_word_more(o, Word::Bare("diff"@));
    reveal_strlit("diff");
    reveal_strlit(" diff");
    reveal_strlit("--staged");
    reveal_strlit(" --staged");
    reveal_strlit("--stat");
    reveal_strlit(" --stat");
    reveal_strlit("--");
    reveal_strlit(" -- ");
    assert(command_line(a) =~= "git -C "@ + quote(repository(p.path)) + " diff"@);
    lemma_word_more(a, Word::Bare("--staged"@));
    let b = if p.staged == Some(true) {
        a.push(Word::Bare("--staged"@))
    } else {
        a
    };
    if p.staged == Some(true) {
        assert(command_line(b) =~= command_line(a) + " --staged"@);
    }
    lemma_word_more(b, Word::Bare("--stat"@));
    let c = if stat {
        b.push(Word::Bare("--stat"@))
    } else {
        b
    };
    if stat {
        assert(command_line(c) =~= command_line(b) + " --stat"@);
    }
    match p.file_path {
        Some(file) => {
            lemma_word_more(c, Word::Bare("--"@));
            lemma_word_more(c.push(Word::Bare("--"@)), Word::Quoted(file@));
            assert(command_line(diff_words(p, stat)) =~= command_line(c) + " -- "@ + quote(file@));
        },
        None => {},
    }
}

/// A diff is what git prints, whole where it fits the limit; what is cut off is
/// marked, and what is left is a beginning of it that fits. A summary follows
/// unless one was asked for.
#[verifier::rlimit(40)]
pub proof fn law_diff_shows_what_git_prints(
    p: &GitDiffParams,
    workspace: u128,
    first: Next<DiffStage, GitDiffOutcome>,
    printed: &Result<ExecReply, String>,
    second: Next<DiffStage, GitDiffOutcome>,
    stat: &Result<ExecReply, String>,
    last: Next<DiffStage, GitDiffOutcome>,
)
    requires
        call_ensures(GitDiffParams::start, (p, workspace), first),
        call_ensures(
            GitDiffParams::step,
            (p, workspace, DiffStage::Diffing, printed),
            second,
        ),
        second is Run ==> call_ensures(
            GitDiffParams::step,
            (p, workspace, second->stage, stat),
            last,
        ),
    ensures
        first.runs(workspace, command_line(diff_words(*p, p.stat == Some(true))), 30),
        second is Fail <==> printed is Err || printed->Ok_0.exit_code != 0,
        second is Done <==> printed is Ok && printed->Ok_0.exit_code == 0 && p.stat == Some(true),
        second is Run ==> second.runs(workspace, command_line(diff_words(*p, true)), 30) && last
            is Done,
        !(second is Fail) ==> {
            let out = printed->Ok_0.stdout@;
            let limit: nat = match p.max_bytes {
                Some(n) => n as nat,
                None => 65536,
            };
            let told = if second is Done {
                second->Done_0
            } else {
                last->Done_0
            };
            &&& told.truncated <==> byte_size(out) > limit
            &&& !told.truncated ==> told.diff@ == out
            &&& told.truncated ==> exists|kept: Seq<char>|
                #![trigger kept.is_prefix_of(out)]
                kept.is_prefix_of(out) && byte_size(kept) <= limit && told.diff@ == kept
                    + "[TRUNCATED]"@
            &&& second is Run && stat is Ok && stat->Ok_0.exit_code == 0 ==> told.stat is Some
                && told.stat->0@ == trim(stat->Ok_0.stdout@)
            &&& second is Run && !(stat is Ok && stat->Ok_0.exit_code == 0) ==> told.stat is None
        },
{
    lemma_diff_words(*p, p.stat == Some(true));
    lemma_diff_words(*p, true);
    if printed is Ok {
        let out = printed->Ok_0.stdout@;
        let limit: nat = match p.max_bytes {
            Some(n) => n as nat,
            None => 65536,
        };
        lemma_cut(out, limit as int);
        assert(cut(out, limit as int).is_prefix_of(out));
    }
}

/// What is parsed out of an output lists the path of every line that tells of a
/// change, and is then dirty.
pub proof fn law_parsed_status_misses_no_change(
    output: &str,
    info: GitStatusInfo,
    k: int,
    l: StatusLine,
)
    requires
        call_ensures(parse_git_porcelain_v2, (output,), info),
        0 <= k < lines(output@).len(),
        lines(output@)[k] == line_text(l),
        is_line(l),
    ensures
        match l {
            StatusLine::Changed { index, worktree, path, .. } => {
                &&& index != '.' ==> info.dirty && texts(info.staged@).contains(path)
                &&& worktree != '.' ==> info.dirty && texts(info.modified@).contains(path)
            },
            StatusLine::Renamed { index, worktree, path, .. } => {
                &&& index != '.' ==> info.dirty && texts(info.staged@).contains(path)
                &&& worktree != '.' ==> info.dirty && texts(info.modified@).contains(path)
            },
            StatusLine::Conflicted { path, .. } => info.dirty && texts(info.conflicted@).contains(
                path,
            ),
            StatusLine::Untracked { path } => info.dirty && texts(info.untracked@).contains(path),
            StatusLine::Head { name } => k == lines(output@).len() - 1 ==> info.branch@ == name,
            StatusLine::AheadBehind { ahead, behind } => k == lines(output@).len() - 1
                ==> info.ahead == ahead && info.behind == behind,
        },
{
    law_status_misses_no_change(info, output@, k, l);
    let ls = lines(output@);
    if k == ls.len() - 1 {
        law_status_reads_each_line(ls.take(k), l);
        assert(ls.take(k).push(line_text(l)) =~= ls);
    }
}

/// A URL is valid exactly if it can be cloned.
pub proof fn law_valid_urls_can_be_cloned(url: &str, r: Result<(), ToolError>)
    requires
        call_ensures(validate_git_url, (url,), r),
    ensures
        r is Ok <==> is_cloneable(url@),
        r matches Err(e) ==> e.kind == ErrorKind::InvalidParams,
{
    lemma_cloneable(url@);
}

/// Redacting leaves nothing that looks like a credential, and a text without
/// one stays as it is.
pub proof fn law_redacted_text_is_clean(s: &str, r: String)
    requires
        call_ensures(redact_credentials, (s,), r),
    ensures
        !contains_text(r@, "Authorization:"@),
        !contains_text(r@, "Bearer "@),
        forall|i: int| !#[trigger] holds_token(r@, i),
        !contains_text(s@, "Authorization:"@) && !contains_text(s@, "Bearer "@) && (forall|i: int|
            !#[trigger] holds_token(s@, i)) ==> r@ == s@,
{
    law_redaction_leaves_no_credentials(s@);
    assert forall|i: int| !#[trigger] holds_token(r@, i) by {
        lemma_token(r@, i);
        assert(!any_token_at(r@, i));
    }
    if forall|i: int| !#[trigger] holds_token(s@, i) {
        assert forall|i: int| !#[trigger] any_token_at(s@, i) by {
            lemma_token(s@, i);
            assert(!holds_token(s@, i));
        }
    }
}

/// A character of a token: a letter, a digit, or one more kind.
pub open spec fn is_token_char(c: char, also: char) -> bool {
    'a' <= c <= 'z' || 'A' <= c <= 'Z' || '0' <= c <= '9' || c == also
}

/// So many token characters stand behind a prefix.
pub open spec fn holds_behind(s: Seq<char>, i: int, prefix: Seq<char>, n: int, also: char) -> bool {
    &&& 0 <= i
    &&& i + prefix.len() + n <= s.len()
    &&& s.subrange(i, i + prefix.len()) == prefix
    &&& forall|k: int|
        i + prefix.len() <= k < i + prefix.len() + n ==> is_token_char(#[trigger] s[k], also)
}

/// An access token of GitHub or GitLab stands at a position.
pub open spec fn holds_token(s: Seq<char>, i: int) -> bool {
    ||| holds_behind(s, i, "ghp_"@, 36, 'a')
    ||| holds_behind(s, i, "github_pat_"@, 22, '_')
    ||| holds_behind(s, i, "glpat-"@, 20, '-')
}

/// Tokens are found where they stand.
proof fn lemma_token(s: Seq<char>, i: int)
    ensures
        any_token_at(s, i) <==> holds_token(s, i),
{
    lemma_token_at(s, i, "ghp_"@, 36, None, 'a');
    lemma_token_at(s, i, "github_pat_"@, 22, Some('_'), '_');
    lemma_token_at(s, i, "glpat-"@, 20, Some('-'), '-');
}

/// One kind of token is found where it stands.
proof fn lemma_token_at(
    s: Seq<char>,
    i: int,
    prefix: Seq<char>,
    n: int,
    also: Option<char>,
    c: char,
)
    requires
        n >= 0,
        also == Some(c) || also is None && is_alnum(c),
    ensures
        token_at(s, i, prefix, n, also) <==> holds_behind(s, i, prefix, n, c),
{
    if token_at(s, i, prefix, n, also) {
        assert forall|k: int|
            i + prefix.len() <= k < i + prefix.len() + n implies is_token_char(
            #[trigger] s[k],
            c,
        ) by {
            assert(is_alnum(s[k]) || also == Some(s[k]));
        }
    }
    if holds_behind(s, i, prefix, n, c) {
        assert forall|k: int| i + prefix.len() <= k < i + prefix.len() + n implies is_alnum(
            #[trigger] s[k],
        ) || also == Some(s[k]) by {
            assert(is_token_char(s[k], c));
        }
    }
}

/// A push that failed is told with its exit code and its output, without
/// credentials, and with advice where the output says what is missing:
/// credentials, a remote, or the remote's commits.
#[verifier::rlimit(40)]
pub proof fn law_failed_push_is_advised(
    p: &GitPushParams,
    branch: &str,
    code: i32,
    output: &str,
    r: Result<GitPushOutcome, ToolError>,
)
    requires
        call_ensures(GitPushParams::finish, (p, branch, code, output), r),
        code != 0,
    ensures
        r is Err,
        r->Err_0.kind == ErrorKind::InvalidRequest,
        contains_text(r->Err_0.message@, trim(output@)),
        ({
            let told = trim(output@);
            let lacks_credentials = contains_text(told, "Authentication"@) || contains_text(
                told,
                "authentication"@,
            ) || contains_text(told, "could not read Username"@) || contains_text(
                told,
                "terminal prompts disabled"@,
            );
            let lacks_remote = contains_text(told, "No configured push destination"@)
                || contains_text(told, "No such remote"@);
            let lacks_commits = contains_text(told, "non-fast-forward"@) || contains_text(
                told,
                "rejected"@,
            ) || contains_text(told, "fetch first"@);
            &&& lacks_credentials ==> "inject an SSH key."@.is_suffix_of(r->Err_0.message@)
            &&& !lacks_credentials && lacks_remote
                ==> "remote add origin <url>\")."@.is_suffix_of(r->Err_0.message@)
            &&& !lacks_credentials && !lacks_remote && lacks_commits
                ==> "use force=true to force push."@.is_suffix_of(r->Err_0.message@)
            &&& !lacks_credentials && !lacks_remote && !lacks_commits ==> r->Err_0.message@
                == "git push failed (exit code "@ + signed(code as int) + "): "@ + told + "."@
        }),
{
    let told = trim(output@);
    let s = r->Err_0.message@;
    let head = "git push failed (exit code "@ + signed(code as int) + "): "@;
    let advice = push_advice(told);
    assert(s =~= head + told + ("."@ + advice));
    law_containing_is_standing_somewhere(head, told, "."@ + advice);
    reveal_strlit("");
    reveal_strlit("inject an SSH key.");
    reveal_strlit("remote add origin <url>\").");
    reveal_strlit("use force=true to force push.");
    reveal_strlit(" Suggestion: use set_env to configure git credentials (e.g. GIT_ASKPASS, GITHUB_TOKEN) or inject an SSH key.");
    reveal_strlit(" Suggestion: configure a remote first with exec(command=\"git -C /workspace remote add origin <url>\").");
    reveal_strlit(" Suggestion: pull/merge first, or use force=true to force push.");
    assert(""@ =~= Seq::<char>::empty());
    let a = "inject an SSH key."@;
    let b = "remote add origin <url>\")."@;
    let c = "use force=true to force push."@;
    if a.len() <= advice.len() {
        assert(s.subrange(s.len() - a.len(), s.len() as int) =~= advice.subrange(
            advice.len() - a.len(),
            advice.len() as int,
        ));
    }
    if b.len() <= advice.len() {
        assert(s.subrange(s.len() - b.len(), s.len() as int) =~= advice.subrange(
            advice.len() - b.len(),
            advice.len() as int,
        ));
    }
    if c.len() <= advice.len() {
        assert(s.subrange(s.len() - c.len(), s.len() as int) =~= advice.subrange(
            advice.len() - c.len(),
            advice.len() as int,
        ));
    }
    if advice == " Suggestion: use set_env to configure git credentials (e.g. GIT_ASKPASS, GITHUB_TOKEN) or inject an SSH key."@ {
        assert(advice.subrange(advice.len() - a.len(), advice.len() as int) =~= a);
    }
    if advice == " Suggestion: configure a remote first with exec(command=\"git -C /workspace remote add origin <url>\")."@ {
        assert(advice.subrange(advice.len() - b.len(), advice.len() as int) =~= b);
    }
    if advice == " Suggestion: pull/merge first, or use force=true to force push."@ {
        assert(advice.subrange(advice.len() - c.len(), advice.len() as int) =~= c);
    }
    assert(s =~= head + told + "."@ + advice);
}

/// A git command that failed is told with its exit code, and with what it
/// complained of: its errors, or its output where it printed no errors.
pub proof fn law_failed_git_command_tells_why(
    p: &GitCloneParams,
    workspace: u128,
    reply: &Result<ExecReply, String>,
    next: Next<CloneStage, GitCloneOutcome>,
)
    requires
        call_ensures(GitCloneParams::step, (p, workspace, CloneStage::Cloning, reply), next),
        reply is Ok,
        reply->Ok_0.exit_code != 0,
    ensures
        next is Fail,
        next->Fail_0.kind == ErrorKind::InvalidRequest,
        next->Fail_0.message@ == "git clone failed (exit code "@ + signed(
            reply->Ok_0.exit_code as int,
        ) + "): "@ + trim(
            if reply->Ok_0.stderr@.len() > 0 {
                reply->Ok_0.stderr@
            } else {
                reply->Ok_0.stdout@
            },
        ),
{
    reveal_strlit("git clone");
    reveal_strlit(" failed (exit code ");
    reveal_strlit("git clone failed (exit code ");
    assert("git clone"@ + " failed (exit code "@ =~= "git clone failed (exit code "@);
}

} // verus!
