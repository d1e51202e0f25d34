//! The configuration file: `KEY=value` lines that hold the folders to sort
//! from and to save to.
use vstd::prelude::*;

use crate::text::{chars_of, find_char, find_char_in, lemma_find_char, lemma_find_char_at, views};

verus! {

/// The folders that the configuration names.
#[derive(Debug)]
pub struct Envs {
    pub incoming: String,
    pub save_path_a: String,
    pub save_path_d: String,
    pub save_path_g: String,
}

/// A line with one `\r` taken off its end, if it has one there.
pub open spec fn strip_cr(line: Seq<char>) -> Seq<char> {
    if line.len() > 0 && line.last() == '\r' {
        line.drop_last()
    } else {
        line
    }
}

/// The lines of a text as `str::lines` yields them: split after each `\n`,
/// without the `\n` and a `\r` just before it; a final `\n` starts no line.
pub open spec fn text_lines(s: Seq<char>) -> Seq<Seq<char>>
    decreases s.len(),
{
    if s.len() == 0 {
        seq![]
    } else {
        let k = find_char(s, '\n') as int;
        if k < s.len() {
            seq![strip_cr(s.subrange(0, k))] + text_lines(s.subrange(k + 1, s.len() as int))
        } else {
            seq![s]
        }
    }
}

/// Each line followed by a `\n`.
pub open spec fn lines_text(lines: Seq<Seq<char>>) -> Seq<char>
    decreases lines.len(),
{
    if lines.len() == 0 {
        seq![]
    } else {
        lines_text(lines.drop_last()) + lines.last() + seq!['\n']
    }
}

/// The text written for a list of lines: the lines joined by `\n`, and a final
/// `\n`.
pub open spec fn config_text(lines: Seq<Seq<char>>) -> Seq<char> {
    if lines.len() == 0 {
        seq!['\n']
    } else {
        lines_text(lines)
    }
}

/// What a line assigns to: the text before its first `=`.
pub open spec fn key_part(line: Seq<char>) -> Seq<char> {
    line.subrange(0, find_char(line, '=') as int)
}

/// What a line assigns: the text after its first `=` (empty without one).
pub open spec fn value_part(line: Seq<char>) -> Seq<char> {
    let k = find_char(line, '=');
    if k < line.len() {
        line.subrange(k as int + 1, line.len() as int)
    } else {
        seq![]
    }
}

/// Index of the first line that assigns to `key`, or `lines.len()`.
pub open spec fn first_key_line(lines: Seq<Seq<char>>, key: Seq<char>) -> nat
    decreases lines.len(),
{
    if lines.len() == 0 {
        0
    } else if key_part(lines[0]) == key {
        0
    } else {
        1 + first_key_line(lines.drop_first(), key)
    }
}

/// The value that the first line assigning to `key` gives it.
pub open spec fn assignment_of(lines: Seq<Seq<char>>, key: Seq<char>) -> Option<Seq<char>> {
    let i = first_key_line(lines, key);
    if i < lines.len() {
        Some(value_part(lines[i as int]))
    } else {
        None
    }
}

/// The line `key=value`.
pub open spec fn pair_line(key: Seq<char>, value: Seq<char>) -> Seq<char> {
    key + seq!['='] + value
}

/// The lines with `key=value` in place of the first line assigning to `key`,
/// or added at the end when no line does.
pub open spec fn assigned(lines: Seq<Seq<char>>, key: Seq<char>, value: Seq<char>) -> Seq<
    Seq<char>,
> {
    let i = first_key_line(lines, key);
    if i < lines.len() {
        lines.update(i as int, pair_line(key, value))
    } else {
        lines.push(pair_line(key, value))
    }
}

/// Lines that a text holds back exactly: none holds a `\n` or ends in `\r`.
pub open spec fn clean_lines(lines: Seq<Seq<char>>) -> bool {
    forall|i: int|
        0 <= i < lines.len() ==> !(#[trigger] lines[i]).contains('\n') && !(lines[i].len() > 0
            && lines[i].last() == '\r')
}

proof fn lemma_first_key_line(lines: Seq<Seq<char>>, key: Seq<char>)
    ensures
        first_key_line(lines, key) <= lines.len(),
        forall|j: int| 0 <= j < first_key_line(lines, key) ==> key_part(#[trigger] lines[j]) != key,
        first_key_line(lines, key) < lines.len() ==> key_part(lines[first_key_line(lines, key) as int])
            == key,
    decreases lines.len(),
{
    if lines.len() > 0 && key_part(lines[0]) != key {
        lemma_first_key_line(lines.drop_first(), key);
        assert forall|j: int| 0 <= j < first_key_line(lines, key) implies key_part(
            #[trigger] lines[j],
        ) != key by {
            if j > 0 {
                assert(lines[j] == lines.drop_first()[j - 1]);
            }
        }
    }
}

proof fn lemma_first_key_line_at(lines: Seq<Seq<char>>, key: Seq<char>, k: int)
    requires
        0 <= k <= lines.len(),
        forall|j: int| 0 <= j < k ==> key_part(#[trigger] lines[j]) != key,
        k < lines.len() ==> key_part(lines[k]) == key,
    ensures
        first_key_line(lines, key) == k,
    decreases lines.len(),
{
    if lines.len() > 0 && k > 0 {
        assert(key_part(lines[0]) != key);
        assert forall|j: int| 0 <= j < k - 1 implies key_part(#[trigger] lines.drop_first()[j])
            != key by {
            assert(lines.drop_first()[j] == lines[j + 1]);
        }
        lemma_first_key_line_at(lines.drop_first(), key, k - 1);
    }
}

/// The key and value of `key=value` come back out of it when the key holds no `=`.
proof fn lemma_pair_line_parts(key: Seq<char>, value: Seq<char>)
    requires
        !key.contains('='),
    ensures
        key_part(pair_line(key, value)) == key,
        value_part(pair_line(key, value)) == value,
{
    let line = pair_line(key, value);
    assert forall|j: int| 0 <= j < key.len() implies line[j] != '=' by {
        assert(line[j] == key[j]);
        if key[j] == '=' {
            assert(key.contains('='));
        }
    }
    assert(line[key.len() as int] == '=');
    lemma_find_char_at(line, '=', key.len() as int);
    assert(line.subrange(0, key.len() as int) =~= key);
    assert(line.subrange(key.len() as int + 1, line.len() as int) =~= value);
}

/// After `key=value` is assigned, the lines give `value` for `key`.
pub proof fn lemma_assigned_reads_back(lines: Seq<Seq<char>>, key: Seq<char>, value: Seq<char>)
    requires
        !key.contains('='),
    ensures
        assignment_of(assigned(lines, key, value), key) == Some(value),
{
    lemma_first_key_line(lines, key);
    lemma_pair_line_parts(key, value);
    let i = first_key_line(lines, key) as int;
    let after = assigned(lines, key, value);
    assert forall|j: int| 0 <= j < i implies key_part(#[trigger] after[j]) != key by {
        assert(after[j] == lines[j]);
    }
    lemma_first_key_line_at(after, key, i);
}

/// Assigning to `key` leaves what the lines give for every other key.
pub proof fn lemma_assigned_keeps_other_keys(
    lines: Seq<Seq<char>>,
    key: Seq<char>,
    value: Seq<char>,
    other: Seq<char>,
)
    requires
        !key.contains('='),
        other != key,
    ensures
        assignment_of(assigned(lines, key, value), other) == assignment_of(lines, other),
{
    lemma_first_key_line(lines, key);
    lemma_first_key_line(lines, other);
    lemma_pair_line_parts(key, value);
    let i = first_key_line(lines, key) as int;
    let k = first_key_line(lines, other) as int;
    let after = assigned(lines, key, value);
    if k < i {
        assert forall|j: int| 0 <= j < k implies key_part(#[trigger] after[j]) != other by {
            assert(after[j] == lines[j]);
        }
        assert(after[k] == lines[k]);
        lemma_first_key_line_at(after, other, k);
    } else if i == lines.len() {
        assert forall|j: int| 0 <= j < after.len() implies key_part(#[trigger] after[j]) != other by {
            if j < lines.len() {
                assert(after[j] == lines[j]);
            }
        }
        lemma_first_key_line_at(after, other, after.len() as int);
    } else {
        assert(k != i);
        assert forall|j: int| 0 <= j < k implies key_part(#[trigger] after[j]) != other by {
            if j != i {
                assert(after[j] == lines[j]);
            }
        }
        if k < lines.len() {
            assert(after[k] == lines[k]);
        }
        lemma_first_key_line_at(after, other, k);
    }
}

proof fn lemma_lines_text_front(first: Seq<char>, rest: Seq<Seq<char>>)
    ensures
        lines_text(seq![first] + rest) == first + seq!['\n'] + lines_text(rest),
    decreases rest.len(),
{
    if rest.len() == 0 {
        assert(seq![first] + rest =~= seq![first]);
        assert(seq![first].drop_last() =~= Seq::<Seq<char>>::empty());
        assert(lines_text(seq![first].drop_last()) == Seq::<char>::empty());
        assert(lines_text(seq![first]) =~= first + seq!['\n']);
    } else {
        lemma_lines_text_front(first, rest.drop_last());
        assert((seq![first] + rest).drop_last() =~= seq![first] + rest.drop_last());
        assert((seq![first] + rest).last() == rest.last());
        assert(lines_text(seq![first] + rest) =~= first + seq!['\n'] + lines_text(rest));
    }
}

/// The lines with one `\r` taken off the end of each that has one there.
pub open spec fn stripped_lines(lines: Seq<Seq<char>>) -> Seq<Seq<char>> {
    lines.map_values(|l: Seq<char>| strip_cr(l))
}

/// No line holds a `\n`.
pub open spec fn no_newlines(lines: Seq<Seq<char>>) -> bool {
    forall|i: int| 0 <= i < lines.len() ==> !(#[trigger] lines[i]).contains('\n')
}

/// Text written from lines without `\n` reads back as the same lines, each
/// with a final `\r` taken off.
pub proof fn lemma_lines_text_reads_stripped(lines: Seq<Seq<char>>)
    requires
        no_newlines(lines),
    ensures
        text_lines(lines_text(lines)) == stripped_lines(lines),
    decreases lines.len(),
{
    if lines.len() > 0 {
        let first = lines[0];
        let rest = lines.drop_first();
        assert(lines =~= seq![first] + rest);
        lemma_lines_text_front(first, rest);
        let s = lines_text(lines);
        assert(no_newlines(rest)) by {
            assert forall|i: int| 0 <= i < rest.len() implies !(#[trigger] rest[i]).contains('\n') by {
                assert(rest[i] == lines[i + 1]);
            }
        }
        lemma_lines_text_reads_stripped(rest);
        assert(!lines[0].contains('\n'));
        assert forall|j: int| 0 <= j < first.len() implies s[j] != '\n' by {
            assert(s[j] == first[j]);
            if first[j] == '\n' {
                assert(first.contains('\n'));
            }
        }
        assert(s[first.len() as int] == '\n');
        lemma_find_char_at(s, '\n', first.len() as int);
        assert(s.subrange(0, first.len() as int) =~= first);
        assert(s.subrange(first.len() as int + 1, s.len() as int) =~= lines_text(rest));
        assert(text_lines(s) =~= stripped_lines(lines));
    } else {
        assert(text_lines(lines_text(lines)) =~= stripped_lines(lines));
    }
}

/// Text written from clean lines reads back as the same lines.
pub proof fn lemma_lines_text_round_trip(lines: Seq<Seq<char>>)
    requires
        clean_lines(lines),
    ensures
        text_lines(lines_text(lines)) == lines,
{
    assert(no_newlines(lines)) by {
        assert forall|i: int| 0 <= i < lines.len() implies !(#[trigger] lines[i]).contains('\n') by {
            assert(clean_lines(lines));
        }
    }
    lemma_lines_text_reads_stripped(lines);
    assert(stripped_lines(lines) =~= lines);
}

/// No line of a text holds a `\n`.
proof fn lemma_text_lines_no_newline(s: Seq<char>)
    ensures
        forall|i: int| 0 <= i < text_lines(s).len() ==> !(#[trigger] text_lines(s)[i]).contains('\n'),
    decreases s.len(),
{
    if s.len() > 0 {
        let k = find_char(s, '\n') as int;
        lemma_find_char(s, '\n');
        if k < s.len() {
            let head = strip_cr(s.subrange(0, k));
            let rest = s.subrange(k + 1, s.len() as int);
            lemma_text_lines_no_newline(rest);
            assert(!head.contains('\n')) by {
                if head.contains('\n') {
                    let j = choose|j: int| 0 <= j < head.len() && head[j] == '\n';
                    assert(s[j] == '\n');
                }
            }
            assert forall|i: int| 0 <= i < text_lines(s).len() implies !(
            #[trigger] text_lines(s)[i]).contains('\n') by {
                if i > 0 {
                    assert(text_lines(s)[i] == text_lines(rest)[i - 1]);
                }
            }
        } else {
            assert(!s.contains('\n')) by {
                if s.contains('\n') {
                    let j = choose|j: int| 0 <= j < s.len() && s[j] == '\n';
                    assert(s[j] != '\n');
                }
            }
        }
    }
}

/// No line of a text ends in `\r` (so the text is read back as it was written).
pub open spec fn no_line_ends_in_cr(contents: Seq<char>) -> bool {
    forall|i: int|
        0 <= i < text_lines(contents).len() ==> !((#[trigger] text_lines(contents)[i]).len() > 0
            && text_lines(contents)[i].last() == '\r')
}

/// Setting a key in a configuration text: the new text reads back as the
/// assigned lines, and so gives the value for that key.
pub proof fn lemma_set_env_text_reads_back(contents: Seq<char>, key: Seq<char>, value: Seq<char>)
    requires
        no_line_ends_in_cr(contents),
        !key.contains('='),
        !key.contains('\n'),
        !value.contains('\n'),
        !(value.len() > 0 && value.last() == '\r'),
    ensures
        text_lines(config_text(assigned(text_lines(contents), key, value))) == assigned(
            text_lines(contents),
            key,
            value,
        ),
        assignment_of(text_lines(config_text(assigned(text_lines(contents), key, value))), key)
            == Some(value),
{
    let lines = text_lines(contents);
    let after = assigned(lines, key, value);
    let pair = pair_line(key, value);
    lemma_text_lines_no_newline(contents);
    lemma_first_key_line(lines, key);
    assert(!pair.contains('\n')) by {
        if pair.contains('\n') {
            let j = choose|j: int| 0 <= j < pair.len() && pair[j] == '\n';
            if j < key.len() {
                assert(key[j] == '\n');
                assert(key.contains('\n'));
            } else if j > key.len() {
                assert(value[j - key.len() - 1] == '\n');
                assert(value.contains('\n'));
            }
        }
    }
    assert(!(pair.len() > 0 && pair.last() == '\r')) by {
        if value.len() > 0 {
            assert(pair.last() == value.last());
        }
    }
    assert(clean_lines(after)) by {
        assert forall|i: int| 0 <= i < after.len() implies !(#[trigger] after[i]).contains('\n')
            && !(after[i].len() > 0 && after[i].last() == '\r') by {
            if i < lines.len() && after[i] == lines[i] {
                assert(!lines[i].contains('\n'));
            }
        }
    }
    assert(after.len() > 0);
    lemma_lines_text_round_trip(after);
    lemma_assigned_reads_back(lines, key, value);
}

/// Setting a key in a configuration text leaves what the text gives for every
/// other key.
pub proof fn lemma_set_env_text_keeps_other_keys(
    contents: Seq<char>,
    key: Seq<char>,
    value: Seq<char>,
    other: Seq<char>,
)
    requires
        no_line_ends_in_cr(contents),
        !key.contains('='),
        !key.contains('\n'),
        !value.contains('\n'),
        !(value.len() > 0 && value.last() == '\r'),
        other != key,
    ensures
        assignment_of(text_lines(config_text(assigned(text_lines(contents), key, value))), other)
            == assignment_of(text_lines(contents), other),
{
    lemma_set_env_text_reads_back(contents, key, value);
    lemma_assigned_keeps_other_keys(text_lines(contents), key, value, other);
}

/// Assigning to a key twice leaves what assigning the last value alone
/// leaves.
pub proof fn lemma_assigned_last_wins(
    lines: Seq<Seq<char>>,
    key: Seq<char>,
    first: Seq<char>,
    last: Seq<char>,
)
    requires
        !key.contains('='),
    ensures
        assigned(assigned(lines, key, first), key, last) == assigned(lines, key, last),
{
    lemma_first_key_line(lines, key);
    lemma_pair_line_parts(key, first);
    let i = first_key_line(lines, key) as int;
    let once = assigned(lines, key, first);
    assert forall|j: int| 0 <= j < i implies key_part(#[trigger] once[j]) != key by {
        assert(once[j] == lines[j]);
    }
    lemma_first_key_line_at(once, key, i);
    if i < lines.len() {
        assert(assigned(once, key, last) =~= assigned(lines, key, last));
    } else {
        assert(assigned(once, key, last) =~= assigned(lines, key, last));
    }
}

/// A value with one `\r` taken off its end, if it has one there.
pub open spec fn strip_value_cr(value: Seq<char>) -> Seq<char> {
    if value.len() > 0 && value.last() == '\r' {
        value.drop_last()
    } else {
        value
    }
}

/// A configuration text with `key=value` set reads back as the lines with
/// `key=value` set, the value's final `\r` (if any) taken off.
proof fn lemma_set_env_text_reads_stripped(contents: Seq<char>, key: Seq<char>, value: Seq<char>)
    requires
        no_line_ends_in_cr(contents),
        !key.contains('='),
        !key.contains('\n'),
        !value.contains('\n'),
    ensures
        text_lines(config_text(assigned(text_lines(contents), key, value))) == assigned(
            text_lines(contents),
            key,
            strip_value_cr(value),
        ),
{
    let lines = text_lines(contents);
    let after = assigned(lines, key, value);
    let pair = pair_line(key, value);
    lemma_text_lines_no_newline(contents);
    lemma_first_key_line(lines, key);
    assert(!pair.contains('\n')) by {
        if pair.contains('\n') {
            let j = choose|j: int| 0 <= j < pair.len() && pair[j] == '\n';
            if j < key.len() {
                assert(key[j] == '\n');
                assert(key.contains('\n'));
            } else if j > key.len() {
                assert(value[j - key.len() - 1] == '\n');
                assert(value.contains('\n'));
            }
        }
    }
    assert(strip_cr(pair) == pair_line(key, strip_value_cr(value))) by {
        if value.len() > 0 {
            assert(pair.last() == value.last());
            if value.last() == '\r' {
                assert(pair.drop_last() =~= pair_line(key, value.drop_last()));
            }
        }
    }
    assert(no_newlines(after)) by {
        assert forall|i: int| 0 <= i < after.len() implies !(#[trigger] after[i]).contains('\n') by {
            if i < lines.len() && after[i] == lines[i] {
                assert(!lines[i].contains('\n'));
            }
        }
    }
    assert(after.len() > 0);
    lemma_lines_text_reads_stripped(after);
    let expected = assigned(lines, key, strip_value_cr(value));
    assert forall|i: int| 0 <= i < after.len() implies #[trigger] stripped_lines(after)[i]
        == expected[i] by {
        let fk = first_key_line(lines, key) as int;
        assert(stripped_lines(after)[i] == strip_cr(after[i]));
        if i < lines.len() && i != fk {
            assert(after[i] == lines[i]);
            assert(expected[i] == lines[i]);
            assert(!((text_lines(contents)[i]).len() > 0 && text_lines(contents)[i].last() == '\r'));
        } else {
            assert(after[i] == pair);
            assert(expected[i] == pair_line(key, strip_value_cr(value)));
        }
    }
    assert(stripped_lines(after) =~= expected);
}

/// Setting a key in a configuration text twice leaves the text that setting
/// the second value alone leaves: the last write wins.
pub proof fn lemma_set_env_text_last_wins(
    contents: Seq<char>,
    key: Seq<char>,
    first: Seq<char>,
    last: Seq<char>,
)
    requires
        no_line_ends_in_cr(contents),
        !key.contains('='),
        !key.contains('\n'),
        !first.contains('\n'),
    ensures
        config_text(
            assigned(text_lines(config_text(assigned(text_lines(contents), key, first))), key, last),
        ) == config_text(assigned(text_lines(contents), key, last)),
{
    lemma_set_env_text_reads_stripped(contents, key, first);
    lemma_assigned_last_wins(text_lines(contents), key, strip_value_cr(first), last);
}

/// Setting a key to the same value twice leaves the text that setting it once
/// leaves.
pub proof fn lemma_set_env_text_repeatable(contents: Seq<char>, key: Seq<char>, value: Seq<char>)
    requires
        no_line_ends_in_cr(contents),
        !key.contains('='),
        !key.contains('\n'),
        !value.contains('\n'),
    ensures
        config_text(
            assigned(text_lines(config_text(assigned(text_lines(contents), key, value))), key, value),
        ) == config_text(assigned(text_lines(contents), key, value)),
{
    lemma_set_env_text_last_wins(contents, key, value, value);
}

/// Unfolds `text_lines` at the first `\n` of `s[start..]`.
proof fn lemma_text_lines_step(s: Seq<char>, start: int, i: int)
    requires
        0 <= start <= i < s.len(),
        s[i] == '\n',
        forall|j: int| start <= j < i ==> s[j] != '\n',
    ensures
        text_lines(s.subrange(start, s.len() as int)) == seq![strip_cr(s.subrange(start, i))]
            + text_lines(s.subrange(i + 1, s.len() as int)),
{
    let q = s.subrange(start, s.len() as int);
    assert forall|j: int| 0 <= j < i - start implies q[j] != '\n' by {
        assert(q[j] == s[start + j]);
    }
    lemma_find_char_at(q, '\n', i - start);
    assert(q.subrange(0, i - start) =~= s.subrange(start, i));
    assert(q.subrange(i - start + 1, q.len() as int) =~= s.subrange(i + 1, s.len() as int));
}

/// Unfolds `text_lines` on a final piece without `\n`.
proof fn lemma_text_lines_last(s: Seq<char>, start: int)
    requires
        0 <= start <= s.len(),
        forall|j: int| start <= j < s.len() ==> s[j] != '\n',
    ensures
        text_lines(s.subrange(start, s.len() as int)) == (if start < s.len() {
            seq![s.subrange(start, s.len() as int)]
        } else {
            Seq::<Seq<char>>::empty()
        }),
{
    let q = s.subrange(start, s.len() as int);
    if q.len() > 0 {
        assert forall|j: int| 0 <= j < q.len() implies q[j] != '\n' by {
            assert(q[j] == s[start + j]);
        }
        lemma_find_char_at(q, '\n', q.len() as int);
    }
}

impl Envs {
    /// The configuration key that holds the folder to sort.
    pub fn incoming_key() -> (key: &'static str)
        ensures
            key@ == "INCOMING_PATH"@,
    {
        "INCOMING_PATH"
    }

    /// The folder to sort when the configuration names none.
    pub fn default_incoming() -> (folder: &'static str)
        ensures
            folder@ == "home/"@,
    {
        "home/"
    }

    /// The text of a fresh configuration: every key present with no value.
    pub fn default_config_text() -> (text: &'static str)
        ensures
            text@ == "INCOMING_PATH=\nSAVE_PATH_A=\nSAVE_PATH_D=\nSAVE_PATH_G=\n"@,
    {
        "INCOMING_PATH=\nSAVE_PATH_A=\nSAVE_PATH_D=\nSAVE_PATH_G=\n"
    }

    /// The lines of a configuration text, as `str::lines` yields them.
    pub fn config_lines(contents: &str) -> (lines: Vec<String>)
        ensures
            views(lines@) == text_lines(contents@),
    {
        let cs = chars_of(contents);
        let n = cs.len();
        let mut lines: Vec<String> = Vec::new();
        let mut start: usize = 0;
        let mut i: usize = 0;
        assert(cs@.subrange(0, n as int) =~= cs@);
        while i < n
            invariant
                n == cs.len(),
                cs@ == contents@,
                start <= i <= n,
                forall|j: int| start <= j < i ==> cs@[j] != '\n',
                text_lines(contents@) == views(lines@) + text_lines(
                    cs@.subrange(start as int, n as int),
                ),
            decreases n - i,
        {
            if cs[i] == '\n' {
                proof {
                    lemma_text_lines_step(cs@, start as int, i as int);
                }
                let end = if i > start && cs[i - 1] == '\r' {
                    i - 1
                } else {
                    i
                };
                let line = contents.substring_char(start, end).to_owned();
                assert(line@ == strip_cr(cs@.subrange(start as int, i as int))) by {
                    let seg = cs@.subrange(start as int, i as int);
                    if i > start && cs@[i - 1] == '\r' {
                        assert(seg.drop_last() =~= cs@.subrange(start as int, end as int));
                    } else {
                        assert(seg =~= cs@.subrange(start as int, end as int));
                    }
                }
                let ghost before = lines@;
                lines.push(line);
                assert(views(lines@) =~= views(before).push(line@));
                assert(views(before) + (seq![line@] + text_lines(cs@.subrange(i + 1, n as int)))
                    =~= views(before).push(line@) + text_lines(cs@.subrange(i + 1, n as int)));
                start = i + 1;
            }
            i += 1;
        }
        proof {
            lemma_text_lines_last(cs@, start as int);
        }
        if start < n {
            let line = contents.substring_char(start, n).to_owned();
            let ghost before = lines@;
            lines.push(line);
            assert(views(lines@) =~= views(before).push(line@));
        } else {
            assert(views(lines@) + Seq::<Seq<char>>::empty() =~= views(lines@));
        }
        lines
    }

    /// Puts `key=value` in place of the first line that assigns to `key`, or
    /// adds it at the end when no line does.
    pub fn assign(lines: &mut Vec<String>, key: &str, value: &str)
        ensures
            views(final(lines)@) == assigned(views(old(lines)@), key@, value@),
    {
        let ghost ls = views(lines@);
        let mut pair = key.to_owned();
        pair.append("=");
        proof {
            reveal_strlit("=");
        }
        pair.append(value);
        assert(pair@ =~= pair_line(key@, value@));
        let key_owned = key.to_owned();
        let mut i: usize = 0;
        while i < lines.len()
            invariant
                ls == views(lines@),
                ls == views(old(lines)@),
                i <= lines.len(),
                key_owned@ == key@,
                pair@ == pair_line(key@, value@),
                forall|j: int| 0 <= j < i ==> key_part(#[trigger] ls[j]) != key@,
            decreases lines.len() - i,
        {
            let cs = chars_of(lines[i].as_str());
            let k = find_char_in(&cs, '=');
            proof {
                lemma_find_char(cs@, '=');
            }
            let head = lines[i].as_str().substring_char(0, k).to_owned();
            assert(head@ == key_part(ls[i as int]));
            if head == key_owned {
                proof {
                    lemma_first_key_line_at(ls, key@, i as int);
                }
                let ghost pv = pair@;
                let ghost prev = lines@;
                lines.set(i, pair);
                assert forall|j: int| 0 <= j < ls.len() implies #[trigger] views(lines@)[j]
                    == ls.update(i as int, pv)[j] by {
                    if j != i {
                        assert(lines@[j] == prev[j]);
                        assert(views(prev)[j] == prev[j]@);
                    }
                }
                assert(views(lines@) =~= ls.update(i as int, pair_line(key@, value@)));
                return;
            }
            i += 1;
        }
        proof {
            lemma_first_key_line_at(ls, key@, ls.len() as int);
        }
        lines.push(pair);
        assert(views(lines@) =~= ls.push(pair_line(key@, value@)));
    }

    /// The text of a list of lines: joined by `\n`, with a final `\n`.
    pub fn config_text(lines: &Vec<String>) -> (text: String)
        ensures
            text@ == config_text(views(lines@)),
    {
        let mut text = String::new();
        proof {
            reveal_strlit("\n");
        }
        if lines.len() == 0 {
            text.append("\n");
            return text;
        }
        let mut i: usize = 0;
        while i < lines.len()
            invariant
                i <= lines.len(),
                text@ == lines_text(views(lines@).take(i as int)),
            decreases lines.len() - i,
        {
            text.append(lines[i].as_str());
            text.append("\n");
            proof {
                reveal_strlit("\n");
            }
            assert(views(lines@).take(i + 1).drop_last() =~= views(lines@).take(i as int));
            assert(views(lines@).take(i + 1).last() == lines@[i as int]@);
            i += 1;
        }
        assert(views(lines@).take(lines.len() as int) =~= views(lines@));
        text
    }

    /// The new text of a configuration after setting `key` to `value`: the
    /// first line that assigns to `key` gives way to `key=value`, or that line
    /// is added at the end; the lines are written back joined by `\n`, with a
    /// final `\n`.
    pub fn set_env_text(contents: &str, key: &str, value: &str) -> (text: String)
        ensures
            text@ == config_text(assigned(text_lines(contents@), key@, value@)),
    {
        let mut lines = Self::config_lines(contents);
        Self::assign(&mut lines, key, value);
        Self::config_text(&lines)
    }
}

} // verus!
