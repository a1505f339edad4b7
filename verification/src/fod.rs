//! Fixed-output derivations: the expressions to build, and the hash that Nix reports for them.
use vstd::prelude::*;
use vstd::utf8::{
    decode_utf8, decode_utf8_encode_utf8, encode_utf8, encode_utf8_decode_utf8, valid_utf8,
};

use crate::command::Command;
use crate::text::{
    all_white, is_trimmed, is_white_space, law_affixes, law_trimming,
    law_white_space_around_is_dropped, law_white_space_before_is_dropped, lemma_white_after,
    lemma_white_before, strip_prefix, text_of, trim, trim_start, trimmed, trimmed_start, utf8_text,
    without_prefix,
};

verus! {

/// The hash that stands where the true one is not known.
pub const FAKE_HASH: &'static str = "sha256-AAAAAAAAAAAAAAAAAAAAAAAAAAAAAAAAAAAAAAAAAAA=";

/// What a program that ran to its end left behind.
#[derive(Debug)]
pub struct Finished {
    pub success: bool,
    pub stderr: Vec<u8>,
}

/// The index of the first newline byte, or the length where there is none.
pub open spec fn line_end(bytes: Seq<u8>) -> nat
    decreases bytes.len(),
{
    if bytes.len() == 0 || bytes[0] == 0x0au8 {
        0
    } else {
        1 + line_end(bytes.drop_first())
    }
}

/// A line without the carriage return that may precede its newline.
pub open spec fn without_return(line: Seq<u8>) -> Seq<u8> {
    if line.len() > 0 && line.last() == 0x0du8 {
        line.drop_last()
    } else {
        line
    }
}

/// The lines of `bytes`, without their line endings. What follows the last newline is a line
/// only if it is not empty, and keeps all its bytes.
pub open spec fn byte_lines(bytes: Seq<u8>) -> Seq<Seq<u8>>
    decreases bytes.len(),
{
    let n = line_end(bytes);
    if bytes.len() == 0 {
        Seq::empty()
    } else if n >= bytes.len() {
        seq![bytes]
    } else {
        seq![without_return(bytes.take(n as int))] + byte_lines(bytes.skip(n as int + 1))
    }
}

/// The text of a line, if it is well-formed UTF-8.
pub open spec fn line_text(line: Seq<u8>) -> Option<Seq<char>> {
    if valid_utf8(line) {
        Some(decode_utf8(line))
    } else {
        None
    }
}

/// The text of each line of `bytes`.
pub open spec fn text_lines(bytes: Seq<u8>) -> Seq<Option<Seq<char>>> {
    byte_lines(bytes).map_values(|line: Seq<u8>| line_text(line))
}

/// Tells whether a line announces the hash that was asked for.
pub open spec fn is_specified(line: Option<Seq<char>>) -> bool {
    line matches Some(l) && "specified:"@.is_prefix_of(trimmed_start(l))
}

/// The hash that a line reports, if it reports one.
pub open spec fn got_hash(line: Option<Seq<char>>) -> Option<Seq<char>> {
    match line {
        Some(l) => match without_prefix(trimmed_start(l), "got:"@) {
            Some(hash) => Some(trimmed(hash)),
            None => None,
        },
        None => None,
    }
}

/// The hash reported by the line after one that announces the hash asked for. A line that
/// follows such an announcement without reporting a hash is passed over with it.
pub open spec fn mismatch_hash(lines: Seq<Option<Seq<char>>>) -> Option<Seq<char>>
    decreases lines.len(),
{
    if lines.len() == 0 {
        None
    } else if !is_specified(lines[0]) {
        mismatch_hash(lines.skip(1))
    } else if lines.len() == 1 {
        None
    } else if got_hash(lines[1]) is Some {
        got_hash(lines[1])
    } else {
        mismatch_hash(lines.skip(2))
    }
}

/// The hash that a build reports: none if it could not be run or if it succeeded.
pub open spec fn reported_hash(output: Option<Finished>) -> Option<Seq<char>> {
    match output {
        Some(finished) => if finished.success {
            None
        } else {
            mismatch_hash(text_lines(finished.stderr@))
        },
        None => None,
    }
}

/// The texts of a list of optional strings.
pub open spec fn texts(list: Seq<Option<String>>) -> Seq<Option<Seq<char>>> {
    list.map_values(|s: Option<String>| text_of(s))
}

/// The end of the line that starts at `from`.
fn find_line_end(bytes: &[u8], from: usize) -> (end: usize)
    requires
        from <= bytes.len(),
    ensures
        from <= end <= bytes.len(),
        end - from == line_end(bytes@.skip(from as int)),
        end < bytes.len() ==> bytes@[end as int] == 0x0au8,
{
    let n: usize = bytes.len();
    let mut end: usize = from;
    while end < n && bytes[end] != 0x0au8
        invariant
            n == bytes.len(),
            from <= end <= n,
            line_end(bytes@.skip(from as int)) == end - from + line_end(bytes@.skip(end as int)),
        decreases n - end,
    {
        assert(bytes@.skip(end as int).drop_first() =~= bytes@.skip(end + 1));
        end = end + 1;
    }
    end
}

/// The text of the line between `from` and `to`, if it is well-formed UTF-8.
fn decode_line(bytes: &[u8], from: usize, to: usize) -> (r: Option<String>)
    requires
        from <= to <= bytes.len(),
    ensures
        text_of(r) == line_text(bytes@.subrange(from as int, to as int)),
{
    let mut line: Vec<u8> = Vec::new();
    let mut i: usize = from;
    while i < to
        invariant
            from <= i <= to <= bytes.len(),
            line@ == bytes@.subrange(from as int, i as int),
        decreases to - i,
    {
        line.push(bytes[i]);
        assert(bytes@.subrange(from as int, i + 1) =~= bytes@.subrange(from as int, i as int).push(
            bytes@[i as int],
        ));
        i = i + 1;
    }
    match utf8_text(line) {
        Ok(s) => Some(s),
        Err(_) => None,
    }
}

/// The text of each line of `bytes`.
pub fn split_lines(bytes: &[u8]) -> (r: Vec<Option<String>>)
    ensures
        texts(r@) == text_lines(bytes@),
{
    let n: usize = bytes.len();
    let mut lines: Vec<Option<String>> = Vec::new();
    let mut from: usize = 0;
    assert(bytes@.skip(0) =~= bytes@);
    assert(texts(lines@) + text_lines(bytes@) =~= text_lines(bytes@));
    while from < n
        invariant
            n == bytes.len(),
            from <= n,
            text_lines(bytes@) == texts(lines@) + text_lines(bytes@.skip(from as int)),
        decreases n - from,
    {
        let ghost rest = bytes@.skip(from as int);
        let ghost before = lines@;
        let end: usize = find_line_end(bytes, from);
        if end == n {
            assert(rest =~= bytes@.subrange(from as int, n as int));
            lines.push(decode_line(bytes, from, n));
            assert(text_lines(rest) =~= seq![line_text(rest)]);
            assert(bytes@.skip(n as int).len() == 0);
            from = n;
        } else {
            let ghost line = rest.take(end - from);
            assert(line =~= bytes@.subrange(from as int, end as int));
            let stop: usize = if end > from && bytes[end - 1] == 0x0du8 {
                end - 1
            } else {
                end
            };
            assert(without_return(line) =~= bytes@.subrange(from as int, stop as int));
            lines.push(decode_line(bytes, from, stop));
            assert(rest.skip(end - from + 1) =~= bytes@.skip(end + 1));
            assert(text_lines(rest) =~= seq![line_text(without_return(line))] + text_lines(
                bytes@.skip(end + 1),
            ));
            from = end + 1;
        }
        assert(texts(lines@) =~= texts(before).push(text_of(lines@.last())));
        assert(text_lines(bytes@) =~= texts(lines@) + text_lines(bytes@.skip(from as int)));
    }
    assert(bytes@.skip(n as int).len() == 0);
    assert(text_lines(bytes@) =~= texts(lines@));
    lines
}

/// The hash reported by the line after one that announces the hash asked for.
pub fn find_hash(lines: &Vec<Option<String>>) -> (r: Option<String>)
    ensures
        text_of(r) == mismatch_hash(texts(lines@)),
{
    let ghost all = texts(lines@);
    let n: usize = lines.len();
    let mut i: usize = 0;
    assert(all.skip(0) =~= all);
    while i < n
        invariant
            n == lines.len(),
            i <= n,
            all == texts(lines@),
            mismatch_hash(all) == mismatch_hash(all.skip(i as int)),
        decreases n - i,
    {
        let ghost rest = all.skip(i as int);
        assert(rest[0] == text_of(lines@[i as int]));
        assert(rest.skip(1) =~= all.skip(i + 1));
        let announced: bool = match &lines[i] {
            Some(line) => strip_prefix(trim_start(line), "specified:").is_some(),
            None => false,
        };
        i = i + 1;
        if announced {
            if i == n {
                return None;
            }
            assert(rest[1] == text_of(lines@[i as int]));
            assert(rest.skip(2) =~= all.skip(i + 1));
            if let Some(line) = &lines[i] {
                if let Some(hash) = strip_prefix(trim_start(line), "got:") {
                    return Some(trim(hash).to_owned());
                }
            }
            i = i + 1;
        }
    }
    None
}

/// The hash that a build reports: none if it could not be run or if it succeeded.
pub fn fod_hash(output: &Option<Finished>) -> (r: Option<String>)
    ensures
        text_of(r) == reported_hash(*output),
{
    match output {
        Some(finished) => {
            if finished.success {
                None
            } else {
                find_hash(&split_lines(finished.stderr.as_slice()))
            }
        },
        None => None,
    }
}

/// The command that builds the derivation `expr` and keeps no link to it.
pub fn fod_command(expr: &str) -> (r: Command)
    ensures
        r.runs(
            "nix"@,
            seq![
                "build"@,
                "--extra-experimental-features"@,
                "nix-command"@,
                "--impure"@,
                "--no-link"@,
                "--expr"@,
                expr@,
            ],
        ),
{
    let mut cmd = Command::new("nix");
    cmd.arg("build");
    cmd.arg("--extra-experimental-features");
    cmd.arg("nix-command");
    cmd.arg("--impure");
    cmd.arg("--no-link");
    cmd.arg("--expr");
    cmd.arg(expr);
    cmd
}

/// The derivation of a Go module with a vendor hash that cannot be right. `pname` and `version`
/// are string literals.
pub open spec fn go_modules_text(pname: Seq<char>, version: Seq<char>, src: Seq<char>) -> Seq<char> {
    "(import<nixpkgs>{}).buildGoModule{pname="@ + pname + ";version="@ + version + ";src="@ + src
        + ";vendorHash=\""@ + FAKE_HASH@ + "\";}"@
}

/// The derivation of a Go module with a vendor hash that cannot be right. `pname` and `version`
/// are string literals.
pub fn go_modules_expr(pname: &str, version: &str, src: &str) -> (r: String)
    ensures
        r@ == go_modules_text(pname@, version@, src@),
{
    let mut out = "(import<nixpkgs>{}).buildGoModule{pname=".to_owned();
    out.append(pname);
    out.append(";version=");
    out.append(version);
    out.append(";src=");
    out.append(src);
    out.append(";vendorHash=\"");
    out.append(FAKE_HASH);
    out.append("\";}");
    out
}

/// The derivation of the vendored crates of a Cargo package with a hash that cannot be right.
/// `pname` and `version` are the bare texts.
pub open spec fn cargo_tarball_text(pname: Seq<char>, version: Seq<char>, src: Seq<char>) -> Seq<
    char,
> {
    "(import<nixpkgs>{}).rustPlatform.fetchCargoTarball{name=\""@ + pname + "-"@ + version
        + "\";src="@ + src + ";hash=\""@ + FAKE_HASH@ + "\";}"@
}

/// The derivation of the vendored crates of a Cargo package with a hash that cannot be right.
/// `pname` and `version` are the bare texts.
pub fn cargo_tarball_expr(pname: &str, version: &str, src: &str) -> (r: String)
    ensures
        r@ == cargo_tarball_text(pname@, version@, src@),
{
    let mut out = "(import<nixpkgs>{}).rustPlatform.fetchCargoTarball{name=\"".to_owned();
    out.append(pname);
    out.append("-");
    out.append(version);
    out.append("\";src=");
    out.append(src);
    out.append(";hash=\"");
    out.append(FAKE_HASH);
    out.append("\";}");
    out
}

/// Tells whether line `i` announces the hash asked for and the next line reports `hash`.
pub open spec fn reports_at(lines: Seq<Option<Seq<char>>>, i: int, hash: Seq<char>) -> bool {
    0 <= i < lines.len() - 1 && is_specified(lines[i]) && got_hash(lines[i + 1]) == Some(hash)
}

/// A hash that is found was reported: it stands on a line right after one that announces the hash
/// asked for.
pub proof fn law_found_hash_was_reported(lines: Seq<Option<Seq<char>>>)
    ensures
        mismatch_hash(lines) matches Some(hash) ==> exists|i: int| reports_at(lines, i, hash),
    decreases lines.len(),
{
    if let Some(hash) = mismatch_hash(lines) {
        if is_specified(lines[0]) && got_hash(lines[1]) is Some {
            assert(reports_at(lines, 0, hash));
        } else {
            let n: int = if is_specified(lines[0]) {
                2
            } else {
                1
            };
            law_found_hash_was_reported(lines.skip(n));
            let i = choose|i: int| reports_at(lines.skip(n), i, hash);
            assert(lines.skip(n)[i] == lines[n + i]);
            assert(lines.skip(n)[i + 1] == lines[n + i + 1]);
            assert(reports_at(lines, n + i, hash));
        }
    }
}

/// A hash that is reported at the first announcement is found.
pub proof fn law_first_reported_hash_is_found(
    lines: Seq<Option<Seq<char>>>,
    i: int,
    hash: Seq<char>,
)
    requires
        reports_at(lines, i, hash),
        forall|j: int| 0 <= j < i ==> !is_specified(#[trigger] lines[j]),
    ensures
        mismatch_hash(lines) == Some(hash),
    decreases i,
{
    if i > 0 {
        let rest = lines.skip(1);
        assert(rest[i - 1] == lines[i]);
        assert(rest[i] == lines[i + 1]);
        assert forall|j: int| 0 <= j < i - 1 implies !is_specified(#[trigger] rest[j]) by {
            assert(rest[j] == lines[j + 1]);
        }
        law_first_reported_hash_is_found(rest, i - 1, hash);
    }
}

/// Without an announcement there is no hash, whatever else the lines hold.
pub proof fn law_no_hash_without_announcement(lines: Seq<Option<Seq<char>>>)
    requires
        forall|j: int| 0 <= j < lines.len() ==> !is_specified(#[trigger] lines[j]),
    ensures
        mismatch_hash(lines) is None,
    decreases lines.len(),
{
    if lines.len() > 0 {
        let rest = lines.skip(1);
        assert forall|j: int| 0 <= j < rest.len() implies !is_specified(#[trigger] rest[j]) by {
            assert(rest[j] == lines[j + 1]);
        }
        law_no_hash_without_announcement(rest);
    }
}

/// A hash that is found has no white space around it.
pub proof fn law_found_hash_is_trimmed(lines: Seq<Option<Seq<char>>>)
    ensures
        mismatch_hash(lines) matches Some(hash) ==> is_trimmed(hash),
{
    law_found_hash_was_reported(lines);
    if let Some(hash) = mismatch_hash(lines) {
        let i = choose|i: int| reports_at(lines, i, hash);
        let line = lines[i + 1]->0;
        law_trimming(without_prefix(trimmed_start(line), "got:"@)->0);
    }
}

/// The index of a line's end is that of the first newline.
proof fn lemma_line_end(line: Seq<u8>, rest: Seq<u8>)
    requires
        forall|i: int| 0 <= i < line.len() ==> #[trigger] line[i] != 0x0au8,
        rest.len() > 0 ==> rest[0] == 0x0au8,
    ensures
        line_end(line + rest) == line.len(),
    decreases line.len(),
{
    if line.len() == 0 {
        assert(line + rest =~= rest);
    } else {
        let tail = line.drop_first();
        assert forall|i: int| 0 <= i < tail.len() implies #[trigger] tail[i] != 0x0au8 by {
            assert(tail[i] == line[i + 1]);
        }
        lemma_line_end(tail, rest);
        assert((line + rest).drop_first() =~= tail + rest);
        assert((line + rest)[0] == line[0]);
    }
}

/// A line with its newline comes first among the lines, and what follows it gives the others.
pub proof fn law_a_line_comes_first(line: Seq<u8>, rest: Seq<u8>)
    requires
        forall|i: int| 0 <= i < line.len() ==> #[trigger] line[i] != 0x0au8,
    ensures
        byte_lines(line + seq![0x0au8] + rest) == seq![without_return(line)] + byte_lines(rest),
{
    let all = line + seq![0x0au8] + rest;
    let tail = seq![0x0au8] + rest;
    assert(all =~= line + tail);
    lemma_line_end(line, tail);
    assert(all.take(line.len() as int) =~= line);
    assert(all.skip(line.len() as int + 1) =~= rest);
}

/// A last line needs no newline, and keeps all its bytes without one.
pub proof fn law_last_line_needs_no_newline(line: Seq<u8>)
    requires
        line.len() > 0,
        forall|i: int| 0 <= i < line.len() ==> #[trigger] line[i] != 0x0au8,
    ensures
        byte_lines(line) == seq![line],
{
    lemma_line_end(line, Seq::empty());
    assert(line + Seq::<u8>::empty() =~= line);
}

/// Tells whether a line is white space, `got:`, white space, `hash` and white space.
pub open spec fn is_got_line(
    line: Seq<char>,
    before: Seq<char>,
    between: Seq<char>,
    hash: Seq<char>,
    after: Seq<char>,
) -> bool {
    &&& all_white(before)
    &&& all_white(between)
    &&& all_white(after)
    &&& line == before + "got:"@ + between + hash + after
}

/// A line that says `got:` reports all that it says after it, but for the white space around.
pub proof fn law_got_line_reports_the_whole_hash(
    before: Seq<char>,
    between: Seq<char>,
    hash: Seq<char>,
    after: Seq<char>,
)
    requires
        all_white(before),
        all_white(between),
        all_white(after),
        hash.len() > 0 ==> !is_white_space(hash[0]) && !is_white_space(hash.last()),
    ensures
        got_hash(Some(before + "got:"@ + between + hash + after)) == Some(hash),
{
    reveal_strlit("got:");
    let rest = between + hash + after;
    let said = "got:"@ + rest;
    assert(before + "got:"@ + between + hash + after =~= before + said);
    assert(said[0] == 'g');
    law_white_space_before_is_dropped(before, said);
    law_affixes("got:"@, rest, said);
    law_white_space_around_is_dropped(between, hash, after);
}

/// Only a line that says `got:` reports a hash: the one that it says.
pub proof fn law_reported_hash_stands_on_its_line(line: Option<Seq<char>>)
    ensures
        got_hash(line) matches Some(hash) ==> line is Some && exists|
            before: Seq<char>,
            between: Seq<char>,
            after: Seq<char>,
        |
            is_got_line(line->0, before, between, hash, after),
{
    if let Some(hash) = got_hash(line) {
        let l = line->0;
        let before = lemma_white_before(l);
        let said = trimmed_start(l);
        law_affixes("got:"@, Seq::empty(), said);
        let rest = without_prefix(said, "got:"@)->0;
        let between = lemma_white_before(rest);
        let after = lemma_white_after(trimmed_start(rest));
        assert(l =~= before + "got:"@ + between + hash + after);
        assert(is_got_line(l, before, between, hash, after));
    }
}

/// Tells whether a line is white space, `specified:` and anything after it.
pub open spec fn is_specified_line(line: Seq<char>, before: Seq<char>, after: Seq<char>) -> bool {
    all_white(before) && line == before + "specified:"@ + after
}

/// The lines that announce a hash are those that say `specified:` after white space at most.
pub proof fn law_announcements(line: Seq<char>)
    ensures
        is_specified(Some(line)) <==> exists|before: Seq<char>, after: Seq<char>|
            is_specified_line(line, before, after),
        !is_specified(None),
{
    reveal_strlit("specified:");
    if is_specified(Some(line)) {
        let before = lemma_white_before(line);
        let said = trimmed_start(line);
        let after = said.skip("specified:"@.len() as int);
        assert(said =~= "specified:"@ + after);
        assert(line =~= before + "specified:"@ + after);
        assert(is_specified_line(line, before, after));
    }
    if exists|before: Seq<char>, after: Seq<char>| is_specified_line(line, before, after) {
        let (before, after) = choose|before: Seq<char>, after: Seq<char>|
            is_specified_line(line, before, after);
        let said = "specified:"@ + after;
        assert(line =~= before + said);
        assert(said[0] == 's');
        law_white_space_before_is_dropped(before, said);
        assert(said.subrange(0, "specified:"@.len() as int) =~= "specified:"@);
    }
}

/// The lines are read in turn. One that announces nothing changes nothing. An announcement takes
/// the next line with it: its hash is the result, and if it has none, both change nothing. At the
/// end there is no hash.
pub proof fn law_lines_are_read_in_turn(
    line: Option<Seq<char>>,
    next: Option<Seq<char>>,
    rest: Seq<Option<Seq<char>>>,
)
    ensures
        mismatch_hash(Seq::empty()) is None,
        mismatch_hash(seq![line]) is None,
        !is_specified(line) ==> mismatch_hash(seq![line] + rest) == mismatch_hash(rest),
        is_specified(line) ==> mismatch_hash(seq![line, next] + rest) == match got_hash(next) {
            Some(hash) => Some(hash),
            None => mismatch_hash(rest),
        },
{
    let one = seq![line];
    assert(one.skip(1) =~= Seq::empty());
    assert((one + rest).skip(1) =~= rest);
    assert((one + rest)[0] == line);
    let both = seq![line, next] + rest;
    assert(both[0] == line && both[1] == next);
    assert(both.skip(2) =~= rest);
}

/// A line ends with a newline, or with a carriage return and a newline, and neither belongs to it.
pub proof fn law_line_endings(line: Seq<u8>, rest: Seq<u8>)
    requires
        forall|i: int| 0 <= i < line.len() ==> #[trigger] line[i] != 0x0au8,
    ensures
        byte_lines(Seq::empty()) == Seq::<Seq<u8>>::empty(),
        byte_lines(line + seq![0x0du8, 0x0au8] + rest) == seq![line] + byte_lines(rest),
        line.len() == 0 || line.last() != 0x0du8 ==> byte_lines(line + seq![0x0au8] + rest)
            == seq![line] + byte_lines(rest),
{
    law_a_line_comes_first(line, rest);
    let returned = line.push(0x0du8);
    law_a_line_comes_first(returned, rest);
    assert(returned + seq![0x0au8] + rest =~= line + seq![0x0du8, 0x0au8] + rest);
    assert(returned.drop_last() =~= line);
}

/// What is read of a line that is UTF-8 is all of it; a line that is not cannot be read.
pub proof fn law_lines_are_read_whole(line: Seq<u8>, rest: Seq<u8>)
    requires
        forall|i: int| 0 <= i < line.len() ==> #[trigger] line[i] != 0x0au8,
        line.len() == 0 || line.last() != 0x0du8,
    ensures
        ({
            let read = text_lines(line + seq![0x0au8] + rest);
            &&& read.len() > 0
            &&& read.drop_first() == text_lines(rest)
            &&& read[0] is Some <==> valid_utf8(line)
            &&& read[0] matches Some(text) ==> encode_utf8(text) == line
        }),
        text_lines(Seq::empty()) == Seq::<Option<Seq<char>>>::empty(),
{
    law_line_endings(line, rest);
    let read = text_lines(line + seq![0x0au8] + rest);
    assert(byte_lines(line + seq![0x0au8] + rest)[0] == line);
    assert(read[0] == line_text(line));
    assert(read.drop_first() =~= text_lines(rest));
    if valid_utf8(line) {
        decode_utf8_encode_utf8(line);
    }
    assert(text_lines(Seq::empty()) =~= Seq::empty());
}

/// The lines of two pieces of output are those of the first and those of the second, if the first
/// ends with a newline.
pub proof fn law_lines_of_two_pieces(first: Seq<u8>, second: Seq<u8>)
    requires
        first.len() > 0 ==> first.last() == 0x0au8,
    ensures
        byte_lines(first + second) == byte_lines(first) + byte_lines(second),
        text_lines(first + second) == text_lines(first) + text_lines(second),
    decreases first.len(),
{
    if first.len() == 0 {
        assert(first + second =~= second);
        assert(byte_lines(first) + byte_lines(second) =~= byte_lines(second));
    } else {
        lemma_newline_is_found(first);
        let n = line_end(first) as int;
        let line = first.take(n);
        let rest = first.skip(n + 1);
        assert(first =~= line + seq![0x0au8] + rest);
        assert(first + second =~= line + seq![0x0au8] + (rest + second));
        law_a_line_comes_first(line, rest);
        law_a_line_comes_first(line, rest + second);
        assert(rest.len() > 0 ==> rest.last() == first.last());
        law_lines_of_two_pieces(rest, second);
        assert(byte_lines(first + second) =~= byte_lines(first) + byte_lines(second));
    }
    assert(text_lines(first + second) =~= text_lines(first) + text_lines(second));
}

/// Where there is a newline, the first line ends before one, and holds none.
proof fn lemma_newline_is_found(bytes: Seq<u8>)
    requires
        bytes.contains(0x0au8) || (bytes.len() > 0 && bytes.last() == 0x0au8),
    ensures
        line_end(bytes) < bytes.len(),
        bytes[line_end(bytes) as int] == 0x0au8,
        forall|i: int| 0 <= i < line_end(bytes) ==> #[trigger] bytes[i] != 0x0au8,
    decreases bytes.len(),
{
    if bytes[0] != 0x0au8 {
        let rest = bytes.drop_first();
        if bytes.contains(0x0au8) {
            let i = choose|i: int| 0 <= i < bytes.len() && bytes[i] == 0x0au8;
            assert(rest[i - 1] == 0x0au8);
        }
        lemma_newline_is_found(rest);
        assert forall|i: int| 0 <= i < line_end(bytes) implies #[trigger] bytes[i] != 0x0au8 by {
            if i > 0 {
                assert(rest[i - 1] == bytes[i]);
            }
        }
    }
}

/// A build that fails reports the whole hash that its output says it got, right after the first
/// line that announces one. A build that succeeds, or cannot be run, reports none.
pub proof fn law_failed_build_reports_its_hash(
    output: Finished,
    earlier: Seq<u8>,
    announcement: Seq<u8>,
    report: Seq<u8>,
    later: Seq<u8>,
    hash: Seq<char>,
)
    requires
        output.stderr@ == earlier + announcement + seq![0x0au8] + report + seq![0x0au8] + later,
        earlier.len() > 0 ==> earlier.last() == 0x0au8,
        forall|i: int|
            0 <= i < text_lines(earlier).len() ==> !is_specified(#[trigger] text_lines(earlier)[i]),
        is_whole_line(announcement),
        is_whole_line(report),
        exists|before: Seq<char>, after: Seq<char>|
            is_specified_line(decode_utf8(announcement), before, after),
        hash.len() > 0 ==> !is_white_space(hash[0]) && !is_white_space(hash.last()),
        exists|before: Seq<char>, between: Seq<char>, after: Seq<char>|
            is_got_line(decode_utf8(report), before, between, hash, after),
    ensures
        reported_hash(Some(output)) == if output.success {
            None
        } else {
            Some(hash)
        },
        reported_hash(None) is None,
{
    let rest = report + seq![0x0au8] + later;
    let tail = announcement + seq![0x0au8] + rest;
    assert(output.stderr@ =~= earlier + tail);
    law_lines_of_two_pieces(earlier, tail);
    law_lines_are_read_whole(announcement, rest);
    law_lines_are_read_whole(report, later);
    decode_utf8_encode_utf8(announcement);
    let all = text_lines(output.stderr@);
    let n = text_lines(earlier).len() as int;
    let first = text_lines(tail)[0]->0;
    let second = text_lines(rest)[0]->0;
    encode_utf8_decode_utf8(first);
    encode_utf8_decode_utf8(second);
    assert(all[n] == Some(first));
    assert(all[n + 1] == text_lines(tail)[1]);
    assert(text_lines(tail)[1] == text_lines(tail).drop_first()[0]);
    assert(all[n + 1] == Some(second));
    law_announcements(first);
    let (before, between, after) = choose|
        before: Seq<char>,
        between: Seq<char>,
        after: Seq<char>,
    |
        is_got_line(decode_utf8(report), before, between, hash, after);
    law_got_line_reports_the_whole_hash(before, between, hash, after);
    assert(reports_at(all, n, hash));
    assert forall|j: int| 0 <= j < n implies !is_specified(#[trigger] all[j]) by {
        assert(all[j] == text_lines(earlier)[j]);
    }
    law_first_reported_hash_is_found(all, n, hash);
}

/// Tells whether bytes are UTF-8 and neither hold a newline nor end with a carriage return.
pub open spec fn is_whole_line(line: Seq<u8>) -> bool {
    &&& valid_utf8(line)
    &&& forall|i: int| 0 <= i < line.len() ==> #[trigger] line[i] != 0x0au8
    &&& line.len() == 0 || line.last() != 0x0du8
}

/// The fake hash has the shape of a hash: `sha256-`, 43 times the digit `A`, and `=`.
pub proof fn law_fake_hash()
    ensures
        FAKE_HASH@ == "sha256-"@ + Seq::new(43, |i: int| 'A') + "="@,
{
    reveal_strlit("sha256-");
    reveal_strlit("=");
    reveal_strlit("sha256-AAAAAAAAAAAAAAAAAAAAAAAAAAAAAAAAAAAAAAAAAAA=");
    assert(FAKE_HASH@ =~= "sha256-"@ + Seq::new(43, |i: int| 'A') + "="@);
}

/// An attribute of a set, as an expression for Nix writes it: a name and a value.
pub open spec fn attribute(name: Seq<char>, value: Seq<char>) -> Seq<char> {
    name + "="@ + value + ";"@
}

/// The derivation of a Go module is a call with four attributes: name, version, source, and the
/// fake hash.
pub proof fn law_go_modules_attributes(pname: Seq<char>, version: Seq<char>, src: Seq<char>)
    ensures
        go_modules_text(pname, version, src) == "(import<nixpkgs>{}).buildGoModule{"@ + attribute(
            "pname"@,
            pname,
        ) + attribute("version"@, version) + attribute("src"@, src) + attribute(
            "vendorHash"@,
            "\""@ + FAKE_HASH@ + "\""@,
        ) + "}"@,
{
    reveal_strlit("(import<nixpkgs>{}).buildGoModule{pname=");
    reveal_strlit("(import<nixpkgs>{}).buildGoModule{");
    reveal_strlit("pname");
    reveal_strlit("=");
    reveal_strlit(";");
    reveal_strlit(";version=");
    reveal_strlit("version");
    reveal_strlit(";src=");
    reveal_strlit("src");
    reveal_strlit(";vendorHash=\"");
    reveal_strlit("vendorHash");
    reveal_strlit("\"");
    reveal_strlit("\";}");
    reveal_strlit("}");
    assert("(import<nixpkgs>{}).buildGoModule{pname="@ =~= "(import<nixpkgs>{}).buildGoModule{"@
        + "pname"@ + "="@);
    assert(";version="@ =~= ";"@ + "version"@ + "="@);
    assert(";src="@ =~= ";"@ + "src"@ + "="@);
    assert(";vendorHash=\""@ =~= ";"@ + "vendorHash"@ + "="@ + "\""@);
    assert("\";}"@ =~= "\""@ + ";"@ + "}"@);
    assert(go_modules_text(pname, version, src) =~= "(import<nixpkgs>{}).buildGoModule{"@
        + attribute("pname"@, pname) + attribute("version"@, version) + attribute("src"@, src)
        + attribute("vendorHash"@, "\""@ + FAKE_HASH@ + "\""@) + "}"@);
}

/// The derivation of vendored crates is a call with three attributes: a name of the package's name
/// and version, the source, and the fake hash.
pub proof fn law_cargo_tarball_attributes(pname: Seq<char>, version: Seq<char>, src: Seq<char>)
    ensures
        cargo_tarball_text(pname, version, src)
            == "(import<nixpkgs>{}).rustPlatform.fetchCargoTarball{"@ + attribute(
            "name"@,
            "\""@ + pname + "-"@ + version + "\""@,
        ) + attribute("src"@, src) + attribute("hash"@, "\""@ + FAKE_HASH@ + "\""@) + "}"@,
{
    reveal_strlit("(import<nixpkgs>{}).rustPlatform.fetchCargoTarball{name=\"");
    reveal_strlit("(import<nixpkgs>{}).rustPlatform.fetchCargoTarball{");
    reveal_strlit("name");
    reveal_strlit("=");
    reveal_strlit(";");
    reveal_strlit("-");
    reveal_strlit("\";src=");
    reveal_strlit("src");
    reveal_strlit(";hash=\"");
    reveal_strlit("hash");
    reveal_strlit("\"");
    reveal_strlit("\";}");
    reveal_strlit("}");
    assert("(import<nixpkgs>{}).rustPlatform.fetchCargoTarball{name=\""@
        =~= "(import<nixpkgs>{}).rustPlatform.fetchCargoTarball{"@ + "name"@ + "="@ + "\""@);
    assert("\";src="@ =~= "\""@ + ";"@ + "src"@ + "="@);
    assert(";hash=\""@ =~= ";"@ + "hash"@ + "="@ + "\""@);
    assert("\";}"@ =~= "\""@ + ";"@ + "}"@);
    assert(cargo_tarball_text(pname, version, src)
        =~= "(import<nixpkgs>{}).rustPlatform.fetchCargoTarball{"@ + attribute(
        "name"@,
        "\""@ + pname + "-"@ + version + "\""@,
    ) + attribute("src"@, src) + attribute("hash"@, "\""@ + FAKE_HASH@ + "\""@) + "}"@);
}

/// The texts of a list of optional strings are those of the strings, in their places.
pub proof fn law_texts_of_lines(list: Seq<Option<String>>, i: int)
    requires
        0 <= i < list.len(),
    ensures
        texts(list).len() == list.len(),
        texts(list)[i] == text_of(list[i]),
{
}

/// A build that fails reports what its lines do, and one that succeeds nothing, whatever they say.
pub proof fn law_only_failures_report(output: Finished)
    ensures
        output.success ==> reported_hash(Some(output)) is None,
        !output.success ==> reported_hash(Some(output)) == mismatch_hash(
            text_lines(output.stderr@),
        ),
{
}

/// Each line is read if it is UTF-8, and then in full.
pub proof fn law_each_line_is_read(bytes: Seq<u8>, i: int)
    requires
        0 <= i < byte_lines(bytes).len(),
    ensures
        text_lines(bytes).len() == byte_lines(bytes).len(),
        text_lines(bytes)[i] is Some <==> valid_utf8(byte_lines(bytes)[i]),
        text_lines(bytes)[i] matches Some(text) ==> encode_utf8(text) == byte_lines(bytes)[i],
{
    if valid_utf8(byte_lines(bytes)[i]) {
        decode_utf8_encode_utf8(byte_lines(bytes)[i]);
    }
}

} // verus!
