//! Names of user-defined operations.
//!
//! A processor description declares its user-defined operations in source
//! files that pull in one another. An operation has no number of its own: it
//! is numbered by its place in the whole declaration order, each file taken
//! once, where it is first pulled in. Whoever calls this module reads the
//! files; what they declare, in which order, is decided here.

use crate::text::{
    before_first, chars_of, copy_of, has_prefix, head, head_text, lower, same, split_first, split_once, split_words,
    starts_with, string_of, text_pos_from, texts, to_lower, trim, trim_start, trim_trailing, trimmed, trimmed_start,
    without_trailing, words, push_text,
};
use std::collections::HashMap;
use vstd::prelude::*;

verus! {

/// Which description an architecture name stands for, once in lower case.
pub open spec fn description_of(arch: Seq<char>) -> Option<(Seq<char>, Seq<char>)> {
    if arch == "x86-64"@ || arch == "x86_64"@ || arch == "x64"@ || arch == "amd64"@ {
        Some(("x86"@, "x86-64.slaspec"@))
    } else if arch == "x86"@ || arch == "x86-32"@ || arch == "i386"@ || arch == "i686"@ {
        Some(("x86"@, "x86.slaspec"@))
    } else if arch == "arm"@ || arch == "arm32"@ || arch == "arm-le"@ {
        Some(("ARM"@, "ARM8_le.slaspec"@))
    } else if arch == "aarch64"@ || arch == "arm64"@ || arch == "arm64e"@ {
        Some(("AARCH64"@, "AARCH64_AppleSilicon.slaspec"@))
    } else if arch == "riscv64"@ || arch == "rv64"@ || arch == "rv64gc"@ {
        Some(("RISCV"@, "riscv.lp64d.slaspec"@))
    } else if arch == "riscv32"@ || arch == "rv32"@ || arch == "rv32gc"@ {
        Some(("RISCV"@, "riscv.ilp32d.slaspec"@))
    } else if arch == "6502"@ || arch == "mos6502"@ || arch == "nmos6502"@ {
        Some(("6502"@, "6502.slaspec"@))
    } else if arch == "65c02"@ || arch == "cmos6502"@ {
        Some(("6502"@, "65c02.slaspec"@))
    } else {
        None
    }
}

/// The processor directory and description file of an architecture.
///
/// The NMOS 6502 and its CMOS successor have descriptions of their own: the
/// later part defines opcodes that the earlier one leaves undefined, so one
/// must never stand in for the other. An unknown name has no description.
pub fn arch_to_slaspec(arch: &str) -> (r: Option<(&'static str, &'static str)>)
    ensures
        r is Some == description_of(lower(arch@)) is Some,
        r matches Some(found) ==> (found.0@, found.1@) == description_of(lower(arch@))->0,
{
    let key = to_lower(arch);
    let k = key.as_str();
    if same(k, "x86-64") || same(k, "x86_64") || same(k, "x64") || same(k, "amd64") {
        Some(("x86", "x86-64.slaspec"))
    } else if same(k, "x86") || same(k, "x86-32") || same(k, "i386") || same(k, "i686") {
        Some(("x86", "x86.slaspec"))
    } else if same(k, "arm") || same(k, "arm32") || same(k, "arm-le") {
        Some(("ARM", "ARM8_le.slaspec"))
    } else if same(k, "aarch64") || same(k, "arm64") || same(k, "arm64e") {
        Some(("AARCH64", "AARCH64_AppleSilicon.slaspec"))
    } else if same(k, "riscv64") || same(k, "rv64") || same(k, "rv64gc") {
        Some(("RISCV", "riscv.lp64d.slaspec"))
    } else if same(k, "riscv32") || same(k, "rv32") || same(k, "rv32gc") {
        Some(("RISCV", "riscv.ilp32d.slaspec"))
    } else if same(k, "6502") || same(k, "mos6502") || same(k, "nmos6502") {
        Some(("6502", "6502.slaspec"))
    } else if same(k, "65c02") || same(k, "cmos6502") {
        Some(("6502", "65c02.slaspec"))
    } else {
        None
    }
}

/// Case is no part of an architecture's name.
pub proof fn lookup_ignores_case(a: Seq<char>, b: Seq<char>)
    requires
        lower(a) == lower(b),
    ensures
        description_of(lower(a)) == description_of(lower(b)),
{
}

/// The NMOS and the CMOS 6502 live in one directory and share no description.
pub proof fn the_two_6502s_stay_distinct()
    ensures
        description_of("6502"@) is Some,
        description_of("65c02"@) is Some,
        ({
            let (nmos_dir, nmos_file) = description_of("6502"@)->0;
            let (cmos_dir, cmos_file) = description_of("65c02"@)->0;
            nmos_dir == cmos_dir && nmos_file != cmos_file
        }),
        description_of("mos6502"@) == description_of("6502"@),
        description_of("nmos6502"@) == description_of("6502"@),
        description_of("cmos6502"@) == description_of("65c02"@),
{
    reveal_all_names();
    assert("6502.slaspec"@.len() != "65c02.slaspec"@.len());
}

proof fn reveal_all_names()
    ensures
        "6502"@.len() == 4,
        "65c02"@.len() == 5,
        "6502.slaspec"@.len() == 12,
        "65c02.slaspec"@.len() == 13,
        "6502"@[0] == '6',
        "65c02"@[0] == '6',
        "6502"@[2] == '0',
        "mos6502"@.len() == 7,
        "mos6502"@[0] == 'm',
        "nmos6502"@.len() == 8,
        "nmos6502"@[0] == 'n',
        "cmos6502"@.len() == 8,
        "cmos6502"@[0] == 'c',
        "x86-64"@[0] == 'x',
        "x86_64"@[0] == 'x',
        "x64"@[0] == 'x',
        "amd64"@[0] == 'a',
        "x86"@[0] == 'x',
        "x86-32"@[0] == 'x',
        "i386"@[0] == 'i',
        "i686"@[0] == 'i',
        "arm"@[0] == 'a',
        "arm32"@[0] == 'a',
        "arm-le"@[0] == 'a',
        "aarch64"@[0] == 'a',
        "arm64"@[0] == 'a',
        "arm64e"@[0] == 'a',
        "riscv64"@[0] == 'r',
        "rv64"@[0] == 'r',
        "rv64gc"@[0] == 'r',
        "riscv32"@[0] == 'r',
        "rv32"@[0] == 'r',
        "rv32gc"@[0] == 'r',
{
    reveal_strlit("6502");
    reveal_strlit("65c02");
    reveal_strlit("6502.slaspec");
    reveal_strlit("65c02.slaspec");
    reveal_strlit("mos6502");
    reveal_strlit("nmos6502");
    reveal_strlit("cmos6502");
    reveal_strlit("x86-64");
    reveal_strlit("x86_64");
    reveal_strlit("x64");
    reveal_strlit("amd64");
    reveal_strlit("x86");
    reveal_strlit("x86-32");
    reveal_strlit("i386");
    reveal_strlit("i686");
    reveal_strlit("arm");
    reveal_strlit("arm32");
    reveal_strlit("arm-le");
    reveal_strlit("aarch64");
    reveal_strlit("arm64");
    reveal_strlit("arm64e");
    reveal_strlit("riscv64");
    reveal_strlit("rv64");
    reveal_strlit("rv64gc");
    reveal_strlit("riscv32");
    reveal_strlit("rv32");
    reveal_strlit("rv32gc");
}

/// Where the description of a processor lies below the configuration root.
pub fn language_path(processor: &str, slaspec: &str) -> (r: String)
    ensures
        r@ == "ghidra/Ghidra/Processors/"@ + processor@ + "/data/languages/"@ + slaspec@,
{
    let mut out = copy_of("ghidra/Ghidra/Processors/");
    push_text(&mut out, processor);
    push_text(&mut out, "/data/languages/");
    push_text(&mut out, slaspec);
    out
}

/// A line without its comments and surrounding white space.
pub open spec fn bare_line(raw: Seq<char>) -> Seq<char> {
    let no_hash = before_first(raw, '#');
    trimmed(no_hash.take(text_pos_from(no_hash, "//"@, 0)))
}

/// A line without its comments and surrounding white space.
pub fn strip_comments(raw: &str) -> (r: String)
    ensures
        r@ == bare_line(raw@),
{
    let no_hash = head(raw, '#');
    let no_slashes = head_text(&no_hash, "//");
    trim(&no_slashes)
}

/// The file that a line pulls in: the first quoted text of an include line.
pub open spec fn included_file(line: Seq<char>) -> Option<Seq<char>> {
    let body = trimmed_start(line);
    if has_prefix(body, "@include"@) || has_prefix(body, "include"@) {
        match split_first(body, '"') {
            Some((_, rest)) => match split_first(rest, '"') {
                Some((name, _)) => Some(name),
                None => None,
            },
            None => None,
        }
    } else {
        None
    }
}

/// The file that a line pulls in.
pub fn parse_include(line: &str) -> (r: Option<String>)
    ensures
        r is Some == included_file(line@) is Some,
        r matches Some(name) ==> name@ == included_file(line@)->0,
{
    let body = trim_start(line);
    if !(starts_with(&body, "@include") || starts_with(&body, "include")) {
        return None;
    }
    match split_once(&body, '"') {
        Some((_, rest)) => match split_once(&rest, '"') {
            Some((name, _)) => Some(name),
            None => None,
        },
        None => None,
    }
}

/// The operation that a line declares: the third word of `define pcodeop`.
pub open spec fn declared_userop(line: Seq<char>) -> Option<Seq<char>> {
    let tokens = words(line);
    if tokens.len() < 3 || tokens[0] != "define"@ || tokens[1] != "pcodeop"@ {
        None
    } else {
        let name = without_trailing(without_trailing(tokens[2], ';'), ',');
        if name.len() == 0 {
            None
        } else {
            match split_first(name, ';') {
                Some((first, _)) => Some(first),
                None => Some(name),
            }
        }
    }
}

/// The operation that a line declares.
pub fn parse_pcodeop(line: &str) -> (r: Option<String>)
    ensures
        r is Some == declared_userop(line@) is Some,
        r matches Some(name) ==> name@ == declared_userop(line@)->0,
{
    let tokens = split_words(line);
    assert(texts(tokens@).len() == tokens@.len());
    if tokens.len() < 3 {
        return None;
    }
    assert(texts(tokens@)[0] == tokens@[0]@);
    assert(texts(tokens@)[1] == tokens@[1]@);
    assert(texts(tokens@)[2] == tokens@[2]@);
    if !same(&tokens[0], "define") || !same(&tokens[1], "pcodeop") {
        return None;
    }
    let no_semicolon = trim_trailing(&tokens[2], ';');
    let name = trim_trailing(&no_semicolon, ',');
    if name.as_str().unicode_len() == 0 {
        return None;
    }
    match split_once(&name, ';') {
        Some((first, _)) => Some(first),
        None => Some(name),
    }
}

/// What one line of a description asks for.
#[derive(Debug, Clone)]
pub struct LineFacts {
    /// The file to pull in, as the line names it.
    pub pulls_in: Option<String>,
    /// The operation declared.
    pub declares: Option<String>,
}

/// What one raw line of a description asks for.
pub fn read_line(raw: &str) -> (r: LineFacts)
    ensures
        r.pulls_in is Some <==> bare_line(raw@).len() > 0 && included_file(bare_line(raw@)) is Some,
        r.pulls_in matches Some(name) ==> name@ == included_file(bare_line(raw@))->0,
        r.declares is Some <==> bare_line(raw@).len() > 0 && declared_userop(
            bare_line(raw@),
        ) is Some,
        r.declares matches Some(name) ==> name@ == declared_userop(bare_line(raw@))->0,
{
    let line = strip_comments(raw);
    if line.as_str().unicode_len() == 0 {
        return LineFacts { pulls_in: None, declares: None };
    }
    LineFacts { pulls_in: parse_include(&line), declares: parse_pcodeop(&line) }
}

/// What a description file asks for, in order: a file to pull in, as the line names
/// it, or an operation.
#[derive(Debug, Clone)]
pub enum Directive {
    PullIn(String),
    Declare(String),
}

/// A directive, as a mathematical value.
pub enum DirectiveView {
    PullIn(Seq<char>),
    Declare(Seq<char>),
}

impl View for Directive {
    type V = DirectiveView;

    open spec fn view(&self) -> DirectiveView {
        match self {
            Directive::PullIn(name) => DirectiveView::PullIn(name@),
            Directive::Declare(name) => DirectiveView::Declare(name@),
        }
    }
}

/// A line without the carriage return in front of its newline.
pub open spec fn without_return(line: Seq<char>) -> Seq<char> {
    if line.len() > 0 && line.last() == '\r' {
        line.drop_last()
    } else {
        line
    }
}

/// The lines of a text from place `i` on, `line` being what the present line holds so
/// far. The last line needs no newline.
pub open spec fn lines_from(s: Seq<char>, i: int, line: Seq<char>) -> Seq<Seq<char>>
    decreases s.len() - i,
{
    if i < 0 || i >= s.len() {
        if line.len() == 0 {
            Seq::empty()
        } else {
            seq![line]
        }
    } else if s[i] == '\n' {
        seq![without_return(line)] + lines_from(s, i + 1, Seq::empty())
    } else {
        lines_from(s, i + 1, line.push(s[i]))
    }
}

/// What one raw line asks for: the file that it pulls in, then the operation that it
/// declares.
pub open spec fn line_directives(raw: Seq<char>) -> Seq<DirectiveView> {
    let line = bare_line(raw);
    let pulled = match included_file(line) {
        Some(name) => seq![DirectiveView::PullIn(name)],
        None => Seq::empty(),
    };
    let declared = match declared_userop(line) {
        Some(name) => seq![DirectiveView::Declare(name)],
        None => Seq::empty(),
    };
    if line.len() == 0 {
        Seq::empty()
    } else {
        pulled + declared
    }
}

/// What the first `n` of some lines ask for.
pub open spec fn directives_upto(lines: Seq<Seq<char>>, n: int) -> Seq<DirectiveView>
    decreases n,
{
    if n <= 0 {
        Seq::empty()
    } else {
        directives_upto(lines, n - 1) + line_directives(lines[n - 1])
    }
}

/// What the text of a description file asks for.
pub open spec fn directives_of(content: Seq<char>) -> Seq<DirectiveView> {
    let lines = lines_from(content, 0, Seq::empty());
    directives_upto(lines, lines.len() as int)
}

/// The lines of a text.
pub fn split_lines(content: &str) -> (r: Vec<String>)
    ensures
        texts(r@) == lines_from(content@, 0, Seq::empty()),
{
    let x = chars_of(content);
    let mut out: Vec<String> = Vec::new();
    let mut from: usize = 0;
    let mut i: usize = 0;
    assert(texts(out@) =~= Seq::<Seq<char>>::empty());
    assert(x@.subrange(0, 0) =~= Seq::<char>::empty());
    assert(texts(out@) + lines_from(x@, 0, Seq::empty()) =~= lines_from(x@, 0, Seq::empty()));
    while i < x.len()
        invariant
            from <= i <= x@.len(),
            texts(out@) + lines_from(x@, i as int, x@.subrange(from as int, i as int)) == lines_from(
                x@,
                0,
                Seq::empty(),
            ),
        decreases x@.len() - i,
    {
        let ghost line = x@.subrange(from as int, i as int);
        let ghost before = texts(out@);
        if x[i] == '\n' {
            let end: usize = if i > from && x[i - 1] == '\r' {
                i - 1
            } else {
                i
            };
            let whole = string_of(&x, from, end);
            assert(whole@ =~= without_return(line));
            let ghost text = whole@;
            out.push(whole);
            from = i + 1;
            let ghost rest = lines_from(x@, i + 1, Seq::empty());
            assert(texts(out@) =~= before.push(text));
            assert(before.push(text) + rest =~= before + (seq![text] + rest));
            assert(x@.subrange(from as int, i + 1) =~= Seq::<char>::empty());
        } else {
            assert(line.push(x@[i as int]) =~= x@.subrange(from as int, i + 1));
        }
        i = i + 1;
    }
    let ghost line = x@.subrange(from as int, i as int);
    let ghost before = texts(out@);
    if from < x.len() {
        let whole = string_of(&x, from, x.len());
        assert(whole@ =~= line);
        let ghost text = whole@;
        out.push(whole);
        assert(texts(out@) =~= before.push(text));
        assert(before.push(text) =~= before + seq![text]);
    } else {
        assert(before + Seq::<Seq<char>>::empty() =~= before);
    }
    out
}

/// What the text of a description file asks for.
pub fn read_directives(content: &str) -> (r: Vec<Directive>)
    ensures
        r@.map_values(|d: Directive| d@) == directives_of(content@),
{
    let lines = split_lines(content);
    let mut out: Vec<Directive> = Vec::new();
    let mut i: usize = 0;
    assert(out@.map_values(|d: Directive| d@) =~= Seq::<DirectiveView>::empty());
    while i < lines.len()
        invariant
            i <= lines@.len(),
            out@.map_values(|d: Directive| d@) == directives_upto(texts(lines@), i as int),
        decreases lines@.len() - i,
    {
        let facts = read_line(&lines[i]);
        let ghost raw = texts(lines@)[i as int];
        let ghost before = out@.map_values(|d: Directive| d@);
        assert(raw == lines@[i as int]@);
        if let Some(name) = facts.pulls_in {
            out.push(Directive::PullIn(name));
        }
        if let Some(name) = facts.declares {
            out.push(Directive::Declare(name));
        }
        assert(out@.map_values(|d: Directive| d@) =~= before + line_directives(raw));
        i = i + 1;
    }
    assert(texts(lines@).len() == lines@.len());
    out
}

/// One entry of a description file, with the file it pulls in resolved to a
/// place in the list of files.
#[derive(Debug, Clone)]
pub enum Entry {
    PullIn(usize),
    Declare(String),
}

/// One description file: its entries in order, or nothing where it could not be read.
#[derive(Debug, Clone)]
pub struct SourceFile {
    pub entries: Option<Vec<Entry>>,
}

impl SourceFile {
    /// How many entries there are.
    pub open spec fn count(&self) -> nat {
        match self.entries {
            Some(entries) => entries@.len(),
            None => 0,
        }
    }
}

/// How many files have not been taken yet.
pub open spec fn untaken(taken: Seq<bool>) -> nat
    decreases taken.len(),
{
    if taken.len() == 0 {
        0
    } else {
        untaken(taken.drop_last()) + if taken.last() {
            0nat
        } else {
            1nat
        }
    }
}

/// Taking an untaken file leaves one fewer.
pub proof fn taking_a_file_leaves_one_fewer(taken: Seq<bool>, j: int)
    requires
        0 <= j < taken.len(),
        !taken[j],
    ensures
        untaken(taken.update(j, true)) + 1 == untaken(taken),
    decreases taken.len(),
{
    if j == taken.len() - 1 {
        assert(taken.update(j, true).drop_last() =~= taken.drop_last());
    } else {
        taking_a_file_leaves_one_fewer(taken.drop_last(), j);
        assert(taken.update(j, true).drop_last() =~= taken.drop_last().update(j, true));
    }
}

/// The operations that the entries of file `i` declare from entry `k` on, in
/// order, each untaken file entered where it is pulled in; and the files taken
/// by then. A file that cannot be read declares nothing.
pub open spec fn declared(files: Seq<SourceFile>, i: int, k: int, taken: Seq<bool>) -> (
    Seq<Seq<char>>,
    Seq<bool>,
)
    decreases untaken(taken), files[i].count() - k,
{
    if k < 0 || k >= files[i].count() || files[i].entries is None {
        (Seq::empty(), taken)
    } else {
        match files[i].entries->0@[k] {
            Entry::Declare(name) => {
                let (rest, after) = declared(files, i, k + 1, taken);
                (seq![name@] + rest, after)
            },
            Entry::PullIn(j) => {
                if j >= taken.len() || taken[j as int] {
                    declared(files, i, k + 1, taken)
                } else {
                    proof {
                        taking_a_file_leaves_one_fewer(taken, j as int);
                    }
                    let (inner, between) = declared(files, j as int, 0, taken.update(j as int, true));
                    if untaken(between) <= untaken(taken) {
                        let (rest, after) = declared(files, i, k + 1, between);
                        (inner + rest, after)
                    } else {
                        (inner, between)
                    }
                }
            },
        }
    }
}

/// Every file stays taken, and their number stays what it was.
proof fn lemma_taken_grows(files: Seq<SourceFile>, i: int, k: int, taken: Seq<bool>)
    ensures
        declared(files, i, k, taken).1.len() == taken.len(),
        untaken(declared(files, i, k, taken).1) <= untaken(taken),
    decreases untaken(taken), files[i].count() - k,
{
    if k < 0 || k >= files[i].count() || files[i].entries is None {
    } else {
        match files[i].entries->0@[k] {
            Entry::Declare(name) => {
                lemma_taken_grows(files, i, k + 1, taken);
            },
            Entry::PullIn(j) => {
                if j >= taken.len() || taken[j as int] {
                    lemma_taken_grows(files, i, k + 1, taken);
                } else {
                    taking_a_file_leaves_one_fewer(taken, j as int);
                    lemma_taken_grows(files, j as int, 0, taken.update(j as int, true));
                    let between = declared(files, j as int, 0, taken.update(j as int, true)).1;
                    lemma_taken_grows(files, i, k + 1, between);
                }
            },
        }
    }
}

/// The state in which only the root file has been taken.
pub open spec fn root_taken(n: nat, root: int) -> Seq<bool> {
    Seq::new(n, |i: int| i == root)
}

/// The operations that a description declares, from its root file on.
pub open spec fn userop_sequence(files: Seq<SourceFile>, root: int) -> Seq<Seq<char>> {
    if 0 <= root < files.len() {
        declared(files, root, 0, root_taken(files.len(), root)).0
    } else {
        Seq::empty()
    }
}

fn collect(
    files: &Vec<SourceFile>,
    i: usize,
    k: usize,
    taken: &mut Vec<bool>,
    out: &mut Vec<String>,
)
    requires
        i < files@.len(),
        old(taken)@.len() == files@.len(),
    ensures
        final(taken)@ == declared(files@, i as int, k as int, old(taken)@).1,
        texts(final(out)@) == texts(old(out)@) + declared(
            files@,
            i as int,
            k as int,
            old(taken)@,
        ).0,
    decreases untaken(old(taken)@), files@[i as int].count() - k,
{
    proof {
        lemma_taken_grows(files@, i as int, k as int, taken@);
    }
    let ghost start = texts(out@);
    match &files[i].entries {
        None => {
            assert(start + Seq::<Seq<char>>::empty() =~= start);
        },
        Some(entries) => {
            if k >= entries.len() {
                assert(start + Seq::<Seq<char>>::empty() =~= start);
                return;
            }
            match &entries[k] {
                Entry::Declare(name) => {
                    out.push(copy_of(name));
                    assert(texts(out@) =~= start.push(name@));
                    let ghost rest = declared(files@, i as int, k + 1, taken@).0;
                    collect(files, i, k + 1, taken, out);
                    assert(texts(out@) =~= start + (seq![name@] + rest));
                },
                Entry::PullIn(j) => {
                    if *j >= taken.len() || taken[*j] {
                        collect(files, i, k + 1, taken, out);
                    } else {
                        let ghost before = taken@;
                        proof {
                            taking_a_file_leaves_one_fewer(before, *j as int);
                        }
                        taken.set(*j, true);
                        proof {
                            lemma_taken_grows(files@, *j as int, 0, taken@);
                        }
                        let ghost inner = declared(files@, *j as int, 0, taken@).0;
                        collect(files, *j, 0, taken, out);
                        let ghost rest = declared(files@, i as int, k + 1, taken@).0;
                        collect(files, i, k + 1, taken, out);
                        assert(texts(out@) =~= start + (inner + rest));
                    }
                },
            }
        },
    }
}

/// The operations that a description declares, from its root file on.
pub fn collect_userops(files: &Vec<SourceFile>, root: usize) -> (r: Vec<String>)
    ensures
        texts(r@) == userop_sequence(files@, root as int),
{
    let mut out: Vec<String> = Vec::new();
    if root >= files.len() {
        assert(texts(out@) =~= Seq::<Seq<char>>::empty());
        return out;
    }
    let mut taken: Vec<bool> = Vec::new();
    let mut i: usize = 0;
    while i < files.len()
        invariant
            i <= files@.len(),
            taken@ =~= Seq::new(i as nat, |j: int| j == root),
        decreases files@.len() - i,
    {
        taken.push(i == root);
        i = i + 1;
    }
    assert(taken@ =~= root_taken(files@.len(), root as int));
    assert(texts(out@) =~= Seq::<Seq<char>>::empty());
    collect(files, root, 0, &mut taken, &mut out);
    assert(Seq::<Seq<char>>::empty() + userop_sequence(files@, root as int)
        =~= userop_sequence(files@, root as int));
    out
}

/// The first `n` names, each under the number of its place.
pub open spec fn numbered(names: Seq<Seq<char>>, n: nat) -> Map<u32, Seq<char>>
    decreases n,
{
    if n == 0 {
        Map::empty()
    } else {
        numbered(names, (n - 1) as nat).insert(((n - 1) % 0x1_0000_0000) as u32, names[n - 1])
    }
}

/// Each name under the number of its place. A number has 32 bits.
pub fn number_names(names: &Vec<String>) -> (r: HashMap<u32, String>)
    ensures
        r@.map_values(|s: String| s@) == numbered(texts(names@), names@.len()),
{
    broadcast use vstd::std_specs::hash::group_hash_axioms;

    let mut map: HashMap<u32, String> = HashMap::new();
    let mut i: usize = 0;
    assert(map@.map_values(|s: String| s@) =~= Map::<u32, Seq<char>>::empty());
    while i < names.len()
        invariant
            i <= names@.len(),
            map@.map_values(|s: String| s@) == numbered(texts(names@), i as nat),
        decreases names@.len() - i,
    {
        let name = copy_of(&names[i]);
        let number: u32 = (i as u64 % 0x1_0000_0000u64) as u32;
        let ghost before = map@;
        let ghost text = name@;
        let ghost owned = name;
        map.insert(number, name);
        assert(map@ == before.insert(number, owned));
        assert(map@.map_values(|s: String| s@) =~= before.map_values(|s: String| s@).insert(
            number,
            text,
        ));
        assert(texts(names@)[i as int] == text);
        i = i + 1;
    }
    map
}

/// The numbered operations of an architecture, given the description files that
/// were read for it: none for an architecture without a description, and none
/// where its root file could not be read.
pub fn userop_map_for_arch(arch: &str, files: &Vec<SourceFile>, root: usize) -> (r: HashMap<
    u32,
    String,
>)
    ensures
        r@.map_values(|s: String| s@) == ({
            let names = declared_for(arch@, files@, root as int);
            numbered(names, names.len())
        }),
{
    broadcast use vstd::std_specs::hash::group_hash_axioms;

    if arch_to_slaspec(arch).is_none() {
        let map: HashMap<u32, String> = HashMap::new();
        assert(map@.map_values(|s: String| s@) =~= Map::<u32, Seq<char>>::empty());
        return map;
    }
    let names = collect_userops(files, root);
    assert(texts(names@).len() == names@.len());
    number_names(&names)
}

/// The answers given so far, each under the lower-case name of its architecture.
#[derive(Debug, Clone)]
pub struct UseropAnswers {
    /// A name, and the operations in declaration order.
    pub given: Vec<(String, Vec<String>)>,
}

impl View for UseropAnswers {
    type V = Seq<(Seq<char>, Seq<Seq<char>>)>;

    open spec fn view(&self) -> Seq<(Seq<char>, Seq<Seq<char>>)> {
        self.given@.map_values(|e: (String, Vec<String>)| (e.0@, texts(e.1@)))
    }
}

/// The first of the answers, from place `i` on, that was given for a name.
pub open spec fn answered_from(
    given: Seq<(Seq<char>, Seq<Seq<char>>)>,
    i: int,
    arch: Seq<char>,
) -> Option<Seq<Seq<char>>>
    decreases given.len() - i,
{
    if i < 0 || i >= given.len() {
        None
    } else if given[i].0 == lower(arch) {
        Some(given[i].1)
    } else {
        answered_from(given, i + 1, arch)
    }
}

/// The answer that an architecture has, if it was asked for before.
pub open spec fn answered(
    given: Seq<(Seq<char>, Seq<Seq<char>>)>,
    arch: Seq<char>,
) -> Option<Seq<Seq<char>>> {
    answered_from(given, 0, arch)
}

/// The operations of an architecture as the files now declare them.
pub open spec fn declared_for(arch: Seq<char>, files: Seq<SourceFile>, root: int) -> Seq<Seq<char>> {
    if description_of(lower(arch)) is Some {
        userop_sequence(files, root)
    } else {
        Seq::empty()
    }
}

/// The answers after an architecture was asked for: an answer that was given
/// before is kept, whatever the files now declare.
pub open spec fn answers_after(
    given: Seq<(Seq<char>, Seq<Seq<char>>)>,
    arch: Seq<char>,
    files: Seq<SourceFile>,
    root: int,
) -> Seq<(Seq<char>, Seq<Seq<char>>)> {
    if answered(given, arch) is Some {
        given
    } else {
        given.push((lower(arch), declared_for(arch, files, root)))
    }
}

impl UseropAnswers {
    /// No answer yet.
    pub fn new() -> (r: Self)
        ensures
            r@ == Seq::<(Seq<char>, Seq<Seq<char>>)>::empty(),
    {
        let r = UseropAnswers { given: Vec::new() };
        assert(r@ =~= Seq::<(Seq<char>, Seq<Seq<char>>)>::empty());
        r
    }

    /// The place of the answer for an architecture.
    fn place_of(&self, arch: &str) -> (r: Option<usize>)
        ensures
            match r {
                Some(i) => i < self@.len() && answered(self@, arch@) == Some(self@[i as int].1),
                None => answered(self@, arch@) is None,
            },
    {
        let key = to_lower(arch);
        let mut i: usize = 0;
        while i < self.given.len()
            invariant
                i <= self.given@.len(),
                key@ == lower(arch@),
                answered(self@, arch@) == answered_from(self@, i as int, arch@),
            decreases self.given@.len() - i,
        {
            assert(self@[i as int].0 == self.given@[i as int].0@);
            if same(&self.given[i].0, &key) {
                return Some(i);
            }
            i = i + 1;
        }
        None
    }

    /// The numbered operations of an architecture that was asked for before: a
    /// copy, which the caller may change.
    pub fn known(&self, arch: &str) -> (r: Option<HashMap<u32, String>>)
        ensures
            match r {
                Some(map) => answered(self@, arch@) matches Some(names) && map@.map_values(
                    |s: String| s@,
                ) == numbered(names, names.len()),
                None => answered(self@, arch@) is None,
            },
    {
        match self.place_of(arch) {
            Some(i) => {
                assert(self@[i as int].1 == texts(self.given@[i as int].1@));
                Some(number_names(&self.given[i].1))
            },
            None => None,
        }
    }

    /// The numbered operations of an architecture. What the description files that
    /// were read for it declare becomes its answer, unless it has one.
    pub fn keep(&mut self, arch: &str, files: &Vec<SourceFile>, root: usize) -> (r: HashMap<u32, String>)
        ensures
            final(self)@ == answers_after(old(self)@, arch@, files@, root as int),
            answered(final(self)@, arch@) matches Some(names) && r@.map_values(|s: String| s@)
                == numbered(names, names.len()),
    {
        if let Some(map) = self.known(arch) {
            return map;
        }
        let names: Vec<String> = if arch_to_slaspec(arch).is_some() {
            collect_userops(files, root)
        } else {
            Vec::new()
        };
        assert(texts(names@) =~= declared_for(arch@, files@, root as int));
        let map = number_names(&names);
        let key = to_lower(arch);
        let ghost entry = (key@, texts(names@));
        self.given.push((key, names));
        assert(self@ =~= old(self)@.push(entry));
        proof {
            lemma_answered_after_push(old(self)@, entry, 0, arch@);
        }
        map
    }
}

proof fn lemma_answered_after_push(
    given: Seq<(Seq<char>, Seq<Seq<char>>)>,
    entry: (Seq<char>, Seq<Seq<char>>),
    i: int,
    arch: Seq<char>,
)
    requires
        0 <= i <= given.len(),
    ensures
        answered_from(given.push(entry), i, arch) == if answered_from(given, i, arch) is Some {
            answered_from(given, i, arch)
        } else if entry.0 == lower(arch) {
            Some(entry.1)
        } else {
            None
        },
    decreases given.len() - i,
{
    let all = given.push(entry);
    if i < given.len() {
        assert(all[i] == given[i]);
        lemma_answered_after_push(given, entry, i + 1, arch);
    } else {
        assert(all[i] == entry);
        assert(answered_from(all, i + 1, arch) is None);
    }
}

proof fn lemma_answers_ignore_case(
    given: Seq<(Seq<char>, Seq<Seq<char>>)>,
    i: int,
    a: Seq<char>,
    b: Seq<char>,
)
    requires
        lower(a) == lower(b),
    ensures
        answered_from(given, i, a) == answered_from(given, i, b),
    decreases given.len() - i,
{
    if 0 <= i < given.len() {
        lemma_answers_ignore_case(given, i + 1, a, b);
    }
}

/// The first answer is kept. Once an architecture was asked for, every later
/// question under a name that differs in case alone finds what the files
/// declared then, whatever is asked in between and whatever they declare now;
/// that is no operation for an architecture without a description.
pub proof fn the_first_answer_is_kept(
    given: Seq<(Seq<char>, Seq<Seq<char>>)>,
    a: Seq<char>,
    files: Seq<SourceFile>,
    root: int,
    b: Seq<char>,
    other: Seq<char>,
    later_files: Seq<SourceFile>,
    later_root: int,
)
    requires
        lower(a) == lower(b),
    ensures
        ({
            let first = answers_after(given, a, files, root);
            let later = answers_after(first, other, later_files, later_root);
            &&& answered(first, b) == Some(
                match answered(given, a) {
                    Some(names) => names,
                    None => declared_for(a, files, root),
                },
            )
            &&& answered(later, b) == answered(first, b)
            &&& answers_after(first, b, later_files, later_root) == first
        }),
        description_of(lower(a)) is None ==> declared_for(a, files, root).len() == 0,
{
    let first = answers_after(given, a, files, root);
    lemma_answers_ignore_case(given, 0, a, b);
    lemma_answered_after_push(given, (lower(a), declared_for(a, files, root)), 0, b);
    lemma_answered_after_push(first, (lower(other), declared_for(other, later_files, later_root)), 0, b);
}

/// Asking for one architecture leaves the answers for the others as they were.
pub proof fn answers_do_not_disturb_one_another(
    given: Seq<(Seq<char>, Seq<Seq<char>>)>,
    a: Seq<char>,
    files: Seq<SourceFile>,
    root: int,
    b: Seq<char>,
)
    requires
        lower(a) != lower(b),
    ensures
        answered(answers_after(given, a, files, root), b) == answered(given, b),
{
    lemma_answered_after_push(given, (lower(a), declared_for(a, files, root)), 0, b);
}

/// Numbers are places: where there are no more than fit in 32 bits, number `i`
/// is the name at place `i`, and there are no others.
pub proof fn numbers_are_places(names: Seq<Seq<char>>, n: nat, i: u32)
    requires
        n <= names.len(),
        n <= 0x1_0000_0000,
    ensures
        numbered(names, n).dom().contains(i) <==> i < n,
        i < n ==> numbered(names, n)[i] == names[i as int],
    decreases n,
{
    if n > 0 {
        numbers_are_places(names, (n - 1) as nat, i);
    }
}

/// A file that is already taken, or cannot be read, adds nothing.
pub proof fn a_file_counts_once(files: Seq<SourceFile>, i: int, k: int, j: usize, taken: Seq<bool>)
    requires
        files[i].entries is Some,
        0 <= k < files[i].count(),
        files[i].entries->0@[k] == Entry::PullIn(j),
        j < taken.len(),
        taken[j as int] || (files[j as int].entries is None),
    ensures
        declared(files, i, k, taken).0 == declared(
            files,
            i,
            k + 1,
            if taken[j as int] {
                taken
            } else {
                taken.update(j as int, true)
            },
        ).0,
{
    if !taken[j as int] {
        taking_a_file_leaves_one_fewer(taken, j as int);
        let between = taken.update(j as int, true);
        assert(declared(files, j as int, 0, between) == (Seq::<Seq<char>>::empty(), between));
        assert(Seq::<Seq<char>>::empty() + declared(files, i, k + 1, between).0 =~= declared(
            files,
            i,
            k + 1,
            between,
        ).0);
    }
}

/// Declarations keep their order: the operations of a file that pulls in nothing are its
/// declarations, one after the other.
pub proof fn declarations_keep_their_order(files: Seq<SourceFile>, i: int, k: int, taken: Seq<bool>, n: int)
    requires
        files[i].entries is Some,
        0 <= k <= n < files[i].count(),
        forall|j: int| k <= j < files[i].count() ==> (#[trigger] files[i].entries->0@[j]) is Declare,
    ensures
        declared(files, i, k, taken).0.len() == files[i].count() - k,
        declared(files, i, k, taken).0[n - k] == files[i].entries->0@[n]->Declare_0@,
    decreases files[i].count() - k,
{
    let entries = files[i].entries->0@;
    assert(entries[k] is Declare);
    if k + 1 < files[i].count() {
        if n > k {
            declarations_keep_their_order(files, i, k + 1, taken, n);
        } else {
            declarations_keep_their_order(files, i, k + 1, taken, k + 1);
        }
    } else {
        assert(declared(files, i, k + 1, taken).0.len() == 0);
    }
}

/// What a file pulls in stands where it is pulled in: in front of what the file declares
/// afterwards.
pub proof fn pulled_in_files_stand_in_their_place(
    files: Seq<SourceFile>,
    i: int,
    k: int,
    j: usize,
    taken: Seq<bool>,
)
    requires
        files[i].entries is Some,
        0 <= k < files[i].count(),
        files[i].entries->0@[k] == Entry::PullIn(j),
        j < taken.len(),
        !taken[j as int],
    ensures
        ({
            let inner = declared(files, j as int, 0, taken.update(j as int, true));
            declared(files, i, k, taken).0 == inner.0 + declared(files, i, k + 1, inner.1).0
        }),
{
    taking_a_file_leaves_one_fewer(taken, j as int);
    lemma_taken_grows(files, j as int, 0, taken.update(j as int, true));
}

} // verus!
