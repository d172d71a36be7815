use r2sleigh::userops::{
    arch_to_slaspec, collect_userops, language_path, number_names, parse_include, parse_pcodeop,
    read_directives, read_line, split_lines, strip_comments, userop_map_for_arch, Directive, Entry, SourceFile, UseropAnswers,
};

/// The two parts of the 6502 family resolve, and they do not alias.
#[test]
fn the_6502_family_resolves_and_the_two_parts_stay_distinct() {
    let nmos = arch_to_slaspec("6502").expect("6502 must resolve");
    let cmos = arch_to_slaspec("65c02").expect("65c02 must resolve");

    assert_eq!(nmos, ("6502", "6502.slaspec"));
    assert_eq!(cmos, ("6502", "65c02.slaspec"));

    assert_eq!(nmos.0, cmos.0, "both live in Ghidra's 6502 processor dir");
    assert_ne!(nmos.1, cmos.1, "the two parts must not share a slaspec");

    for a in ["mos6502", "nmos6502"] {
        assert_eq!(arch_to_slaspec(a), Some(nmos), "alias {a}");
    }
    assert_eq!(arch_to_slaspec("cmos6502"), Some(cmos));
}

#[test]
fn arch_lookup_is_case_insensitive() {
    assert_eq!(arch_to_slaspec("65C02"), arch_to_slaspec("65c02"));
    assert!(arch_to_slaspec("65C02").is_some());
}

#[test]
fn an_unknown_arch_is_rejected_not_approximated() {
    for a in ["6800", "z80", "6502x", "", "sparc"] {
        assert_eq!(arch_to_slaspec(a), None, "{a} must not resolve");
    }
}

#[test]
fn every_known_arch_has_its_description() {
    for (names, want) in [
        (
            vec!["x86-64", "x86_64", "x64", "amd64"],
            ("x86", "x86-64.slaspec"),
        ),
        (vec!["x86", "x86-32", "i386", "i686"], ("x86", "x86.slaspec")),
        (vec!["arm", "arm32", "arm-le"], ("ARM", "ARM8_le.slaspec")),
        (
            vec!["aarch64", "arm64", "arm64e"],
            ("AARCH64", "AARCH64_AppleSilicon.slaspec"),
        ),
        (
            vec!["riscv64", "rv64", "rv64gc"],
            ("RISCV", "riscv.lp64d.slaspec"),
        ),
        (
            vec!["riscv32", "rv32", "rv32gc"],
            ("RISCV", "riscv.ilp32d.slaspec"),
        ),
    ] {
        for name in names {
            assert_eq!(arch_to_slaspec(name), Some(want), "{name}");
        }
    }
}

#[test]
fn paths_lead_to_the_processor_languages() {
    assert_eq!(
        language_path("x86", "x86-64.slaspec"),
        "ghidra/Ghidra/Processors/x86/data/languages/x86-64.slaspec"
    );
}

#[test]
fn comments_of_either_kind_are_dropped() {
    assert_eq!(strip_comments("  define x # rest"), "define x");
    assert_eq!(strip_comments("a // b # c"), "a");
    assert_eq!(strip_comments("\u{2003}# only a comment"), "");
    assert_eq!(strip_comments("\u{2003}kept\u{2003}"), "kept");
}

#[test]
fn files_pulled_in_stand_between_quotes() {
    assert_eq!(
        parse_include("  @include \"ia.sinc\" tail"),
        Some("ia.sinc".to_string())
    );
    assert_eq!(parse_include("include \"\""), Some(String::new()));
    assert_eq!(parse_include("@include ia.sinc"), None);
    assert_eq!(parse_include("@include \"ia.sinc"), None);
    assert_eq!(parse_include("x @include \"ia.sinc\""), None);
}

#[test]
fn declared_operations_lose_their_punctuation() {
    assert_eq!(
        parse_pcodeop("define pcodeop segment;"),
        Some("segment".to_string())
    );
    assert_eq!(
        parse_pcodeop("define  pcodeop\tcpuid;rest"),
        Some("cpuid".to_string())
    );
    assert_eq!(
        parse_pcodeop("define pcodeop a,;;"),
        Some("a".to_string())
    );
    assert_eq!(parse_pcodeop("define pcodeop ;"), None);
    assert_eq!(parse_pcodeop("define pcodeop"), None);
    assert_eq!(parse_pcodeop("define token op"), None);
}

#[test]
fn a_line_may_ask_for_two_things_or_none() {
    let both = read_line("include define pcodeop \"x\"");
    assert_eq!(both.pulls_in, Some("x".to_string()));
    assert_eq!(both.declares, None);
    let one = read_line("define pcodeop in; # comment");
    assert_eq!(one.pulls_in, None);
    assert_eq!(one.declares, Some("in".to_string()));
    let none = read_line("# define pcodeop in;");
    assert!(none.pulls_in.is_none() && none.declares.is_none());
}

fn declare(name: &str) -> Entry {
    Entry::Declare(name.to_string())
}

fn file(entries: Vec<Entry>) -> SourceFile {
    SourceFile {
        entries: Some(entries),
    }
}

#[test]
fn a_file_counts_once_and_in_place() {
    let files = vec![
        file(vec![
            declare("a"),
            Entry::PullIn(1),
            declare("b"),
            Entry::PullIn(1),
            Entry::PullIn(0),
        ]),
        file(vec![declare("c"), Entry::PullIn(2), declare("d")]),
        SourceFile { entries: None },
    ];
    assert_eq!(collect_userops(&files, 0), vec!["a", "c", "d", "b"]);
    assert_eq!(collect_userops(&files, 1), vec!["c", "d"]);
    assert!(collect_userops(&files, 2).is_empty());
    assert!(collect_userops(&files, 9).is_empty());
}

#[test]
fn operations_are_numbered_by_place() {
    let map = number_names(&vec!["x".to_string(), "y".to_string(), "x".to_string()]);
    assert_eq!(map.len(), 3);
    assert_eq!(map.get(&0).map(String::as_str), Some("x"));
    assert_eq!(map.get(&1).map(String::as_str), Some("y"));
    assert_eq!(map.get(&2).map(String::as_str), Some("x"));
}

#[test]
fn only_a_known_arch_has_operations() {
    let files = vec![file(vec![declare("segment"), declare("cpuid")])];
    let map = userop_map_for_arch("X86-64", &files, 0);
    assert_eq!(map.get(&1).map(String::as_str), Some("cpuid"));
    assert!(userop_map_for_arch("z80", &files, 0).is_empty());
    let unread = vec![SourceFile { entries: None }];
    assert!(userop_map_for_arch("x86-64", &unread, 0).is_empty());
}

/// The first answer for an architecture is kept, whatever its files say later and
/// however its name is written.
#[test]
fn the_first_answer_is_kept() {
    let mut answers = UseropAnswers::new();
    assert!(answers.known("x86-64").is_none());
    let before = vec![file(vec![declare("segment"), declare("cpuid")])];
    let after = vec![file(vec![declare("rdtsc")])];
    let first = answers.keep("X86-64", &before, 0);
    assert_eq!(first.get(&1).map(String::as_str), Some("cpuid"));
    assert_eq!(first.len(), 2);
    let mut again = answers.known("x86-64").unwrap();
    assert_eq!(again, first);
    again.clear();
    assert_eq!(answers.known("x86-64").unwrap(), first);
    assert_eq!(answers.keep("x86-64", &after, 0), first);
    assert_eq!(answers.known("X86-64").unwrap(), first);
}

#[test]
fn an_unknown_arch_is_answered_by_nothing() {
    let mut answers = UseropAnswers::new();
    let files = vec![file(vec![declare("segment")])];
    assert!(answers.keep("z80", &files, 0).is_empty());
    assert!(answers.known("Z80").unwrap().is_empty());
    assert!(answers.known("arm").is_none());
    answers.keep("arm", &files, 0);
    assert_eq!(answers.known("ARM").unwrap().len(), 1);
    assert!(answers.known("z80").unwrap().is_empty());
}

#[test]
fn a_file_asks_for_things_line_by_line() {
    let content = "# header\r\n@include \"ia.sinc\"\r\ndefine pcodeop segment;\n\n  define pcodeop cpuid; # last\ndefine pcodeop rdtsc;\r";
    let asked: Vec<(bool, String)> = read_directives(content)
        .into_iter()
        .map(|d| match d {
            Directive::PullIn(name) => (true, name),
            Directive::Declare(name) => (false, name),
        })
        .collect();
    assert_eq!(
        asked,
        vec![
            (true, "ia.sinc".to_string()),
            (false, "segment".to_string()),
            (false, "cpuid".to_string()),
            (false, "rdtsc".to_string()),
        ]
    );
    for text in ["", "\n", "a", "a\n", "a\r\nb\r", "a\n\nb", "\r\n\r\n"] {
        let expected: Vec<String> = text.lines().map(str::to_string).collect();
        assert_eq!(split_lines(text), expected, "{text:?}");
    }
}
