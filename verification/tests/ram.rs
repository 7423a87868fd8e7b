use gradle_wiper::models::{AllocatedResource, MemoryCached, UseCase};
use gradle_wiper::ram::jps::{
    find_jvm_processes, launcher_class_from_monitored_process, launcher_class_from_tokens,
    pid_from_jps_file, sanitized_command_name, IdentityError, JpsError,
};
use gradle_wiper::ram::resources::{
    convert_to_allocated_resources, find_resources_used_by_jvm, measure_processes,
    memory_type_from_jvm_launcher_class, memory_type_from_lowercase,
};
use gradle_wiper::ram::wiping::{cleanup_memory, count_killed};
use gradle_wiper::ram::{locate_hsperfdata_dir, JvmProcess, PerfDataDir, PerfDataEntry};
use ubyte::{ByteUnit, ToByteUnit};

const GRADLE_DAEMON: &str = "org.gradle.launcher.daemon.bootstrap.GradleDaemon";
const KOTLIN_DAEMON: &str = "org.jetbrains.kotlin.daemon.KotlinCompileDaemon";
const IDE: &str = "com.intellij.idea.Main";

fn tokens(texts: &[&str]) -> Vec<String> {
    texts.iter().map(|text| text.to_string()).collect()
}

fn perf_data(command: &str) -> Vec<u8> {
    let mut bytes: Vec<u8> = vec![0xca, 0xfe, 0xc0, 0xc0, 0x00, 0x02, 0x00, 0x00];
    for text in ["java.property.java.version", "21.0.2", "sun.rt.javaCommand", command, "sun.rt.vmInitDoneTime"] {
        bytes.extend_from_slice(text.as_bytes());
        bytes.extend_from_slice(&[0x00, 0x00, 0x01, 0xff]);
    }
    bytes
}

fn entry(file_name: &str, command: &str) -> PerfDataEntry {
    PerfDataEntry { file_name: file_name.to_string(), contents: Some(perf_data(command)) }
}

fn fake_resources_converter(launcher_name: &str) -> Option<u64> {
    let converted = match launcher_name {
        _ if launcher_name.to_lowercase().contains("kotlin") => 1.gibibytes().as_u64(),
        _ if launcher_name.to_lowercase().contains("gradle") => 2.gibibytes().as_u64(),
        _ => 3.gibibytes().as_u64(),
    };

    Some(converted)
}

fn fake_hsperfdata() -> PerfDataDir {
    PerfDataDir::Listed(vec![
        entry("4242", &format!("{} 8.7", GRADLE_DAEMON)),
        entry("4243", &format!("{} --daemon-runFilesPath /tmp/run", KOTLIN_DAEMON)),
        entry("100", IDE),
        entry("4250", &format!("{} 8.5", GRADLE_DAEMON)),
        entry("4300", "sun.tools.jps.Jps -l"),
        entry("4251", KOTLIN_DAEMON),
        entry("4252", &format!("{} 8.7", GRADLE_DAEMON)),
    ])
}

fn evaluate_fake_hsperfdata() -> Vec<AllocatedResource> {
    let processes = find_jvm_processes(&fake_hsperfdata())
        .expect("Cannot find processes")
        .into_iter()
        .map(|(pid, launcher_class)| {
            let resident_memory = fake_resources_converter(&launcher_class);
            JvmProcess { pid, launcher_class, resident_memory }
        })
        .collect::<Vec<_>>();
    find_resources_used_by_jvm(&processes)
}

fn process(pid: u32, launcher_class: &str, resident_memory: Option<u64>) -> JvmProcess {
    JvmProcess { pid, launcher_class: launcher_class.to_string(), resident_memory }
}

#[test]
fn resources_should_evaluate_ram_memory_resources() {
    let resources = evaluate_fake_hsperfdata();

    let grouped = vec![
        (MemoryCached::GradleBuildDaemon, 6442450944u64),
        (MemoryCached::KotlinCompilerDaemon, 2147483648u64),
        (MemoryCached::OtherJavaProcess, 3221225472u64),
    ];

    let expected = grouped
        .into_iter()
        .map(|(cached, amount)| {
            AllocatedResource::new(UseCase::from(cached), ByteUnit::from(amount).as_u64())
        })
        .collect::<Vec<_>>();

    assert_eq!(resources, expected)
}

#[test]
fn ram_should_evaluate_ram_memory_resources() {
    let processes = vec![
        process(1, KOTLIN_DAEMON, Some(1.gibibytes().as_u64())),
        process(2, IDE, Some(3.gibibytes().as_u64())),
        process(3, GRADLE_DAEMON, Some(2.gibibytes().as_u64())),
        process(4, GRADLE_DAEMON, Some(2.gibibytes().as_u64())),
        process(5, KOTLIN_DAEMON, Some(1.gibibytes().as_u64())),
        process(6, GRADLE_DAEMON, Some(2.gibibytes().as_u64())),
    ];
    let resources = find_resources_used_by_jvm(&processes);

    let grouped = vec![
        (MemoryCached::GradleBuildDaemon, 6442450944u64),
        (MemoryCached::KotlinCompilerDaemon, 2147483648u64),
        (MemoryCached::OtherJavaProcess, 3221225472u64),
    ];

    let expected = grouped
        .into_iter()
        .map(|(cached, amount)| {
            AllocatedResource::new(UseCase::from(cached), ByteUnit::from(amount).as_u64())
        })
        .collect::<Vec<_>>();

    assert_eq!(resources, expected)
}

#[test]
fn a_process_that_is_gone_counts_for_nothing() {
    let processes = vec![
        process(1, KOTLIN_DAEMON, None),
        process(2, GRADLE_DAEMON, Some(10)),
        process(3, GRADLE_DAEMON, None),
    ];
    assert_eq!(
        find_resources_used_by_jvm(&processes),
        vec![AllocatedResource::new(UseCase::from(MemoryCached::GradleBuildDaemon), 10)]
    );
    assert_eq!(measure_processes(&processes).len(), 1);
    assert!(find_resources_used_by_jvm(&Vec::new()).is_empty());
    assert_eq!(convert_to_allocated_resources(KOTLIN_DAEMON, None), None);
    assert_eq!(
        convert_to_allocated_resources(KOTLIN_DAEMON, Some(9)),
        Some((MemoryCached::KotlinCompilerDaemon, 9))
    );
}

#[test]
fn classifies_launch_identities_whatever_their_case() {
    let expected = [
        (KOTLIN_DAEMON, MemoryCached::KotlinCompilerDaemon),
        ("KotlinCompileDaemon", MemoryCached::KotlinCompilerDaemon),
        ("KOTLIN", MemoryCached::KotlinCompilerDaemon),
        (GRADLE_DAEMON, MemoryCached::GradleBuildDaemon),
        ("org.GRADLE.Worker", MemoryCached::GradleBuildDaemon),
        ("org.gradle.kotlin.dsl.Main", MemoryCached::KotlinCompilerDaemon),
        (IDE, MemoryCached::OtherJavaProcess),
        ("", MemoryCached::OtherJavaProcess),
    ];
    for (identity, cached) in expected {
        assert_eq!(memory_type_from_jvm_launcher_class(identity), cached);
    }
    assert_eq!(memory_type_from_lowercase("kotlin"), MemoryCached::KotlinCompilerDaemon);
    assert_eq!(memory_type_from_lowercase("gradle"), MemoryCached::GradleBuildDaemon);
    assert_eq!(memory_type_from_lowercase("Gradle"), MemoryCached::OtherJavaProcess);
}

#[test]
fn parses_process_ids_as_the_standard_library_does() {
    let names = [
        "0", "1", "42", "007", "4294967295", "4294967296", "42949672950", "99999999999999999999",
        "+17", "+", "", "-1", "12a", "a12", " 12", "12 ", "1_000", "0x10", "++1", "1+", "٣",
        "00000000000000000000001", "4294967294",
    ];
    for name in names {
        assert_eq!(pid_from_jps_file(name), name.parse::<u32>().ok());
    }
    assert_eq!(pid_from_jps_file("4242"), Some(4242));
    assert_eq!(pid_from_jps_file("4294967295"), Some(u32::MAX));
    assert_eq!(pid_from_jps_file("4294967296"), None);
    assert_eq!(pid_from_jps_file("hsperf"), None);
}

#[test]
fn takes_the_first_word_of_a_command() {
    let word = |text: &str| Some(String::from(text));
    assert_eq!(sanitized_command_name("KotlinCompileDaemon --arg"), word("KotlinCompileDaemon"));
    assert_eq!(sanitized_command_name("Main"), word("Main"));
    assert_eq!(sanitized_command_name("Main\t-x y"), word("Main"));
    assert_eq!(sanitized_command_name("a\u{a0}b"), word("a"));
    assert_eq!(sanitized_command_name("a\u{3000}b"), word("a"));
    assert_eq!(sanitized_command_name("caf\u{e9} au lait"), word("caf\u{e9}"));
    assert_eq!(sanitized_command_name(" Foo bar"), word("Foo"));
    assert_eq!(sanitized_command_name(" leading"), word("leading"));
    assert_eq!(sanitized_command_name("\t \r\n  org.gradle.Main\n8.7"), word("org.gradle.Main"));
    assert_eq!(sanitized_command_name("  x"), word("x"));
    assert_eq!(sanitized_command_name("x  "), word("x"));
}

#[test]
fn a_blank_command_has_no_word() {
    assert_eq!(sanitized_command_name(""), None);
    assert_eq!(sanitized_command_name(" "), None);
    assert_eq!(sanitized_command_name("   "), None);
    assert_eq!(sanitized_command_name("\t\r\n "), None);
    assert_eq!(sanitized_command_name("\u{2003}\u{a0}"), None);
}

#[test]
fn the_first_word_is_what_the_standard_library_splits_off() {
    let commands = [
        "org.gradle.Main 8.7 x",
        "one",
        "a b",
        "x\ny",
        "tab\tseparated",
        " Foo bar",
        "   ",
        "",
        "\n\nlines\n",
        "  two  spaces  ",
        "\u{a0}nbsp\u{a0}",
        "\u{1680}ogham mark",
        "z\u{85}next",
    ];
    for command in commands {
        let expected = command.split_whitespace().next().map(String::from);
        assert_eq!(sanitized_command_name(command), expected);
    }
}

#[test]
fn white_space_is_what_the_standard_library_says() {
    for code in 0u32..0x3100 {
        if let Some(c) = char::from_u32(code) {
            let cut = sanitized_command_name(&format!("a{}b", c)) == Some(String::from("a"));
            assert_eq!(cut, c.is_whitespace());
            let skipped = sanitized_command_name(&format!("{}b", c)) == Some(String::from("b"));
            assert_eq!(skipped, c.is_whitespace());
        }
    }
}

#[test]
fn recovers_the_identity_from_the_texts_of_a_file() {
    let found = launcher_class_from_tokens(&tokens(&[
        "sun.rt.javaCommand",
        "KotlinCompileDaemon --arg",
    ]));
    assert_eq!(found, Ok(String::from("KotlinCompileDaemon")));

    let found = launcher_class_from_tokens(&tokens(&[
        "java.version",
        "21",
        "xsun.rt.javaCommandx",
        "first second",
        "sun.rt.javaCommand",
        "third",
    ]));
    assert_eq!(found, Ok(String::from("first")));

    let found = launcher_class_from_tokens(&tokens(&["sun.rt.javaCommand", " Foo bar"]));
    assert_eq!(found, Ok(String::from("Foo")));
}

#[test]
fn tells_why_texts_give_no_identity() {
    assert_eq!(launcher_class_from_tokens(&Vec::new()), Err(IdentityError::CommandNotFound));
    assert_eq!(
        launcher_class_from_tokens(&tokens(&["java.version", "Main"])),
        Err(IdentityError::CommandNotFound)
    );
    assert_eq!(
        launcher_class_from_tokens(&tokens(&["java.version", "sun.rt.javaCommand"])),
        Err(IdentityError::CommandMissing)
    );
    assert_eq!(
        launcher_class_from_tokens(&tokens(&["sun.rt.javaCommand", "   "])),
        Err(IdentityError::CommandBlank)
    );
    assert_eq!(
        launcher_class_from_tokens(&tokens(&["sun.rt.javaCommand", "\t \n", "Main"])),
        Err(IdentityError::CommandBlank)
    );
}

#[test]
fn recovers_the_identity_from_the_bytes_of_a_file() {
    let bytes = perf_data("KotlinCompileDaemon --arg");
    assert_eq!(
        launcher_class_from_monitored_process(&bytes),
        Ok(String::from("KotlinCompileDaemon"))
    );
    assert_eq!(
        launcher_class_from_monitored_process(&vec![0, 1, 2, 3]),
        Err(IdentityError::CommandNotFound)
    );
    assert_eq!(
        launcher_class_from_monitored_process(&Vec::new()),
        Err(IdentityError::CommandNotFound)
    );
    let mut cut = b"\x00\x01sun.rt.javaCommand\x00".to_vec();
    assert_eq!(launcher_class_from_monitored_process(&cut), Err(IdentityError::CommandMissing));
    cut.extend_from_slice(b"ab\x00");
    assert_eq!(launcher_class_from_monitored_process(&cut), Err(IdentityError::CommandMissing));
    cut.extend_from_slice(b"Main -x\x00");
    assert_eq!(launcher_class_from_monitored_process(&cut), Ok(String::from("Main")));

    let blank = b"\x01sun.rt.javaCommand\x00    \x00Main\x00".to_vec();
    assert_eq!(launcher_class_from_monitored_process(&blank), Err(IdentityError::CommandBlank));
    let indented = b"\x01sun.rt.javaCommand\x00  org.gradle.GradleDaemon 8.7\x00".to_vec();
    assert_eq!(
        launcher_class_from_monitored_process(&indented),
        Ok(String::from("org.gradle.GradleDaemon"))
    );
}

#[test]
fn texts_are_runs_of_at_least_three_printable_bytes() {
    let identity = |bytes: &[u8]| launcher_class_from_monitored_process(&bytes.to_vec());
    let main = Ok(String::from("Main"));
    // Bytes that are not printable end a text: 0, 8, 11, 12, 14, 31, 127, 128 and 255.
    for gap in [0u8, 8, 11, 12, 14, 31, 127, 128, 255] {
        let mut bytes = b"sun.rt.javaCommand".to_vec();
        bytes.push(gap);
        bytes.extend_from_slice(b"Main -x");
        assert_eq!(identity(&bytes), main);
    }
    // Tab, line feed, carriage return and the blank do not: the property and
    // the command are one text, and no text follows it.
    for inside in [9u8, 10, 13, 32] {
        let mut bytes = b"sun.rt.javaCommand".to_vec();
        bytes.push(inside);
        bytes.extend_from_slice(b"Main -x");
        assert_eq!(identity(&bytes), Err(IdentityError::CommandMissing));
    }
    // Runs of one or two bytes are no texts.
    assert_eq!(identity(b"sun.rt.javaCommand\x00a\x00bc\x00Main\x00"), main);
    assert_eq!(identity(b"sun.rt.javaCommand\x00abc\x00Main\x00"), Ok(String::from("abc")));
    assert_eq!(identity(b"su\x00n.rt.javaCommand\x00Main\x00"), Err(IdentityError::CommandNotFound));
    // A text is taken as long as it goes, and the last one ends with the bytes.
    assert_eq!(identity(b"\xffxsun.rt.javaCommandx\x00 ~Main~\t-x"), Ok(String::from("~Main~")));
    assert_eq!(identity(b"sun.rt.javaCommand\x00\x00\x00\x00Main"), main);
}

#[test]
fn finds_the_monitored_processes() {
    let processes = find_jvm_processes(&fake_hsperfdata()).expect("Cannot find processes");
    let expected = vec![
        (4242, String::from(GRADLE_DAEMON)),
        (4243, String::from(KOTLIN_DAEMON)),
        (100, String::from(IDE)),
        (4250, String::from(GRADLE_DAEMON)),
        (4251, String::from(KOTLIN_DAEMON)),
        (4252, String::from(GRADLE_DAEMON)),
    ];
    assert_eq!(processes, expected);
}

#[test]
fn a_missing_directory_means_no_process() {
    assert_eq!(find_jvm_processes(&PerfDataDir::Missing), Ok(Vec::new()));
    assert_eq!(find_jvm_processes(&PerfDataDir::Listed(Vec::new())), Ok(Vec::new()));
}

#[test]
fn tells_why_the_processes_cannot_be_told() {
    assert_eq!(find_jvm_processes(&PerfDataDir::Unreadable), Err(JpsError::DirectoryUnreadable));

    let bad_name = PerfDataDir::Listed(vec![
        PerfDataEntry { file_name: String::from("1"), contents: None },
        entry("not-a-pid", IDE),
        entry("also-not", IDE),
    ]);
    assert_eq!(find_jvm_processes(&bad_name), Err(JpsError::InvalidProcessId { entry: 1 }));

    let unreadable = PerfDataDir::Listed(vec![
        entry("1", IDE),
        PerfDataEntry { file_name: String::from("2"), contents: None },
        PerfDataEntry { file_name: String::from("3"), contents: Some(vec![1, 2, 3]) },
    ]);
    assert_eq!(
        find_jvm_processes(&unreadable),
        Err(JpsError::InvalidIdentity { entry: 1, reason: IdentityError::Unreadable })
    );

    let no_command = PerfDataDir::Listed(vec![
        entry("1", IDE),
        PerfDataEntry { file_name: String::from("3"), contents: Some(vec![1, 2, 3]) },
    ]);
    assert_eq!(
        find_jvm_processes(&no_command),
        Err(JpsError::InvalidIdentity { entry: 1, reason: IdentityError::CommandNotFound })
    );

    let cut = PerfDataDir::Listed(vec![PerfDataEntry {
        file_name: String::from("3"),
        contents: Some(b"sun.rt.javaCommand".to_vec()),
    }]);
    assert_eq!(
        find_jvm_processes(&cut),
        Err(JpsError::InvalidIdentity { entry: 0, reason: IdentityError::CommandMissing })
    );

    let blank = PerfDataDir::Listed(vec![entry("1", IDE), entry("2", "     ")]);
    assert_eq!(
        find_jvm_processes(&blank),
        Err(JpsError::InvalidIdentity { entry: 1, reason: IdentityError::CommandBlank })
    );
}

#[test]
fn a_daemon_whose_command_begins_with_a_blank_is_found() {
    let dir = PerfDataDir::Listed(vec![entry("77", &format!("  {} 8.7", GRADLE_DAEMON))]);
    assert_eq!(find_jvm_processes(&dir), Ok(vec![(77, String::from(GRADLE_DAEMON))]));
}

#[test]
fn selects_the_processes_to_terminate() {
    let processes = vec![
        process(1, KOTLIN_DAEMON, Some(1)),
        process(2, IDE, Some(1)),
        process(3, GRADLE_DAEMON, None),
        process(4, "KOTLIN", Some(1)),
    ];
    let daemons = vec![MemoryCached::GradleBuildDaemon, MemoryCached::KotlinCompilerDaemon];
    assert_eq!(cleanup_memory(&processes, &daemons), vec![1, 3, 4]);
    assert_eq!(cleanup_memory(&processes, &vec![MemoryCached::OtherJavaProcess]), vec![2]);
    assert!(cleanup_memory(&processes, &Vec::new()).is_empty());
    assert!(cleanup_memory(&Vec::new(), &daemons).is_empty());
}

#[test]
fn counts_the_signals_that_succeeded() {
    assert_eq!(count_killed(&vec![true, false, true, true, false]), 3);
    assert_eq!(count_killed(&vec![false, false]), 0);
    assert_eq!(count_killed(&Vec::new()), 0);
}

#[test]
fn locates_the_performance_data_directory() {
    assert_eq!(locate_hsperfdata_dir("/tmp", "ubiratan"), "/tmp/hsperfdata_ubiratan");
    assert_eq!(locate_hsperfdata_dir("/var/tmp/", "root"), "/var/tmp/hsperfdata_root");
}
