//! Who is running: the process id and the launch identity of each
//! monitored process, recovered from its performance data file.

use crate::ram::{PerfDataDir, PerfDataEntry};
use crate::text::{contains, has_infix};
use rust_strings::BytesConfig;
use vstd::prelude::*;
use vstd::string::StrSliceExecFns;

verus! {

/// Why a monitored process has no identity.
#[derive(Debug, Clone, Copy, PartialEq, Eq, Structural)]
pub enum IdentityError {
    /// The file of the process could not be read.
    Unreadable,
    /// No text of the file names the launch command property.
    CommandNotFound,
    /// The launch command property is the last text of the file.
    CommandMissing,
    /// The text after the launch command property holds nothing but white
    /// space.
    CommandBlank,
}

/// Why the monitored processes cannot be told.
#[derive(Debug, Clone, Copy, PartialEq, Eq, Structural)]
pub enum JpsError {
    /// The performance data directory is there and could not be read.
    DirectoryUnreadable,
    /// The name of the file at this position is no process id.
    InvalidProcessId { entry: usize },
    /// The file at this position gives no identity.
    InvalidIdentity { entry: usize, reason: IdentityError },
}

/// The value of a decimal digit.
pub open spec fn digit_value(c: char) -> nat {
    (c as u32 - '0' as u32) as nat
}

pub open spec fn is_digit(c: char) -> bool {
    '0' as u32 <= c as u32 <= '9' as u32
}

/// The number that a run of decimal digits writes.
pub open spec fn digits_value(digits: Seq<char>) -> nat
    decreases digits.len(),
{
    if digits.len() == 0 {
        0
    } else {
        digits_value(digits.drop_last()) * 10 + digit_value(digits.last())
    }
}

/// The digits of a file name: all of it but a leading `+`.
pub open spec fn pid_digits(name: Seq<char>) -> Seq<char> {
    if name.len() > 0 && name[0] == '+' {
        name.drop_first()
    } else {
        name
    }
}

pub open spec fn all_digits(digits: Seq<char>) -> bool {
    forall|i: int| 0 <= i < digits.len() ==> is_digit(#[trigger] digits[i])
}

/// The process id that a file name writes: decimal digits, at least one,
/// after an optional `+`, with a value that fits 32 bits. This is what
/// `u32` accepts when it is parsed from a string.
pub open spec fn parsed_pid(name: Seq<char>) -> Option<u32> {
    let digits = pid_digits(name);
    if digits.len() > 0 && all_digits(digits) && digits_value(digits) <= u32::MAX {
        Some(digits_value(digits) as u32)
    } else {
        None
    }
}

proof fn lemma_digits_value_grows(digits: Seq<char>, upto: int)
    requires
        0 <= upto <= digits.len(),
    ensures
        digits_value(digits.take(upto)) <= digits_value(digits),
    decreases digits.len() - upto,
{
    if upto < digits.len() {
        lemma_digits_value_grows(digits, upto + 1);
        assert(digits.take(upto + 1).drop_last() == digits.take(upto));
    } else {
        assert(digits.take(upto) == digits);
    }
}

/// The process id that the name of a performance data file stands for.
pub fn pid_from_jps_file(file_name: &str) -> (pid: Option<u32>)
    ensures
        pid == parsed_pid(file_name@),
{
    let length = file_name.unicode_len();
    let mut i: usize = 0;
    if length > 0 && file_name.get_char(0) == '+' {
        i = 1;
    }
    let first = i;
    let ghost digits = pid_digits(file_name@);
    proof {
        if first == 1 {
            assert(digits == file_name@.subrange(1, length as int));
        } else {
            assert(digits == file_name@.subrange(0, length as int));
        }
    }
    if i == length {
        return None;
    }
    let mut value: u64 = 0;
    while i < length
        invariant
            first <= i <= length,
            length == file_name@.len(),
            digits == pid_digits(file_name@),
            digits == file_name@.subrange(first as int, length as int),
            forall|k: int| 0 <= k < i - first ==> is_digit(#[trigger] digits[k]),
            value == digits_value(digits.take(i - first)),
            value <= u32::MAX,
        decreases length - i,
    {
        let c = file_name.get_char(i);
        proof {
            assert(digits[i - first] == c);
            assert(digits.take(i - first + 1).drop_last() == digits.take(i - first));
        }
        let code = c as u32;
        if code < 48 || code > 57 {
            return None;
        }
        let digit: u64 = (code - 48) as u64;
        value = value * 10 + digit;
        if value > 0xffff_ffff {
            proof {
                lemma_digits_value_grows(digits, i - first + 1);
            }
            return None;
        }
        i += 1;
    }
    proof {
        assert(digits.take(length - first) == digits);
    }
    Some(value as u32)
}

/// The bytes that count as printable: the visible characters of ASCII with
/// the blank, and tab, line feed and carriage return.
pub open spec fn is_printable(byte: u8) -> bool {
    32 <= byte <= 126 || byte == 9 || byte == 10 || byte == 13
}

/// How many printable bytes stand in a row from `from` on.
pub open spec fn run_length(bytes: Seq<u8>, from: int) -> nat
    decreases bytes.len() - from,
{
    if from < 0 || from >= bytes.len() || !is_printable(bytes[from]) {
        0
    } else {
        1 + run_length(bytes, from + 1)
    }
}

/// Bytes of ASCII as text.
pub open spec fn as_text(run: Seq<u8>) -> Seq<char> {
    Seq::new(run.len(), |i: int| run[i] as char)
}

/// A run of printable bytes begins at `from`: the byte there is printable
/// and the byte before it, if there is one, is not.
pub open spec fn begins_run(bytes: Seq<u8>, from: int) -> bool {
    &&& 0 <= from < bytes.len()
    &&& is_printable(bytes[from])
    &&& from > 0 ==> !is_printable(bytes[from - 1])
}

/// The texts of the runs that begin at `from` or after it: every run of
/// printable bytes, taken as long as it goes, that holds at least three
/// bytes, in the order of the bytes.
pub open spec fn printable_runs_from(bytes: Seq<u8>, from: int) -> Seq<Seq<char>>
    decreases bytes.len() - from,
{
    if from < 0 || from >= bytes.len() {
        Seq::empty()
    } else if begins_run(bytes, from) && run_length(bytes, from) >= 3 {
        seq![as_text(bytes.subrange(from, from + run_length(bytes, from)))] + printable_runs_from(
            bytes,
            from + 1,
        )
    } else {
        printable_runs_from(bytes, from + 1)
    }
}

/// The texts in `bytes`.
pub open spec fn printable_runs(bytes: Seq<u8>) -> Seq<Seq<char>> {
    printable_runs_from(bytes, 0)
}

/// `rust_strings::strings` on a `BytesConfig` with the bytes and the
/// defaults of the crate: ASCII, and texts of at least three bytes. It
/// returns every run of printable bytes that is as long as it can be and
/// holds at least three bytes, each byte as a character, in the order of
/// the bytes. On bytes held in memory it does not fail. The offsets that
/// come with the texts are dropped.
#[verifier::external_body]
pub(crate) fn extract_strings(bytes: &Vec<u8>) -> (found: Vec<String>)
    ensures
        found.deep_view() == printable_runs(bytes@),
{
    let parsing_config = BytesConfig::new(bytes.clone());
    let parsed_binary_info = rust_strings::strings(&parsing_config).unwrap_or_default();
    parsed_binary_info.into_iter().map(|(parsed, _)| parsed).collect()
}

/// White space as Unicode defines it, which is what `char::is_whitespace`
/// tests.
pub open spec fn is_whitespace(c: char) -> bool {
    let code = c as u32;
    ||| 0x09 <= code <= 0x0d
    ||| code == 0x20
    ||| code == 0x85
    ||| code == 0xa0
    ||| code == 0x1680
    ||| 0x2000 <= code <= 0x200a
    ||| code == 0x2028
    ||| code == 0x2029
    ||| code == 0x202f
    ||| code == 0x205f
    ||| code == 0x3000
}

fn whitespace(c: char) -> (white: bool)
    ensures
        white == is_whitespace(c),
{
    let code = c as u32;
    (0x09 <= code && code <= 0x0d) || code == 0x20 || code == 0x85 || code == 0xa0 || code
        == 0x1680 || (0x2000 <= code && code <= 0x200a) || code == 0x2028 || code == 0x2029
        || code == 0x202f || code == 0x205f || code == 0x3000
}

/// The position of the first character of `text` at or after `from` that
/// is no white space, or the length of `text` if there is none.
pub open spec fn first_word_from(text: Seq<char>, from: int) -> int
    decreases text.len() - from,
{
    if from < 0 || from >= text.len() {
        text.len() as int
    } else if !is_whitespace(text[from]) {
        from
    } else {
        first_word_from(text, from + 1)
    }
}

/// The position of the first white space of `text` at or after `from`, or
/// the length of `text` if there is none.
pub open spec fn first_whitespace_from(text: Seq<char>, from: int) -> int
    decreases text.len() - from,
{
    if from < 0 || from >= text.len() {
        text.len() as int
    } else if is_whitespace(text[from]) {
        from
    } else {
        first_whitespace_from(text, from + 1)
    }
}

/// The text holds nothing but white space.
pub open spec fn is_blank(text: Seq<char>) -> bool {
    forall|i: int| 0 <= i < text.len() ==> is_whitespace(#[trigger] text[i])
}

/// The launch identity in a launch command: its first word, which is the
/// first run of characters that are no white space, as long as it goes. A
/// blank command has no word, and for it this is the empty text.
pub open spec fn identity_of(command: Seq<char>) -> Seq<char> {
    let start = first_word_from(command, 0);
    command.subrange(start, first_whitespace_from(command, start))
}

/// The text that names the launch command property of a JVM.
pub open spec fn launch_command_property() -> Seq<char> {
    "sun.rt.javaCommand"@
}

/// The position of the first text at or after `from` that names the launch
/// command property.
pub open spec fn property_position_from(tokens: Seq<Seq<char>>, from: int) -> Option<int>
    decreases tokens.len() - from,
{
    if from < 0 || from >= tokens.len() {
        None
    } else if has_infix(tokens[from], launch_command_property()) {
        Some(from)
    } else {
        property_position_from(tokens, from + 1)
    }
}

/// The launch identity that the texts of a performance data file give: the
/// first word of the text after the first one that names the launch
/// command property. There is none where no text names the property, where
/// no text follows the one that does, and where the text that follows is
/// blank.
pub open spec fn launcher_class(tokens: Seq<Seq<char>>) -> Result<Seq<char>, IdentityError> {
    match property_position_from(tokens, 0) {
        None => Err(IdentityError::CommandNotFound),
        Some(at) => if at + 1 >= tokens.len() {
            Err(IdentityError::CommandMissing)
        } else if is_blank(tokens[at + 1]) {
            Err(IdentityError::CommandBlank)
        } else {
            Ok(identity_of(tokens[at + 1]))
        },
    }
}

/// An identity or the reason why there is none, the identity as its text.
pub open spec fn identity_text(identity: Result<String, IdentityError>) -> Result<
    Seq<char>,
    IdentityError,
> {
    match identity {
        Ok(name) => Ok(name@),
        Err(reason) => Err(reason),
    }
}

/// The first word of a launch command, or nothing for a blank command.
pub fn sanitized_command_name(command: &str) -> (name: Option<String>)
    ensures
        match name {
            Some(word) => !is_blank(command@) && word@ == identity_of(command@),
            None => is_blank(command@),
        },
{
    let length = command.unicode_len();
    let mut start: usize = 0;
    while start < length && whitespace(command.get_char(start))
        invariant
            start <= length,
            length == command@.len(),
            forall|k: int| 0 <= k < start ==> is_whitespace(#[trigger] command@[k]),
            first_word_from(command@, 0) == first_word_from(command@, start as int),
        decreases length - start,
    {
        start += 1;
    }
    if start == length {
        return None;
    }
    proof {
        assert(!is_whitespace(command@[start as int]));
    }
    let mut end: usize = start;
    while end < length && !whitespace(command.get_char(end))
        invariant
            start <= end <= length,
            length == command@.len(),
            first_whitespace_from(command@, start as int) == first_whitespace_from(
                command@,
                end as int,
            ),
        decreases length - end,
    {
        end += 1;
    }
    Some(command.substring_char(start, end).to_owned())
}

/// Recovers the launch identity from the texts of a performance data file,
/// in the order in which they stand in the file.
pub fn launcher_class_from_tokens(tokens: &Vec<String>) -> (identity: Result<
    String,
    IdentityError,
>)
    ensures
        identity_text(identity) == launcher_class(tokens.deep_view()),
{
    let ghost texts = tokens.deep_view();
    let mut i: usize = 0;
    while i < tokens.len()
        invariant
            i <= tokens.len(),
            texts == tokens.deep_view(),
            property_position_from(texts, 0) == property_position_from(texts, i as int),
        decreases tokens.len() - i,
    {
        proof {
            assert(texts[i as int] == tokens@[i as int]@);
        }
        if contains(tokens[i].as_str(), "sun.rt.javaCommand") {
            if i + 1 < tokens.len() {
                proof {
                    assert(texts[i + 1] == tokens@[i + 1]@);
                }
                return match sanitized_command_name(tokens[i + 1].as_str()) {
                    Some(name) => Ok(name),
                    None => Err(IdentityError::CommandBlank),
                };
            } else {
                return Err(IdentityError::CommandMissing);
            }
        }
        i += 1;
    }
    Err(IdentityError::CommandNotFound)
}

/// The launch identity that the bytes of a performance data file give.
pub open spec fn launcher_class_of_bytes(bytes: Seq<u8>) -> Result<Seq<char>, IdentityError> {
    launcher_class(printable_runs(bytes))
}

/// Recovers the launch identity of a monitored process from the bytes of
/// its performance data file.
pub fn launcher_class_from_monitored_process(contents: &Vec<u8>) -> (identity: Result<
    String,
    IdentityError,
>)
    ensures
        identity_text(identity) == launcher_class_of_bytes(contents@),
{
    let parsed_strings = extract_strings(contents);
    launcher_class_from_tokens(&parsed_strings)
}

proof fn lemma_property_position(tokens: Seq<Seq<char>>, from: int, at: int)
    requires
        0 <= from <= at < tokens.len(),
        has_infix(tokens[at], launch_command_property()),
        forall|k: int| 0 <= k < at ==> !has_infix(#[trigger] tokens[k], launch_command_property()),
    ensures
        property_position_from(tokens, from) == Some(at),
    decreases at - from,
{
    if from < at {
        lemma_property_position(tokens, from + 1, at);
    }
}

proof fn lemma_first_word(command: Seq<char>, from: int, at: int)
    requires
        0 <= from <= at <= command.len(),
        forall|k: int| from <= k < at ==> is_whitespace(#[trigger] command[k]),
        at < command.len() ==> !is_whitespace(command[at]),
    ensures
        first_word_from(command, from) == at,
    decreases at - from,
{
    if from < at {
        lemma_first_word(command, from + 1, at);
    }
}

proof fn lemma_first_whitespace(command: Seq<char>, from: int, at: int)
    requires
        0 <= from <= at <= command.len(),
        forall|k: int| from <= k < at ==> !is_whitespace(#[trigger] command[k]),
        at < command.len() ==> is_whitespace(command[at]),
    ensures
        first_whitespace_from(command, from) == at,
    decreases at - from,
{
    if from < at {
        lemma_first_whitespace(command, from + 1, at);
    }
}

/// Where the first word begins: after white space only, and at a
/// character that is none.
proof fn lemma_first_word_begins(command: Seq<char>, from: int)
    requires
        0 <= from <= command.len(),
    ensures
        from <= first_word_from(command, from) <= command.len(),
        forall|k: int|
            from <= k < first_word_from(command, from) ==> is_whitespace(#[trigger] command[k]),
        first_word_from(command, from) < command.len() ==> !is_whitespace(
            command[first_word_from(command, from)],
        ),
    decreases command.len() - from,
{
    if from < command.len() && is_whitespace(command[from]) {
        lemma_first_word_begins(command, from + 1);
    }
}

/// Where a word ends: after characters that are no white space, and at
/// the end of the text or at white space.
proof fn lemma_word_ends(command: Seq<char>, from: int)
    requires
        0 <= from <= command.len(),
    ensures
        from <= first_whitespace_from(command, from) <= command.len(),
        forall|k: int|
            from <= k < first_whitespace_from(command, from) ==> !is_whitespace(
                #[trigger] command[k],
            ),
        first_whitespace_from(command, from) < command.len() ==> is_whitespace(
            command[first_whitespace_from(command, from)],
        ),
    decreases command.len() - from,
{
    if from < command.len() && !is_whitespace(command[from]) {
        lemma_word_ends(command, from + 1);
    }
}

/// The launch identity of a command that is not blank is a word: it is not
/// empty and holds no white space.
pub proof fn lemma_identity_is_a_word(command: Seq<char>)
    requires
        !is_blank(command),
    ensures
        identity_of(command).len() > 0,
        forall|k: int|
            0 <= k < identity_of(command).len() ==> !is_whitespace(
                #[trigger] identity_of(command)[k],
            ),
{
    let start = first_word_from(command, 0);
    lemma_first_word_begins(command, 0);
    assert(start < command.len()) by {
        if start == command.len() {
            assert(is_blank(command));
        }
    }
    lemma_word_ends(command, start);
    let end = first_whitespace_from(command, start);
    assert(end > start);
    assert forall|k: int| 0 <= k < identity_of(command).len() implies !is_whitespace(
        #[trigger] identity_of(command)[k],
    ) by {
        assert(identity_of(command)[k] == command[start + k]);
    }
}

/// Where the first text that names the launch command property is followed
/// by a launch command, identity extraction recovers exactly the first
/// word of that command, which is the command cut at the first white space
/// after that word: of a command made of `blanks`, which are white space,
/// of `identity`, which is not empty and holds no white space, and of
/// `arguments`, which are empty or begin with white space, it recovers
/// `identity`.
pub proof fn lemma_identity_is_first_word_of_command(
    tokens: Seq<Seq<char>>,
    at: int,
    blanks: Seq<char>,
    identity: Seq<char>,
    arguments: Seq<char>,
)
    requires
        0 <= at,
        at + 1 < tokens.len(),
        has_infix(tokens[at], launch_command_property()),
        forall|k: int| 0 <= k < at ==> !has_infix(#[trigger] tokens[k], launch_command_property()),
        tokens[at + 1] == blanks + identity + arguments,
        is_blank(blanks),
        identity.len() > 0,
        forall|k: int| 0 <= k < identity.len() ==> !is_whitespace(#[trigger] identity[k]),
        arguments.len() > 0 ==> is_whitespace(arguments[0]),
    ensures
        launcher_class(tokens) == Ok::<Seq<char>, IdentityError>(identity),
{
    let command = tokens[at + 1];
    let start = blanks.len() as int;
    let end = start + identity.len();
    lemma_property_position(tokens, 0, at);
    assert forall|k: int| 0 <= k < start implies is_whitespace(#[trigger] command[k]) by {
        assert(command[k] == blanks[k]);
    }
    assert forall|k: int| start <= k < end implies !is_whitespace(#[trigger] command[k]) by {
        assert(command[k] == identity[k - start]);
    }
    if arguments.len() > 0 {
        assert(command[end] == arguments[0]);
    }
    assert(!is_blank(command)) by {
        assert(!is_whitespace(command[start]));
    }
    lemma_first_word(command, 0, start);
    lemma_first_whitespace(command, start, end);
    assert(command.subrange(start, end) == identity);
}

/// A blank text after the launch command property gives no identity.
pub proof fn lemma_blank_command_gives_no_identity(tokens: Seq<Seq<char>>, at: int)
    requires
        0 <= at,
        at + 1 < tokens.len(),
        has_infix(tokens[at], launch_command_property()),
        forall|k: int| 0 <= k < at ==> !has_infix(#[trigger] tokens[k], launch_command_property()),
        is_blank(tokens[at + 1]),
    ensures
        launcher_class(tokens) == Err::<Seq<char>, IdentityError>(IdentityError::CommandBlank),
{
    lemma_property_position(tokens, 0, at);
}

/// A run stays inside the bytes, holds printable bytes only, and ends with
/// the bytes or before a byte that is not printable.
proof fn lemma_run(bytes: Seq<u8>, from: int)
    requires
        0 <= from <= bytes.len(),
    ensures
        from + run_length(bytes, from) <= bytes.len(),
        forall|k: int|
            from <= k < from + run_length(bytes, from) ==> is_printable(#[trigger] bytes[k]),
        from + run_length(bytes, from) < bytes.len() ==> !is_printable(
            bytes[from + run_length(bytes, from)],
        ),
    decreases bytes.len() - from,
{
    if from < bytes.len() && is_printable(bytes[from]) {
        lemma_run(bytes, from + 1);
    }
}

/// Printable bytes from `from` up to `end`, where the bytes end or a byte
/// is not printable, are the run at `from`.
proof fn lemma_run_reaches(bytes: Seq<u8>, from: int, end: int)
    requires
        0 <= from <= end <= bytes.len(),
        forall|k: int| from <= k < end ==> is_printable(#[trigger] bytes[k]),
        end < bytes.len() ==> !is_printable(bytes[end]),
    ensures
        run_length(bytes, from) == end - from,
    decreases end - from,
{
    if from < end {
        lemma_run_reaches(bytes, from + 1, end);
    }
}

/// No run crosses from `left` into `right`.
spec fn parted(left: Seq<u8>, right: Seq<u8>) -> bool {
    left.len() > 0 && right.len() > 0 ==> !is_printable(left.last()) || !is_printable(right[0])
}

proof fn lemma_runs_part_from(left: Seq<u8>, right: Seq<u8>, from: int)
    requires
        parted(left, right),
        0 <= from <= left.len() + right.len(),
    ensures
        from <= left.len() ==> printable_runs_from(left + right, from) == printable_runs_from(
            left,
            from,
        ) + printable_runs(right),
        from >= left.len() ==> printable_runs_from(left + right, from) == printable_runs_from(
            right,
            from - left.len(),
        ),
    decreases left.len() + right.len() - from,
{
    let bytes = left + right;
    let inner = from - left.len();
    if from < bytes.len() {
        lemma_runs_part_from(left, right, from + 1);
        let rest = printable_runs_from(bytes, from + 1);
        if from >= left.len() {
            assert(bytes[from] == right[inner]);
            if inner > 0 {
                assert(bytes[from - 1] == right[inner - 1]);
            } else if left.len() > 0 {
                assert(bytes[from - 1] == left.last());
            }
            assert(begins_run(bytes, from) == begins_run(right, inner));
            lemma_run(right, inner);
            let end = from + run_length(right, inner);
            assert forall|k: int| from <= k < end implies is_printable(#[trigger] bytes[k]) by {
                assert(bytes[k] == right[k - left.len()]);
            }
            if end < bytes.len() {
                assert(bytes[end] == right[end - left.len()]);
            }
            lemma_run_reaches(bytes, from, end);
            assert(bytes.subrange(from, end) == right.subrange(inner, end - left.len()));
        } else {
            assert(bytes[from] == left[from]);
            if from > 0 {
                assert(bytes[from - 1] == left[from - 1]);
            }
            assert(begins_run(bytes, from) == begins_run(left, from));
            lemma_run(left, from);
            let end = from + run_length(left, from);
            assert forall|k: int| from <= k < end implies is_printable(#[trigger] bytes[k]) by {
                assert(bytes[k] == left[k]);
            }
            if end < left.len() {
                assert(bytes[end] == left[end]);
            } else if end < bytes.len() {
                assert(bytes[end] == right[0]);
                if end > from {
                    assert(is_printable(left[end - 1]));
                }
            }
            if end > from {
                lemma_run_reaches(bytes, from, end);
                assert(bytes.subrange(from, end) == left.subrange(from, end));
            }
            let text = as_text(left.subrange(from, end));
            assert((seq![text] + printable_runs_from(left, from + 1)) + printable_runs(right)
                == seq![text] + (printable_runs_from(left, from + 1) + printable_runs(right)));
        }
    } else {
        assert(printable_runs_from(left, from) + printable_runs(right) == printable_runs(right))
            by {
            if from <= left.len() {
                assert(right.len() == 0);
                assert(printable_runs_from(left, from) == Seq::<Seq<char>>::empty());
                assert(printable_runs(right) == Seq::<Seq<char>>::empty());
            }
        }
    }
}

/// The texts of bytes that are put together where no run crosses are the
/// texts of the one part followed by the texts of the other.
pub proof fn lemma_runs_part(left: Seq<u8>, right: Seq<u8>)
    requires
        left.len() > 0 && right.len() > 0 ==> !is_printable(left.last()) || !is_printable(right[0]),
    ensures
        printable_runs(left + right) == printable_runs(left) + printable_runs(right),
{
    lemma_runs_part_from(left, right, 0);
}

proof fn lemma_no_text_begins_inside(run: Seq<u8>, from: int)
    requires
        forall|k: int| 0 <= k < run.len() ==> is_printable(#[trigger] run[k]),
        1 <= from,
    ensures
        printable_runs_from(run, from) == Seq::<Seq<char>>::empty(),
    decreases run.len() - from,
{
    if from < run.len() {
        assert(is_printable(run[from - 1]));
        lemma_no_text_begins_inside(run, from + 1);
    }
}

/// Printable bytes, three at least, are one text.
pub proof fn lemma_runs_of_text(run: Seq<u8>)
    requires
        run.len() >= 3,
        forall|k: int| 0 <= k < run.len() ==> is_printable(#[trigger] run[k]),
    ensures
        printable_runs(run) == seq![as_text(run)],
{
    lemma_run_reaches(run, 0, run.len() as int);
    lemma_no_text_begins_inside(run, 1);
    assert(run.subrange(0, run.len() as int) == run);
    assert(seq![as_text(run)] + Seq::<Seq<char>>::empty() == seq![as_text(run)]);
}

proof fn lemma_no_text_from(gap: Seq<u8>, from: int)
    requires
        forall|k: int| 0 <= k < gap.len() ==> !is_printable(#[trigger] gap[k]),
        0 <= from,
    ensures
        printable_runs_from(gap, from) == Seq::<Seq<char>>::empty(),
    decreases gap.len() - from,
{
    if from < gap.len() {
        lemma_no_text_from(gap, from + 1);
    }
}

/// Bytes of which none is printable hold no text.
pub proof fn lemma_runs_of_gap(gap: Seq<u8>)
    requires
        forall|k: int| 0 <= k < gap.len() ==> !is_printable(#[trigger] gap[k]),
    ensures
        printable_runs(gap) == Seq::<Seq<char>>::empty(),
{
    lemma_no_text_from(gap, 0);
}

/// Identity extraction from the bytes of a file. Where the bytes hold a
/// text that names the launch command property, with no such text before
/// it, and after that text and at least one byte that is not printable
/// the launch command as the next text, the identity is the first word of
/// that command, and there is none if the command is blank.
pub proof fn lemma_identity_from_bytes(
    before: Seq<u8>,
    property: Seq<u8>,
    gap: Seq<u8>,
    command: Seq<u8>,
    rest: Seq<u8>,
)
    requires
        before.len() > 0 ==> !is_printable(before.last()),
        forall|k: int|
            0 <= k < printable_runs(before).len() ==> !has_infix(
                #[trigger] printable_runs(before)[k],
                launch_command_property(),
            ),
        property.len() >= 3,
        forall|k: int| 0 <= k < property.len() ==> is_printable(#[trigger] property[k]),
        has_infix(as_text(property), launch_command_property()),
        gap.len() > 0,
        forall|k: int| 0 <= k < gap.len() ==> !is_printable(#[trigger] gap[k]),
        command.len() >= 3,
        forall|k: int| 0 <= k < command.len() ==> is_printable(#[trigger] command[k]),
        rest.len() > 0 ==> !is_printable(rest[0]),
    ensures
        launcher_class_of_bytes(before + property + gap + command + rest) == if is_blank(
            as_text(command),
        ) {
            Err::<Seq<char>, IdentityError>(IdentityError::CommandBlank)
        } else {
            Ok::<Seq<char>, IdentityError>(identity_of(as_text(command)))
        },
{
    let from_command = command + rest;
    let from_gap = gap + from_command;
    let from_property = property + from_gap;
    let bytes = before + from_property;
    assert(bytes == before + property + gap + command + rest);
    assert(from_gap[0] == gap[0]);
    assert(from_property[0] == property[0]);
    lemma_runs_part(command, rest);
    lemma_runs_of_text(command);
    lemma_runs_part(gap, from_command);
    lemma_runs_of_gap(gap);
    lemma_runs_part(property, from_gap);
    lemma_runs_of_text(property);
    lemma_runs_part(before, from_property);
    let earlier = printable_runs(before);
    let tokens = printable_runs(bytes);
    let at = earlier.len() as int;
    assert(tokens == earlier + (seq![as_text(property)] + (seq![as_text(command)]
        + printable_runs(rest)))) by {
        assert(printable_runs(from_gap) == printable_runs(from_command)) by {
            assert(Seq::<Seq<char>>::empty() + printable_runs(from_command) == printable_runs(
                from_command,
            ));
        }
    }
    assert(tokens[at] == as_text(property));
    assert(tokens[at + 1] == as_text(command));
    assert forall|k: int| 0 <= k < at implies !has_infix(
        #[trigger] tokens[k],
        launch_command_property(),
    ) by {
        assert(tokens[k] == earlier[k]);
    }
    lemma_property_position(tokens, 0, at);
}

/// The identity that one file of the performance data directory gives.
pub open spec fn identity_of_entry(entry: PerfDataEntry) -> Result<Seq<char>, IdentityError> {
    match entry.contents {
        None => Err(IdentityError::Unreadable),
        Some(contents) => launcher_class_of_bytes(contents@),
    }
}

/// The text that marks the identities of the JVM's own tools.
pub open spec fn internal_marker() -> Seq<char> {
    "sun"@
}

/// The process that one file stands for, unless it is one of the JVM's own
/// tools.
pub open spec fn monitored(entry: PerfDataEntry) -> Option<(u32, Seq<char>)> {
    match (parsed_pid(entry.file_name@), identity_of_entry(entry)) {
        (Some(pid), Ok(identity)) => if has_infix(identity, internal_marker()) {
            None
        } else {
            Some((pid, identity))
        },
        _ => None,
    }
}

/// The processes that the files of the directory stand for, file by file.
pub open spec fn jvm_processes(entries: Seq<PerfDataEntry>) -> Seq<(u32, Seq<char>)> {
    entries.filter_map(|entry: PerfDataEntry| monitored(entry))
}

/// Every listed process stands for a file of the directory: for its
/// process id there is a file with that name, and that file gives its
/// identity.
pub proof fn lemma_listed_process_has_file(entries: Seq<PerfDataEntry>, at: int)
    requires
        0 <= at < jvm_processes(entries).len(),
    ensures
        exists|k: int|
            0 <= k < entries.len() && monitored(#[trigger] entries[k]) == Some(
                jvm_processes(entries)[at],
            ),
    decreases entries.len(),
{
    let rest = entries.drop_last();
    let listed = jvm_processes(rest);
    if at < listed.len() {
        lemma_listed_process_has_file(rest, at);
        let k = choose|k: int|
            0 <= k < rest.len() && monitored(#[trigger] rest[k]) == Some(listed[at]);
        assert(entries[k] == rest[k]);
        assert(jvm_processes(entries)[at] == listed[at]);
    } else {
        assert(monitored(entries[entries.len() - 1]) is Some);
    }
}

/// No process is listed twice: where no two files of the directory name
/// the same process id, no two listed processes have the same process id.
pub proof fn lemma_processes_are_listed_once(entries: Seq<PerfDataEntry>)
    requires
        forall|i: int, j: int|
            0 <= i < j < entries.len() ==> parsed_pid((#[trigger] entries[i]).file_name@)
                != parsed_pid((#[trigger] entries[j]).file_name@),
    ensures
        forall|a: int, b: int|
            0 <= a < b < jvm_processes(entries).len() ==> (#[trigger] jvm_processes(entries)[a]).0
                != (#[trigger] jvm_processes(entries)[b]).0,
    decreases entries.len(),
{
    if entries.len() > 0 {
        let rest = entries.drop_last();
        let last = entries.last();
        let listed = jvm_processes(rest);
        assert forall|i: int, j: int| 0 <= i < j < rest.len() implies parsed_pid(
            (#[trigger] rest[i]).file_name@,
        ) != parsed_pid((#[trigger] rest[j]).file_name@) by {
            assert(entries[i] == rest[i] && entries[j] == rest[j]);
        }
        lemma_processes_are_listed_once(rest);
        assert forall|a: int, b: int| 0 <= a < b < jvm_processes(entries).len() implies (
        #[trigger] jvm_processes(entries)[a]).0 != (#[trigger] jvm_processes(entries)[b]).0 by {
            if b < listed.len() {
                assert(jvm_processes(entries)[a] == listed[a]);
                assert(jvm_processes(entries)[b] == listed[b]);
            } else {
                lemma_listed_process_has_file(rest, a);
                let k = choose|k: int|
                    0 <= k < rest.len() && monitored(#[trigger] rest[k]) == Some(listed[a]);
                assert(entries[k] == rest[k]);
                assert(parsed_pid(entries[k].file_name@) != parsed_pid(
                    entries[entries.len() - 1].file_name@,
                ));
                assert(jvm_processes(entries)[a] == listed[a]);
                assert(monitored(last) == Some(jvm_processes(entries)[b]));
            }
        }
    }
}

/// What the performance data directory says of the running JVM processes.
/// A missing directory says that there is none. A directory that cannot be
/// read is an error, and so is a file whose name is no process id, whose
/// bytes cannot be read, or whose bytes give no identity: no file is
/// skipped. The names are judged first, all of them, then the identities.
pub open spec fn jvm_processes_of(dir: PerfDataDir, result: Result<
    Seq<(u32, Seq<char>)>,
    JpsError,
>) -> bool {
    match dir {
        PerfDataDir::Missing => result == Ok::<Seq<(u32, Seq<char>)>, JpsError>(Seq::empty()),
        PerfDataDir::Unreadable => result == Err::<Seq<(u32, Seq<char>)>, JpsError>(
            JpsError::DirectoryUnreadable,
        ),
        PerfDataDir::Listed(entries) => match result {
            Ok(processes) => {
                &&& forall|i: int|
                    0 <= i < entries@.len() ==> parsed_pid((#[trigger] entries@[i]).file_name@)
                        is Some && identity_of_entry(entries@[i]) is Ok
                &&& processes == jvm_processes(entries@)
            },
            Err(JpsError::InvalidProcessId { entry }) => {
                &&& entry < entries@.len()
                &&& parsed_pid(entries@[entry as int].file_name@) is None
                &&& forall|i: int|
                    0 <= i < entry ==> parsed_pid((#[trigger] entries@[i]).file_name@) is Some
            },
            Err(JpsError::InvalidIdentity { entry, reason }) => {
                &&& entry < entries@.len()
                &&& forall|i: int|
                    0 <= i < entries@.len() ==> parsed_pid((#[trigger] entries@[i]).file_name@)
                        is Some
                &&& identity_of_entry(entries@[entry as int]) == Err::<
                    Seq<char>,
                    IdentityError,
                >(reason)
                &&& forall|i: int| 0 <= i < entry ==> identity_of_entry(#[trigger] entries@[i]) is Ok
            },
            Err(JpsError::DirectoryUnreadable) => false,
        },
    }
}

/// The processes of a list, each with its identity as text.
pub open spec fn process_texts(processes: Result<Vec<(u32, String)>, JpsError>) -> Result<
    Seq<(u32, Seq<char>)>,
    JpsError,
> {
    match processes {
        Ok(list) => Ok(list.deep_view()),
        Err(error) => Err(error),
    }
}

/// The running JVM processes with their identities, in the order of the
/// directory, without the JVM's own tools.
pub fn find_jvm_processes(dir: &PerfDataDir) -> (processes: Result<Vec<(u32, String)>, JpsError>)
    ensures
        jvm_processes_of(*dir, process_texts(processes)),
{
    let entries = match dir {
        PerfDataDir::Missing => {
            let none: Vec<(u32, String)> = Vec::new();
            proof {
                assert(none.deep_view() =~= Seq::<(u32, Seq<char>)>::empty());
            }
            return Ok(none);
        },
        PerfDataDir::Unreadable => {
            return Err(JpsError::DirectoryUnreadable);
        },
        PerfDataDir::Listed(entries) => entries,
    };
    let mut pids: Vec<u32> = Vec::new();
    let mut i: usize = 0;
    while i < entries.len()
        invariant
            *dir matches PerfDataDir::Listed(listed) && listed@ == entries@,
            i <= entries.len(),
            pids@.len() == i,
            forall|k: int|
                0 <= k < i ==> parsed_pid((#[trigger] entries@[k]).file_name@) == Some(pids@[k]),
        decreases entries.len() - i,
    {
        match pid_from_jps_file(entries[i].file_name.as_str()) {
            None => {
                return Err(JpsError::InvalidProcessId { entry: i });
            },
            Some(pid) => {
                pids.push(pid);
            },
        }
        i += 1;
    }
    let mut processes: Vec<(u32, String)> = Vec::new();
    let mut i: usize = 0;
    while i < entries.len()
        invariant
            *dir matches PerfDataDir::Listed(listed) && listed@ == entries@,
            i <= entries.len(),
            pids@.len() == entries@.len(),
            forall|k: int|
                0 <= k < entries@.len() ==> parsed_pid((#[trigger] entries@[k]).file_name@)
                    == Some(pids@[k]),
            forall|k: int| 0 <= k < i ==> identity_of_entry(#[trigger] entries@[k]) is Ok,
            processes.deep_view() == jvm_processes(entries@.take(i as int)),
        decreases entries.len() - i,
    {
        let ghost before = processes.deep_view();
        proof {
            assert(entries@.take(i + 1).drop_last() == entries@.take(i as int));
            assert(entries@.take(i + 1).last() == entries@[i as int]);
        }
        let identity = match &entries[i].contents {
            None => Err(IdentityError::Unreadable),
            Some(contents) => launcher_class_from_monitored_process(contents),
        };
        match identity {
            Err(reason) => {
                return Err(JpsError::InvalidIdentity { entry: i, reason });
            },
            Ok(class_name) => {
                proof {
                    reveal_strlit("sun");
                }
                if !contains(class_name.as_str(), "sun") {
                    let ghost name = class_name@;
                    processes.push((pids[i], class_name));
                    proof {
                        assert(processes.deep_view() =~= before.push((pids@[i as int], name)));
                        assert(before.push((pids@[i as int], name)) == before + seq![
                            (pids@[i as int], name),
                        ]);
                    }
                }
            },
        }
        i += 1;
    }
    proof {
        assert(entries@.take(entries.len() as int) == entries@);
    }
    Ok(processes)
}

} // verus!
