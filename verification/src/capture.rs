//! Capture of a shell's environment.
//!
//! A shell prints its environment between two markers, each variable as `NAME=value` and ended by a
//! zero byte. The captured variables then replace the inherited ones, except for those that every
//! shell manages for itself.
use vstd::prelude::*;
use vstd::slice::slice_subrange;
use vstd::string::*;
use vstd::utf8::*;

use crate::environment::{assignments, map_of, Environment};
use crate::ids::{hex_digits, is_random_id, new_random_id, simple_text};
use crate::text::{has_prefix, lemma_prefixes_can_be_completed, same_text, starts_with, texts};

verus! {

/// Where a byte first occurs.
pub open spec fn first_index(bytes: Seq<u8>, byte: u8) -> Option<int>
    decreases bytes.len(),
{
    if bytes.len() == 0 {
        None
    } else if bytes[0] == byte {
        Some(0)
    } else {
        match first_index(bytes.drop_first(), byte) {
            Some(i) => Some(i + 1),
            None => None,
        }
    }
}

proof fn lemma_first_index(bytes: Seq<u8>, byte: u8, i: int)
    requires
        0 <= i <= bytes.len(),
        forall|j: int| 0 <= j < i ==> bytes[j] != byte,
        i < bytes.len() ==> bytes[i] == byte,
    ensures
        first_index(bytes, byte) == if i < bytes.len() {
            Some(i)
        } else {
            None
        },
    decreases bytes.len(),
{
    if bytes.len() > 0 && i > 0 {
        let rest = bytes.drop_first();
        assert forall|j: int| 0 <= j < i - 1 implies rest[j] != byte by {
            assert(rest[j] == bytes[j + 1]);
        }
        lemma_first_index(rest, byte, i - 1);
    }
}

/// Finds a byte at or after `from`; the length of `bytes` where there is none.
fn find_byte(bytes: &[u8], from: usize, byte: u8) -> (at: usize)
    requires
        from <= bytes@.len(),
    ensures
        from <= at <= bytes@.len(),
        forall|j: int| from <= j < at ==> bytes@[j] != byte,
        at < bytes@.len() ==> bytes@[at as int] == byte,
{
    let mut at: usize = from;
    while at < bytes.len() && bytes[at] != byte
        invariant
            from <= at <= bytes@.len(),
            forall|j: int| from <= j < at ==> bytes@[j] != byte,
        ensures
            from <= at <= bytes@.len(),
            forall|j: int| from <= j < at ==> bytes@[j] != byte,
            at < bytes@.len() ==> bytes@[at as int] == byte,
        decreases bytes@.len() - at,
    {
        at += 1;
    }
    at
}

/// The records of a payload: the runs of bytes between zero bytes.
pub open spec fn records(payload: Seq<u8>) -> Seq<Seq<u8>>
    decreases payload.len(),
{
    match first_index(payload, 0) {
        Some(i) if 0 <= i < payload.len() => seq![payload.take(i)] + records(payload.skip(i + 1)),
        _ => seq![payload],
    }
}

/// The variable that a record sets. A record without `=` sets none, nor does one that is not UTF-8.
pub open spec fn assignment(record: Seq<u8>) -> Option<(Seq<char>, Seq<char>)> {
    match first_index(record, 0x3d) {
        Some(i) => if valid_utf8(record.take(i)) && valid_utf8(record.skip(i + 1)) {
            Some((decode_utf8(record.take(i)), decode_utf8(record.skip(i + 1))))
        } else {
            None
        },
        None => None,
    }
}

/// The assignments of the records that are not empty.
pub open spec fn record_assignments(records: Seq<Seq<u8>>) -> Seq<
    Option<(Seq<char>, Seq<char>)>,
> {
    records.filter(|record: Seq<u8>| record.len() > 0).map_values(
        |record: Seq<u8>| assignment(record),
    )
}

/// The variables that a list of records sets, where every record that is not empty sets one.
pub open spec fn captured_variables(records: Seq<Seq<u8>>) -> Option<Map<Seq<char>, Seq<char>>> {
    let found = record_assignments(records);
    if forall|i: int| 0 <= i < found.len() ==> (#[trigger] found[i]) is Some {
        Some(map_of(found.map_values(|pair: Option<(Seq<char>, Seq<char>)>| pair->Some_0)))
    } else {
        None
    }
}

/// What stands between the two markers of an output that starts with the one and ends with the
/// other.
pub open spec fn payload_of(output: Seq<u8>, start: Seq<u8>, end: Seq<u8>) -> Option<Seq<u8>> {
    if start.len() + end.len() <= output.len() && output.take(start.len() as int) == start
        && output.skip(output.len() - end.len()) == end {
        Some(output.subrange(start.len() as int, output.len() - end.len()))
    } else {
        None
    }
}

/// The environment that an output holds: framed by the markers, every record ended by a zero byte.
pub open spec fn parsed(output: Seq<u8>, start: Seq<u8>, end: Seq<u8>) -> Option<
    Map<Seq<char>, Seq<char>>,
> {
    match payload_of(output, start, end) {
        Some(payload) => if payload.len() > 0 && payload.last() != 0 {
            None
        } else {
            captured_variables(records(payload))
        },
        None => None,
    }
}

/// `std::str::from_utf8`, with the text copied.
///
/// Claims that it accepts exactly the valid UTF-8 sequences and yields the characters they encode.
#[verifier::external_body]
fn utf8_text(bytes: &[u8]) -> (text: Option<String>)
    ensures
        text is Some <==> valid_utf8(bytes@),
        text matches Some(text) ==> text@ == decode_utf8(bytes@),
{
    std::str::from_utf8(bytes).ok().map(|text| text.to_string())
}

fn parse_record(record: &[u8]) -> (pair: Option<(String, String)>)
    ensures
        match pair {
            Some(pair) => Some((pair.0@, pair.1@)),
            None => None,
        } == assignment(record@),
{
    let separator = find_byte(record, 0, 0x3d);
    proof {
        lemma_first_index(record@, 0x3d, separator as int);
    }
    if separator == record.len() {
        return None;
    }
    let name = slice_subrange(record, 0, separator);
    let value = slice_subrange(record, separator + 1, record.len());
    proof {
        assert(name@ =~= record@.take(separator as int));
        assert(value@ =~= record@.skip(separator + 1));
    }
    match (utf8_text(name), utf8_text(value)) {
        (Some(name), Some(value)) => Some((name, value)),
        _ => None,
    }
}

fn has_bytes_at(bytes: &[u8], from: usize, part: &[u8]) -> (same: bool)
    requires
        from + part@.len() <= bytes@.len(),
    ensures
        same == (bytes@.subrange(from as int, from + part@.len()) == part@),
{
    let total: usize = bytes.len();
    let mut i: usize = 0;
    while i < part.len()
        invariant
            i <= part@.len(),
            from + part@.len() <= bytes@.len(),
            bytes@.len() == total,
            forall|j: int| 0 <= j < i ==> bytes@[from + j] == part@[j],
        decreases part@.len() - i,
    {
        if bytes[from + i] != part[i] {
            proof {
                assert(bytes@.subrange(from as int, from + part@.len())[i as int] != part@[i as int]);
            }
            return false;
        }
        i += 1;
    }
    proof {
        assert(bytes@.subrange(from as int, from + part@.len()) =~= part@);
    }
    true
}

/// Reads the environment out of the output of a capture.
pub fn parse_capture(output: Vec<u8>, start_marker: &str, end_marker: &str) -> (environment: Option<
    Environment,
>)
    ensures
        match environment {
            Some(environment) => Some(environment@),
            None => None,
        } == parsed(output@, encode_utf8(start_marker@), encode_utf8(end_marker@)),
{
    let bytes = output.as_slice();
    let start = start_marker.as_bytes();
    let end = end_marker.as_bytes();
    if bytes.len() < start.len() || bytes.len() - start.len() < end.len() {
        return None;
    }
    let payload_end: usize = bytes.len() - end.len();
    proof {
        assert(bytes@.take(start@.len() as int) =~= bytes@.subrange(0, start@.len() as int));
        assert(bytes@.skip(bytes@.len() - end@.len()) =~= bytes@.subrange(
            payload_end as int,
            payload_end + end@.len(),
        ));
    }
    if !has_bytes_at(bytes, 0, start) || !has_bytes_at(bytes, payload_end, end) {
        return None;
    }
    let payload = slice_subrange(bytes, start.len(), payload_end);
    if payload.len() > 0 && payload[payload.len() - 1] != 0 {
        return None;
    }
    parse_payload(payload)
}

fn parse_payload(payload: &[u8]) -> (environment: Option<Environment>)
    requires
        payload@.len() > 0 ==> payload@.last() == 0,
    ensures
        match environment {
            Some(environment) => Some(environment@),
            None => None,
        } == captured_variables(records(payload@)),
{
    let mut environment = Environment::new();
    let mut at: usize = 0;
    let ghost mut done: Seq<Seq<u8>> = Seq::empty();
    proof {
        assert(payload@.skip(0) =~= payload@);
        assert(done + records(payload@) =~= records(payload@));
        lemma_no_records();
    }
    while at < payload.len()
        invariant
            at <= payload@.len(),
            payload@.len() > 0 ==> payload@.last() == 0,
            records(payload@) == done + records(payload@.skip(at as int)),
            captured_variables(done) == Some(environment@),
        decreases payload@.len() - at,
    {
        let ghost rest = payload@.skip(at as int);
        let stop = find_byte(payload, at, 0);
        proof {
            assert(payload@[payload@.len() - 1] == 0);
            assert(stop < payload@.len());
            assert forall|j: int| 0 <= j < stop - at implies rest[j] != 0 by {
                assert(rest[j] == payload@[at + j]);
            }
            assert(rest[stop - at] == payload@[stop as int]);
            lemma_first_index(rest, 0, stop - at);
            assert(rest.skip(stop - at + 1) =~= payload@.skip(stop + 1));
        }
        let record = slice_subrange(payload, at, stop);
        proof {
            assert(record@ =~= rest.take(stop - at));
            assert(done + records(rest) =~= done.push(record@) + records(payload@.skip(stop + 1)));
            lemma_captured_push(done, record@);
        }
        if stop > at {
            match parse_record(record) {
                Some((name, value)) => {
                    environment.insert(name, value);
                },
                None => {
                    proof {
                        lemma_captured_fails(
                            done.push(record@),
                            records(payload@.skip(stop + 1)),
                        );
                    }
                    return None;
                },
            }
        }
        proof {
            done = done.push(record@);
        }
        at = stop + 1;
    }
    proof {
        assert(payload@.skip(at as int) =~= Seq::<u8>::empty());
        let nothing = Seq::<u8>::empty();
        assert(records(nothing) =~= seq![nothing]);
        assert(done + records(nothing) =~= done.push(nothing));
        lemma_captured_push(done, nothing);
    }
    Some(environment)
}

proof fn lemma_no_records()
    ensures
        captured_variables(Seq::empty()) == Some(Map::<Seq<char>, Seq<char>>::empty()),
{
    let none = Seq::<Seq<u8>>::empty();
    reveal(Seq::filter);
    assert(record_assignments(none).len() == 0);
}

/// One more record: an empty one changes nothing, any other has to set a variable.
proof fn lemma_captured_push(records: Seq<Seq<u8>>, record: Seq<u8>)
    ensures
        captured_variables(records.push(record)) == match captured_variables(records) {
            Some(variables) => if record.len() == 0 {
                Some(variables)
            } else {
                match assignment(record) {
                    Some(pair) => Some(variables.insert(pair.0, pair.1)),
                    None => None,
                }
            },
            None => None,
        },
{
    let longer = records.push(record);
    let found = record_assignments(records);
    let more = record_assignments(longer);
    assert(longer.drop_last() =~= records);
    reveal(Seq::filter);
    if record.len() == 0 {
        assert(more =~= found);
    } else {
        assert(more =~= found.push(assignment(record)));
        if forall|i: int| 0 <= i < more.len() ==> (#[trigger] more[i]) is Some {
            assert forall|i: int| 0 <= i < found.len() implies (#[trigger] found[i]) is Some by {
                assert(more[i] == found[i]);
            }
            assert(more[found.len() as int] == assignment(record));
            let pairs = more.map_values(|pair: Option<(Seq<char>, Seq<char>)>| pair->Some_0);
            assert(pairs.drop_last() =~= found.map_values(
                |pair: Option<(Seq<char>, Seq<char>)>| pair->Some_0,
            ));
        } else {
            let i = choose|i: int| 0 <= i < more.len() && !((#[trigger] more[i]) is Some);
            if i < found.len() {
                assert(!(found[i] is Some));
            }
        }
    }
}

/// A record that sets no variable spoils the whole list.
proof fn lemma_captured_fails(records: Seq<Seq<u8>>, rest: Seq<Seq<u8>>)
    requires
        captured_variables(records) is None,
    ensures
        captured_variables(records + rest) is None,
    decreases rest.len(),
{
    if rest.len() == 0 {
        assert(records + rest =~= records);
    } else {
        let next = records.push(rest[0]);
        lemma_captured_push(records, rest[0]);
        lemma_captured_fails(next, rest.drop_first());
        assert(next + rest.drop_first() =~= records + rest);
    }
}

/// Whether every shell manages a variable for itself.
pub open spec fn is_shell_managed(key: Seq<char>) -> bool {
    ||| has_prefix(key, "BASH_FUNC_"@)
    ||| key == "BASHOPTS"@
    ||| key == "BASH_ARGV0"@
    ||| key == "BASH_EXECUTION_STRING"@
    ||| key == "OLDPWD"@
    ||| key == "PWD"@
    ||| key == "SHELLOPTS"@
    ||| key == "SHLVL"@
    ||| key == "_"@
}

/// Whether every shell manages a variable for itself.
pub fn shell_managed(key: &str) -> (managed: bool)
    ensures
        managed == is_shell_managed(key@),
{
    starts_with(key, "BASH_FUNC_") || same_text(key, "BASHOPTS") || same_text(key, "BASH_ARGV0")
        || same_text(key, "BASH_EXECUTION_STRING") || same_text(key, "OLDPWD") || same_text(
        key,
        "PWD",
    ) || same_text(key, "SHELLOPTS") || same_text(key, "SHLVL") || same_text(key, "_")
}

/// Whether the sanitized environment takes a variable from the captured one.
pub open spec fn keeps_captured(key: Seq<char>) -> bool {
    key != "BASH_ENV"@ && !is_shell_managed(key)
}

/// The environment to launch with: shell-managed variables come from the original environment, the
/// others from the captured one, and `BASH_ENV` is gone.
pub open spec fn sanitized(
    captured: Map<Seq<char>, Seq<char>>,
    original: Map<Seq<char>, Seq<char>>,
) -> Map<Seq<char>, Seq<char>> {
    captured.filter_keys(|key: Seq<char>| keeps_captured(key)).union_prefer_right(
        original.filter_keys(|key: Seq<char>| is_shell_managed(key)),
    )
}

/// Which variables are copied out of an environment.
#[derive(Clone, Copy, PartialEq, Eq, Structural)]
enum Selection {
    Captured,
    ShellManaged,
}

spec fn selects(selection: Selection, key: Seq<char>) -> bool {
    match selection {
        Selection::Captured => keeps_captured(key),
        Selection::ShellManaged => is_shell_managed(key),
    }
}

fn copy_selected(source: &Environment, selection: Selection, target: &mut Environment)
    ensures
        final(target)@ == old(target)@.union_prefer_right(
            source@.filter_keys(|key: Seq<char>| selects(selection, key)),
        ),
{
    let entries = source.entries();
    let ghost pairs = assignments(entries@);
    let ghost chosen = |key: Seq<char>| selects(selection, key);
    let mut i: usize = 0;
    proof {
        assert(map_of(pairs.take(0)) =~= Map::empty());
        assert(target@ =~= old(target)@.union_prefer_right(
            map_of(pairs.take(0)).filter_keys(chosen),
        ));
    }
    while i < entries.len()
        invariant
            i <= entries@.len(),
            pairs == assignments(entries@),
            chosen == (|key: Seq<char>| selects(selection, key)),
            target@ == old(target)@.union_prefer_right(
                map_of(pairs.take(i as int)).filter_keys(chosen),
            ),
        decreases entries@.len() - i,
    {
        let ghost before = map_of(pairs.take(i as int));
        let ghost after = map_of(pairs.take(i + 1));
        let ghost pair = pairs[i as int];
        proof {
            assert(pair == (entries@[i as int].0@, entries@[i as int].1@));
            assert(pairs.take(i + 1).drop_last() =~= pairs.take(i as int));
            assert(after == before.insert(pair.0, pair.1));
        }
        let key = entries[i].0.as_str();
        let take = match selection {
            Selection::Captured => !same_text(key, "BASH_ENV") && !shell_managed(key),
            Selection::ShellManaged => shell_managed(key),
        };
        if take {
            target.insert(entries[i].0.clone(), entries[i].1.clone());
        }
        proof {
            if take {
                assert(after.filter_keys(chosen) =~= before.filter_keys(chosen).insert(
                    pair.0,
                    pair.1,
                ));
            } else {
                assert(after.filter_keys(chosen) =~= before.filter_keys(chosen));
            }
            assert(target@ =~= old(target)@.union_prefer_right(after.filter_keys(chosen)));
        }
        i += 1;
    }
    proof {
        assert(pairs.take(i as int) =~= pairs);
    }
}

/// The environment to launch with, from what was captured and what was inherited.
pub fn sanitize_environment(captured: Environment, original: &Environment) -> (environment:
    Environment)
    ensures
        environment@ == sanitized(captured@, original@),
{
    let mut environment = Environment::new();
    copy_selected(&captured, Selection::Captured, &mut environment);
    proof {
        let kept = |key: Seq<char>| keeps_captured(key);
        assert(environment@ =~= captured@.filter_keys(kept));
    }
    copy_selected(original, Selection::ShellManaged, &mut environment);
    proof {
        let managed = |key: Seq<char>| is_shell_managed(key);
        let selected = |key: Seq<char>| selects(Selection::ShellManaged, key);
        assert(original@.filter_keys(managed) =~= original@.filter_keys(selected));
    }
    environment
}

/// How to run a shell so that it prints its environment.
#[derive(Debug, Eq, PartialEq)]
pub struct CapturePlan {
    pub argv: Vec<String>,
    pub start_marker: String,
    pub end_marker: String,
}

/// The value of a [`CapturePlan`].
pub struct CapturePlanView {
    pub argv: Seq<Seq<char>>,
    pub start_marker: Seq<char>,
    pub end_marker: Seq<char>,
}

impl View for CapturePlan {
    type V = CapturePlanView;

    open spec fn view(&self) -> CapturePlanView {
        CapturePlanView {
            argv: texts(self.argv@),
            start_marker: self.start_marker@,
            end_marker: self.end_marker@,
        }
    }
}

/// The plan for a shell and a nonce: print the start marker, the environment and, if that worked,
/// the end marker.
pub open spec fn plan_for(shell: Seq<char>, nonce: Seq<char>) -> CapturePlanView {
    let start_marker = "__CODEX_BASH_ENV_START_"@ + nonce + "__"@;
    let end_marker = "__CODEX_BASH_ENV_END_"@ + nonce + "__"@;
    CapturePlanView {
        argv: seq![
            shell,
            "-c"@,
            "builtin printf '%s' '"@ + start_marker
                + "'; if builtin command env -0; then builtin printf '%s' '"@ + end_marker
                + "'; else builtin exit 125; fi"@,
        ],
        start_marker,
        end_marker,
    }
}

/// The plan for a shell and a nonce.
pub fn capture_plan(shell: &str, nonce: &str) -> (plan: CapturePlan)
    ensures
        plan@ == plan_for(shell@, nonce@),
{
    let start_marker = "__CODEX_BASH_ENV_START_".to_owned().concat(nonce).concat("__");
    let end_marker = "__CODEX_BASH_ENV_END_".to_owned().concat(nonce).concat("__");
    let script = "builtin printf '%s' '".to_owned().concat(start_marker.as_str()).concat(
        "'; if builtin command env -0; then builtin printf '%s' '",
    ).concat(end_marker.as_str()).concat("'; else builtin exit 125; fi");
    let mut argv: Vec<String> = Vec::new();
    argv.push(shell.to_owned());
    argv.push("-c".to_owned());
    argv.push(script);
    let plan = CapturePlan { argv, start_marker, end_marker };
    proof {
        assert(plan@.argv =~= plan_for(shell@, nonce@).argv);
    }
    plan
}

/// The plan for the shell that a command names first, under a fresh nonce.
pub fn new_capture_plan(argv: &Vec<String>) -> (plan: Option<CapturePlan>)
    ensures
        plan is Some <==> argv@.len() > 0,
        plan matches Some(plan) ==> exists|id: u128|
            is_random_id(id) && plan@ == plan_for(argv@[0]@, #[trigger] hex_digits(id)),
{
    if argv.len() == 0 {
        return None;
    }
    let id: u128 = new_random_id();
    Some(capture_plan(argv[0].as_str(), simple_text(id).as_str()))
}

/// How much a capture may print on either stream.
pub const MAX_CAPTURE_BYTES: usize = 1048576;

/// Adds a chunk to what a stream has printed so far; a stream that prints too much is given up.
pub fn collect_output(output: Vec<u8>, chunk: &Vec<u8>) -> (collected: Option<Vec<u8>>)
    ensures
        collected is Some <==> output@.len() + chunk@.len() <= MAX_CAPTURE_BYTES,
        collected matches Some(collected) ==> collected@ == output@ + chunk@,
        optional_bytes(collected) == collected_output(seq![output@, chunk@]),
{
    proof {
        let chunks = seq![output@, chunk@];
        assert(chunks.drop_last() =~= seq![output@]);
        assert(seq![output@].drop_last() =~= Seq::empty());
        assert(Seq::<u8>::empty() + output@ =~= output@);
        reveal_with_fuel(collected_output, 3);
    }
    match output.len().checked_add(chunk.len()) {
        Some(total) => {
            if total > MAX_CAPTURE_BYTES {
                return None;
            }
        },
        None => {
            return None;
        },
    }
    let mut output = output;
    let mut i: usize = 0;
    let ghost before = output@;
    while i < chunk.len()
        invariant
            i <= chunk@.len(),
            output@ == before + chunk@.take(i as int),
        decreases chunk@.len() - i,
    {
        output.push(chunk[i]);
        i += 1;
        proof {
            assert(output@ =~= before + chunk@.take(i as int));
        }
    }
    proof {
        assert(chunk@.take(i as int) =~= chunk@);
    }
    Some(output)
}

/// What is collected of a stream that prints the given chunks.
pub open spec fn collected_output(chunks: Seq<Seq<u8>>) -> Option<Seq<u8>>
    decreases chunks.len(),
{
    if chunks.len() == 0 {
        Some(Seq::empty())
    } else {
        match collected_output(chunks.drop_last()) {
            Some(output) => if output.len() + chunks.last().len() <= MAX_CAPTURE_BYTES {
                Some(output + chunks.last())
            } else {
                None
            },
            None => None,
        }
    }
}

/// However a stream is cut into chunks, it is collected whole, or not at all where it is too long.
pub proof fn lemma_output_is_collected_whole_or_not_at_all(chunks: Seq<Seq<u8>>)
    ensures
        collected_output(chunks) == if chunks.flatten().len() <= MAX_CAPTURE_BYTES {
            Some(chunks.flatten())
        } else {
            None
        },
    decreases chunks.len(),
{
    if chunks.len() == 0 {
        assert(chunks.flatten() =~= Seq::<u8>::empty());
    } else {
        lemma_output_is_collected_whole_or_not_at_all(chunks.drop_last());
        chunks.lemma_flatten_and_flatten_alt_are_equivalent();
        chunks.drop_last().lemma_flatten_and_flatten_alt_are_equivalent();
    }
}

/// The environment that a capture yields: only a shell that exited cleanly and printed nothing on
/// its error stream is believed.
pub open spec fn capture_outcome(
    exit_code: Option<i32>,
    stdout: Option<Seq<u8>>,
    stderr: Option<Seq<u8>>,
    plan: CapturePlanView,
    original: Map<Seq<char>, Seq<char>>,
) -> Option<Map<Seq<char>, Seq<char>>> {
    match (exit_code, stdout, stderr) {
        (Some(0i32), Some(stdout), Some(stderr)) if stderr.len() == 0 => match parsed(
            stdout,
            encode_utf8(plan.start_marker),
            encode_utf8(plan.end_marker),
        ) {
            Some(captured) => Some(sanitized(captured, original)),
            None => None,
        },
        _ => None,
    }
}

/// The value of a collected stream.
pub open spec fn optional_bytes(bytes: Option<Vec<u8>>) -> Option<Seq<u8>> {
    match bytes {
        Some(bytes) => Some(bytes@),
        None => None,
    }
}

/// Turns the end of a capture into the environment to launch with. The exit code is missing where
/// the shell's end was not observed, a stream where it was given up.
pub fn capture_environment(
    plan: &CapturePlan,
    exit_code: Option<i32>,
    stdout: Option<Vec<u8>>,
    stderr: Option<Vec<u8>>,
    original: &Environment,
) -> (environment: Option<Environment>)
    ensures
        match environment {
            Some(environment) => Some(environment@),
            None => None,
        } == capture_outcome(
            exit_code,
            optional_bytes(stdout),
            optional_bytes(stderr),
            plan@,
            original@,
        ),
{
    let clean = match (exit_code, stderr) {
        (Some(exit_code), Some(stderr)) => exit_code == 0 && stderr.len() == 0,
        _ => false,
    };
    if !clean {
        return None;
    }
    match stdout {
        Some(stdout) => match parse_capture(
            stdout,
            plan.start_marker.as_str(),
            plan.end_marker.as_str(),
        ) {
            Some(captured) => Some(sanitize_environment(captured, original)),
            None => None,
        },
        None => None,
    }
}

/// The sanitized environment never runs the startup file again, and whatever every shell manages for
/// itself is exactly as it was inherited.
pub proof fn lemma_sanitizing_drops_the_startup_file(
    captured: Map<Seq<char>, Seq<char>>,
    original: Map<Seq<char>, Seq<char>>,
)
    ensures
        !sanitized(captured, original).contains_key("BASH_ENV"@),
        forall|key: Seq<char>|
            is_shell_managed(key) ==> sanitized(captured, original).contains_key(key)
                == original.contains_key(key),
        forall|key: Seq<char>|
            is_shell_managed(key) && original.contains_key(key) ==> #[trigger] sanitized(
                captured,
                original,
            )[key] == original[key],
        forall|key: Seq<char>|
            keeps_captured(key) ==> sanitized(captured, original).contains_key(key)
                == captured.contains_key(key),
        forall|key: Seq<char>|
            keeps_captured(key) && captured.contains_key(key) ==> #[trigger] sanitized(
                captured,
                original,
            )[key] == captured[key],
{
    reveal_strlit("BASH_ENV");
    reveal_strlit("BASH_FUNC_");
    reveal_strlit("BASHOPTS");
    reveal_strlit("BASH_ARGV0");
    reveal_strlit("BASH_EXECUTION_STRING");
    reveal_strlit("OLDPWD");
    reveal_strlit("PWD");
    reveal_strlit("SHELLOPTS");
    reveal_strlit("SHLVL");
    reveal_strlit("_");
    let key = "BASH_ENV"@;
    assert(key.len() == 8);
    assert("BASHOPTS"@[4] == 'O' && key[4] == '_');
    assert("BASH_ARGV0"@.len() == 10);
    assert("BASH_EXECUTION_STRING"@.len() == 21);
    assert("SHELLOPTS"@.len() == 9);
    assert(!is_shell_managed(key) && !keeps_captured(key));
}

/// The record that sets a variable.
pub open spec fn record_of(pair: (Seq<char>, Seq<char>)) -> Seq<u8> {
    encode_utf8(pair.0) + seq![0x3du8] + encode_utf8(pair.1)
}

/// What a shell prints for the given variables.
pub open spec fn printed(pairs: Seq<(Seq<char>, Seq<char>)>) -> Seq<u8>
    decreases pairs.len(),
{
    if pairs.len() == 0 {
        Seq::empty()
    } else {
        record_of(pairs[0]).push(0) + printed(pairs.drop_first())
    }
}

/// Whether a pair can be in an environment: no zero character, and no `=` in the name.
pub open spec fn is_printable(pair: (Seq<char>, Seq<char>)) -> bool {
    &&& !pair.0.contains('\0')
    &&& !pair.0.contains('=')
    &&& !pair.1.contains('\0')
}

proof fn lemma_encoding_avoids(chars: Seq<char>, ascii: char)
    requires
        (ascii as u32) < 0x80,
        !chars.contains(ascii),
    ensures
        forall|i: int| 0 <= i < encode_utf8(chars).len() ==> encode_utf8(chars)[i] != ascii as u8,
    decreases chars.len(),
{
    if chars.len() > 0 {
        let rest = chars.drop_first();
        assert(!rest.contains(ascii)) by {
            if rest.contains(ascii) {
                let i = choose|i: int| 0 <= i < rest.len() && rest[i] == ascii;
                assert(chars[i + 1] == ascii);
            }
        }
        lemma_encoding_avoids(rest, ascii);
        assert(chars[0] != ascii);
        let c = chars[0] as u32;
        let a = ascii as u8;
        char_is_scalar(chars[0]);
        assert(c < 0x80 ==> (c & 0x7f) as u8 == c) by (bit_vector);
        assert(0xc0u8 | ((c >> 6) & 0x1f) as u8 >= 0x80u8) by (bit_vector);
        assert(0xe0u8 | ((c >> 12) & 0x0f) as u8 >= 0x80u8) by (bit_vector);
        assert(0xf0u8 | ((c >> 18) & 0x7) as u8 >= 0x80u8) by (bit_vector);
        assert(0x80u8 | (c & 0x3f) as u8 >= 0x80u8) by (bit_vector);
        assert(0x80u8 | ((c >> 6) & 0x3f) as u8 >= 0x80u8) by (bit_vector);
        assert(0x80u8 | ((c >> 12) & 0x3f) as u8 >= 0x80u8) by (bit_vector);
        let head = encode_scalar(c);
        assert(forall|i: int| 0 <= i < head.len() ==> head[i] == c || head[i] >= 0x80);
        assert(a == ascii as u32);
        char_u32_cast(chars[0], c);
        char_u32_cast(ascii, ascii as u32);
        assert(c != ascii as u32);
        assert(forall|i: int| 0 <= i < head.len() ==> head[i] != a);
        let whole = encode_utf8(chars);
        assert forall|i: int| 0 <= i < whole.len() implies whole[i] != a by {
            if i < head.len() {
                assert(whole[i] == head[i]);
            } else {
                assert(whole[i] == encode_utf8(rest)[i - head.len()]);
            }
        }
    }
}

proof fn lemma_record_reads_back(pair: (Seq<char>, Seq<char>))
    requires
        is_printable(pair),
    ensures
        assignment(record_of(pair)) == Some(pair),
        record_of(pair).len() > 0,
        forall|i: int| 0 <= i < record_of(pair).len() ==> record_of(pair)[i] != 0,
{
    let record = record_of(pair);
    let name = encode_utf8(pair.0);
    let value = encode_utf8(pair.1);
    lemma_encoding_avoids(pair.0, '=');
    lemma_encoding_avoids(pair.0, '\0');
    lemma_encoding_avoids(pair.1, '\0');
    assert forall|j: int| 0 <= j < name.len() implies record[j] != 0x3d by {
        assert(record[j] == name[j]);
    }
    assert(record[name.len() as int] == 0x3d);
    lemma_first_index(record, 0x3d, name.len() as int);
    assert(record.take(name.len() as int) =~= name);
    assert(record.skip(name.len() as int + 1) =~= value);
    encode_utf8_valid_utf8(pair.0);
    encode_utf8_valid_utf8(pair.1);
    encode_utf8_decode_utf8(pair.0);
    encode_utf8_decode_utf8(pair.1);
    assert forall|i: int| 0 <= i < record.len() implies record[i] != 0 by {
        if i < name.len() {
            assert(record[i] == name[i]);
        } else if i > name.len() {
            assert(record[i] == value[i - name.len() - 1]);
        }
    }
}

proof fn lemma_records_of_printed(pairs: Seq<(Seq<char>, Seq<char>)>)
    requires
        forall|i: int| 0 <= i < pairs.len() ==> is_printable(#[trigger] pairs[i]),
    ensures
        records(printed(pairs)) == pairs.map_values(
            |pair: (Seq<char>, Seq<char>)| record_of(pair),
        ).push(Seq::empty()),
        printed(pairs).len() > 0 ==> printed(pairs).last() == 0,
    decreases pairs.len(),
{
    let whole = printed(pairs);
    let expected = pairs.map_values(|pair: (Seq<char>, Seq<char>)| record_of(pair)).push(
        Seq::empty(),
    );
    if pairs.len() == 0 {
        assert(first_index(whole, 0) is None);
        assert(records(whole) =~= expected);
    } else {
        let rest = pairs.drop_first();
        assert forall|i: int| 0 <= i < rest.len() implies is_printable(#[trigger] rest[i]) by {
            assert(rest[i] == pairs[i + 1]);
        }
        lemma_records_of_printed(rest);
        let record = record_of(pairs[0]);
        lemma_record_reads_back(pairs[0]);
        assert forall|j: int| 0 <= j < record.len() implies whole[j] != 0 by {
            assert(whole[j] == record[j]);
        }
        assert(whole[record.len() as int] == 0);
        lemma_first_index(whole, 0, record.len() as int);
        assert(whole.take(record.len() as int) =~= record);
        assert(whole.skip(record.len() as int + 1) =~= printed(rest));
        assert(records(whole) =~= expected);
        if printed(rest).len() == 0 {
            assert(whole.last() == whole[record.len() as int]);
        } else {
            assert(whole.last() == printed(rest).last());
        }
    }
}

proof fn lemma_captured_of_printable(pairs: Seq<(Seq<char>, Seq<char>)>)
    requires
        forall|i: int| 0 <= i < pairs.len() ==> is_printable(#[trigger] pairs[i]),
    ensures
        captured_variables(
            pairs.map_values(|pair: (Seq<char>, Seq<char>)| record_of(pair)),
        ) == Some(map_of(pairs)),
    decreases pairs.len(),
{
    let all = pairs.map_values(|pair: (Seq<char>, Seq<char>)| record_of(pair));
    if pairs.len() == 0 {
        lemma_no_records();
        assert(all =~= Seq::empty());
    } else {
        let init = pairs.drop_last();
        assert forall|i: int| 0 <= i < init.len() implies is_printable(#[trigger] init[i]) by {
            assert(init[i] == pairs[i]);
        }
        lemma_captured_of_printable(init);
        lemma_record_reads_back(pairs.last());
        assert(all =~= init.map_values(|pair: (Seq<char>, Seq<char>)| record_of(pair)).push(
            record_of(pairs.last()),
        ));
        lemma_captured_push(
            init.map_values(|pair: (Seq<char>, Seq<char>)| record_of(pair)),
            record_of(pairs.last()),
        );
    }
}

/// A capture reads back what the shell printed: whatever variables are printed between the two
/// markers, parsing yields exactly them.
pub proof fn lemma_capture_reads_back_the_environment(
    pairs: Seq<(Seq<char>, Seq<char>)>,
    start: Seq<u8>,
    end: Seq<u8>,
)
    requires
        forall|i: int| 0 <= i < pairs.len() ==> is_printable(#[trigger] pairs[i]),
    ensures
        parsed(start + printed(pairs) + end, start, end) == Some(map_of(pairs)),
{
    let payload = printed(pairs);
    let output = start + payload + end;
    assert(output.take(start.len() as int) =~= start);
    assert(output.skip(output.len() - end.len()) =~= end);
    assert(output.subrange(start.len() as int, output.len() - end.len()) =~= payload);
    lemma_records_of_printed(pairs);
    lemma_captured_of_printable(pairs);
    lemma_captured_push(
        pairs.map_values(|pair: (Seq<char>, Seq<char>)| record_of(pair)),
        Seq::empty(),
    );
}

/// A shell that carries out its plan is believed: whatever variables it prints, the launch gets them
/// sanitized.
pub proof fn lemma_clean_capture_is_used(
    plan: CapturePlanView,
    pairs: Seq<(Seq<char>, Seq<char>)>,
    original: Map<Seq<char>, Seq<char>>,
)
    requires
        forall|i: int| 0 <= i < pairs.len() ==> is_printable(#[trigger] pairs[i]),
    ensures
        capture_outcome(
            Some(0),
            Some(encode_utf8(plan.start_marker) + printed(pairs) + encode_utf8(plan.end_marker)),
            Some(Seq::empty()),
            plan,
            original,
        ) == Some(sanitized(map_of(pairs), original)),
{
    lemma_capture_reads_back_the_environment(
        pairs,
        encode_utf8(plan.start_marker),
        encode_utf8(plan.end_marker),
    );
}

/// Where each variable of the sanitized environment comes from. `BASH_ENV` is not in it. Functions and the
/// variables by which a shell keeps its own state are there exactly as they were inherited. Every other
/// variable, whatever its name, is there exactly as it was captured.
pub proof fn lemma_where_sanitized_variables_come_from(
    captured: Map<Seq<char>, Seq<char>>,
    original: Map<Seq<char>, Seq<char>>,
    key: Seq<char>,
)
    ensures
        ({
            let result = sanitized(captured, original);
            let function = exists|name: Seq<char>| key == #[trigger] ("BASH_FUNC_"@ + name);
            let state = key == "BASHOPTS"@ || key == "BASH_ARGV0"@ || key
                == "BASH_EXECUTION_STRING"@ || key == "OLDPWD"@ || key == "PWD"@ || key
                == "SHELLOPTS"@ || key == "SHLVL"@ || key == "_"@;
            &&& is_shell_managed(key) <==> function || state
            &&& key == "BASH_ENV"@ ==> !result.contains_key(key)
            &&& function || state ==> result.contains_key(key) == original.contains_key(key) && (
            original.contains_key(key) ==> result[key] == original[key])
            &&& key != "BASH_ENV"@ && !function && !state ==> result.contains_key(key)
                == captured.contains_key(key) && (captured.contains_key(key) ==> result[key]
                == captured[key])
        }),
{
    lemma_sanitizing_drops_the_startup_file(captured, original);
    lemma_prefixes_can_be_completed(key, "BASH_FUNC_"@, Seq::empty());
    if exists|name: Seq<char>| key == #[trigger] ("BASH_FUNC_"@ + name) {
        let name = choose|name: Seq<char>| key == #[trigger] ("BASH_FUNC_"@ + name);
        lemma_prefixes_can_be_completed(key, "BASH_FUNC_"@, name);
        assert(is_shell_managed(key));
    }
    if is_shell_managed(key) {
        let result = sanitized(captured, original);
        assert(original.contains_key(key) ==> result[key] == original[key]);
    }
    if keeps_captured(key) {
        let result = sanitized(captured, original);
        assert(captured.contains_key(key) ==> result[key] == captured[key]);
    }
}

proof fn lemma_records_append(payload: Seq<u8>, record: Seq<u8>)
    requires
        payload.len() > 0 ==> payload.last() == 0,
        forall|i: int| 0 <= i < record.len() ==> record[i] != 0,
    ensures
        records(payload).len() > 0,
        records(payload).last() == Seq::<u8>::empty(),
        records(payload + record.push(0)) == records(payload).drop_last().push(record).push(
            Seq::empty(),
        ),
    decreases payload.len(),
{
    let ended = record.push(0);
    let whole = payload + ended;
    let nothing = Seq::<u8>::empty();
    if payload.len() == 0 {
        assert(whole =~= ended);
        lemma_first_index(ended, 0, record.len() as int);
        assert(ended.take(record.len() as int) =~= record);
        assert(ended.skip(record.len() as int + 1) =~= nothing);
        assert(payload =~= nothing);
        assert(first_index(nothing, 0) is None);
        assert(records(nothing) =~= seq![nothing]);
        assert(records(whole) =~= seq![record] + seq![nothing]);
    } else {
        lemma_first_index_exists(payload, 0, payload.len() - 1);
        let i = first_index(payload, 0)->Some_0;
        lemma_first_index_found(payload, 0);
        assert forall|j: int| 0 <= j < i implies whole[j] != 0 by {
            assert(whole[j] == payload[j]);
        }
        assert(whole[i] == payload[i]);
        lemma_first_index(whole, 0, i);
        assert(whole.take(i) =~= payload.take(i));
        let rest = payload.skip(i + 1);
        assert(whole.skip(i + 1) =~= rest + ended);
        if rest.len() > 0 {
            assert(rest.last() == payload.last());
        }
        lemma_records_append(rest, record);
        assert(records(whole) =~= records(payload).drop_last().push(record).push(nothing));
    }
}

proof fn lemma_first_index_exists(bytes: Seq<u8>, byte: u8, i: int)
    requires
        0 <= i < bytes.len(),
        bytes[i] == byte,
    ensures
        first_index(bytes, byte) is Some,
    decreases bytes.len(),
{
    if bytes[0] != byte {
        let rest = bytes.drop_first();
        assert(rest[i - 1] == bytes[i]);
        lemma_first_index_exists(rest, byte, i - 1);
    }
}

proof fn lemma_first_index_found(bytes: Seq<u8>, byte: u8)
    ensures
        first_index(bytes, byte) matches Some(i) ==> {
            &&& 0 <= i < bytes.len()
            &&& bytes[i] == byte
            &&& forall|j: int| 0 <= j < i ==> bytes[j] != byte
        },
    decreases bytes.len(),
{
    if bytes.len() > 0 && bytes[0] != byte {
        let rest = bytes.drop_first();
        lemma_first_index_found(rest, byte);
        if let Some(i) = first_index(rest, byte) {
            assert forall|j: int| 0 <= j < i + 1 implies bytes[j] != byte by {
                if j > 0 {
                    assert(bytes[j] == rest[j - 1]);
                }
            }
        }
    }
}

/// One more record makes one more assignment. An output without records holds no variable; an empty record
/// adds nothing; `NAME=value` sets the variable, whatever was set before, where both sides are UTF-8; a
/// record with other bytes, or without `=`, spoils the output, and nothing that follows mends it.
pub proof fn lemma_each_record_counts_once(
    start: Seq<u8>,
    payload: Seq<u8>,
    name: Seq<u8>,
    value: Seq<u8>,
    end: Seq<u8>,
)
    requires
        payload.len() > 0 ==> payload.last() == 0,
        forall|i: int| 0 <= i < name.len() ==> name[i] != 0 && name[i] != 0x3d,
        forall|i: int| 0 <= i < value.len() ==> value[i] != 0,
    ensures
        ({
            let before = parsed(start + payload + end, start, end);
            let set = (name.push(0x3d) + value).push(0);
            let after = parsed(start + (payload + set) + end, start, end);
            let after_bare = parsed(start + (payload + name.push(0)) + end, start, end);
            &&& payload.len() == 0 ==> before == Some(Map::<Seq<char>, Seq<char>>::empty())
            &&& before is None ==> after is None && after_bare is None
            &&& before matches Some(variables) ==> {
                &&& after == if valid_utf8(name) && valid_utf8(value) {
                    Some(variables.insert(decode_utf8(name), decode_utf8(value)))
                } else {
                    None
                }
                &&& after_bare == if name.len() == 0 {
                    Some(variables)
                } else {
                    None
                }
            }
        }),
{
    let record = name.push(0x3d) + value;
    let earlier = records(payload).drop_last();
    let nothing = Seq::<u8>::empty();
    assert forall|i: int| 0 <= i < record.len() implies record[i] != 0 by {
        if i < name.len() {
            assert(record[i] == name[i]);
        } else if i > name.len() {
            assert(record[i] == value[i - name.len() - 1]);
        }
    }
    lemma_records_append(payload, record);
    lemma_records_append(payload, name);
    assert(records(payload) =~= earlier.push(nothing));
    lemma_captured_push(earlier, nothing);
    lemma_captured_push(earlier, record);
    lemma_captured_push(earlier.push(record), nothing);
    lemma_captured_push(earlier, name);
    lemma_captured_push(earlier.push(name), nothing);
    assert forall|j: int| 0 <= j < name.len() implies record[j] != 0x3d by {
        assert(record[j] == name[j]);
    }
    lemma_first_index(record, 0x3d, name.len() as int);
    assert(record.take(name.len() as int) =~= name);
    assert(record.skip(name.len() as int + 1) =~= value);
    lemma_first_index(name, 0x3d, name.len() as int);
    lemma_frame(start, payload, end);
    lemma_frame(start, payload + record.push(0), end);
    lemma_frame(start, payload + name.push(0), end);
    if payload.len() == 0 {
        assert(payload =~= nothing);
        assert(first_index(nothing, 0) is None);
        assert(records(nothing) =~= seq![nothing]);
        assert(earlier =~= Seq::empty());
        lemma_no_records();
    }
}

proof fn lemma_frame(start: Seq<u8>, payload: Seq<u8>, end: Seq<u8>)
    ensures
        payload_of(start + payload + end, start, end) == Some(payload),
{
    let output = start + payload + end;
    assert(output.take(start.len() as int) =~= start);
    assert(output.skip(output.len() - end.len()) =~= end);
    assert(output.subrange(start.len() as int, output.len() - end.len()) =~= payload);
}

/// Only a complete output is read: it begins with the one marker, ends with the other, the two do not
/// overlap, and what is between them ends with a zero byte where there is anything.
pub proof fn lemma_incomplete_outputs_are_refused(output: Seq<u8>, start: Seq<u8>, end: Seq<u8>)
    ensures
        parsed(output, start, end) is Some ==> {
            &&& start.len() + end.len() <= output.len()
            &&& forall|i: int| 0 <= i < start.len() ==> output[i] == start[i]
            &&& forall|i: int|
                0 <= i < end.len() ==> #[trigger] output[output.len() - end.len() + i] == end[i]
            &&& start.len() + end.len() < output.len() ==> output[output.len() - end.len() - 1] == 0
        },
{
    if parsed(output, start, end) is Some {
        assert forall|i: int| 0 <= i < start.len() implies output[i] == start[i] by {
            assert(output.take(start.len() as int)[i] == output[i]);
        }
        assert forall|i: int| 0 <= i < end.len() implies #[trigger] output[output.len() - end.len()
            + i] == end[i] by {
            assert(output.skip(output.len() - end.len())[i] == end[i]);
        }
    }
}

/// A capture is believed exactly if the shell exited with zero, both streams were collected, the error
/// stream is empty and the output can be read between the plan's markers; then it yields what was read,
/// sanitized.
pub proof fn lemma_only_clean_captures_count(
    exit_code: Option<i32>,
    stdout: Option<Seq<u8>>,
    stderr: Option<Seq<u8>>,
    plan: CapturePlanView,
    original: Map<Seq<char>, Seq<char>>,
)
    ensures
        ({
            let read = parsed(
                stdout->Some_0,
                encode_utf8(plan.start_marker),
                encode_utf8(plan.end_marker),
            );
            let outcome = capture_outcome(exit_code, stdout, stderr, plan, original);
            &&& outcome is Some <==> exit_code == Some(0i32) && stdout is Some && stderr == Some(
                Seq::<u8>::empty(),
            ) && read is Some
            &&& outcome is Some ==> outcome == Some(sanitized(read->Some_0, original))
        }),
{
    if let Some(bytes) = stderr {
        if bytes.len() == 0 {
            assert(bytes =~= Seq::empty());
        }
    }
}

/// The shell is run with `-c` and a script that prints the start marker, then the environment, and the end
/// marker only where printing the environment worked. Both markers hold the nonce whole, so other nonces
/// give other markers.
pub proof fn lemma_what_a_plan_runs(shell: Seq<char>, nonce: Seq<char>, other: Seq<char>)
    ensures
        ({
            let plan = plan_for(shell, nonce);
            &&& plan.argv.len() == 3
            &&& plan.argv[0] == shell
            &&& plan.argv[1] == "-c"@
            &&& plan.argv[2] == "builtin printf '%s' '"@ + plan.start_marker
                + "'; if builtin command env -0; then builtin printf '%s' '"@ + plan.end_marker
                + "'; else builtin exit 125; fi"@
            &&& plan.start_marker == "__CODEX_BASH_ENV_START_"@ + nonce + "__"@
            &&& plan.end_marker == "__CODEX_BASH_ENV_END_"@ + nonce + "__"@
            &&& plan.start_marker == plan_for(shell, other).start_marker ==> nonce == other
            &&& plan.end_marker == plan_for(shell, other).end_marker ==> nonce == other
        }),
{
    let first = plan_for(shell, nonce);
    let second = plan_for(shell, other);
    reveal_strlit("__CODEX_BASH_ENV_START_");
    reveal_strlit("__CODEX_BASH_ENV_END_");
    let start = "__CODEX_BASH_ENV_START_"@.len() as int;
    let end = "__CODEX_BASH_ENV_END_"@.len() as int;
    assert(first.start_marker.subrange(start, start + nonce.len()) =~= nonce);
    assert(second.start_marker.subrange(start, start + other.len()) =~= other);
    assert(first.end_marker.subrange(end, end + nonce.len()) =~= nonce);
    assert(second.end_marker.subrange(end, end + other.len()) =~= other);
}

/// A stream is collected up to one mebibyte and given up beyond, however it is cut into chunks.
pub proof fn lemma_streams_are_collected_up_to_a_mebibyte(chunks: Seq<Seq<u8>>)
    ensures
        collected_output(chunks) is Some <==> chunks.flatten().len() <= 1024 * 1024,
        collected_output(chunks) matches Some(output) ==> output == chunks.flatten(),
{
    lemma_output_is_collected_whole_or_not_at_all(chunks);
}

} // verus!
