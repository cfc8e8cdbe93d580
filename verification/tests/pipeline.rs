use std::collections::BTreeMap;

use cow_encryptor::descriptor::{Direction, Mode, OperationDescriptor};
use cow_encryptor::failure::Failure;
use cow_encryptor::pipeline::{advance, start, Reply, Step};
use cow_encryptor::resolver::resolve;

fn descriptor(list: &[(&str, bool)]) -> OperationDescriptor {
    let args: Vec<(String, bool)> =
        list.iter().map(|(token, is_file)| (token.to_string(), *is_file)).collect();
    resolve(&args).unwrap()
}

fn text(s: &str) -> String {
    s.to_string()
}

fn output(s: &str) -> Reply {
    Reply::Output(s.as_bytes().to_vec())
}

/// An engine that maps `hello` to `moo1` and back, and echoes anything else.
fn cow(arguments: &[String]) -> Vec<u8> {
    if arguments == ["-v"] {
        return b"cow-translator, a translator for cows\n".to_vec();
    }
    if arguments == ["--version-check"] {
        return b"1.1.0\n".to_vec();
    }
    assert_eq!(arguments.len(), 4);
    assert_eq!(arguments[0], "-nc");
    assert_eq!(arguments[2], "--");
    let translated = match (arguments[1].as_str(), arguments[3].as_str()) {
        ("-i", "hello") => "moo1",
        ("-t", "moo1") => "hello",
        ("-i", other) | ("-t", other) => other,
        (flag, _) => panic!("unknown direction {}", flag),
    };
    format!("{}\n", translated).into_bytes()
}

/// A world to run in: files by path, what was printed, and what was done.
struct World {
    files: BTreeMap<String, String>,
    printed: String,
    engine_runs: Vec<Vec<String>>,
    reads: Vec<String>,
    writes: Vec<String>,
}

fn world(files: &[(&str, &str)]) -> World {
    World {
        files: files.iter().map(|(path, content)| (path.to_string(), content.to_string())).collect(),
        printed: String::new(),
        engine_runs: Vec::new(),
        reads: Vec::new(),
        writes: Vec::new(),
    }
}

/// Carries a run out in `world` and returns the step it ended in.
fn drive(descriptor: &OperationDescriptor, world: &mut World) -> Step {
    let mut step = start(descriptor);
    let mut rounds = 0;
    while step.exit_status().is_none() {
        rounds += 1;
        assert!(rounds <= 6, "a run has six steps at most");
        let reply = match &step {
            Step::ShowVersion => {
                world.printed.push_str("version\n");
                Reply::Done
            }
            Step::ShowHelp => {
                world.printed.push_str("help\n");
                Reply::Done
            }
            Step::ProbeEngine | Step::QueryVersion | Step::Transform { .. } => {
                let arguments = step.engine_arguments().unwrap();
                world.engine_runs.push(arguments.clone());
                Reply::Output(cow(&arguments))
            }
            Step::ReadSource { path } => {
                world.reads.push(path.clone());
                match world.files.get(path) {
                    Some(content) => Reply::Content(content.clone()),
                    None => Reply::Failed,
                }
            }
            Step::Print { text } => {
                world.printed.push_str(text);
                Reply::Done
            }
            Step::ProbeDestination { path, .. } => Reply::Exists(world.files.contains_key(path)),
            Step::Write { path, content } => {
                world.writes.push(path.clone());
                world.files.insert(path.clone(), content.clone());
                Reply::Done
            }
            Step::Finished { .. } | Step::Failed(_) => unreachable!(),
        };
        step = advance(descriptor, step, reply);
    }
    step
}

#[test]
fn notes_are_encrypted_into_a_cow_file() {
    let mut world = world(&[("notes.txt", "hello")]);
    let end = drive(&descriptor(&[("notes.txt", true)]), &mut world);
    assert_eq!(end, Step::Finished { destination: Some(text("notes.txt.cow")) });
    assert_eq!(end.exit_status(), Some(0));
    assert_eq!(world.files["notes.txt.cow"], "moo1");
    assert_eq!(world.files["notes.txt"], "hello");
    assert_eq!(world.writes, ["notes.txt.cow"]);
    assert_eq!(world.printed, "");
}

#[test]
fn a_second_run_does_not_clobber_the_cow_file() {
    let mut world = world(&[("notes.txt", "hello"), ("notes.txt.cow", "kept")]);
    let end = drive(&descriptor(&[("notes.txt", true)]), &mut world);
    assert_eq!(end, Step::Failed(Failure::DestinationExists { path: text("notes.txt.cow") }));
    assert_eq!(end.exit_status(), Some(1));
    assert_eq!(world.files["notes.txt.cow"], "kept");
    assert!(world.writes.is_empty());
}

#[test]
fn overwrite_rewrites_the_cow_file() {
    let mut world = world(&[("notes.txt", "hello"), ("notes.txt.cow", "stale")]);
    let end = drive(&descriptor(&[("notes.txt", true), ("--overwrite", false)]), &mut world);
    assert_eq!(end, Step::Finished { destination: Some(text("notes.txt.cow")) });
    assert_eq!(end.exit_status(), Some(0));
    assert_eq!(world.files["notes.txt.cow"], "moo1");
    assert_eq!(world.writes, ["notes.txt.cow"]);
}

#[test]
fn the_three_runs_of_the_notes_in_a_row() {
    let mut world = world(&[("notes.txt", "hello")]);
    let plain = descriptor(&[("notes.txt", true)]);
    assert_eq!(drive(&plain, &mut world).exit_status(), Some(0));
    assert_eq!(world.files["notes.txt.cow"], "moo1");
    world.files.insert(text("notes.txt"), text("changed"));
    assert_eq!(drive(&plain, &mut world).exit_status(), Some(1));
    assert_eq!(world.files["notes.txt.cow"], "moo1");
    let forced = descriptor(&[("notes.txt", true), ("--overwrite", false)]);
    assert_eq!(drive(&forced, &mut world).exit_status(), Some(0));
    assert_eq!(world.files["notes.txt.cow"], "changed");
}

#[test]
fn a_cow_file_is_decrypted_next_to_it() {
    let mut world = world(&[("notes.txt.cow", "moo1")]);
    let end = drive(&descriptor(&[("notes.txt.cow", true)]), &mut world);
    assert_eq!(end, Step::Finished { destination: Some(text("notes.txt")) });
    assert_eq!(world.files["notes.txt"], "hello");
    assert_eq!(world.files["notes.txt.cow"], "moo1");
    assert_eq!(world.engine_runs.last().unwrap()[1], "-t");
}

#[test]
fn forward_and_back_gives_the_content_without_outer_whitespace() {
    for content in ["hello", "  two words \n", "\n\nline one\nline two\n", "", "été 牛"] {
        let mut world = world(&[("f", content)]);
        assert_eq!(drive(&descriptor(&[("f", true)]), &mut world).exit_status(), Some(0));
        world.files.remove("f");
        assert_eq!(drive(&descriptor(&[("f.cow", true)]), &mut world).exit_status(), Some(0));
        assert_eq!(world.files["f"], content.trim());
    }
}

#[test]
fn the_engine_is_probed_queried_and_then_run_once() {
    let mut world = world(&[("notes.txt", "hello")]);
    drive(&descriptor(&[("notes.txt", true)]), &mut world);
    assert_eq!(
        world.engine_runs,
        vec![
            vec![text("-v")],
            vec![text("--version-check")],
            vec![text("-nc"), text("-i"), text("--"), text("hello")],
        ]
    );
    assert_eq!(world.reads, ["notes.txt"]);
}

#[test]
fn print_creates_and_changes_no_file() {
    let mut world = world(&[("notes.txt", "hello"), ("notes.txt.cow", "kept")]);
    let before = world.files.clone();
    let end = drive(&descriptor(&[("-p", false), ("notes.txt", true)]), &mut world);
    assert_eq!(end, Step::Finished { destination: None });
    assert_eq!(end.exit_status(), Some(0));
    assert_eq!(world.printed, "moo1\n");
    assert_eq!(world.files, before);
    assert!(world.writes.is_empty());
}

#[test]
fn print_never_asks_for_the_destination() {
    let plan = descriptor(&[("--print", false), ("notes.txt", true), ("--overwrite", false)]);
    let step = advance(
        &plan,
        Step::Transform { direction: Direction::Forward, content: text("hello") },
        output(" moo1 \n"),
    );
    assert_eq!(step, Step::Print { text: text("moo1\n") });
    assert_eq!(advance(&plan, step, Reply::Done), Step::Finished { destination: None });
}

#[test]
fn decrypting_an_unmarked_file_fails_before_it_is_read() {
    let mut world = world(&[("notes.txt", "moo1")]);
    let end = drive(&descriptor(&[("--decrypt", false), ("notes.txt", true)]), &mut world);
    assert_eq!(end, Step::Failed(Failure::NotMarkerFile { path: text("notes.txt") }));
    assert_eq!(end.exit_status(), Some(1));
    assert!(world.reads.is_empty());
    assert!(world.writes.is_empty());
    assert_eq!(world.engine_runs, vec![vec![text("-v")], vec![text("--version-check")]]);
}

#[test]
fn encrypting_a_marked_file_is_allowed() {
    let mut world = world(&[("a.cow", "hello")]);
    let end = drive(&descriptor(&[("-e", false), ("a.cow", true)]), &mut world);
    assert_eq!(end, Step::Finished { destination: Some(text("a.cow.cow")) });
    assert_eq!(world.files["a.cow.cow"], "moo1");
}

#[test]
fn version_and_help_run_without_the_engine() {
    let mut world = world(&[]);
    let end = drive(&descriptor(&[("-v", false)]), &mut world);
    assert_eq!(end, Step::Finished { destination: None });
    assert_eq!(end.exit_status(), Some(0));
    assert_eq!(world.printed, "version\n");
    let end = drive(&descriptor(&[("--help", false)]), &mut world);
    assert_eq!(end.exit_status(), Some(0));
    assert_eq!(world.printed, "version\nhelp\n");
    assert!(world.engine_runs.is_empty());
}

#[test]
fn the_first_step_follows_the_mode() {
    assert_eq!(start(&descriptor(&[("-v", false)])), Step::ShowVersion);
    assert_eq!(start(&descriptor(&[("-h", false)])), Step::ShowHelp);
    assert_eq!(start(&descriptor(&[("a.txt", true)])), Step::ProbeEngine);
    assert_eq!(start(&descriptor(&[("a.cow", true)])), Step::ProbeEngine);
    let idle = OperationDescriptor::new(Mode::Noop, None, false, true).unwrap();
    assert_eq!(start(&idle), Step::Finished { destination: None });
}

#[test]
fn a_missing_engine_fails_the_presence_probe() {
    let plan = descriptor(&[("a.txt", true)]);
    let end = advance(&plan, Step::ProbeEngine, Reply::Failed);
    assert_eq!(end, Step::Failed(Failure::EngineMissing));
    assert_eq!(end.exit_status(), Some(1));
}

#[test]
fn any_execution_of_the_engine_signals_its_presence() {
    let plan = descriptor(&[("a.txt", true)]);
    assert_eq!(advance(&plan, Step::ProbeEngine, Reply::Done), Step::QueryVersion);
    assert_eq!(advance(&plan, Step::ProbeEngine, output("")), Step::QueryVersion);
    assert_eq!(advance(&plan, Step::ProbeEngine, output("usage: ...")), Step::QueryVersion);
}

#[test]
fn an_unsupported_version_fails_the_preflight() {
    let plan = descriptor(&[("a.txt", true)]);
    for answer in ["2.0.0\n", "0.9\n", "", "1", "version 1.0"] {
        let end = advance(&plan, Step::QueryVersion, output(answer));
        assert_eq!(end, Step::Failed(Failure::EngineOutdated), "{:?}", answer);
        assert_eq!(end.exit_status(), Some(1));
    }
}

#[test]
fn a_failed_version_query_counts_as_an_unsupported_version() {
    let plan = descriptor(&[("a.txt", true)]);
    assert_eq!(advance(&plan, Step::QueryVersion, Reply::Failed), Step::Failed(Failure::EngineOutdated));
    assert_eq!(advance(&plan, Step::QueryVersion, Reply::Done), Step::Failed(Failure::EngineOutdated));
}

#[test]
fn a_supported_version_lets_the_source_be_read() {
    let plan = descriptor(&[("dir/a.txt", true)]);
    assert_eq!(
        advance(&plan, Step::QueryVersion, output("1.1.0\n")),
        Step::ReadSource { path: text("dir/a.txt") }
    );
    let back = descriptor(&[("a.cow", true)]);
    assert_eq!(advance(&back, Step::QueryVersion, output("1.")), Step::ReadSource { path: text("a.cow") });
}

#[test]
fn an_unreadable_source_fails_the_run() {
    let plan = descriptor(&[("a.txt", true)]);
    let end = advance(&plan, Step::ReadSource { path: text("a.txt") }, Reply::Failed);
    assert_eq!(end, Step::Failed(Failure::SourceUnreadable { path: text("a.txt") }));
    assert_eq!(end.exit_status(), Some(1));
}

#[test]
fn the_content_read_is_transformed_in_the_mode_s_direction() {
    let there = descriptor(&[("a.txt", true)]);
    assert_eq!(
        advance(&there, Step::ReadSource { path: text("a.txt") }, Reply::Content(text("hello\n"))),
        Step::Transform { direction: Direction::Forward, content: text("hello\n") }
    );
    let back = descriptor(&[("a.cow", true)]);
    assert_eq!(
        advance(&back, Step::ReadSource { path: text("a.cow") }, Reply::Content(text("moo1"))),
        Step::Transform { direction: Direction::Inverse, content: text("moo1") }
    );
}

#[test]
fn an_engine_that_cannot_be_launched_fails_the_transform() {
    let plan = descriptor(&[("a.txt", true)]);
    let step = Step::Transform { direction: Direction::Forward, content: text("hello") };
    let end = advance(&plan, step, Reply::Failed);
    assert_eq!(end, Step::Failed(Failure::TransformFailed));
    assert_eq!(end.exit_status(), Some(1));
}

#[test]
fn the_engine_s_output_is_decoded_and_trimmed_before_it_is_delivered() {
    let plan = descriptor(&[("a.txt", true)]);
    let step = Step::Transform { direction: Direction::Forward, content: text("hello") };
    assert_eq!(
        advance(&plan, step, Reply::Output(b"\n moo\xff moo \n".to_vec())),
        Step::ProbeDestination { path: text("a.txt.cow"), content: text("moo\u{fffd} moo") }
    );
}

#[test]
fn a_free_destination_is_written() {
    let plan = descriptor(&[("a.txt", true)]);
    let probe = Step::ProbeDestination { path: text("a.txt.cow"), content: text("moo1") };
    assert_eq!(
        advance(&plan, probe, Reply::Exists(false)),
        Step::Write { path: text("a.txt.cow"), content: text("moo1") }
    );
}

#[test]
fn a_taken_destination_is_written_only_with_overwrite() {
    let probe = || Step::ProbeDestination { path: text("a.txt.cow"), content: text("moo1") };
    let careful = descriptor(&[("a.txt", true)]);
    assert_eq!(
        advance(&careful, probe(), Reply::Exists(true)),
        Step::Failed(Failure::DestinationExists { path: text("a.txt.cow") })
    );
    let forced = descriptor(&[("--overwrite", false), ("a.txt", true)]);
    assert_eq!(
        advance(&forced, probe(), Reply::Exists(true)),
        Step::Write { path: text("a.txt.cow"), content: text("moo1") }
    );
}

#[test]
fn a_write_that_fails_fails_the_run() {
    let plan = descriptor(&[("a.txt", true)]);
    let write = Step::Write { path: text("a.txt.cow"), content: text("moo1") };
    let end = advance(&plan, write, Reply::Failed);
    assert_eq!(end, Step::Failed(Failure::WriteFailed { path: text("a.txt.cow") }));
    assert_eq!(end.exit_status(), Some(1));
}

#[test]
fn a_write_that_succeeds_ends_the_run_with_its_destination() {
    let plan = descriptor(&[("a.txt", true)]);
    let write = Step::Write { path: text("a.txt.cow"), content: text("moo1") };
    let end = advance(&plan, write, Reply::Done);
    assert_eq!(end, Step::Finished { destination: Some(text("a.txt.cow")) });
    assert_eq!(end.exit_status(), Some(0));
}

#[test]
fn a_reply_that_does_not_answer_the_step_fails_it() {
    let plan = descriptor(&[("--overwrite", false), ("a.txt", true)]);
    assert_eq!(advance(&plan, Step::ProbeEngine, Reply::Exists(true)), Step::Failed(Failure::EngineMissing));
    assert_eq!(
        advance(&plan, Step::QueryVersion, Reply::Content(text("1.0"))),
        Step::Failed(Failure::EngineOutdated)
    );
    assert_eq!(
        advance(&plan, Step::ReadSource { path: text("a.txt") }, output("hello")),
        Step::Failed(Failure::SourceUnreadable { path: text("a.txt") })
    );
    assert_eq!(
        advance(
            &plan,
            Step::Transform { direction: Direction::Forward, content: text("hello") },
            Reply::Content(text("moo1"))
        ),
        Step::Failed(Failure::TransformFailed)
    );
    assert_eq!(
        advance(
            &plan,
            Step::ProbeDestination { path: text("a.txt.cow"), content: text("moo1") },
            Reply::Done
        ),
        Step::Failed(Failure::WriteFailed { path: text("a.txt.cow") })
    );
    assert_eq!(
        advance(
            &plan,
            Step::Write { path: text("a.txt.cow"), content: text("moo1") },
            Reply::Exists(false)
        ),
        Step::Failed(Failure::WriteFailed { path: text("a.txt.cow") })
    );
}

#[test]
fn a_run_that_has_ended_stays_as_it_ended() {
    let plan = descriptor(&[("--overwrite", false), ("a.txt", true)]);
    let replies = || {
        [Reply::Failed, Reply::Done, output("1.0"), Reply::Content(text("x")), Reply::Exists(false)]
    };
    for reply in replies() {
        let failed = Step::Failed(Failure::DestinationExists { path: text("a.txt.cow") });
        assert_eq!(
            advance(&plan, failed, reply),
            Step::Failed(Failure::DestinationExists { path: text("a.txt.cow") })
        );
    }
    for reply in replies() {
        let finished = Step::Finished { destination: Some(text("a.txt.cow")) };
        assert_eq!(
            advance(&plan, finished, reply),
            Step::Finished { destination: Some(text("a.txt.cow")) }
        );
    }
}

#[test]
fn showing_and_printing_end_the_run() {
    let plan = descriptor(&[("-v", false)]);
    assert_eq!(advance(&plan, Step::ShowVersion, Reply::Done), Step::Finished { destination: None });
    assert_eq!(advance(&plan, Step::ShowHelp, Reply::Done), Step::Finished { destination: None });
    assert_eq!(
        advance(&plan, Step::Print { text: text("moo1\n") }, Reply::Done),
        Step::Finished { destination: None }
    );
}

#[test]
fn a_step_of_a_transform_needs_a_descriptor_that_asks_for_one() {
    let version = descriptor(&[("-v", false)]);
    assert_eq!(
        advance(&version, Step::QueryVersion, output("1.0")),
        Step::Failed(Failure::MissingPath)
    );
    assert_eq!(
        advance(&version, Step::ReadSource { path: text("a") }, Reply::Content(text("x"))),
        Step::Failed(Failure::MissingPath)
    );
    assert_eq!(
        advance(
            &version,
            Step::Transform { direction: Direction::Forward, content: text("x") },
            output("y")
        ),
        Step::Failed(Failure::MissingPath)
    );
}

#[test]
fn only_the_steps_that_run_the_engine_have_arguments() {
    assert_eq!(Step::ProbeEngine.engine_arguments(), Some(vec![text("-v")]));
    assert_eq!(Step::QueryVersion.engine_arguments(), Some(vec![text("--version-check")]));
    assert_eq!(
        Step::Transform { direction: Direction::Inverse, content: text("moo1") }.engine_arguments(),
        Some(vec![text("-nc"), text("-t"), text("--"), text("moo1")])
    );
    assert_eq!(Step::ShowVersion.engine_arguments(), None);
    assert_eq!(Step::ReadSource { path: text("a") }.engine_arguments(), None);
    assert_eq!(Step::Write { path: text("a"), content: text("b") }.engine_arguments(), None);
    assert_eq!(Step::Finished { destination: None }.engine_arguments(), None);
}

#[test]
fn only_a_run_that_has_ended_has_an_exit_status() {
    assert_eq!(Step::Finished { destination: None }.exit_status(), Some(0));
    assert_eq!(Step::Finished { destination: Some(text("a")) }.exit_status(), Some(0));
    assert_eq!(Step::Failed(Failure::TransformFailed).exit_status(), Some(1));
    assert_eq!(Step::Failed(Failure::MissingPath).exit_status(), Some(1));
    assert_eq!(Step::ShowVersion.exit_status(), None);
    assert_eq!(Step::ProbeEngine.exit_status(), None);
    assert_eq!(Step::Print { text: text("x") }.exit_status(), None);
    assert_eq!(Step::Write { path: text("a"), content: text("b") }.exit_status(), None);
}

#[test]
fn a_file_that_does_not_exist_creates_nothing() {
    let args = vec![(text("absent.txt"), false)];
    let outcome = resolve(&args);
    assert_eq!(outcome, Err(Failure::InvalidPath { token: text("absent.txt") }));
    assert_eq!(outcome.unwrap_err().exit_status(), 1);
}
