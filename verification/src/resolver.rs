//! Argument resolution: a fold over the command-line tokens, left to right,
//! that ends in an operation descriptor or in a usage failure.
//!
//! Whether a token names an existing regular file is not decided here: each
//! token comes with the answer.

use crate::descriptor::{described, DescriptorView, Mode, OperationDescriptor};
use crate::failure::{result_view, Failure, FailureView};
use crate::naming::{has_marker, is_marked};
use crate::text::{spells, to_chars};
use vstd::prelude::*;

verus! {

/// What a token is taken for.
#[derive(Debug, Clone, Copy, PartialEq, Eq, Structural)]
pub enum Token {
    /// `-e` or `--encrypt`: select the forward transform.
    Encrypt,
    /// `-d` or `--decrypt`: select the inverse transform.
    Decrypt,
    /// `--overwrite`: permit replacing an existing destination.
    Overwrite,
    /// `-v` or `--version`: print the version.
    Version,
    /// `-h` or `--help`: print the usage text.
    Help,
    /// `-p` or `--print`: deliver the result on standard output.
    Print,
    /// Anything else: a candidate file path.
    Path,
}

impl Token {
    /// The mode that a flag selects, if it selects one.
    pub open spec fn selects(self) -> Option<Mode> {
        match self {
            Token::Encrypt => Some(Mode::Encrypt),
            Token::Decrypt => Some(Mode::Decrypt),
            Token::Version => Some(Mode::ShowVersion),
            Token::Help => Some(Mode::ShowHelp),
            _ => None,
        }
    }
}

/// What `token` is taken for: one of the flags in its long or short
/// spelling, or else a path.
pub open spec fn token_kind(token: Seq<char>) -> Token {
    if token == "-e"@ || token == "--encrypt"@ {
        Token::Encrypt
    } else if token == "-d"@ || token == "--decrypt"@ {
        Token::Decrypt
    } else if token == "--overwrite"@ {
        Token::Overwrite
    } else if token == "-v"@ || token == "--version"@ {
        Token::Version
    } else if token == "-h"@ || token == "--help"@ {
        Token::Help
    } else if token == "-p"@ || token == "--print"@ {
        Token::Print
    } else {
        Token::Path
    }
}

/// Tells a flag from a candidate path.
pub fn classify(token: &str) -> (kind: Token)
    ensures
        kind == token_kind(token@),
{
    let chars = to_chars(token);
    if spells(&chars, "-e") || spells(&chars, "--encrypt") {
        Token::Encrypt
    } else if spells(&chars, "-d") || spells(&chars, "--decrypt") {
        Token::Decrypt
    } else if spells(&chars, "--overwrite") {
        Token::Overwrite
    } else if spells(&chars, "-v") || spells(&chars, "--version") {
        Token::Version
    } else if spells(&chars, "-h") || spells(&chars, "--help") {
        Token::Help
    } else if spells(&chars, "-p") || spells(&chars, "--print") {
        Token::Print
    } else {
        Token::Path
    }
}

/// A command line without the program's name: each token with the answer
/// whether it names an existing regular file.
pub type CommandLine = Seq<(Seq<char>, bool)>;

// ---------------------------------------------------------------------
// What a command line resolves to.
// ---------------------------------------------------------------------
/// The first candidate path among `args` that names no existing regular
/// file, if there is one.
pub open spec fn first_rejected(args: CommandLine) -> Option<Seq<char>>
    decreases args.len(),
{
    if args.len() == 0 {
        None
    } else {
        match first_rejected(args.drop_last()) {
            Some(token) => Some(token),
            None => if token_kind(args.last().0) is Path && !args.last().1 {
                Some(args.last().0)
            } else {
                None
            },
        }
    }
}

/// The mode that the last mode flag among `args` selects, if there is one.
pub open spec fn last_selected(args: CommandLine) -> Option<Mode>
    decreases args.len(),
{
    if args.len() == 0 {
        None
    } else {
        match token_kind(args.last().0).selects() {
            Some(mode) => Some(mode),
            None => last_selected(args.drop_last()),
        }
    }
}

/// The last candidate path among `args`, if there is one.
pub open spec fn last_path(args: CommandLine) -> Option<Seq<char>>
    decreases args.len(),
{
    if args.len() == 0 {
        None
    } else if token_kind(args.last().0) is Path {
        Some(args.last().0)
    } else {
        last_path(args.drop_last())
    }
}

/// Some token among `args` is of the given kind.
pub open spec fn mentions(args: CommandLine, kind: Token) -> bool {
    exists|i: int| 0 <= i < args.len() && token_kind((#[trigger] args[i]).0) == kind
}

/// Some candidate path among `args` carries the marker suffix.
pub open spec fn names_marked_file(args: CommandLine) -> bool {
    exists|i: int|
        0 <= i < args.len() && token_kind((#[trigger] args[i]).0) is Path && has_marker(args[i].0)
}

/// What has been settled after some of the tokens.
pub struct Settings {
    /// The mode selected so far, by a flag or by a file's name.
    pub mode: Option<Mode>,
    /// The file named last.
    pub source_path: Option<Seq<char>>,
    pub overwrite_allowed: bool,
    pub write_to_file: bool,
}

/// The mode that `args` settle: that of the last mode flag; without a mode
/// flag the inverse transform if a file with the marker suffix is named,
/// and otherwise none.
pub open spec fn settled_mode(args: CommandLine) -> Option<Mode> {
    match last_selected(args) {
        Some(mode) => Some(mode),
        None => if names_marked_file(args) {
            Some(Mode::Decrypt)
        } else {
            None
        },
    }
}

/// What `args` settle when every candidate path among them is accepted: the
/// source is the last path, overwriting is allowed if `--overwrite` occurs,
/// and the result goes to standard output if the print flag occurs.
pub open spec fn settled(args: CommandLine) -> Settings {
    Settings {
        mode: settled_mode(args),
        source_path: last_path(args),
        overwrite_allowed: mentions(args, Token::Overwrite),
        write_to_file: !mentions(args, Token::Print),
    }
}

/// The descriptor that the settings amount to once the tokens are
/// exhausted: with no mode selected the forward transform is meant, and a
/// transform needs a source file.
pub open spec fn frozen(settings: Settings) -> Result<DescriptorView, FailureView> {
    described(
        match settings.mode {
            Some(mode) => mode,
            None => Mode::Encrypt,
        },
        settings.source_path,
        settings.overwrite_allowed,
        settings.write_to_file,
    )
}

/// What a command line resolves to. It fails at the first candidate path
/// that names no existing regular file; otherwise it comes to what its
/// tokens settle, or fails for want of a source file.
pub open spec fn resolved(args: CommandLine) -> Result<DescriptorView, FailureView> {
    match first_rejected(args) {
        Some(token) => Err(FailureView::InvalidPath { token }),
        None => frozen(settled(args)),
    }
}

// ---------------------------------------------------------------------
// The same, token by token.
// ---------------------------------------------------------------------
/// What is settled before the first token: no mode, no file, no
/// overwriting, the result goes to a file.
pub open spec fn initial() -> Settings {
    Settings { mode: None, source_path: None, overwrite_allowed: false, write_to_file: true }
}

/// The settings after one more token. A flag sets its field, whatever it
/// held. A path must name an existing regular file; it becomes the source,
/// and while no mode is selected a name with the marker suffix selects the
/// inverse transform.
pub open spec fn accept(settings: Settings, token: Seq<char>, is_file: bool) -> Result<
    Settings,
    FailureView,
> {
    match token_kind(token) {
        Token::Overwrite => Ok(Settings { overwrite_allowed: true, ..settings }),
        Token::Print => Ok(Settings { write_to_file: false, ..settings }),
        Token::Path => if is_file {
            Ok(
                Settings {
                    source_path: Some(token),
                    mode: if settings.mode is None && has_marker(token) {
                        Some(Mode::Decrypt)
                    } else {
                        settings.mode
                    },
                    ..settings
                },
            )
        } else {
            Err(FailureView::InvalidPath { token })
        },
        flag => Ok(Settings { mode: flag.selects(), ..settings }),
    }
}

/// The settings after all of `args`, taken from left to right; the first
/// token that is not accepted ends the resolution with its failure.
pub open spec fn accept_all(settings: Settings, args: CommandLine) -> Result<Settings, FailureView>
    decreases args.len(),
{
    if args.len() == 0 {
        Ok(settings)
    } else {
        match accept_all(settings, args.drop_last()) {
            Ok(before) => accept(before, args.last().0, args.last().1),
            Err(failure) => Err(failure),
        }
    }
}

/// The outcome of going through a whole command line token by token.
pub open spec fn resolution(args: CommandLine) -> Result<DescriptorView, FailureView> {
    match accept_all(initial(), args) {
        Ok(settings) => frozen(settings),
        Err(failure) => Err(failure),
    }
}

/// A token of the given kind is among `args` if it is the last of them or
/// among those before.
proof fn lemma_mentions_unfold(args: CommandLine, kind: Token)
    requires
        args.len() > 0,
    ensures
        mentions(args, kind) <==> mentions(args.drop_last(), kind) || token_kind(args.last().0)
            == kind,
{
    let before = args.drop_last();
    if mentions(args, kind) {
        let i = choose|i: int| 0 <= i < args.len() && token_kind((#[trigger] args[i]).0) == kind;
        if i < args.len() - 1 {
            assert(before[i] == args[i]);
        }
    }
    if mentions(before, kind) {
        let i = choose|i: int|
            0 <= i < before.len() && token_kind((#[trigger] before[i]).0) == kind;
        assert(args[i] == before[i]);
    }
    if token_kind(args.last().0) == kind {
        assert(args[args.len() - 1] == args.last());
    }
}

/// A file with the marker suffix is named among `args` if the last of them
/// names one or one of those before does.
proof fn lemma_names_marked_file_unfold(args: CommandLine)
    requires
        args.len() > 0,
    ensures
        names_marked_file(args) <==> names_marked_file(args.drop_last()) || (token_kind(
            args.last().0,
        ) is Path && has_marker(args.last().0)),
{
    let before = args.drop_last();
    if names_marked_file(args) {
        let i = choose|i: int|
            0 <= i < args.len() && token_kind((#[trigger] args[i]).0) is Path && has_marker(
                args[i].0,
            );
        if i < args.len() - 1 {
            assert(before[i] == args[i]);
        }
    }
    if names_marked_file(before) {
        let i = choose|i: int|
            0 <= i < before.len() && token_kind((#[trigger] before[i]).0) is Path && has_marker(
                before[i].0,
            );
        assert(args[i] == before[i]);
    }
    if token_kind(args.last().0) is Path && has_marker(args.last().0) {
        assert(args[args.len() - 1] == args.last());
    }
}

/// Going through a command line token by token settles what the command
/// line says as a whole.
pub proof fn lemma_settings_characterized(args: CommandLine)
    ensures
        accept_all(initial(), args) == match first_rejected(args) {
            Some(token) => Err::<Settings, FailureView>(FailureView::InvalidPath { token }),
            None => Ok(settled(args)),
        },
    decreases args.len(),
{
    if args.len() == 0 {
        assert(!mentions(args, Token::Overwrite));
        assert(!mentions(args, Token::Print));
        assert(!names_marked_file(args));
    } else {
        let before = args.drop_last();
        lemma_settings_characterized(before);
        lemma_mentions_unfold(args, Token::Overwrite);
        lemma_mentions_unfold(args, Token::Print);
        lemma_names_marked_file_unfold(args);
    }
}

/// Token by token or as a whole, a command line resolves to the same.
pub proof fn lemma_resolution_is_resolved(args: CommandLine)
    ensures
        resolution(args) == resolved(args),
{
    lemma_settings_characterized(args);
}

/// A resolution that has failed after some of the tokens has failed for
/// good.
proof fn lemma_failure_is_final(settings: Settings, args: CommandLine, k: int)
    requires
        0 <= k <= args.len(),
        accept_all(settings, args.take(k)) is Err,
    ensures
        accept_all(settings, args) == accept_all(settings, args.take(k)),
    decreases args.len() - k,
{
    if k == args.len() {
        assert(args.take(k) =~= args);
    } else {
        assert(args.take(k + 1).drop_last() =~= args.take(k));
        lemma_failure_is_final(settings, args, k + 1);
    }
}

// ---------------------------------------------------------------------
// Resolving.
// ---------------------------------------------------------------------
/// The state of a resolution in progress.
#[derive(Debug)]
pub struct Resolver {
    mode: Option<Mode>,
    source_path: Option<String>,
    overwrite_allowed: bool,
    write_to_file: bool,
}

impl View for Resolver {
    type V = Settings;

    closed spec fn view(&self) -> Settings {
        Settings {
            mode: self.mode,
            source_path: match self.source_path {
                Some(path) => Some(path@),
                None => None,
            },
            overwrite_allowed: self.overwrite_allowed,
            write_to_file: self.write_to_file,
        }
    }
}

impl Resolver {
    /// The state before the first token.
    pub fn new() -> (r: Resolver)
        ensures
            r@ == initial(),
    {
        Resolver { mode: None, source_path: None, overwrite_allowed: false, write_to_file: true }
    }

    /// Consumes one token. `is_file` says whether the token names an
    /// existing regular file; it is looked at for a candidate path only.
    pub fn accept(self, token: &str, is_file: bool) -> (r: Result<Resolver, Failure>)
        ensures
            result_view(r) == accept(self@, token@, is_file),
    {
        let mut next = self;
        match classify(token) {
            Token::Encrypt => {
                next.mode = Some(Mode::Encrypt);
            },
            Token::Decrypt => {
                next.mode = Some(Mode::Decrypt);
            },
            Token::Version => {
                next.mode = Some(Mode::ShowVersion);
            },
            Token::Help => {
                next.mode = Some(Mode::ShowHelp);
            },
            Token::Overwrite => {
                next.overwrite_allowed = true;
            },
            Token::Print => {
                next.write_to_file = false;
            },
            Token::Path => {
                if !is_file {
                    return Err(Failure::InvalidPath { token: token.to_string() });
                }
                if next.mode.is_none() && is_marked(token) {
                    next.mode = Some(Mode::Decrypt);
                }
                next.source_path = Some(token.to_string());
            },
        }
        Ok(next)
    }

    /// Ends the resolution once the tokens are exhausted.
    pub fn finish(self) -> (r: Result<OperationDescriptor, Failure>)
        ensures
            result_view(r) == frozen(self@),
    {
        let mode = match self.mode {
            Some(mode) => mode,
            None => Mode::Encrypt,
        };
        OperationDescriptor::new(
            mode,
            self.source_path,
            self.overwrite_allowed,
            self.write_to_file,
        )
    }
}

/// Resolves a command line, given without the program's name. Each token
/// comes with the answer whether it names an existing regular file.
pub fn resolve(args: &Vec<(String, bool)>) -> (r: Result<OperationDescriptor, Failure>)
    ensures
        result_view(r) == resolved(args.deep_view()),
        result_view(r) == resolution(args.deep_view()),
{
    let ghost all = args.deep_view();
    let mut state = Resolver::new();
    let mut i: usize = 0;
    while i < args.len()
        invariant
            i <= args.len(),
            all == args.deep_view(),
            accept_all(initial(), all.take(i as int)) == Ok::<Settings, FailureView>(state@),
        decreases args.len() - i,
    {
        proof {
            let upto = all.take(i + 1);
            assert(upto.drop_last() =~= all.take(i as int));
            assert(upto.last() == (args@[i as int].0@, args@[i as int].1));
        }
        match state.accept(args[i].0.as_str(), args[i].1) {
            Ok(next) => {
                state = next;
            },
            Err(failure) => {
                proof {
                    lemma_failure_is_final(initial(), all, i + 1);
                    lemma_resolution_is_resolved(all);
                }
                return Err(failure);
            },
        }
        i = i + 1;
    }
    proof {
        assert(all.take(i as int) =~= all);
        lemma_resolution_is_resolved(all);
    }
    state.finish()
}

// ---------------------------------------------------------------------
// What follows for every command line.
// ---------------------------------------------------------------------
/// A command line resolves to a descriptor exactly when each of its
/// candidate paths names an existing regular file and, unless the version
/// or the usage text is asked for, there is one. The descriptor's source is
/// then the last path, a transform has one, and the mode is never to do
/// nothing.
pub proof fn lemma_resolves_when(args: CommandLine)
    ensures
        resolved(args) is Ok <==> first_rejected(args) is None && (last_path(args) is Some || (
            settled_mode(args) matches Some(mode) && mode.direction() is None)),
        resolved(args) matches Ok(descriptor) ==> descriptor.source_path == last_path(args)
            && descriptor.wf() && descriptor.mode != Mode::Noop,
        resolved(args) matches Err(failure) ==> failure == (match first_rejected(args) {
            Some(token) => FailureView::InvalidPath { token },
            None => FailureView::MissingPath,
        }),
{
    lemma_selected_is_no_noop(args);
}

/// No flag selects doing nothing.
proof fn lemma_selected_is_no_noop(args: CommandLine)
    ensures
        last_selected(args) != Some(Mode::Noop),
    decreases args.len(),
{
    if args.len() > 0 {
        lemma_selected_is_no_noop(args.drop_last());
    }
}

/// Without a mode flag the mode follows from the files' names: if every
/// candidate path exists and there is one, the command line resolves to the
/// inverse transform when a named file carries the marker suffix and to the
/// forward transform when none does.
pub proof fn lemma_mode_inferred_from_names(args: CommandLine)
    requires
        last_selected(args) is None,
        first_rejected(args) is None,
        last_path(args) is Some,
    ensures
        resolved(args) matches Ok(descriptor) && descriptor.mode == (if names_marked_file(args) {
            Mode::Decrypt
        } else {
            Mode::Encrypt
        }) && descriptor.source_path == last_path(args),
{
}

/// `tokens` are toggles, every one of them.
pub open spec fn toggles_only(tokens: CommandLine) -> bool {
    forall|i: int|
        0 <= i < tokens.len() ==> {
            let kind = token_kind((#[trigger] tokens[i]).0);
            kind is Overwrite || kind is Print
        }
}

/// Toggles alone select no mode, name no file and are never rejected.
proof fn lemma_toggles_select_nothing(toggles: CommandLine)
    requires
        toggles_only(toggles),
    ensures
        last_selected(toggles) is None,
        last_path(toggles) is None,
        first_rejected(toggles) is None,
        !names_marked_file(toggles),
    decreases toggles.len(),
{
    if toggles.len() > 0 {
        let before = toggles.drop_last();
        assert forall|i: int| 0 <= i < before.len() implies {
            let kind = token_kind((#[trigger] before[i]).0);
            kind is Overwrite || kind is Print
        } by {
            assert(before[i] == toggles[i]);
        }
        lemma_toggles_select_nothing(before);
        assert(toggles[toggles.len() - 1] == toggles.last());
        lemma_names_marked_file_unfold(toggles);
    }
}

/// Toggles after `args` leave the mode, the source and the acceptance of
/// `args` as they are.
proof fn lemma_toggles_change_nothing(args: CommandLine, toggles: CommandLine)
    requires
        toggles_only(toggles),
    ensures
        last_selected(args + toggles) == last_selected(args),
        last_path(args + toggles) == last_path(args),
        first_rejected(args + toggles) == first_rejected(args),
        names_marked_file(args + toggles) == names_marked_file(args),
    decreases toggles.len(),
{
    if toggles.len() == 0 {
        assert(args + toggles =~= args);
    } else {
        let fewer = toggles.drop_last();
        assert forall|i: int| 0 <= i < fewer.len() implies {
            let kind = token_kind((#[trigger] fewer[i]).0);
            kind is Overwrite || kind is Print
        } by {
            assert(fewer[i] == toggles[i]);
        }
        lemma_toggles_change_nothing(args, fewer);
        let all = args + toggles;
        assert(all.drop_last() =~= args + fewer);
        assert(all.last() == toggles.last());
        assert(toggles[toggles.len() - 1] == toggles.last());
        lemma_names_marked_file_unfold(all);
    }
}

/// With one existing file and no mode flag on the command line, the file's
/// name decides: the inverse transform for a name with the marker suffix,
/// the forward transform for any other. Toggles before and after the file
/// change nothing in that.
pub proof fn lemma_single_file_mode(before: CommandLine, file: Seq<char>, after: CommandLine)
    requires
        token_kind(file) is Path,
        toggles_only(before),
        toggles_only(after),
    ensures
        resolved(before + seq![(file, true)] + after) matches Ok(descriptor) && descriptor.mode
            == (if has_marker(file) {
            Mode::Decrypt
        } else {
            Mode::Encrypt
        }) && descriptor.source_path == Some(file),
{
    let head = before + seq![(file, true)];
    lemma_toggles_select_nothing(before);
    lemma_toggles_change_nothing(head, after);
    assert(head.drop_last() =~= before);
    assert(head.last() == (file, true));
    lemma_names_marked_file_unfold(head);
}

/// A mode flag overrides what the files' names suggest, wherever it stands
/// among the tokens: a command line with a mode flag resolves, if it
/// resolves, to the mode of the last mode flag.
pub proof fn lemma_explicit_mode_wins(args: CommandLine)
    requires
        last_selected(args) is Some,
    ensures
        resolved(args) matches Ok(descriptor) ==> Some(descriptor.mode) == last_selected(args),
{
}

/// The toggles of a resolved command line are as they were given:
/// overwriting is allowed if and only if `--overwrite` occurs, and the
/// result goes to standard output if and only if the print flag occurs.
pub proof fn lemma_toggles_as_given(args: CommandLine)
    ensures
        resolved(args) matches Ok(descriptor) ==> descriptor.overwrite_allowed == mentions(
            args,
            Token::Overwrite,
        ) && descriptor.write_to_file == !mentions(args, Token::Print),
{
}

/// Taking a toggle out of a command line changes nothing in what the other
/// tokens say: which path is rejected first, which mode flag and which path
/// are the last, whether a named file carries the marker, and whether any
/// other kind of token occurs.
proof fn lemma_toggle_removed(args: CommandLine, k: int, other: Token)
    requires
        0 <= k < args.len(),
        token_kind(args[k].0) is Overwrite || token_kind(args[k].0) is Print,
        other != token_kind(args[k].0),
    ensures
        first_rejected(args.remove(k)) == first_rejected(args),
        last_selected(args.remove(k)) == last_selected(args),
        last_path(args.remove(k)) == last_path(args),
        names_marked_file(args.remove(k)) == names_marked_file(args),
        mentions(args.remove(k), other) == mentions(args, other),
    decreases args.len(),
{
    let fewer = args.remove(k);
    let before = args.drop_last();
    lemma_mentions_unfold(args, other);
    lemma_names_marked_file_unfold(args);
    if k == args.len() - 1 {
        assert(fewer =~= before);
    } else {
        lemma_toggle_removed(before, k, other);
        assert(fewer.drop_last() =~= before.remove(k));
        assert(fewer.last() == args.last());
        lemma_mentions_unfold(fewer, other);
        lemma_names_marked_file_unfold(fewer);
    }
}

/// Repeating `--overwrite` has the effect of giving it once: where the flag
/// occurs more than once, any one occurrence can be left out, wherever it
/// stands, and the command line resolves to the same.
pub proof fn lemma_overwrite_idempotent(args: CommandLine, k: int)
    requires
        0 <= k < args.len(),
        token_kind(args[k].0) is Overwrite,
        mentions(args.remove(k), Token::Overwrite),
    ensures
        resolved(args.remove(k)) == resolved(args),
{
    lemma_toggle_removed(args, k, Token::Print);
    assert(mentions(args, Token::Overwrite));
}

/// The print flag is idempotent in the same way.
pub proof fn lemma_print_idempotent(args: CommandLine, k: int)
    requires
        0 <= k < args.len(),
        token_kind(args[k].0) is Print,
        mentions(args.remove(k), Token::Print),
    ensures
        resolved(args.remove(k)) == resolved(args),
{
    lemma_toggle_removed(args, k, Token::Overwrite);
    assert(mentions(args, Token::Print));
}

/// A second `--overwrite` right after the first changes nothing.
pub proof fn lemma_overwrite_twice(settings: Settings, token: Seq<char>, first: bool, second: bool)
    requires
        token_kind(token) is Overwrite,
    ensures
        accept(settings, token, first) matches Ok(once) && accept(once, token, second) == Ok::<
            Settings,
            FailureView,
        >(once),
{
}

} // verus!
