//! Command-line argument parsing.

use crate::config::{DEFAULT_DELAY_US, DEFAULT_THRESHOLD_KB};
use crate::text::{same_text, to_decimal};
use vstd::prelude::*;

verus! {

/// Default path to the configuration file.
pub const DEFAULT_CONFIG_PATH: &'static str = "/etc/qubes/meminfo-writer-ng.conf";

/// Name of the program where the command line does not give one.
pub const DEFAULT_PROGRAM_NAME: &'static str = "qubes-meminfo-writer-ng";

/// Output mode: controls where computed values and xenstore writes go.
#[derive(Debug, Clone, Copy, PartialEq, Eq, Structural)]
pub enum OutputMode {
    /// Print computed values to stdout only; do not write to xenstore.
    Print,
    /// Write to xenstore only; no stdout output (default).
    Xenstore,
    /// Write to xenstore AND print computed values to stdout.
    Both,
}

impl OutputMode {
    pub open spec fn prints(self) -> bool {
        self is Print || self is Both
    }

    pub open spec fn writes(self) -> bool {
        self is Xenstore || self is Both
    }

    /// Whether computed values go to stdout.
    pub fn use_print(self) -> (r: bool)
        ensures
            r == self.prints(),
    {
        match self {
            OutputMode::Print | OutputMode::Both => true,
            OutputMode::Xenstore => false,
        }
    }

    /// Whether computed values go to xenstore.
    pub fn use_xenstore(self) -> (r: bool)
        ensures
            r == self.writes(),
    {
        match self {
            OutputMode::Xenstore | OutputMode::Both => true,
            OutputMode::Print => false,
        }
    }
}

/// Parsed command-line arguments.
#[derive(Debug, PartialEq)]
pub struct CliArgs {
    /// Path to the configuration file.
    pub config_path: String,
    /// Selected output mode.
    pub output_mode: OutputMode,
    /// When `true`, run exactly one sampling iteration then exit.
    /// Useful for scripting, debugging, and integration testing.
    pub once: bool,
}

/// [`CliArgs`] with the path as a sequence of characters.
pub struct CliArgsView {
    pub config_path: Seq<char>,
    pub output_mode: OutputMode,
    pub once: bool,
}

impl View for CliArgs {
    type V = CliArgsView;

    open spec fn view(&self) -> CliArgsView {
        CliArgsView {
            config_path: self.config_path@,
            output_mode: self.output_mode,
            once: self.once,
        }
    }
}

/// Why the program ends after reading the command line.
#[derive(Debug, PartialEq)]
pub enum CliStop {
    /// The usage message was asked for.
    Help,
    /// `--config` came last, without a path.
    MissingConfigPath,
    /// `--output` came last, without a mode.
    MissingOutputMode,
    /// `--output` was followed by something that is no mode.
    UnknownOutputMode(String),
    /// An argument is no option.
    UnknownOption(String),
}

/// [`CliStop`] with its text as a sequence of characters.
pub enum CliStopView {
    Help,
    MissingConfigPath,
    MissingOutputMode,
    UnknownOutputMode(Seq<char>),
    UnknownOption(Seq<char>),
}

impl View for CliStop {
    type V = CliStopView;

    open spec fn view(&self) -> CliStopView {
        match self {
            CliStop::Help => CliStopView::Help,
            CliStop::MissingConfigPath => CliStopView::MissingConfigPath,
            CliStop::MissingOutputMode => CliStopView::MissingOutputMode,
            CliStop::UnknownOutputMode(mode) => CliStopView::UnknownOutputMode(mode@),
            CliStop::UnknownOption(option) => CliStopView::UnknownOption(option@),
        }
    }
}

/// The mode that a name stands for.
pub open spec fn mode_named(name: Seq<char>) -> Option<OutputMode> {
    if name == "print"@ {
        Some(OutputMode::Print)
    } else if name == "xenstore"@ {
        Some(OutputMode::Xenstore)
    } else if name == "both"@ {
        Some(OutputMode::Both)
    } else {
        None
    }
}

/// What a list of options makes of the settings `so_far`. Options are taken from left to
/// right; the first that ends the program decides.
pub open spec fn read_options(options: Seq<Seq<char>>, so_far: CliArgsView) -> Result<
    CliArgsView,
    CliStopView,
>
    decreases options.len(),
{
    if options.len() == 0 {
        Ok(so_far)
    } else if options[0] == "--config"@ {
        if options.len() == 1 {
            Err(CliStopView::MissingConfigPath)
        } else {
            read_options(options.skip(2), CliArgsView { config_path: options[1], ..so_far })
        }
    } else if options[0] == "--output"@ {
        if options.len() == 1 {
            Err(CliStopView::MissingOutputMode)
        } else {
            match mode_named(options[1]) {
                Some(output_mode) => read_options(
                    options.skip(2),
                    CliArgsView { output_mode, ..so_far },
                ),
                None => Err(CliStopView::UnknownOutputMode(options[1])),
            }
        }
    } else if options[0] == "--once"@ {
        read_options(options.skip(1), CliArgsView { once: true, ..so_far })
    } else if options[0] == "--help"@ || options[0] == "-h"@ {
        Err(CliStopView::Help)
    } else {
        Err(CliStopView::UnknownOption(options[0]))
    }
}

/// The settings that hold before any option is read.
pub open spec fn default_args() -> CliArgsView {
    CliArgsView {
        config_path: DEFAULT_CONFIG_PATH@,
        output_mode: OutputMode::Xenstore,
        once: false,
    }
}

/// The arguments after the program's name.
pub open spec fn options_of(args: Seq<String>) -> Seq<Seq<char>> {
    Seq::new((if args.len() == 0 {
        0
    } else {
        args.len() - 1
    }) as nat, |i: int| args[i + 1]@)
}

/// The result of reading the command line, with text as sequences of characters.
pub open spec fn result_view(r: Result<CliArgs, CliStop>) -> Result<CliArgsView, CliStopView> {
    match r {
        Ok(args) => Ok(args@),
        Err(stop) => Err(stop@),
    }
}

/// Read the command line `args`, whose first element is the program's name.
pub fn parse_args(args: &[String]) -> (r: Result<CliArgs, CliStop>)
    ensures
        result_view(r) == read_options(options_of(args@), default_args()),
        match r {
            Ok(a) => read_options(options_of(args@), default_args()) == Ok::<
                CliArgsView,
                CliStopView,
            >(
                (CliArgsView {
                    config_path: a.config_path@,
                    output_mode: a.output_mode,
                    once: a.once,
                }),
            ),
            Err(CliStop::Help) => read_options(options_of(args@), default_args()) == Err::<
                CliArgsView,
                CliStopView,
            >(CliStopView::Help),
            Err(CliStop::MissingConfigPath) => read_options(options_of(args@), default_args())
                == Err::<CliArgsView, CliStopView>(CliStopView::MissingConfigPath),
            Err(CliStop::MissingOutputMode) => read_options(options_of(args@), default_args())
                == Err::<CliArgsView, CliStopView>(CliStopView::MissingOutputMode),
            Err(CliStop::UnknownOutputMode(mode)) => read_options(
                options_of(args@),
                default_args(),
            ) == Err::<CliArgsView, CliStopView>(CliStopView::UnknownOutputMode(mode@)),
            Err(CliStop::UnknownOption(option)) => read_options(options_of(args@), default_args())
                == Err::<CliArgsView, CliStopView>(CliStopView::UnknownOption(option@)),
        },
{
    let mut config_path = DEFAULT_CONFIG_PATH.to_owned();
    let mut output_mode = OutputMode::Xenstore;
    let mut once = false;
    let ghost options = options_of(args@);
    let ghost expected = read_options(options, default_args());
    assert(options.skip(0) == options);
    let mut i: usize = 1;
    while i < args.len()
        invariant
            1 <= i,
            i == 1 || i <= args@.len(),
            options == options_of(args@),
            expected == read_options(options, default_args()),
            expected == read_options(
                options.skip(i - 1),
                CliArgsView { config_path: config_path@, output_mode, once },
            ),
        decreases args@.len() - i,
    {
        let option = args[i].as_str();
        let ghost rest = options.skip(i - 1);
        assert(rest[0] == option@);
        if same_text(option, "--config") {
            i += 1;
            if i >= args.len() {
                return Err(CliStop::MissingConfigPath);
            }
            assert(rest[1] == args@[i as int]@);
            assert(rest.skip(2) == options.skip(i as int));
            config_path = args[i].clone();
        } else if same_text(option, "--output") {
            i += 1;
            if i >= args.len() {
                return Err(CliStop::MissingOutputMode);
            }
            assert(rest[1] == args@[i as int]@);
            assert(rest.skip(2) == options.skip(i as int));
            match parse_mode(args[i].as_str()) {
                Some(mode) => {
                    output_mode = mode;
                },
                None => {
                    return Err(CliStop::UnknownOutputMode(args[i].clone()));
                },
            }
        } else if same_text(option, "--once") {
            assert(rest.skip(1) == options.skip(i as int));
            once = true;
        } else if same_text(option, "--help") || same_text(option, "-h") {
            return Err(CliStop::Help);
        } else {
            return Err(CliStop::UnknownOption(option.to_owned()));
        }
        i += 1;
    }
    assert(options.skip(i - 1).len() == 0);
    Ok(CliArgs { config_path, output_mode, once })
}

fn parse_mode(name: &str) -> (r: Option<OutputMode>)
    ensures
        r == mode_named(name@),
{
    if same_text(name, "print") {
        Some(OutputMode::Print)
    } else if same_text(name, "xenstore") {
        Some(OutputMode::Xenstore)
    } else if same_text(name, "both") {
        Some(OutputMode::Both)
    } else {
        None
    }
}

/// Options that read to the end leave the settings from which the options after them
/// are read.
pub proof fn options_are_read_in_order(
    first: Seq<Seq<char>>,
    second: Seq<Seq<char>>,
    so_far: CliArgsView,
)
    requires
        read_options(first, so_far) is Ok,
    ensures
        read_options(first + second, so_far) == read_options(
            second,
            read_options(first, so_far)->Ok_0,
        ),
    decreases first.len(),
{
    let all = first + second;
    if first.len() == 0 {
        assert(all == second);
    } else {
        assert(all[0] == first[0]);
        if first.len() >= 2 {
            assert(all[1] == first[1]);
            assert(all.skip(2) == first.skip(2) + second);
        }
        assert(all.skip(1) == first.skip(1) + second);
        if first[0] == "--config"@ {
            options_are_read_in_order(
                first.skip(2),
                second,
                CliArgsView { config_path: first[1], ..so_far },
            );
        } else if first[0] == "--output"@ {
            let output_mode = mode_named(first[1])->Some_0;
            options_are_read_in_order(
                first.skip(2),
                second,
                CliArgsView { output_mode, ..so_far },
            );
        } else if first[0] == "--once"@ {
            options_are_read_in_order(
                first.skip(1),
                second,
                CliArgsView { once: true, ..so_far },
            );
        }
    }
}

/// Once the usage message was asked for, or something unknown was given, nothing that
/// follows changes the outcome.
pub proof fn first_stop_decides(
    first: Seq<Seq<char>>,
    second: Seq<Seq<char>>,
    so_far: CliArgsView,
)
    requires
        read_options(first, so_far) is Err,
        !(read_options(first, so_far)->Err_0 is MissingConfigPath),
        !(read_options(first, so_far)->Err_0 is MissingOutputMode),
    ensures
        read_options(first + second, so_far) == read_options(first, so_far),
    decreases first.len(),
{
    let all = first + second;
    assert(all[0] == first[0]);
    if first.len() >= 2 {
        assert(all[1] == first[1]);
        assert(all.skip(2) == first.skip(2) + second);
    }
    assert(all.skip(1) == first.skip(1) + second);
    if first[0] == "--config"@ {
        first_stop_decides(
            first.skip(2),
            second,
            CliArgsView { config_path: first[1], ..so_far },
        );
    } else if first[0] == "--output"@ {
        if mode_named(first[1]) is Some {
            let output_mode = mode_named(first[1])->Some_0;
            first_stop_decides(first.skip(2), second, CliArgsView { output_mode, ..so_far });
        }
    } else if first[0] == "--once"@ {
        first_stop_decides(first.skip(1), second, CliArgsView { once: true, ..so_far });
    }
}

/// Of several paths the last one counts, and of several modes the last one.
pub proof fn last_setting_wins(
    options: Seq<Seq<char>>,
    path: Seq<char>,
    mode: Seq<char>,
    so_far: CliArgsView,
)
    requires
        read_options(options, so_far) is Ok,
        mode_named(mode) is Some,
    ensures
        read_options(options + seq!["--config"@, path], so_far) == Ok::<CliArgsView, CliStopView>(
            CliArgsView { config_path: path, ..read_options(options, so_far)->Ok_0 },
        ),
        read_options(options + seq!["--output"@, mode], so_far) == Ok::<CliArgsView, CliStopView>(
            CliArgsView {
                output_mode: mode_named(mode)->Some_0,
                ..read_options(options, so_far)->Ok_0
            },
        ),
{
    let mid = read_options(options, so_far)->Ok_0;
    let c = seq!["--config"@, path];
    let o = seq!["--output"@, mode];
    options_are_read_in_order(options, c, so_far);
    options_are_read_in_order(options, o, so_far);
    reveal_strlit("--config");
    reveal_strlit("--output");
    assert(c[0] == "--config"@);
    assert(o[0] == "--output"@);
    assert("--config"@[2] == 'c');
    assert("--output"@[2] == 'o');
    assert("--config"@ != "--output"@);
    assert(c.skip(2).len() == 0);
    assert(o.skip(2).len() == 0);
    assert(read_options(c, mid) == read_options(
        c.skip(2),
        CliArgsView { config_path: path, ..mid },
    ));
    assert(read_options(o, mid) == read_options(
        o.skip(2),
        CliArgsView { output_mode: mode_named(mode)->Some_0, ..mid },
    ));
}

/// The program's name: the first argument, where there is one.
pub fn program_name(args: &[String]) -> (r: &str)
    ensures
        r@ == if args@.len() == 0 {
            DEFAULT_PROGRAM_NAME@
        } else {
            args@[0]@
        },
{
    if args.len() == 0 {
        DEFAULT_PROGRAM_NAME
    } else {
        args[0].as_str()
    }
}

/// Usage message between the program's name and the default configuration file.
pub const USAGE_CONFIG: &'static str = " [OPTIONS]\n\
    \n\
    Options:\n\
    \x20 --config <path>        Configuration file [default: ";

/// Usage message between the default configuration file and the default threshold.
pub const USAGE_OPTIONS: &'static str = "]\n\
    \x20 --output <mode>        Output mode (default: xenstore):\n\
    \x20   print                Print computed values to stdout; no xenstore writes\n\
    \x20   xenstore             Write to xenstore only (silent)\n\
    \x20   both                 Write to xenstore and print to stdout\n\
    \x20 --once                 Run one iteration and exit (useful for debugging)\n\
    \x20 --help, -h             Show this message\n\
    \n\
    Configuration file (TOML) keys:\n\
    \x20 threshold_kb   Memory change threshold in kB [default: ";

/// Usage message between the default threshold and the default interval.
pub const USAGE_DELAY: &'static str = "]\n\
    \x20 delay_us       Update interval in microseconds [default: ";

/// Usage message after the default interval.
pub const USAGE_SWAP: &'static str = "]\n\
    \n\
    \x20 [[swap]]       Swap weight rule (first matching rule applies):\n\
    \x20   glob         Shell glob pattern for the swap device/file path\n\
    \x20   weight       Multiplier for used-kB (0.0 = ignore, 1.0 = full weight)\n";

/// The usage message of the program called `prog`.
pub open spec fn usage(prog: Seq<char>) -> Seq<char> {
    "Usage: "@ + prog + USAGE_CONFIG@ + DEFAULT_CONFIG_PATH@ + USAGE_OPTIONS@
        + crate::text::decimal(DEFAULT_THRESHOLD_KB as nat) + USAGE_DELAY@
        + crate::text::decimal(DEFAULT_DELAY_US as nat) + USAGE_SWAP@
}

/// The usage message of the program called `prog`.
pub fn usage_text(prog: &str) -> (r: String)
    ensures
        r@ == usage(prog@),
{
    let mut text = String::new();
    text.append("Usage: ");
    text.append(prog);
    text.append(USAGE_CONFIG);
    text.append(DEFAULT_CONFIG_PATH);
    text.append(USAGE_OPTIONS);
    text.append(to_decimal(DEFAULT_THRESHOLD_KB).as_str());
    text.append(USAGE_DELAY);
    text.append(to_decimal(DEFAULT_DELAY_US).as_str());
    text.append(USAGE_SWAP);
    assert(text@ =~= usage(prog@));
    text
}

/// What is said on stderr when the command line ends the program: the error, unless the
/// usage message was asked for, and the usage message.
pub open spec fn stop_text(stop: CliStopView, prog: Seq<char>) -> Seq<char> {
    let error = match stop {
        CliStopView::Help => Seq::empty(),
        CliStopView::MissingConfigPath => "error: --config requires a path argument\n"@,
        CliStopView::MissingOutputMode => "error: --output requires a mode argument\n"@,
        CliStopView::UnknownOutputMode(mode) => "error: unknown --output mode '"@ + mode
            + "'; expected print|xenstore|both\n"@,
        CliStopView::UnknownOption(option) => "error: unknown option: "@ + option + "\n"@,
    };
    error + usage(prog)
}

impl CliStop {
    /// What is said on stderr by the program called `prog`.
    pub fn message(&self, prog: &str) -> (r: String)
        ensures
            r@ == stop_text(self@, prog@),
    {
        let mut text = String::new();
        match self {
            CliStop::Help => {},
            CliStop::MissingConfigPath => {
                text.append("error: --config requires a path argument\n");
            },
            CliStop::MissingOutputMode => {
                text.append("error: --output requires a mode argument\n");
            },
            CliStop::UnknownOutputMode(mode) => {
                text.append("error: unknown --output mode '");
                text.append(mode.as_str());
                text.append("'; expected print|xenstore|both\n");
            },
            CliStop::UnknownOption(option) => {
                text.append("error: unknown option: ");
                text.append(option.as_str());
                text.append("\n");
            },
        }
        text.append(usage_text(prog).as_str());
        assert(text@ =~= stop_text(self@, prog@));
        text
    }

    /// The exit status of the program: success only where the usage message was asked for.
    pub fn exit_code(&self) -> (r: i32)
        ensures
            r == if self is Help {
                0i32
            } else {
                1i32
            },
    {
        match self {
            CliStop::Help => 0,
            _ => 1,
        }
    }
}

proof fn lemma_names_differ()
    ensures
        "--config"@ != "--output"@,
        "--config"@ != "--once"@,
        "--config"@ != "--help"@,
        "--config"@ != "-h"@,
        "--output"@ != "--once"@,
        "--output"@ != "--help"@,
        "--output"@ != "-h"@,
        "--once"@ != "--help"@,
        "--once"@ != "-h"@,
        "print"@ != "xenstore"@,
        "print"@ != "both"@,
        "xenstore"@ != "both"@,
{
    reveal_strlit("--config");
    reveal_strlit("--output");
    reveal_strlit("--once");
    reveal_strlit("--help");
    reveal_strlit("-h");
    reveal_strlit("print");
    reveal_strlit("xenstore");
    reveal_strlit("both");
    assert("--config"@.len() == 8 && "--output"@.len() == 8);
    assert("--once"@.len() == 6 && "--help"@.len() == 6 && "-h"@.len() == 2);
    assert("--config"@[2] == 'c' && "--output"@[2] == 'o');
    assert("--once"@[2] == 'o' && "--help"@[2] == 'h');
    assert("print"@.len() == 5 && "xenstore"@.len() == 8 && "both"@.len() == 4);
}

/// Without options the settings stay as they are; at the start they are the path of the
/// system's configuration file, xenstore only, and a loop that goes on.
pub proof fn no_options_change_nothing(so_far: CliArgsView)
    ensures
        read_options(Seq::<Seq<char>>::empty(), so_far) == Ok::<CliArgsView, CliStopView>(so_far),
        default_args().config_path == "/etc/qubes/meminfo-writer-ng.conf"@,
        default_args().output_mode == OutputMode::Xenstore,
        !default_args().once,
{
}

/// `--once` after options that read to the end asks for one iteration, and leaves path
/// and mode as those options set them.
pub proof fn once_leaves_path_and_mode(options: Seq<Seq<char>>, so_far: CliArgsView)
    requires
        read_options(options, so_far) is Ok,
    ensures
        match read_options(options + seq!["--once"@], so_far) {
            Ok(args) => args.config_path == read_options(options, so_far)->Ok_0.config_path
                && args.output_mode == read_options(options, so_far)->Ok_0.output_mode && args.once,
            Err(_) => false,
        },
{
    lemma_names_differ();
    let last = seq!["--once"@];
    options_are_read_in_order(options, last, so_far);
    assert(last[0] == "--once"@);
    assert(last.skip(1).len() == 0);
    reveal_with_fuel(read_options, 2);
}

/// `--config` with a path sets the path alone, `--output` with a mode the mode alone,
/// after options that read to the end.
pub proof fn path_and_mode_leave_the_rest(
    options: Seq<Seq<char>>,
    path: Seq<char>,
    so_far: CliArgsView,
)
    requires
        read_options(options, so_far) is Ok,
    ensures
        ({
            let before = read_options(options, so_far)->Ok_0;
            &&& match read_options(options + seq!["--config"@, path], so_far) {
                Ok(args) => args.config_path == path && args.output_mode == before.output_mode
                    && args.once == before.once,
                Err(_) => false,
            }
            &&& match read_options(options + seq!["--output"@, "print"@], so_far) {
                Ok(args) => args.config_path == before.config_path && args.output_mode
                    == OutputMode::Print && args.once == before.once,
                Err(_) => false,
            }
            &&& match read_options(options + seq!["--output"@, "xenstore"@], so_far) {
                Ok(args) => args.config_path == before.config_path && args.output_mode
                    == OutputMode::Xenstore && args.once == before.once,
                Err(_) => false,
            }
            &&& match read_options(options + seq!["--output"@, "both"@], so_far) {
                Ok(args) => args.config_path == before.config_path && args.output_mode
                    == OutputMode::Both && args.once == before.once,
                Err(_) => false,
            }
        }),
{
    lemma_names_differ();
    last_setting_wins(options, path, "print"@, so_far);
    last_setting_wins(options, path, "xenstore"@, so_far);
    last_setting_wins(options, path, "both"@, so_far);
}

/// What ends the program after options that read to the end: the request for the usage
/// message; a name that is no option; an option without its value; a mode that is none of
/// the three.
pub proof fn stop_after_options(options: Seq<Seq<char>>, x: Seq<char>, so_far: CliArgsView)
    requires
        read_options(options, so_far) is Ok,
    ensures
        read_options(options + seq!["--help"@], so_far) == Err::<CliArgsView, CliStopView>(
            CliStopView::Help,
        ),
        read_options(options + seq!["-h"@], so_far) == Err::<CliArgsView, CliStopView>(
            CliStopView::Help,
        ),
        read_options(options + seq!["--config"@], so_far) == Err::<CliArgsView, CliStopView>(
            CliStopView::MissingConfigPath,
        ),
        read_options(options + seq!["--output"@], so_far) == Err::<CliArgsView, CliStopView>(
            CliStopView::MissingOutputMode,
        ),
        x != "print"@ && x != "xenstore"@ && x != "both"@ ==> read_options(
            options + seq!["--output"@, x],
            so_far,
        ) == Err::<CliArgsView, CliStopView>(CliStopView::UnknownOutputMode(x)),
        x != "--config"@ && x != "--output"@ && x != "--once"@ && x != "--help"@ && x != "-h"@
            ==> read_options(options + seq![x], so_far) == Err::<CliArgsView, CliStopView>(
            CliStopView::UnknownOption(x),
        ),
{
    lemma_names_differ();
    options_are_read_in_order(options, seq!["--help"@], so_far);
    options_are_read_in_order(options, seq!["-h"@], so_far);
    options_are_read_in_order(options, seq!["--config"@], so_far);
    options_are_read_in_order(options, seq!["--output"@], so_far);
    options_are_read_in_order(options, seq!["--output"@, x], so_far);
    options_are_read_in_order(options, seq![x], so_far);
    assert(seq!["--help"@][0] == "--help"@);
    assert(seq!["-h"@][0] == "-h"@);
    assert(seq!["--config"@][0] == "--config"@);
    assert(seq!["--output"@][0] == "--output"@);
    assert(seq!["--output"@, x][0] == "--output"@);
    assert(seq!["--output"@, x][1] == x);
    assert(seq![x][0] == x);
}

/// It is irrelevant where among the other settings `--once` stands.
pub proof fn place_of_once_is_irrelevant(
    first: Seq<Seq<char>>,
    second: Seq<Seq<char>>,
    so_far: CliArgsView,
)
    requires
        read_options(first, so_far) is Ok,
        read_options(second, read_options(first, so_far)->Ok_0) is Ok,
    ensures
        read_options(first + (seq!["--once"@] + second), so_far) == read_options(
            first + (second + seq!["--once"@]),
            so_far,
        ),
{
    let mid = read_options(first, so_far)->Ok_0;
    lemma_names_differ();
    let all = seq!["--once"@] + second;
    options_are_read_in_order(first, all, so_far);
    options_are_read_in_order(first, second + seq!["--once"@], so_far);
    once_leaves_path_and_mode(second, mid);
    assert(all[0] == "--once"@);
    assert(all.skip(1) == second);
    lemma_once_stays(second, mid);
}

proof fn lemma_once_stays(options: Seq<Seq<char>>, so_far: CliArgsView)
    requires
        read_options(options, so_far) is Ok,
    ensures
        read_options(options, CliArgsView { once: true, ..so_far }) == Ok::<
            CliArgsView,
            CliStopView,
        >(CliArgsView { once: true, ..read_options(options, so_far)->Ok_0 }),
    decreases options.len(),
{
    if options.len() > 0 {
        if options[0] == "--config"@ {
            lemma_once_stays(options.skip(2), CliArgsView { config_path: options[1], ..so_far });
        } else if options[0] == "--output"@ {
            let output_mode = mode_named(options[1])->Some_0;
            lemma_once_stays(options.skip(2), CliArgsView { output_mode, ..so_far });
        } else if options[0] == "--once"@ {
            lemma_once_stays(options.skip(1), CliArgsView { once: true, ..so_far });
        }
    }
}

/// The options are the arguments after the first, each as it was given.
pub proof fn options_follow_the_program_name(name: String, rest: Seq<String>, i: int)
    ensures
        options_of(Seq::<String>::empty()).len() == 0,
        options_of(seq![name] + rest).len() == rest.len(),
        0 <= i < rest.len() ==> options_of(seq![name] + rest)[i] == rest[i]@,
{
}

/// Three names stand for a mode, each for its own, and no other text does.
pub proof fn modes_have_one_name_each(name: Seq<char>)
    ensures
        mode_named("print"@) == Some(OutputMode::Print),
        mode_named("xenstore"@) == Some(OutputMode::Xenstore),
        mode_named("both"@) == Some(OutputMode::Both),
        name != "print"@ && name != "xenstore"@ && name != "both"@ ==> mode_named(name) is None,
{
    lemma_names_differ();
}

/// Each mode has an outlet, and only one of them has both.
pub proof fn outlets_of_the_modes()
    ensures
        OutputMode::Print.prints() && !OutputMode::Print.writes(),
        !OutputMode::Xenstore.prints() && OutputMode::Xenstore.writes(),
        OutputMode::Both.prints() && OutputMode::Both.writes(),
{
}

/// The usage message is the same for every program but for the name after its first word.
pub proof fn usage_names_the_program(prog: Seq<char>, other: Seq<char>)
    ensures
        usage(prog) == "Usage: "@ + prog + usage(other).skip(7int + other.len()),
{
    reveal_strlit("Usage: ");
    assert("Usage: "@.len() == 7);
    let tail = USAGE_CONFIG@ + DEFAULT_CONFIG_PATH@ + USAGE_OPTIONS@ + crate::text::decimal(
        DEFAULT_THRESHOLD_KB as nat,
    ) + USAGE_DELAY@ + crate::text::decimal(DEFAULT_DELAY_US as nat) + USAGE_SWAP@;
    assert(usage(prog) =~= "Usage: "@ + prog + tail);
    assert(usage(other) =~= "Usage: "@ + other + tail);
    assert(usage(other).skip(7int + other.len()) =~= tail);
}

/// What is said when the command line ends the program is the error, with the text that
/// caused it in full, and then the usage message; the request for the usage message is
/// answered with that alone.
pub proof fn stop_texts_hold_their_parts_in_full(x: Seq<char>, prog: Seq<char>)
    ensures
        stop_text(CliStopView::Help, prog) =~= usage(prog),
        stop_text(CliStopView::MissingConfigPath, prog)
            =~= "error: --config requires a path argument\n"@ + usage(prog),
        stop_text(CliStopView::MissingOutputMode, prog)
            =~= "error: --output requires a mode argument\n"@ + usage(prog),
        stop_text(CliStopView::UnknownOutputMode(x), prog)
            =~= "error: unknown --output mode '"@ + x + "'; expected print|xenstore|both\n"@
            + usage(prog),
        stop_text(CliStopView::UnknownOption(x), prog) =~= "error: unknown option: "@ + x + "\n"@
            + usage(prog),
{
}

} // verus!
