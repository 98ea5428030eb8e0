//! The command lines of the programs, and when the broker stops serving.

use vstd::prelude::*;

use crate::text::{optional_text, same_text, texts};
use crate::transport::WindowsPipeError;

verus! {

/// What the broker is asked for.
#[derive(Clone, Debug, PartialEq, Eq)]
pub struct ServiceConfig {
    /// Its pipe.
    pub pipe: String,
    /// Who may use it.
    pub authorized_logon_sid: String,
    /// Whether it stops after one request.
    pub once: bool,
    /// Whether it runs as a service.
    pub windows_service: bool,
}

/// What was read of a command line.
pub struct ConfigModel {
    pub pipe: Option<Seq<char>>,
    pub authorized_logon_sid: Option<Seq<char>>,
    pub once: bool,
    pub windows_service: bool,
}

/// The value at a place, if there is one.
pub open spec fn value_at(all: Seq<Seq<char>>, at: int) -> Option<Seq<char>> {
    if 0 <= at < all.len() {
        Some(all[at])
    } else {
        None
    }
}

/// What is read of a command line from a place on.
pub open spec fn read_config(m: ConfigModel, all: Seq<Seq<char>>, from: int) -> Result<
    ConfigModel,
    Seq<char>,
>
    decreases all.len() + 1 - from,
{
    if from >= all.len() {
        Ok(m)
    } else if all[from] == "--pipe"@ {
        read_config(ConfigModel { pipe: value_at(all, from + 1), ..m }, all, from + 2)
    } else if all[from] == "--authorized-logon-sid"@ {
        read_config(
            ConfigModel { authorized_logon_sid: value_at(all, from + 1), ..m },
            all,
            from + 2,
        )
    } else if all[from] == "--once"@ {
        read_config(ConfigModel { once: true, ..m }, all, from + 1)
    } else if all[from] == "--windows-service"@ {
        read_config(ConfigModel { windows_service: true, ..m }, all, from + 1)
    } else {
        Err("unknown or incomplete argument: "@ + all[from])
    }
}

/// What the command line of the broker asks for: a pipe and who may use it have to be named.
pub open spec fn config_of(all: Seq<Seq<char>>) -> Result<ConfigModel, Seq<char>> {
    let nothing = ConfigModel {
        pipe: None,
        authorized_logon_sid: None,
        once: false,
        windows_service: false,
    };
    match read_config(nothing, all, 0) {
        Err(message) => Err(message),
        Ok(m) => if m.pipe is None {
            Err("--pipe <WinFS broker pipe> is required"@)
        } else if m.authorized_logon_sid is None {
            Err("--authorized-logon-sid <SID> is required"@)
        } else {
            Ok(m)
        },
    }
}

fn optional_argument(arguments: &Vec<String>, at: usize) -> (r: Option<String>)
    ensures
        optional_text(r) == value_at(texts(arguments@), at as int),
{
    if at < arguments.len() {
        Some(arguments[at].clone())
    } else {
        None
    }
}

/// Reads the command line of the broker.
pub fn parse_service_arguments(arguments: &Vec<String>) -> (r: Result<ServiceConfig, String>)
    ensures
        match r {
            Ok(config) => config_of(texts(arguments@)) == Ok::<ConfigModel, Seq<char>>(
                ConfigModel {
                    pipe: Some(config.pipe@),
                    authorized_logon_sid: Some(config.authorized_logon_sid@),
                    once: config.once,
                    windows_service: config.windows_service,
                },
            ),
            Err(message) => config_of(texts(arguments@)) == Err::<ConfigModel, Seq<char>>(message@),
        },
{
    let ghost all = texts(arguments@);
    let ghost nothing = ConfigModel {
        pipe: None,
        authorized_logon_sid: None,
        once: false,
        windows_service: false,
    };
    let mut pipe: Option<String> = None;
    let mut authorized_logon_sid: Option<String> = None;
    let mut once = false;
    let mut windows_service = false;
    let mut i: usize = 0;
    while i < arguments.len()
        invariant
            all == texts(arguments@),
            all.len() == arguments@.len(),
            nothing == (ConfigModel {
                pipe: None,
                authorized_logon_sid: None,
                once: false,
                windows_service: false,
            }),
            i <= arguments@.len(),
            read_config(
                ConfigModel {
                    pipe: optional_text(pipe),
                    authorized_logon_sid: optional_text(authorized_logon_sid),
                    once,
                    windows_service,
                },
                all,
                i as int,
            ) == read_config(nothing, all, 0),
        decreases arguments@.len() - i,
    {
        let argument = arguments[i].as_str();
        assert(all[i as int] == argument@);
        if same_text(argument, "--pipe") {
            pipe = optional_argument(arguments, i + 1);
            proof {
                let m = ConfigModel {
                    pipe: optional_text(pipe),
                    authorized_logon_sid: optional_text(authorized_logon_sid),
                    once,
                    windows_service,
                };
                assert(read_config(m, all, i + 2) == read_config(nothing, all, 0));
                assert(i + 1 >= all.len() ==> read_config(m, all, i + 1) == read_config(
                    m,
                    all,
                    i + 2,
                ));
            }
            i = if arguments.len() - i >= 2 {
                i + 2
            } else {
                i + 1
            };
        } else if same_text(argument, "--authorized-logon-sid") {
            authorized_logon_sid = optional_argument(arguments, i + 1);
            proof {
                let m = ConfigModel {
                    pipe: optional_text(pipe),
                    authorized_logon_sid: optional_text(authorized_logon_sid),
                    once,
                    windows_service,
                };
                assert(read_config(m, all, i + 2) == read_config(nothing, all, 0));
                assert(i + 1 >= all.len() ==> read_config(m, all, i + 1) == read_config(
                    m,
                    all,
                    i + 2,
                ));
            }
            i = if arguments.len() - i >= 2 {
                i + 2
            } else {
                i + 1
            };
        } else if same_text(argument, "--once") {
            once = true;
            i = i + 1;
        } else if same_text(argument, "--windows-service") {
            windows_service = true;
            i = i + 1;
        } else {
            let mut message = "unknown or incomplete argument: ".to_owned();
            message.append(argument);
            return Err(message);
        }
    }
    let pipe = match pipe {
        Some(value) => value,
        None => return Err("--pipe <WinFS broker pipe> is required".to_owned()),
    };
    let authorized_logon_sid = match authorized_logon_sid {
        Some(value) => value,
        None => return Err("--authorized-logon-sid <SID> is required".to_owned()),
    };
    Ok(ServiceConfig { pipe, authorized_logon_sid, once, windows_service })
}

/// What the command line of the adapter asks for: the default pipe, or one that is named.
pub open spec fn endpoint_of(all: Seq<Seq<char>>) -> Result<Option<Seq<char>>, Seq<char>> {
    if all.len() == 0 {
        Ok(None)
    } else if all[0] != "--pipe"@ {
        Err("usage: localsearch-mcp [--pipe <local-agent-pipe>]"@)
    } else if all.len() == 1 {
        Err("--pipe requires an endpoint name"@)
    } else if all.len() > 2 {
        Err("unexpected command-line argument"@)
    } else {
        Ok(Some(all[1]))
    }
}

/// Reads the command line of the adapter.
pub fn parse_adapter_arguments(arguments: &Vec<String>) -> (r: Result<
    Option<String>,
    &'static str,
>)
    ensures
        match r {
            Ok(pipe) => endpoint_of(texts(arguments@)) == Ok::<Option<Seq<char>>, Seq<char>>(
                optional_text(pipe),
            ),
            Err(message) => endpoint_of(texts(arguments@)) == Err::<
                Option<Seq<char>>,
                Seq<char>,
            >(message@),
        },
{
    let ghost all = texts(arguments@);
    if arguments.len() == 0 {
        return Ok(None);
    }
    assert(all[0] == arguments@[0]@);
    if !same_text(arguments[0].as_str(), "--pipe") {
        return Err("usage: localsearch-mcp [--pipe <local-agent-pipe>]");
    }
    if arguments.len() == 1 {
        return Err("--pipe requires an endpoint name");
    }
    if arguments.len() > 2 {
        return Err("unexpected command-line argument");
    }
    Ok(Some(arguments[1].clone()))
}

/// What the broker does after it served, or failed to.
#[derive(Debug)]
pub enum AfterServing {
    /// Serves again.
    Again,
    /// Stops.
    Stop,
    /// Stops with a failure.
    Fail(WindowsPipeError),
}

/// Decides what the broker does after it served, or failed to: one that serves only once stops
/// after it did; a client that came too late is no failure; nor is it one to be told to stop.
pub fn after_serving(result: Result<(), WindowsPipeError>, once: bool, stopping: bool) -> (r:
    AfterServing)
    ensures
        match result {
            Ok(()) => r == (if once {
                AfterServing::Stop
            } else {
                AfterServing::Again
            }),
            Err(WindowsPipeError::DeadlineExceeded) => r == AfterServing::Again,
            Err(WindowsPipeError::Cancelled) => r == (if stopping {
                AfterServing::Stop
            } else {
                AfterServing::Fail(WindowsPipeError::Cancelled)
            }),
            Err(error) => r == AfterServing::Fail(error),
        },
{
    match result {
        Ok(()) => {
            if once {
                AfterServing::Stop
            } else {
                AfterServing::Again
            }
        },
        Err(WindowsPipeError::DeadlineExceeded) => AfterServing::Again,
        Err(WindowsPipeError::Cancelled) => {
            if stopping {
                AfterServing::Stop
            } else {
                AfterServing::Fail(WindowsPipeError::Cancelled)
            }
        },
        Err(error) => AfterServing::Fail(error),
    }
}

proof fn lemma_options_differ()
    ensures
        "--pipe"@ != "--authorized-logon-sid"@,
        "--pipe"@ != "--once"@,
        "--pipe"@ != "--windows-service"@,
        "--authorized-logon-sid"@ != "--once"@,
        "--authorized-logon-sid"@ != "--windows-service"@,
        "--once"@ != "--windows-service"@,
{
    reveal_strlit("--pipe");
    reveal_strlit("--authorized-logon-sid");
    reveal_strlit("--once");
    reveal_strlit("--windows-service");
    assert("--pipe"@[2] == 'p' && "--once"@[2] == 'o');
    assert("--pipe"@.len() == 6 && "--authorized-logon-sid"@.len() == 22 && "--once"@.len() == 6
        && "--windows-service"@.len() == 17);
}

/// A command line that is complete is read up to its end before what is added.
proof fn lemma_read_on(m: ConfigModel, all: Seq<Seq<char>>, more: Seq<Seq<char>>, from: int)
    requires
        0 <= from <= all.len(),
        read_config(m, all, from) is Ok,
        read_config(m, all, from)->Ok_0.pipe is Some,
        read_config(m, all, from)->Ok_0.authorized_logon_sid is Some,
    ensures
        read_config(m, all + more, from) == read_config(
            read_config(m, all, from)->Ok_0,
            all + more,
            all.len() as int,
        ),
    decreases all.len() - from,
{
    if from < all.len() {
        lemma_options_differ();
        let whole = all + more;
        assert(whole[from] == all[from]);
        if all[from] == "--pipe"@ {
            let next = ConfigModel { pipe: value_at(all, from + 1), ..m };
            if from + 1 < all.len() {
                assert(whole[from + 1] == all[from + 1]);
                lemma_read_on(next, all, more, from + 2);
            } else {
                assert(read_config(next, all, from + 2) == Ok::<ConfigModel, Seq<char>>(next));
            }
        } else if all[from] == "--authorized-logon-sid"@ {
            let next = ConfigModel { authorized_logon_sid: value_at(all, from + 1), ..m };
            if from + 1 < all.len() {
                assert(whole[from + 1] == all[from + 1]);
                lemma_read_on(next, all, more, from + 2);
            } else {
                assert(read_config(next, all, from + 2) == Ok::<ConfigModel, Seq<char>>(next));
            }
        } else if all[from] == "--once"@ {
            lemma_read_on(ConfigModel { once: true, ..m }, all, more, from + 1);
        } else if all[from] == "--windows-service"@ {
            lemma_read_on(ConfigModel { windows_service: true, ..m }, all, more, from + 1);
        }
    }
}

/// Each option that is added to a command line changes what it stands for and nothing else; a
/// later value takes the place of an earlier one, and an unknown option is refused.
pub proof fn each_option_changes_its_own(
    all: Seq<Seq<char>>,
    value: Seq<char>,
    option: Seq<char>,
    m: ConfigModel,
)
    requires
        config_of(all) == Ok::<ConfigModel, Seq<char>>(m),
    ensures
        config_of(all + seq!["--pipe"@, value]) == Ok::<ConfigModel, Seq<char>>(
            ConfigModel { pipe: Some(value), ..m },
        ),
        config_of(all + seq!["--authorized-logon-sid"@, value]) == Ok::<ConfigModel, Seq<char>>(
            ConfigModel { authorized_logon_sid: Some(value), ..m },
        ),
        config_of(all + seq!["--once"@]) == Ok::<ConfigModel, Seq<char>>(
            ConfigModel { once: true, ..m },
        ),
        config_of(all + seq!["--windows-service"@]) == Ok::<ConfigModel, Seq<char>>(
            ConfigModel { windows_service: true, ..m },
        ),
        config_of(all + seq!["--pipe"@]) is Err,
        config_of(all + seq!["--authorized-logon-sid"@]) is Err,
        option != "--pipe"@ && option != "--authorized-logon-sid"@ && option != "--once"@ && option
            != "--windows-service"@ ==> config_of(all + seq![option]) == Err::<
            ConfigModel,
            Seq<char>,
        >("unknown or incomplete argument: "@ + option),
{
    lemma_options_differ();
    reveal_with_fuel(read_config, 3);
    let nothing = ConfigModel {
        pipe: None,
        authorized_logon_sid: None,
        once: false,
        windows_service: false,
    };
    let n = all.len() as int;
    lemma_read_on(nothing, all, seq!["--pipe"@, value], 0);
    assert((all + seq!["--pipe"@, value])[n] == "--pipe"@);
    assert((all + seq!["--pipe"@, value])[n + 1] == value);
    lemma_read_on(nothing, all, seq!["--authorized-logon-sid"@, value], 0);
    assert((all + seq!["--authorized-logon-sid"@, value])[n] == "--authorized-logon-sid"@);
    assert((all + seq!["--authorized-logon-sid"@, value])[n + 1] == value);
    lemma_read_on(nothing, all, seq!["--once"@], 0);
    assert((all + seq!["--once"@])[n] == "--once"@);
    lemma_read_on(nothing, all, seq!["--windows-service"@], 0);
    assert((all + seq!["--windows-service"@])[n] == "--windows-service"@);
    lemma_read_on(nothing, all, seq!["--pipe"@], 0);
    assert((all + seq!["--pipe"@])[n] == "--pipe"@);
    lemma_read_on(nothing, all, seq!["--authorized-logon-sid"@], 0);
    assert((all + seq!["--authorized-logon-sid"@])[n] == "--authorized-logon-sid"@);
    lemma_read_on(nothing, all, seq![option], 0);
    assert((all + seq![option])[n] == option);
}

/// The pipe and who may use it are taken from their options, in either order; nothing else is
/// asked for unless it is said.
pub proof fn pipes_and_users_are_named(pipe: Seq<char>, sid: Seq<char>)
    ensures
        ({
            let config = Ok::<ConfigModel, Seq<char>>(
                ConfigModel {
                    pipe: Some(pipe),
                    authorized_logon_sid: Some(sid),
                    once: false,
                    windows_service: false,
                },
            );
            &&& config_of(seq!["--pipe"@, pipe, "--authorized-logon-sid"@, sid]) == config
            &&& config_of(seq!["--authorized-logon-sid"@, sid, "--pipe"@, pipe]) == config
        }),
        config_of(seq!["--pipe"@, pipe]) is Err,
        config_of(seq!["--authorized-logon-sid"@, sid]) is Err,
        endpoint_of(seq!["--pipe"@, pipe]) == Ok::<Option<Seq<char>>, Seq<char>>(Some(pipe)),
        endpoint_of(Seq::empty()) == Ok::<Option<Seq<char>>, Seq<char>>(None),
        forall|all: Seq<Seq<char>>|
            all.len() > 0 && #[trigger] endpoint_of(all) is Ok ==> all == seq![
                "--pipe"@,
                endpoint_of(all)->Ok_0->0,
            ],
{
    lemma_options_differ();
    reveal_with_fuel(read_config, 4);
    assert forall|all: Seq<Seq<char>>|
        all.len() > 0 && #[trigger] endpoint_of(all) is Ok implies all == seq![
        "--pipe"@,
        endpoint_of(all)->Ok_0->0,
    ] by {
        assert(all =~= seq!["--pipe"@, all[1]]);
    }
}

} // verus!
