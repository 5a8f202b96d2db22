//! Rehearsals of the agent with a scripted model.

use crate::scan::{contains_text, law_parts_are_found};
use crate::deepseek::{calls, Call, ChatMessage, FunctionCall, Message, ToolCall};
use crate::scripted_llm::messages;
use crate::split::texts;
use crate::text::str_eq;
use crate::version::opt_text;
use vstd::prelude::*;
use vstd::string::*;

verus! {

/// The two turns of the default scenario: a tool call, then a closing word.
pub open spec fn default_script() -> Seq<Message> {
    seq![
        Message {
            role: "assistant"@,
            content: None,
            tool_calls: Some(
                seq![
                    Call {
                        id: "tc-1"@,
                        type_: "function"@,
                        name: "list_source_files"@,
                        arguments: "{\"path\":\"src\"}"@,
                    },
                ],
            ),
            tool_call_id: None,
        },
        Message {
            role: "assistant"@,
            content: Some("I reviewed the source files. Everything looks fine."@),
            tool_calls: None,
            tool_call_id: None,
        },
    ]
}

/// The scenario to rehearse: a loaded one, or the default.
pub fn load_scenario(loaded: Option<Vec<ChatMessage>>) -> (v: Vec<ChatMessage>)
    ensures
        loaded is Some ==> v == loaded->Some_0,
        loaded is None ==> messages(v@) == default_script(),
{
    match loaded {
        Some(v) => v,
        None => {
            let mut c: Vec<ToolCall> = Vec::new();
            c.push(
                ToolCall {
                    id: "tc-1".to_owned(),
                    type_: "function".to_owned(),
                    function: FunctionCall {
                        name: "list_source_files".to_owned(),
                        arguments: "{\"path\":\"src\"}".to_owned(),
                    },
                },
            );
            assert(calls(c@) =~= default_script()[0].tool_calls->Some_0);
            let mut v: Vec<ChatMessage> = Vec::new();
            v.push(
                ChatMessage {
                    role: "assistant".to_owned(),
                    content: None,
                    tool_calls: Some(c),
                    tool_call_id: None,
                },
            );
            v.push(
                ChatMessage {
                    role: "assistant".to_owned(),
                    content: Some(
                        "I reviewed the source files. Everything looks fine.".to_owned(),
                    ),
                    tool_calls: None,
                    tool_call_id: None,
                },
            );
            assert(messages(v@) =~= default_script());
            v
        },
    }
}

/// What a rehearsal is asked for on the command line.
pub struct Args {
    pub scenario_path: Option<String>,
    pub user_input: String,
    pub workspace: Option<String>,
}

/// The content of `Args`.
pub ghost struct Asked {
    pub scenario: Option<Seq<char>>,
    pub input: Seq<char>,
    pub workspace: Option<Seq<char>>,
}

impl View for Args {
    type V = Asked;

    open spec fn view(&self) -> Asked {
        Asked {
            scenario: opt_text(self.scenario_path),
            input: self.user_input@,
            workspace: opt_text(self.workspace),
        }
    }
}

/// What is said of an argument that is not known.
pub open spec fn unknown_argument(arg: Seq<char>) -> Seq<char> {
    "Unknown argument: "@ + arg
        + ". Valid options: --scenario <path>, --input <text>, --workspace <path>"@
}

/// What is asked for from the `i`-th argument on, or what is said of the first
/// argument that is not known. An option at the end has no value.
pub open spec fn asked_from(args: Seq<Seq<char>>, i: int, a: Asked) -> Result<Asked, Seq<char>>
    decreases args.len() + 2 - i,
{
    if i < 0 || i >= args.len() {
        Ok(a)
    } else {
        let value = if i + 1 < args.len() {
            Some(args[i + 1])
        } else {
            None
        };
        if args[i] == "--scenario"@ {
            asked_from(args, i + 2, Asked { scenario: value, ..a })
        } else if args[i] == "--input"@ {
            asked_from(
                args,
                i + 2,
                Asked {
                    input: match value {
                        Some(v) => v,
                        None => a.input,
                    },
                    ..a
                },
            )
        } else if args[i] == "--workspace"@ {
            asked_from(args, i + 2, Asked { workspace: value, ..a })
        } else {
            Err(unknown_argument(args[i]))
        }
    }
}

/// What is asked for without any arguments.
pub open spec fn asked_by_default() -> Asked {
    Asked {
        scenario: None,
        input: "Please read the source files and give me a summary."@,
        workspace: None,
    }
}

/// Reads the command line; the error names the first argument that is not known.
pub fn parse_args(args: &Vec<String>) -> (r: Result<Args, String>)
    ensures
        (match asked_from(texts(args@), 0, asked_by_default()) {
            Ok(a) => r is Ok && r->Ok_0@ == a,
            Err(e) => r is Err && r->Err_0@ == e,
        }),
{
    let ghost t = texts(args@);
    let mut a = Args {
        scenario_path: None,
        user_input: "Please read the source files and give me a summary.".to_owned(),
        workspace: None,
    };
    let mut i: usize = 0;
    while i < args.len()
        invariant
            i <= args@.len() + 1,
            t == texts(args@),
            asked_from(t, i as int, a@) == asked_from(t, 0, asked_by_default()),
        decreases args@.len() + 1 - i,
    {
        assert(t[i as int] == args@[i as int]@);
        let n: usize = args.len();
        let value = if i < n - 1 {
            assert(t[i + 1] == args@[i + 1]@);
            Some(args[i + 1].clone())
        } else {
            None
        };
        let arg = args[i].as_str();
        if str_eq(arg, "--scenario") {
            a.scenario_path = value;
        } else if str_eq(arg, "--input") {
            match value {
                Some(v) => {
                    a.user_input = v;
                },
                None => {},
            }
        } else if str_eq(arg, "--workspace") {
            a.workspace = value;
        } else {
            let mut m = "Unknown argument: ".to_owned();
            m.append(arg);
            m.append(". Valid options: --scenario <path>, --input <text>, --workspace <path>");
            return Err(m);
        }
        if i == n - 1 {
            assert(asked_from(t, i + 2, a@) == Ok::<Asked, Seq<char>>(a@));
            return Ok(a);
        }
        i += 2;
    }
    Ok(a)
}

/// Each option takes the argument behind it as its value and leaves the others
/// alone; what is no option is named in the refusal.
pub proof fn law_options_take_the_next_argument(args: Seq<Seq<char>>, i: int, a: Asked)
    requires
        0 <= i < args.len(),
    ensures
        i + 1 < args.len() && args[i] == "--scenario"@ ==> asked_from(args, i, a) == asked_from(
            args,
            i + 2,
            (Asked { scenario: Some(args[i + 1]), input: a.input, workspace: a.workspace }),
        ),
        i + 1 < args.len() && args[i] == "--input"@ ==> asked_from(args, i, a) == asked_from(
            args,
            i + 2,
            (Asked { scenario: a.scenario, input: args[i + 1], workspace: a.workspace }),
        ),
        i + 1 < args.len() && args[i] == "--workspace"@ ==> asked_from(args, i, a) == asked_from(
            args,
            i + 2,
            (Asked { scenario: a.scenario, input: a.input, workspace: Some(args[i + 1]) }),
        ),
        args[i] != "--scenario"@ && args[i] != "--input"@ && args[i] != "--workspace"@
            ==> asked_from(args, i, a) is Err && contains_text(
            asked_from(args, i, a)->Err_0,
            args[i],
        ),
        asked_from(args, args.len() as int, a) == Ok::<Asked, Seq<char>>(a),
{
    reveal_strlit("--scenario");
    reveal_strlit("--input");
    reveal_strlit("--workspace");
    assert("--scenario"@.len() == 10);
    assert("--input"@.len() == 7);
    assert("--workspace"@.len() == 11);
    let end = ". Valid options: --scenario <path>, --input <text>, --workspace <path>"@;
    law_parts_are_found("Unknown argument: "@, args[i], end, unknown_argument(args[i]));
}

/// Without arguments the default scenario is rehearsed with the default request:
/// it lists the source files and then says that it is done.
pub proof fn law_defaults_of_a_rehearsal()
    ensures
        asked_by_default().scenario is None,
        asked_by_default().workspace is None,
        asked_by_default().input == "Please read the source files and give me a summary."@,
        default_script().len() == 2,
        default_script()[0].tool_calls is Some,
        default_script()[0].tool_calls->0.len() == 1,
        default_script()[0].tool_calls->0[0].name == "list_source_files"@,
        default_script()[0].tool_calls->0[0].arguments == "{\"path\":\"src\"}"@,
        default_script()[1].tool_calls is None,
        default_script()[1].content == Some(
            "I reviewed the source files. Everything looks fine."@,
        ),
{
}

} // verus!
