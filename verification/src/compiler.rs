//! The compiler service: one compilation at a time.

use crate::scan::{contains_text, law_parts_are_found};
use crate::messages::{CompileRequest, CompileResult};
use crate::paths::{join, joined};
use crate::split::texts;
use crate::version::{opt_text, sentence};
use vstd::prelude::*;
use vstd::string::*;

verus! {

/// The content of a `CompileResult`.
pub ghost struct Compiled {
    pub version: Seq<char>,
    pub success: bool,
    pub binary_path: Option<Seq<char>>,
    pub errors: Option<Seq<char>>,
}

impl View for CompileResult {
    type V = Compiled;

    open spec fn view(&self) -> Compiled {
        Compiled {
            version: self.version@,
            success: self.success,
            binary_path: opt_text(self.binary_path),
            errors: opt_text(self.errors),
        }
    }
}

/// A compilation that failed.
pub open spec fn failed(version: Seq<char>, errors: Seq<char>) -> Compiled {
    Compiled { version, success: false, binary_path: None, errors: Some(errors) }
}

fn failure(version: &str, errors: String) -> (r: CompileResult)
    ensures
        r@ == failed(version@, errors@),
{
    CompileResult {
        version: version.to_owned(),
        success: false,
        binary_path: None,
        errors: Some(errors),
    }
}

/// Whether the service is compiling.
pub struct CompilerState {
    compiling: bool,
}

impl View for CompilerState {
    type V = bool;

    closed spec fn view(&self) -> bool {
        self.compiling
    }
}

impl CompilerState {
    pub fn new() -> (s: CompilerState)
        ensures
            !s@,
    {
        CompilerState { compiling: false }
    }

    /// Takes in a request for a version: nothing where it can be begun, or the
    /// answer that the compiler is busy.
    pub fn begin(&mut self, version: &str) -> (busy: Option<CompileResult>)
        ensures
            final(self)@,
            busy is Some <==> old(self)@,
            busy is Some ==> busy->Some_0@ == failed(
                version@,
                "Compiler busy — compilation already in progress"@,
            ),
    {
        if self.compiling {
            return Some(
                failure(
                    version,
                    "Compiler busy — compilation already in progress".to_owned(),
                ),
            );
        }
        self.compiling = true;
        None
    }

    /// Takes in that a compilation is over.
    pub fn finished(&mut self)
        ensures
            !final(self)@,
    {
        self.compiling = false;
    }
}

/// How a compilation went.
pub enum Compilation {
    /// The directory of the source does not exist.
    NoSource,
    /// The build tool could not be run, and why.
    NotRun(String),
    /// The build tool failed, with what it wrote.
    Failed(String),
    Succeeded,
}

/// The binary that a build leaves below its target directory.
pub open spec fn built_binary(output_path: Seq<char>) -> Seq<char> {
    joined(joined(output_path, "release"@), "reloopy-peripheral"@)
}

/// The result of a compilation.
pub open spec fn compiled(
    version: Seq<char>,
    source_path: Seq<char>,
    output_path: Seq<char>,
    c: Compilation,
) -> Compiled {
    match c {
        Compilation::NoSource => failed(version, "Source path does not exist: "@ + source_path),
        Compilation::NotRun(e) => failed(version, "Failed to invoke cargo: "@ + e@),
        Compilation::Failed(e) => failed(version, e@),
        Compilation::Succeeded => Compiled {
            version,
            success: true,
            binary_path: Some(built_binary(output_path)),
            errors: None,
        },
    }
}

/// The result of a request, given how the compilation went or why the request
/// could not be read.
pub fn compile_result(request: Result<&CompileRequest, &str>, c: Compilation) -> (r: CompileResult)
    ensures
        (match request {
            Ok(q) => r@ == compiled(q.version@, q.source_path@, q.output_path@, c),
            Err(e) => r@ == failed(Seq::empty(), "Invalid CompileRequest payload: "@ + e@),
        }),
{
    let q = match request {
        Ok(q) => q,
        Err(e) => {
            let none = String::new();
            return failure(none.as_str(), sentence("Invalid CompileRequest payload: ", e));
        },
    };
    let version = q.version.as_str();
    match c {
        Compilation::NoSource => failure(
            version,
            sentence("Source path does not exist: ", q.source_path.as_str()),
        ),
        Compilation::NotRun(e) => failure(version, sentence("Failed to invoke cargo: ", e.as_str())),
        Compilation::Failed(e) => failure(version, e),
        Compilation::Succeeded => {
            let binary = join(
                join(q.output_path.as_str(), "release").as_str(),
                "reloopy-peripheral",
            );
            CompileResult {
                version: version.to_owned(),
                success: true,
                binary_path: Some(binary),
                errors: None,
            }
        },
    }
}

/// The arguments of the build tool.
pub fn build_arguments(output_path: &str) -> (r: Vec<String>)
    ensures
        texts(r@) == seq![
            "build"@,
            "--release"@,
            "-p"@,
            "reloopy-peripheral"@,
            "--target-dir"@,
            output_path@,
        ],
{
    let mut r: Vec<String> = Vec::new();
    r.push("build".to_owned());
    r.push("--release".to_owned());
    r.push("-p".to_owned());
    r.push("reloopy-peripheral".to_owned());
    r.push("--target-dir".to_owned());
    r.push(output_path.to_owned());
    assert(texts(r@) =~= seq![
        "build"@,
        "--release"@,
        "-p"@,
        "reloopy-peripheral"@,
        "--target-dir"@,
        output_path@,
    ]);
    r
}

/// A result names a binary exactly when the compilation succeeded, and errors
/// exactly when it did not.
pub proof fn law_result_is_consistent(
    version: Seq<char>,
    source_path: Seq<char>,
    output_path: Seq<char>,
    c: Compilation,
)
    ensures
        compiled(version, source_path, output_path, c).success <==> c is Succeeded,
        compiled(version, source_path, output_path, c).binary_path is Some <==> c is Succeeded,
        compiled(version, source_path, output_path, c).errors is None <==> c is Succeeded,
        compiled(version, source_path, output_path, c).version == version,
{
}

/// A compilation that succeeded names the binary that it left; one that failed
/// says what is missing, why the build tool could not be run, or what it wrote.
pub proof fn law_results_say_what_came_out(
    version: Seq<char>,
    source_path: Seq<char>,
    output_path: Seq<char>,
    c: Compilation,
)
    ensures
        c is Succeeded ==> compiled(version, source_path, output_path, c).binary_path == Some(
            joined(joined(output_path, "release"@), "reloopy-peripheral"@),
        ),
        c is NoSource ==> contains_text(
            compiled(version, source_path, output_path, c).errors->0,
            source_path,
        ),
        c is NotRun ==> contains_text(
            compiled(version, source_path, output_path, c).errors->0,
            c->NotRun_0@,
        ),
        c is Failed ==> compiled(version, source_path, output_path, c).errors == Some(
            c->Failed_0@,
        ),
{
    let e = compiled(version, source_path, output_path, c).errors->0;
    if c is NoSource {
        let head = "Source path does not exist: "@;
        assert(e =~= head + source_path + Seq::<char>::empty());
        law_parts_are_found(head, source_path, Seq::empty(), e);
    } else if c is NotRun {
        let head = "Failed to invoke cargo: "@;
        assert(e =~= head + c->NotRun_0@ + Seq::<char>::empty());
        law_parts_are_found(head, c->NotRun_0@, Seq::empty(), e);
    }
}

/// A request is answered for its own version and paths; one that could not be
/// read is answered with the reason.
pub proof fn law_requests_are_answered_for_their_version(
    q: CompileRequest,
    e: &str,
    c: Compilation,
    read: CompileResult,
    unread: CompileResult,
)
    requires
        call_ensures(compile_result, (Ok(&q), c), read),
        call_ensures(compile_result, (Err(e), c), unread),
    ensures
        read@.version == q.version@,
        read@.success <==> c is Succeeded,
        c is Succeeded ==> read@.binary_path == Some(built_binary(q.output_path@)),
        !unread@.success,
        unread@.errors is Some,
        contains_text(unread@.errors->0, e@),
{
    let head = "Invalid CompileRequest payload: "@;
    assert(unread@.errors->0 =~= head + e@ + Seq::<char>::empty());
    law_parts_are_found(head, e@, Seq::empty(), unread@.errors->0);
}

/// The build tool is told to build the peripheral for release into the given
/// directory.
pub proof fn law_builds_go_to_the_given_directory(output: &str, r: Vec<String>)
    requires
        call_ensures(build_arguments, (output,), r),
    ensures
        r@.len() == 6,
        r@[0]@ == "build"@,
        r@[4]@ == "--target-dir"@,
        r@[5]@ == output@,
        r@[2]@ == "-p"@ && r@[3]@ == "reloopy-peripheral"@,
        r@[1]@ == "--release"@,
{
    let t = texts(r@);
    assert(t.len() == 6);
    assert(t[0] == r@[0]@ && t[1] == r@[1]@ && t[2] == r@[2]@);
    assert(t[3] == r@[3]@ && t[4] == r@[4]@ && t[5] == r@[5]@);
}

} // verus!
