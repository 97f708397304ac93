//! What the compiler service answers, and the one outcome type that every answer is brought to.

use vstd::prelude::*;
use crate::output::{join_lines, GodboltOutput};
use crate::text::str_eq;

verus! {

/// The outcome of a compilation or of a run.
#[derive(Debug, Clone)]
pub enum Compilation {
    Success { assembly: String, stdout: String, stderr: String, llvm_mca: Option<String> },
    Error { stderr: String },
}

/// What a `Compilation` holds, as plain texts.
pub enum CompilationView {
    Success { assembly: Seq<char>, stdout: Seq<char>, stderr: Seq<char>, llvm_mca: Option<Seq<char>> },
    Error { stderr: Seq<char> },
}

impl View for Compilation {
    type V = CompilationView;

    open spec fn view(&self) -> CompilationView {
        match self {
            Compilation::Success { assembly, stdout, stderr, llvm_mca } => CompilationView::Success {
                assembly: assembly@,
                stdout: stdout@,
                stderr: stderr@,
                llvm_mca: match llvm_mca {
                    Some(report) => Some(report@),
                    None => None,
                },
            },
            Compilation::Error { stderr } => CompilationView::Error { stderr: stderr@ },
        }
    }
}

/// What one auxiliary tool printed.
#[derive(Debug, Clone)]
pub struct GodboltTool {
    pub id: String,
    pub stdout: GodboltOutput,
}

/// The answer to a request for assembly, intermediate representation or analysis.
#[derive(Debug, Clone)]
pub struct GodboltResponse {
    pub code: i8,
    pub stderr: GodboltOutput,
    pub assembly: GodboltOutput,
    pub tools: Vec<GodboltTool>,
}

/// What the build of a program printed, inside the answer to a request to run it.
#[derive(Debug, Clone)]
pub struct GodboltBuildResult {
    pub stderr: GodboltOutput,
}

/// The answer to a request to compile and run a program.
#[derive(Debug, Clone)]
pub struct GodboltRunResponse {
    pub code: i8,
    pub stdout: GodboltOutput,
    pub stderr: GodboltOutput,
    pub build_result: GodboltBuildResult,
}

/// The identifier of the performance-analysis tool.
pub open spec fn llvm_mca_tool_id() -> Seq<char> {
    "llvm-mcatrunk"@
}

/// The identifiers of the tools, in order.
pub open spec fn tool_ids(tools: Seq<GodboltTool>) -> Seq<Seq<char>> {
    tools.map_values(|tool: GodboltTool| tool.id@)
}

/// What the performance-analysis tool printed: the output of the first tool with its
/// identifier, if there is one.
pub open spec fn llvm_mca_output(tools: Seq<GodboltTool>) -> Option<Seq<char>> {
    match tool_ids(tools).index_of_first(llvm_mca_tool_id()) {
        Some(i) => Some(join_lines(tools[i].stdout.texts())),
        None => None,
    }
}

/// The outcome that an answer to a compile request stands for: success with the assembly, the
/// diagnostics and the analysis where the status is zero, else failure with the diagnostics.
pub open spec fn compile_outcome_view(response: GodboltResponse) -> CompilationView {
    if response.code == 0 {
        CompilationView::Success {
            assembly: join_lines(response.assembly.texts()),
            stdout: Seq::empty(),
            stderr: join_lines(response.stderr.texts()),
            llvm_mca: llvm_mca_output(response.tools@),
        }
    } else {
        CompilationView::Error { stderr: join_lines(response.stderr.texts()) }
    }
}

/// The outcome that an answer to a run request stands for: success with what the program
/// printed where the status is zero, else failure with what the build printed.
pub open spec fn run_outcome_view(response: GodboltRunResponse) -> CompilationView {
    if response.code == 0 {
        CompilationView::Success {
            assembly: Seq::empty(),
            stdout: join_lines(response.stdout.texts()),
            stderr: join_lines(response.stderr.texts()),
            llvm_mca: None,
        }
    } else {
        CompilationView::Error { stderr: join_lines(response.build_result.stderr.texts()) }
    }
}

/// The identifier of the performance-analysis tool.
pub fn llvm_mca_tool() -> (r: &'static str)
    ensures
        r@ == llvm_mca_tool_id(),
{
    "llvm-mcatrunk"
}

/// What the performance-analysis tool printed, if it is among the tools.
pub fn find_llvm_mca(tools: &Vec<GodboltTool>) -> (r: Option<String>)
    ensures
        match r {
            Some(report) => llvm_mca_output(tools@) == Some(report@),
            None => llvm_mca_output(tools@) is None,
        },
{
    let ghost ids = tool_ids(tools@);
    let mut i: usize = 0;
    while i < tools.len()
        invariant
            i <= tools.len(),
            ids == tool_ids(tools@),
            forall|j: int| 0 <= j < i ==> ids[j] != llvm_mca_tool_id(),
        decreases tools.len() - i,
    {
        assert(ids[i as int] == tools@[i as int].id@);
        if str_eq(tools[i].id.as_str(), llvm_mca_tool()) {
            proof {
                ids.index_of_first_ensures(llvm_mca_tool_id());
            }
            return Some(tools[i].stdout.concatenate());
        }
        i += 1;
    }
    proof {
        ids.index_of_first_ensures(llvm_mca_tool_id());
    }
    None
}

/// The outcome that an answer to a compile request stands for.
pub fn compile_outcome(response: &GodboltResponse) -> (r: Compilation)
    ensures
        r@ == compile_outcome_view(*response),
{
    if response.code == 0 {
        Compilation::Success {
            assembly: response.assembly.concatenate(),
            stderr: response.stderr.concatenate(),
            stdout: String::new(),
            llvm_mca: find_llvm_mca(&response.tools),
        }
    } else {
        Compilation::Error { stderr: response.stderr.concatenate() }
    }
}

/// The outcome that an answer to a run request stands for.
pub fn run_outcome(response: &GodboltRunResponse) -> (r: Compilation)
    ensures
        r@ == run_outcome_view(*response),
{
    if response.code == 0 {
        Compilation::Success {
            stdout: response.stdout.concatenate(),
            stderr: response.stderr.concatenate(),
            assembly: String::new(),
            llvm_mca: None,
        }
    } else {
        Compilation::Error { stderr: response.build_result.stderr.concatenate() }
    }
}

/// A status of zero is a success and any other status a failure, for both kinds of answer.
pub proof fn lemma_status_decides(compiled: GodboltResponse, ran: GodboltRunResponse)
    ensures
        compile_outcome_view(compiled) is Success <==> compiled.code == 0,
        run_outcome_view(ran) is Success <==> ran.code == 0,
        ran.code != 0 ==> run_outcome_view(ran) == (CompilationView::Error {
            stderr: join_lines(ran.build_result.stderr.texts()),
        }),
{
}

} // verus!
