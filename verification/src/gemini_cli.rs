//! One request to the external model command: its description, the script
//! that runs it, and the reading of what it printed.

use vstd::prelude::*;
use vstd::string::StringExecFns;
use crate::error::AppError;
use crate::text::{
    decimal, decimal_text, int_text, join, join_spec, lines, replace, replace_all, select_unmarked,
    signed_decimal, split_lines, strs, trim, trimmed_of, unmarked_lines,
};

verus! {

/// One invocation of the model command.
pub struct GeminiRequest<'a> {
    pub prompt: &'a str,
    pub model: &'a str,
    pub files: Option<&'a [String]>,
    pub output_format: &'a str,
}

impl<'a> GeminiRequest<'a> {
    /// A request for plain text, without files.
    pub fn text(prompt: &'a str, model: &'a str) -> (r: Self)
        ensures
            r.prompt@ == prompt@,
            r.model@ == model@,
            r.files is None,
            r.output_format@ == "text"@,
    {
        GeminiRequest { prompt, model, files: None, output_format: "text" }
    }

    /// A request for plain text about the given files.
    pub fn text_with_files(prompt: &'a str, model: &'a str, files: &'a [String]) -> (r: Self)
        ensures
            r.prompt@ == prompt@,
            r.model@ == model@,
            r.files == Some(files),
            r.output_format@ == "text"@,
    {
        GeminiRequest { prompt, model, files: Some(files), output_format: "text" }
    }

    /// A request for JSON, without files.
    pub fn json(prompt: &'a str, model: &'a str) -> (r: Self)
        ensures
            r.prompt@ == prompt@,
            r.model@ == model@,
            r.files is None,
            r.output_format@ == "json"@,
    {
        GeminiRequest { prompt, model, files: None, output_format: "json" }
    }
}

/// The request that a prompt, a model and an optional file list make.
pub fn request_for<'a>(prompt: &'a str, model: &'a str, pdfs: Option<&'a [String]>) -> (r:
    GeminiRequest<'a>)
    ensures
        r.prompt@ == prompt@,
        r.model@ == model@,
        r.files == pdfs,
        r.output_format@ == "text"@,
{
    match pdfs {
        Some(files) => GeminiRequest::text_with_files(prompt, model, files),
        None => GeminiRequest::text(prompt, model),
    }
}

/// The command that starts the model: the package manager's copy below the
/// application-data directory, or the bare command name without one.
pub fn gemini_command(appdata: Option<&str>) -> (r: String)
    ensures
        r@ == match appdata {
            Some(dir) => dir@ + "\\npm\\gemini.cmd"@,
            None => "gemini"@,
        },
{
    match appdata {
        Some(dir) => {
            let mut out = String::from_str(dir);
            out.append("\\npm\\gemini.cmd");
            out
        },
        None => String::from_str("gemini"),
    }
}

/// A string inside single quotes of the script, each quote in it doubled.
pub open spec fn quoted(s: Seq<char>) -> Seq<char> {
    "'"@ + replace_all(s, "'"@, "''"@) + "'"@
}

/// The script's array lines, one quoted file name each.
pub open spec fn file_lines(files: Seq<Seq<char>>) -> Seq<Seq<char>> {
    Seq::new(files.len(), |i: int| "    "@ + quoted(files[i]))
}

/// The first line of every script.
pub open spec fn script_head() -> Seq<char> {
    "$OutputEncoding = [Console]::OutputEncoding = [Text.Encoding]::UTF8\n"@
}

/// The script line that pipes the prompt file into the model command.
pub open spec fn pipe_line(
    gemini_path: Seq<char>,
    model: Seq<char>,
    output_format: Seq<char>,
) -> Seq<char> {
    "Get-Content -Raw -Encoding UTF8 'prompt.txt' | & "@ + quoted(gemini_path) + " -m "@ + model
        + " -o "@ + output_format
}

/// The script that runs one request: the prompt goes in by standard input,
/// the files, if any, as an array of quoted names.
pub open spec fn ps_script(
    gemini_path: Seq<char>,
    model: Seq<char>,
    output_format: Seq<char>,
    files: Option<Seq<Seq<char>>>,
) -> Seq<char> {
    match files {
        Some(f) => script_head() + "$files = @(\n"@ + join_spec(file_lines(f), ",\n"@) + "\n)\n"@
            + pipe_line(gemini_path, model, output_format) + " $files\n"@,
        None => script_head() + pipe_line(gemini_path, model, output_format) + "\n"@,
    }
}

/// The file names of a request, as character sequences.
pub open spec fn request_files(request: GeminiRequest<'_>) -> Option<Seq<Seq<char>>> {
    match request.files {
        Some(f) => Some(strs(f@)),
        None => None,
    }
}

fn quote(s: &str) -> (r: String)
    ensures
        r@ == quoted(s@),
{
    proof {
        reveal_strlit("'");
    }
    let mut out = String::from_str("'");
    let inner = replace(s, "'", "''");
    out.append(inner.as_str());
    out.append("'");
    out
}

fn pipe_line_text(gemini_path: &str, model: &str, output_format: &str) -> (r: String)
    ensures
        r@ == pipe_line(gemini_path@, model@, output_format@),
{
    let mut out = String::from_str("Get-Content -Raw -Encoding UTF8 'prompt.txt' | & ");
    let path = quote(gemini_path);
    out.append(path.as_str());
    out.append(" -m ");
    out.append(model);
    out.append(" -o ");
    out.append(output_format);
    out
}

/// The script that runs one request.
pub fn build_ps_script(gemini_path: &str, request: &GeminiRequest<'_>) -> (r: String)
    ensures
        r@ == ps_script(
            gemini_path@,
            request.model@,
            request.output_format@,
            request_files(*request),
        ),
{
    let mut out = String::from_str(
        "$OutputEncoding = [Console]::OutputEncoding = [Text.Encoding]::UTF8\n",
    );
    let pipe = pipe_line_text(gemini_path, request.model, request.output_format);
    match request.files {
        Some(files) => {
            let mut quoted_lines: Vec<String> = Vec::new();
            let mut i: usize = 0;
            while i < files.len()
                invariant
                    i <= files@.len(),
                    strs(quoted_lines@) == file_lines(strs(files@)).take(i as int),
                decreases files@.len() - i,
            {
                let mut line = String::from_str("    ");
                let name = quote(files[i].as_str());
                line.append(name.as_str());
                let ghost prev = strs(quoted_lines@);
                quoted_lines.push(line);
                proof {
                    assert(strs(quoted_lines@) =~= prev.push("    "@ + quoted(files@[i as int]@)));
                    assert(strs(quoted_lines@) =~= file_lines(strs(files@)).take(i + 1));
                }
                i += 1;
            }
            proof {
                assert(file_lines(strs(files@)).take(i as int) =~= file_lines(strs(files@)));
            }
            let array = join(&quoted_lines, ",\n");
            out.append("$files = @(\n");
            out.append(array.as_str());
            out.append("\n)\n");
            out.append(pipe.as_str());
            out.append(" $files\n");
        },
        None => {
            out.append(pipe.as_str());
            out.append("\n");
        },
    }
    out
}

/// The notices that the model command prints besides its answer.
pub open spec fn noise_markers_spec() -> Seq<Seq<char>> {
    seq!["Loaded cached credentials"@, "Hook registry initialized"@]
}

/// The notices that the model command prints besides its answer.
pub fn noise_markers() -> (r: Vec<String>)
    ensures
        strs(r@) == noise_markers_spec(),
{
    let mut r: Vec<String> = Vec::new();
    r.push(String::from_str("Loaded cached credentials"));
    r.push(String::from_str("Hook registry initialized"));
    proof {
        assert(strs(r@) =~= noise_markers_spec());
    }
    r
}

/// The output without the lines that hold a known notice; the other lines
/// keep their order and their inner white space.
pub open spec fn cleaned(output: Seq<char>) -> Seq<char> {
    join_spec(unmarked_lines(split_lines(output), noise_markers_spec()), "\n"@)
}

/// Removes the known notice lines from what the model command printed.
pub fn clean_gemini_output(output: &str) -> (r: String)
    ensures
        r@ == cleaned(output@),
{
    let all = lines(output);
    let noise = noise_markers();
    let kept = select_unmarked(&all, &noise);
    join(&kept, "\n")
}

/// The text of a scratch directory's suffix.
pub open spec fn suffix_text(millis: nat, counter: nat) -> Seq<char> {
    decimal_text(millis) + "-"@ + decimal_text(counter)
}

/// Two suffixes are equal only if they were made from the same time and
/// the same count: a count that only grows never gives a suffix twice.
pub proof fn lemma_suffix_unique(millis1: nat, counter1: nat, millis2: nat, counter2: nat)
    requires
        suffix_text(millis1, counter1) == suffix_text(millis2, counter2),
    ensures
        millis1 == millis2,
        counter1 == counter2,
{
    reveal_strlit("-");
    let dash = "-"@;
    let a = decimal_text(millis1);
    let b = decimal_text(millis2);
    let c = decimal_text(counter1);
    let d = decimal_text(counter2);
    crate::text::lemma_decimal_digits(millis1);
    crate::text::lemma_decimal_digits(millis2);
    crate::text::lemma_decimal_digits(counter1);
    crate::text::lemma_decimal_digits(counter2);
    let s1 = suffix_text(millis1, counter1);
    let s2 = suffix_text(millis2, counter2);
    assert(dash.len() == 1 && dash[0] == '-');
    assert(s1.len() == a.len() + 1 + c.len());
    assert(s2.len() == b.len() + 1 + d.len());
    assert(s1[a.len() as int] == '-');
    assert(s2[b.len() as int] == '-');
    if a.len() < b.len() {
        assert(s2[a.len() as int] == b[a.len() as int]);
        assert(false);
    }
    if b.len() < a.len() {
        assert(s1[b.len() as int] == a[b.len() as int]);
        assert(false);
    }
    assert(a =~= b) by {
        assert forall|i: int| 0 <= i < a.len() implies a[i] == b[i] by {
            assert(s1[i] == a[i]);
            assert(s2[i] == b[i]);
        }
    }
    assert(c =~= d) by {
        assert(c.len() == d.len());
        assert forall|i: int| 0 <= i < c.len() implies c[i] == d[i] by {
            assert(s1[a.len() + 1 + i] == c[i]);
            assert(s2[b.len() + 1 + i] == d[i]);
        }
    }
    crate::text::lemma_decimal_injective(millis1, millis2);
    crate::text::lemma_decimal_injective(counter1, counter2);
}

/// The suffix of a scratch directory: the time in milliseconds and the
/// count of directories made so far.
pub fn unique_suffix(millis: u64, counter: u64) -> (r: String)
    ensures
        r@ == suffix_text(millis as nat, counter as nat),
{
    let mut out = decimal(millis);
    out.append("-");
    let count = decimal(counter);
    out.append(count.as_str());
    out
}

/// The name of a scratch directory.
pub fn temp_dir_name(prefix: &str, millis: u64, counter: u64) -> (r: String)
    ensures
        r@ == prefix@ + "-"@ + suffix_text(millis as nat, counter as nat),
{
    let mut out = String::from_str(prefix);
    out.append("-");
    let suffix = unique_suffix(millis, counter);
    out.append(suffix.as_str());
    out
}

/// How a failed run ended: its exit code, or the word for a run that ended
/// without one.
pub open spec fn status_text(code: Option<i32>) -> Seq<char> {
    match code {
        Some(c) => "exit code "@ + int_text(c as int),
        None => "terminated"@,
    }
}

/// The diagnostic of a failed run: status and standard error, then standard
/// output if it holds more than white space; the whole trimmed.
pub open spec fn failure_text(code: Option<i32>, stderr: Seq<char>, stdout: Seq<char>) -> Seq<
    char,
> {
    if trimmed_of(stdout).len() == 0 {
        trimmed_of(status_text(code) + ": "@ + stderr)
    } else {
        trimmed_of(status_text(code) + ": "@ + stderr + "\n"@ + stdout)
    }
}

/// The diagnostic of a failed run.
pub fn failure_detail(code: Option<i32>, stderr: &str, stdout: &str) -> (r: String)
    ensures
        r@ == failure_text(code, stderr@, stdout@),
{
    let mut out = match code {
        Some(c) => {
            let mut s = String::from_str("exit code ");
            let digits = signed_decimal(c);
            s.append(digits.as_str());
            s
        },
        None => String::from_str("terminated"),
    };
    out.append(": ");
    out.append(stderr);
    let visible = trim(stdout);
    if visible.as_str().unicode_len() > 0 {
        out.append("\n");
        out.append(stdout);
    }
    trim(out.as_str())
}

/// What a finished run yields: the cleaned output of a run that succeeded,
/// or a process error with the diagnostic of one that failed.
pub fn run_outcome(success: bool, code: Option<i32>, stdout: &str, stderr: &str) -> (r: Result<
    String,
    AppError,
>)
    ensures
        success ==> r is Ok && r->Ok_0@ == cleaned(stdout@),
        !success ==> r is Err && r->Err_0 is Process && r->Err_0.detail() == failure_text(
            code,
            stderr@,
            stdout@,
        ),
{
    if success {
        Ok(clean_gemini_output(stdout))
    } else {
        Err(AppError::Process(failure_detail(code, stderr, stdout)))
    }
}

} // verus!
