//! Generating code from a screenshot: which backend runs, and what its
//! answer means.
use vstd::prelude::*;

use crate::error::DpcError;
use crate::json::{field_text, json_field, json_field_of, or_field, or_field_of, text_of_field};
use crate::selectors::string_views;
use crate::text::{chars_of, owned, push_all, push_str, string_from_chars, trim, trim_chars};

verus! {

/// Generated code, with the notes that came with it.
pub struct CodegenResult {
    pub code: String,
    pub warnings: Vec<String>,
}

/// Where code is generated: a local command or an HTTP endpoint.
pub enum CodegenBackend {
    Command(String),
    Http(String),
    /// Neither is set.
    NotConfigured,
}

/// Where prepared code comes from, when it does.
pub enum MockSource {
    /// The code itself.
    Code(CodegenResult),
    /// A file to read it from.
    File(String),
    /// No prepared code: a backend runs.
    Absent,
}

/// The setting is there and not blank.
pub open spec fn filled(o: Option<String>) -> bool {
    o matches Some(s) && trim(s@).len() > 0
}

fn is_filled(o: &Option<String>) -> (b: bool)
    ensures
        b == filled(*o),
{
    match o {
        Some(s) => {
            let cs = chars_of(s.as_str());
            trim_chars(cs.as_slice()).len() > 0
        },
        None => false,
    }
}

pub open spec fn mock_code_note() -> Seq<char> {
    "Using DPC_MOCK_CODE; external codegen not invoked."@
}

/// Prepared code wins over a backend: the code given directly when it is
/// not blank, else the file named when that is not blank.
pub fn mock_source(code: Option<String>, path: Option<String>) -> (r: MockSource)
    ensures
        filled(code) ==> (r matches MockSource::Code(c) && c.code == code->0 && c.warnings@.len() == 1
            && c.warnings@[0]@ == mock_code_note()),
        !filled(code) && filled(path) ==> (r matches MockSource::File(p) && p == path->0),
        !filled(code) && !filled(path) ==> r is Absent,
{
    if is_filled(&code) {
        let mut warnings: Vec<String> = Vec::new();
        warnings.push(owned("Using DPC_MOCK_CODE; external codegen not invoked."));
        return MockSource::Code(CodegenResult { code: code.unwrap(), warnings });
    }
    if is_filled(&path) {
        return MockSource::File(path.unwrap());
    }
    MockSource::Absent
}

/// The prepared code read from the file at `path`.
pub fn mock_code_from_file(path: &str, contents: String) -> (r: CodegenResult)
    ensures
        r.code == contents,
        string_views(r.warnings@) == seq![
            "Using mock code from "@ + path@ + "; external codegen not invoked."@,
        ],
{
    let mut v: Vec<char> = Vec::new();
    push_str(&mut v, "Using mock code from ");
    push_str(&mut v, path);
    push_str(&mut v, "; external codegen not invoked.");
    let mut warnings: Vec<String> = Vec::new();
    warnings.push(string_from_chars(v.as_slice()));
    proof {
        assert(string_views(warnings@) =~= seq![
            "Using mock code from "@ + path@ + "; external codegen not invoked."@,
        ]);
    }
    CodegenResult { code: contents, warnings }
}

pub open spec fn stub_note() -> Seq<char> {
    "Code generation not implemented: no codegen backend configured (set DPC_CODEGEN_URL, DPC_CODEGEN_CMD, or DPC_MOCK_CODE)."@
}

/// The backend: the command when it is not blank, else the endpoint when
/// it is not blank, else none.
pub fn codegen_backend(command: Option<String>, url: Option<String>) -> (r: CodegenBackend)
    ensures
        filled(command) ==> (r matches CodegenBackend::Command(c) && c == command->0),
        !filled(command) && filled(url) ==> (r matches CodegenBackend::Http(u) && u == url->0),
        !filled(command) && !filled(url) ==> r is NotConfigured,
{
    if is_filled(&command) {
        return CodegenBackend::Command(command.unwrap());
    }
    if is_filled(&url) {
        return CodegenBackend::Http(url.unwrap());
    }
    CodegenBackend::NotConfigured
}

/// The notes of a run with no backend: code generation is not implemented
/// there, and no code comes out.
pub fn stub_notes() -> (r: Vec<String>)
    ensures
        string_views(r@) == seq![stub_note()],
{
    let mut notes: Vec<String> = Vec::new();
    notes.push(
        owned(
            "Code generation not implemented: no codegen backend configured (set DPC_CODEGEN_URL, DPC_CODEGEN_CMD, or DPC_MOCK_CODE).",
        ),
    );
    proof {
        assert(string_views(notes@) =~= seq![stub_note()]);
    }
    notes
}

fn prefixed(a: &str, c: &[char]) -> (r: String)
    ensures
        r@ == a@ + c@,
{
    let mut v: Vec<char> = Vec::new();
    push_str(&mut v, a);
    push_all(&mut v, c);
    string_from_chars(v.as_slice())
}

/// What a finished codegen command means: a failed run is an error naming
/// its status and what it wrote to standard error; blank output is an
/// error; otherwise the output is the code, with a note of the standard
/// error when there is any.
pub fn command_result(success: bool, status_text: &str, stdout: String, stderr: &str) -> (r: Result<
    CodegenResult,
    DpcError,
>)
    ensures
        !success ==> (r matches Err(DpcError::Config(m)) && m@ == "Codegen command exited with "@
            + status_text@ + ": "@ + trim(stderr@)),
        success && trim(stdout@).len() == 0 ==> (r matches Err(DpcError::Config(m)) && m@
            == "Codegen command produced no output"@),
        success && trim(stdout@).len() > 0 ==> (r matches Ok(c) && c.code == stdout && string_views(
            c.warnings@,
        ) == if stderr@.len() > 0 {
            seq!["codegen command stderr: "@ + trim(stderr@)]
        } else {
            Seq::empty()
        }),
{
    let err = chars_of(stderr);
    let err_trimmed = trim_chars(err.as_slice());
    if !success {
        let mut v: Vec<char> = Vec::new();
        push_str(&mut v, "Codegen command exited with ");
        push_str(&mut v, status_text);
        push_str(&mut v, ": ");
        push_all(&mut v, err_trimmed.as_slice());
        return Err(DpcError::Config(string_from_chars(v.as_slice())));
    }
    let out = chars_of(stdout.as_str());
    if trim_chars(out.as_slice()).len() == 0 {
        return Err(DpcError::Config(owned("Codegen command produced no output")));
    }
    let mut warnings: Vec<String> = Vec::new();
    if err.len() > 0 {
        warnings.push(prefixed("codegen command stderr: ", err_trimmed.as_slice()));
    }
    proof {
        if stderr@.len() > 0 {
            assert(string_views(warnings@) =~= seq!["codegen command stderr: "@ + trim(stderr@)]);
        } else {
            assert(string_views(warnings@) =~= Seq::<Seq<char>>::empty());
        }
    }
    Ok(CodegenResult { code: stdout, warnings })
}

/// The fields of a JSON answer of the codegen endpoint.
pub struct CodegenFields {
    pub code: Option<String>,
    pub html: Option<String>,
    pub output: Option<String>,
    pub warnings: Option<Vec<String>>,
    pub summary: Option<String>,
    pub message: Option<String>,
}

pub open spec fn opt_text(o: Option<String>) -> Seq<Seq<char>> {
    match o {
        Some(s) => seq![s@],
        None => Seq::empty(),
    }
}

/// The notes of an answer: its summary, its warnings, then its message.
pub open spec fn field_notes(f: CodegenFields) -> Seq<Seq<char>> {
    opt_text(f.summary) + match f.warnings {
        Some(w) => string_views(w@),
        None => Seq::empty(),
    } + opt_text(f.message)
}

/// The code of an answer: its `code`, else its `html`, else its `output`.
pub open spec fn field_code(f: CodegenFields) -> Option<String> {
    if f.code is Some {
        f.code
    } else if f.html is Some {
        f.html
    } else {
        f.output
    }
}

pub open spec fn typed_notes(typed: Option<CodegenFields>) -> Seq<Seq<char>> {
    match typed {
        Some(f) => field_notes(f),
        None => Seq::empty(),
    }
}

pub open spec fn raw_body_note() -> Seq<char> {
    "Codegen response was not JSON; using raw body as code."@
}

/// What an answer of the endpoint means, as the code and notes or the
/// message of the error. `typed` is the answer read into its fields, when
/// it reads so; `from_value` is the string found under `code`, `html`,
/// `output` or `result` of the answer read as any JSON value.
pub open spec fn http_outcome(
    success: bool,
    status: Seq<char>,
    text: Seq<char>,
    typed: Option<CodegenFields>,
    from_value: Option<Seq<char>>,
) -> Result<(Seq<char>, Seq<Seq<char>>), Seq<char>> {
    if !success {
        Err("Codegen HTTP "@ + status + ": "@ + trim(text))
    } else {
        let notes = typed_notes(typed);
        let code = match typed {
            Some(f) => field_code(f),
            None => None,
        };
        match code {
            Some(c) => if trim(c@).len() == 0 {
                Err("Codegen response contained empty code"@)
            } else {
                Ok((c@, notes))
            },
            None => match from_value {
                Some(c) => Ok((c, notes)),
                None => if trim(text).len() == 0 {
                    Err("Codegen HTTP response was empty"@)
                } else {
                    Ok((text, notes.push(raw_body_note())))
                },
            },
        }
    }
}

/// The string under the first of the fields `code`, `html`, `output`,
/// `result` that a JSON text has, when that field is a string.
pub open spec fn json_code_text(body: Seq<char>) -> Option<Seq<char>> {
    field_text(
        or_field(
            or_field(or_field(json_field(body, "code"@), body, "html"@), body, "output"@),
            body,
            "result"@,
        ),
    )
}

fn code_text_in_body(body: &str) -> (r: Option<String>)
    ensures
        match json_code_text(body@) {
            Some(t) => r matches Some(s) && s@ == t,
            None => r is None,
        },
{
    let f = json_field_of(body, "code");
    let f = or_field_of(f, body, "html");
    let f = or_field_of(f, body, "output");
    let f = or_field_of(f, body, "result");
    text_of_field(f)
}

fn push_opt(out: &mut Vec<String>, o: Option<String>)
    ensures
        string_views(final(out)@) == string_views(old(out)@) + opt_text(o),
{
    let ghost before = out@;
    if let Some(s) = o {
        out.push(s);
        proof {
            assert(string_views(out@) =~= string_views(before) + opt_text(Some(s)));
        }
    } else {
        proof {
            assert(string_views(out@) =~= string_views(before) + opt_text(o));
        }
    }
}

/// What an answer of the codegen endpoint means. `typed` is the answer
/// read into its fields, when it reads so.
pub fn http_result(success: bool, status_text: &str, text: String, typed: Option<CodegenFields>) -> (r:
    Result<CodegenResult, DpcError>)
    ensures
        match http_outcome(success, status_text@, text@, typed, json_code_text(text@)) {
            Ok((code, notes)) => r matches Ok(c) && c.code@ == code && string_views(c.warnings@) == notes,
            Err(m) => r matches Err(DpcError::Config(e)) && e@ == m,
        },
{
    if !success {
        let cs = chars_of(text.as_str());
        let t = trim_chars(cs.as_slice());
        let mut v: Vec<char> = Vec::new();
        push_str(&mut v, "Codegen HTTP ");
        push_str(&mut v, status_text);
        push_str(&mut v, ": ");
        push_all(&mut v, t.as_slice());
        return Err(DpcError::Config(string_from_chars(v.as_slice())));
    }
    let ghost notes = typed_notes(typed);
    let mut warnings: Vec<String> = Vec::new();
    let mut code: Option<String> = None;
    if let Some(f) = typed {
        let ghost fc = field_code(f);
        push_opt(&mut warnings, f.summary);
        if let Some(w) = f.warnings {
            let ghost head = warnings@;
            for i in 0..w.len()
                invariant
                    string_views(warnings@) == string_views(head) + string_views(w@.take(i as int)),
            {
                let ghost pre = warnings@;
                let item = w[i].clone();
                warnings.push(item);
                proof {
                    assert(w@.take(i + 1) =~= w@.take(i as int).push(w@[i as int]));
                    assert(string_views(w@.take(i + 1)) =~= string_views(w@.take(i as int)).push(w@[i as int]@));
                    assert(string_views(warnings@) =~= string_views(pre).push(item@));
                    assert(string_views(warnings@) =~= string_views(head) + string_views(w@.take(i + 1)));
                }
            }
            proof {
                assert(w@.take(w@.len() as int) =~= w@);
            }
        }
        push_opt(&mut warnings, f.message);
        code = if f.code.is_some() {
            f.code
        } else if f.html.is_some() {
            f.html
        } else {
            f.output
        };
        proof {
            assert(string_views(warnings@) =~= notes);
            assert(code == fc);
        }
    }
    assert(string_views(warnings@) == notes);
    match code {
        Some(c) => {
            let cs = chars_of(c.as_str());
            if trim_chars(cs.as_slice()).len() == 0 {
                return Err(DpcError::Config(owned("Codegen response contained empty code")));
            }
            Ok(CodegenResult { code: c, warnings })
        },
        None => match code_text_in_body(text.as_str()) {
            Some(c) => Ok(CodegenResult { code: c, warnings }),
            None => {
                let cs = chars_of(text.as_str());
                if trim_chars(cs.as_slice()).len() == 0 {
                    return Err(DpcError::Config(owned("Codegen HTTP response was empty")));
                }
                let ghost before = warnings@;
                warnings.push(owned("Codegen response was not JSON; using raw body as code."));
                proof {
                    assert(string_views(warnings@) =~= notes.push(raw_body_note()));
                }
                Ok(CodegenResult { code: text, warnings })
            },
        },
    }
}

} // verus!
