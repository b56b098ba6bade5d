//! Newline-delimited framing of JSON-RPC messages: each message is one line.
use vstd::prelude::*;
use vstd::string::StringExecFns;
use crate::errors::TetradError;
use crate::parser::{
    i64_member, is_json, json_clone, json_get, json_i64_member, json_is_value, json_str_member,
    parse_json, str_member,
};
use crate::protocol::{JsonRpcError, JsonRpcId, JsonRpcRequest, INVALID_REQUEST, PARSE_ERROR};
use crate::text::{chars_of, slice, string_of, trim_chars};

verus! {

/// Position of the first `'\n'` at or after `from`, or the length.
pub open spec fn line_end(s: Seq<char>, from: int) -> int
    decreases s.len() - from,
{
    if from >= s.len() || from < 0 {
        s.len() as int
    } else if s[from] == '\n' {
        from
    } else {
        line_end(s, from + 1)
    }
}

proof fn lemma_line_end(s: Seq<char>, from: int)
    requires
        0 <= from <= s.len(),
    ensures
        from <= line_end(s, from) <= s.len(),
    decreases s.len() - from,
{
    if from < s.len() && s[from] != '\n' {
        lemma_line_end(s, from + 1);
    }
}

/// The text of one message followed by its newline.
pub fn frame(body: &str) -> (r: String)
    ensures
        r@ == body@.push('\n'),
{
    let mut out = String::from_str(body);
    out.append("\n");
    proof {
        reveal_strlit("\n");
    }
    assert(out@ =~= body@.push('\n'));
    out
}

/// Reads a request from the text of one message. Text that is not JSON is
/// a parse error; JSON without a string `method` is an invalid request.
/// The id is the integer or string member `id`; its absence makes a
/// notification.
pub fn parse_request(text: &str) -> (r: Result<JsonRpcRequest, JsonRpcError>)
    ensures
        !json_is_value(text@) ==> (r matches Err(e) && e.code == PARSE_ERROR),
        json_is_value(text@) && json_str_member(text@, "method"@) is None ==> (r matches Err(e)
            && e.code == INVALID_REQUEST),
        json_is_value(text@) && json_str_member(text@, "method"@) is Some ==> (r matches Ok(req)
            && req.jsonrpc@ == "2.0"@ && req.method@ == json_str_member(text@, "method"@)->0
            && match json_i64_member(text@, "id"@) {
            Some(n) => req.id == Some(JsonRpcId::Number(n)),
            None => match json_str_member(text@, "id"@) {
                Some(t) => req.id matches Some(JsonRpcId::String(u)) && u@ == t,
                None => req.id is None,
            },
        }),
{
    if !is_json(text) {
        return Err(JsonRpcError::parse_error());
    }
    let method = match str_member(text, "method") {
        Some(s) => s,
        None => {
            return Err(JsonRpcError::invalid_request());
        },
    };
    let id = match i64_member(text, "id") {
        Some(n) => Some(JsonRpcId::Number(n)),
        None => match str_member(text, "id") {
            Some(t) => Some(JsonRpcId::String(t)),
            None => None,
        },
    };
    let params = match parse_json(text) {
        Ok(v) => match json_get(&v, "params") {
            Some(p) => Some(json_clone(p)),
            None => None,
        },
        Err(_) => None,
    };
    Ok(JsonRpcRequest { jsonrpc: String::from_str("2.0"), id, method, params })
}

/// A transport over in-memory text, for hosts and tests.
pub struct StringTransport {
    input: Vec<char>,
    pos: usize,
    output: String,
}

impl StringTransport {
    pub closed spec fn input_spec(&self) -> Seq<char> {
        self.input@
    }

    pub closed spec fn pos_spec(&self) -> int {
        self.pos as int
    }

    pub closed spec fn output_spec(&self) -> Seq<char> {
        self.output@
    }

    pub fn new(input: &str) -> (r: StringTransport)
        ensures
            r.input_spec() == input@,
            r.pos_spec() == 0,
            r.output_spec().len() == 0,
    {
        StringTransport { input: chars_of(input), pos: 0, output: String::new() }
    }

    /// The next line, without its newline; `None` at the end of the input.
    pub fn read_line(&mut self) -> (r: Option<String>)
        requires
            old(self).pos_spec() <= old(self).input_spec().len(),
        ensures
            final(self).input_spec() == old(self).input_spec(),
            final(self).output_spec() == old(self).output_spec(),
            final(self).pos_spec() <= final(self).input_spec().len(),
            old(self).pos_spec() == old(self).input_spec().len() ==> r is None,
            old(self).pos_spec() < old(self).input_spec().len() ==> ({
                let e = line_end(old(self).input_spec(), old(self).pos_spec());
                &&& r matches Some(l) && l@ == old(self).input_spec().subrange(old(self).pos_spec(), e)
                &&& final(self).pos_spec() == if e < old(self).input_spec().len() {
                    e + 1
                } else {
                    e
                }
            }),
    {
        if self.pos >= self.input.len() {
            return None;
        }
        let start = self.pos;
        let mut i = self.pos;
        while i < self.input.len() && self.input[i] != '\n'
            invariant
                start <= i <= self.input@.len(),
                line_end(self.input@, start as int) == line_end(self.input@, i as int),
            decreases self.input.len() - i,
        {
            i += 1;
        }
        let line = string_of(slice(&self.input, start, i).as_slice());
        self.pos = if i < self.input.len() {
            i + 1
        } else {
            i
        };
        Some(line)
    }

    /// Reads the next message: an error at the end of input, on an empty
    /// line, or when the line is not a request.
    pub fn read_message(&mut self) -> (r: Result<JsonRpcRequest, TetradError>)
        requires
            old(self).pos_spec() <= old(self).input_spec().len(),
        ensures
            final(self).pos_spec() <= final(self).input_spec().len(),
            final(self).input_spec() == old(self).input_spec(),
            old(self).pos_spec() == old(self).input_spec().len() ==> r is Err,
    {
        match self.read_line() {
            None => Err(TetradError::config("EOF")),
            Some(line) => {
                let t = trim_chars(&chars_of(line.as_str()));
                if t.len() == 0 {
                    return Err(TetradError::config("Empty message"));
                }
                let text = string_of(t.as_slice());
                match parse_request(text.as_str()) {
                    Ok(req) => Ok(req),
                    Err(e) => Err(TetradError::Json(e.message)),
                }
            },
        }
    }

    /// Appends one framed message.
    pub fn write_text(&mut self, body: &str)
        ensures
            final(self).output_spec() == old(self).output_spec() + body@.push('\n'),
            final(self).input_spec() == old(self).input_spec(),
            final(self).pos_spec() == old(self).pos_spec(),
    {
        let framed = frame(body);
        self.output.append(framed.as_str());
    }

    pub fn get_output(&self) -> (r: String)
        ensures
            r@ == self.output_spec(),
    {
        self.output.clone()
    }
}

} // verus!
