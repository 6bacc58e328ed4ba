//! An HTTP/1.1 response: its construction from a status code, headers and a
//! body, and its text on the wire.

use crate::headers::{as_map, has_key, index_of, keys_distinct, lemma_index_of_entry, Headers};
use crate::text::{decimal, decimal_value, lemma_decimal_denotes, push_decimal, str_eq};
use vstd::prelude::*;
use vstd::string::*;
use vstd::utf8::*;

verus! {

/// What a response holds, as plain mathematical values.
pub struct ResponseModel {
    pub version: Seq<char>,
    pub status_code: Seq<char>,
    pub status_text: Seq<char>,
    pub headers: Seq<(Seq<char>, Seq<char>)>,
    pub body: Option<Seq<char>>,
}

/// The reason phrase that goes with a status code. Three codes have a phrase
/// of their own; every other code, known elsewhere or not, reads `Not Found`.
pub open spec fn reason_phrase(status_code: Seq<char>) -> Seq<char> {
    if status_code == "200"@ {
        "OK"@
    } else if status_code == "400"@ {
        "Bad Request"@
    } else if status_code == "500"@ {
        "Internal Server Error"@
    } else {
        "Not Found"@
    }
}

/// The headers of a response that was built without any: the single entry
/// `Content-Type: text/html`.
pub open spec fn default_headers() -> Seq<(Seq<char>, Seq<char>)> {
    seq![("Content-Type"@, "text/html"@)]
}

/// The response that construction starts from: `200 OK`, no headers, no body.
pub open spec fn default_model() -> ResponseModel {
    ResponseModel {
        version: "HTTP/1.1"@,
        status_code: "200"@,
        status_text: "OK"@,
        headers: Seq::empty(),
        body: None,
    }
}

/// The response that `new` builds from its three arguments.
pub open spec fn new_model(
    status_code: Seq<char>,
    headers: Option<Seq<(Seq<char>, Seq<char>)>>,
    body: Option<Seq<char>>,
) -> ResponseModel {
    ResponseModel {
        version: "HTTP/1.1"@,
        status_code,
        status_text: reason_phrase(status_code),
        headers: match headers {
            Some(entries) => entries,
            None => default_headers(),
        },
        body,
    }
}

/// The version is fixed, the reason phrase is the one of the status code, and
/// no header name occurs twice.
pub open spec fn consistent(model: ResponseModel) -> bool {
    &&& model.version == "HTTP/1.1"@
    &&& model.status_text == reason_phrase(model.status_code)
    &&& keys_distinct(model.headers)
}

/// The first line of the message: version, status code and reason phrase,
/// one space between them.
pub open spec fn status_line(model: ResponseModel) -> Seq<char> {
    model.version + " "@ + model.status_code + " "@ + model.status_text + "\r\n"@
}

/// One header on the wire: name, a colon with no space after it, value, and
/// the end of the line.
pub open spec fn header_line(entry: (Seq<char>, Seq<char>)) -> Seq<char> {
    entry.0 + ":"@ + entry.1 + "\r\n"@
}

/// The header lines one after another, in the order of the entries, with
/// nothing between them.
pub open spec fn header_block(entries: Seq<(Seq<char>, Seq<char>)>) -> Seq<char>
    decreases entries.len(),
{
    if entries.len() == 0 {
        Seq::empty()
    } else {
        header_block(entries.drop_last()) + header_line(entries.last())
    }
}

/// The body as text: empty where the response has none.
pub open spec fn body_text(model: ResponseModel) -> Seq<char> {
    match model.body {
        Some(text) => text,
        None => Seq::empty(),
    }
}

/// The length that the response announces: the number of bytes of its body
/// in UTF-8.
pub open spec fn content_length(model: ResponseModel) -> nat {
    encode_utf8(body_text(model)).len()
}

/// The line that announces a body of `length` bytes.
pub open spec fn content_length_line(length: nat) -> Seq<char> {
    "Content-Length: "@ + decimal(length) + "\r\n"@
}

/// The whole message: status line, header block, the length of the body, an
/// empty line, and the body with nothing after it.
pub open spec fn wire_text(model: ResponseModel) -> Seq<char> {
    status_line(model) + header_block(model.headers) + content_length_line(content_length(model))
        + "\r\n"@ + body_text(model)
}

/// The message as bytes: its text in UTF-8.
pub open spec fn wire_bytes(model: ResponseModel) -> Seq<u8> {
    encode_utf8(wire_text(model))
}

/// `std::io::Error`, the error of std's `io::Result`. Nothing is claimed of
/// what such a value holds.
#[verifier::external_type_specification]
#[verifier::external_body]
pub struct ExIoError(std::io::Error);

/// An HTTP/1.1 response. The reason phrase always goes with the status code,
/// and no header name occurs twice.
#[derive(Debug, PartialEq)]
pub struct HttpResponse<'a> {
    version: &'a str,
    status_code: &'a str,
    status_text: &'a str,
    headers: Headers<'a>,
    body: Option<String>,
}

impl<'a> View for HttpResponse<'a> {
    type V = ResponseModel;

    closed spec fn view(&self) -> ResponseModel {
        ResponseModel {
            version: self.version@,
            status_code: self.status_code@,
            status_text: self.status_text@,
            headers: self.headers@,
            body: match self.body {
                Some(text) => Some(text@),
                None => None,
            },
        }
    }
}

impl<'a> Default for HttpResponse<'a> {
    fn default() -> (response: Self)
        ensures
            response@ == default_model(),
    {
        let headers = Headers::new();
        HttpResponse { version: "HTTP/1.1", status_code: "200", status_text: "OK", headers, body: None }
    }
}

impl<'a> Clone for HttpResponse<'a> {
    fn clone(&self) -> (copy: Self)
        ensures
            copy@ == self@,
    {
        proof {
            use_type_invariant(self);
        }
        let body = match &self.body {
            Some(text) => Some(text.clone()),
            None => None,
        };
        HttpResponse {
            version: self.version,
            status_code: self.status_code,
            status_text: self.status_text,
            headers: self.headers.clone(),
            body,
        }
    }
}

impl<'a> vstd::std_specs::convert::FromSpecImpl<HttpResponse<'a>> for String {
    /// The text is pinned by its characters, in the contract of `from`.
    open spec fn obeys_from_spec() -> bool {
        false
    }

    open spec fn from_spec(response: HttpResponse<'a>) -> String {
        arbitrary()
    }
}

impl<'a> From<HttpResponse<'a>> for String {
    /// The response as it goes on the wire.
    fn from(res: HttpResponse<'a>) -> (text: String)
        ensures
            text@ == wire_text(res@),
    {
        let mut text = String::new();
        text.append(res.get_version());
        text.append(" ");
        text.append(res.get_status_code());
        text.append(" ");
        text.append(res.get_status_text());
        text.append("\r\n");
        text.append(res.get_headers().as_str());
        text.append("Content-Length: ");
        push_decimal(&mut text, res.get_body().as_bytes().len());
        text.append("\r\n");
        text.append("\r\n");
        text.append(res.get_body());
        assert(text@ =~= wire_text(res@));
        text
    }
}

impl<'a> HttpResponse<'a> {
    /// What holds of every response: see `consistent`.
    #[verifier::type_invariant]
    pub open spec fn holds_together(self) -> bool {
        consistent(self@)
    }

    /// Builds a response. Every status code is taken as it is. Without
    /// headers the response gets `Content-Type: text/html`; headers that are
    /// given, an empty set too, are kept as they are.
    pub fn new(status_code: &'a str, headers: Option<Headers<'a>>, body: Option<String>) -> (response:
        HttpResponse<'a>)
        ensures
            response@ == new_model(
                status_code@,
                match headers {
                    Some(given) => Some(given@),
                    None => None,
                },
                match body {
                    Some(text) => Some(text@),
                    None => None,
                },
            ),
            consistent(response@),
    {
        let template: HttpResponse<'a> = HttpResponse::default();
        let status_code = if str_eq(status_code, "200") {
            template.status_code
        } else {
            status_code
        };
        let headers = match headers {
            Some(given) => {
                proof {
                    use_type_invariant(&given);
                }
                given
            },
            None => {
                let mut h = Headers::new();
                h.insert("Content-Type", "text/html");
                assert(h@ =~= default_headers());
                h
            },
        };
        let status_text = if str_eq(status_code, "200") {
            "OK"
        } else if str_eq(status_code, "400") {
            "Bad Request"
        } else if str_eq(status_code, "500") {
            "Internal Server Error"
        } else {
            "Not Found"
        };
        HttpResponse { version: template.version, status_code, status_text, headers, body }
    }

    /// Writes the message to the end of `write_stream`, in one piece, and
    /// reports success. What the stream held before stays in front of it.
    pub fn send_response(&self, write_stream: &mut Vec<u8>) -> (sent: Result<(), std::io::Error>)
        ensures
            sent is Ok,
            final(write_stream)@ == old(write_stream)@ + wire_bytes(self@),
    {
        let res1 = self.clone();
        let response_string: String = res1.into();
        write_stream.extend_from_slice(response_string.as_str().as_bytes());
        Ok(())
    }

    /// The protocol version, which is always `HTTP/1.1`.
    pub fn get_version(&self) -> (version: &str)
        ensures
            version@ == self@.version,
            version@ == "HTTP/1.1"@,
    {
        proof {
            use_type_invariant(self);
        }
        self.version
    }

    /// The status code as it was given.
    pub fn get_status_code(&self) -> (status_code: &str)
        ensures
            status_code@ == self@.status_code,
    {
        self.status_code
    }

    /// The reason phrase, which is the one of the status code.
    pub fn get_status_text(&self) -> (status_text: &str)
        ensures
            status_text@ == self@.status_text,
            status_text@ == reason_phrase(self@.status_code),
    {
        proof {
            use_type_invariant(self);
        }
        self.status_text
    }

    /// The headers as they go on the wire, one line each.
    pub fn get_headers(&self) -> (block: String)
        ensures
            block@ == header_block(self@.headers),
    {
        let mut block = String::new();
        let n = self.headers.len();
        let mut i: usize = 0;
        while i < n
            invariant
                n == self.headers@.len(),
                i <= n,
                block@ == header_block(self.headers@.take(i as int)),
            decreases n - i,
        {
            if let Some(entry) = self.headers.entry(i) {
                let ghost before = block@;
                block.append(entry.0);
                block.append(":");
                block.append(entry.1);
                block.append("\r\n");
                proof {
                    let upto = self.headers@.take(i + 1);
                    assert(upto.drop_last() =~= self.headers@.take(i as int));
                    assert(upto.last() == (entry.0@, entry.1@));
                    assert(block@ =~= before + header_line(upto.last()));
                }
            }
            i += 1;
        }
        assert(self.headers@.take(n as int) =~= self.headers@);
        block
    }

    /// The body, or the empty string where there is none.
    pub fn get_body(&self) -> (body: &str)
        ensures
            body@ == body_text(self@),
    {
        match &self.body {
            Some(text) => text.as_str(),
            None => {
                proof {
                    reveal_strlit("");
                }
                assert(""@ =~= Seq::<char>::empty());
                ""
            },
        }
    }
}

/// Each of the three codes with a phrase of its own has exactly that phrase,
/// and every other code has `Not Found`.
pub proof fn lemma_reason_phrase_table(status_code: Seq<char>)
    ensures
        reason_phrase("200"@) == "OK"@,
        reason_phrase("400"@) == "Bad Request"@,
        reason_phrase("500"@) == "Internal Server Error"@,
        status_code != "200"@ && status_code != "400"@ && status_code != "500"@ ==> reason_phrase(
            status_code,
        ) == "Not Found"@,
{
    reveal_strlit("200");
    reveal_strlit("400");
    reveal_strlit("500");
    assert("400"@[0] != "200"@[0]);
    assert("500"@[0] != "200"@[0]);
    assert("500"@[0] != "400"@[0]);
}

/// The headers of a response that was built without any are one entry, and
/// as a mapping they lead from `Content-Type` to `text/html` and from no
/// other name.
pub proof fn lemma_default_headers_single_entry()
    ensures
        default_headers().len() == 1,
        keys_distinct(default_headers()),
        as_map(default_headers()) == Map::<Seq<char>, Seq<char>>::empty().insert(
            "Content-Type"@,
            "text/html"@,
        ),
{
    let entries = default_headers();
    lemma_index_of_entry(entries, 0);
    assert forall|key: Seq<char>| has_key(entries, key) <==> key == "Content-Type"@ by {
        if has_key(entries, key) {
            let i = index_of(entries, key);
            assert(entries[i].0 == key);
        }
        if key == "Content-Type"@ {
            assert(entries[0].0 == key);
        }
    }
    assert(as_map(entries) =~= Map::<Seq<char>, Seq<char>>::empty().insert(
        "Content-Type"@,
        "text/html"@,
    ));
}

/// The message ends with the line that announces the length, an empty line
/// and the body. The length announced is the number of bytes of the body in
/// UTF-8, which is 0 for a response without a body, and the numeral on the
/// line denotes that number.
pub proof fn lemma_content_length_is_body_length(model: ResponseModel)
    ensures
        content_length(model) == encode_utf8(body_text(model)).len(),
        model.body is None ==> content_length(model) == 0 && body_text(model).len() == 0,
        decimal_value(decimal(content_length(model))) == content_length(model),
        wire_text(model) == status_line(model) + header_block(model.headers) + "Content-Length: "@
            + decimal(content_length(model)) + "\r\n"@ + "\r\n"@ + body_text(model),
{
    lemma_decimal_denotes(content_length(model));
    assert(wire_text(model) =~= status_line(model) + header_block(model.headers)
        + "Content-Length: "@ + decimal(content_length(model)) + "\r\n"@ + "\r\n"@ + body_text(
        model,
    ));
}

/// Writing out one response twice gives the same text and the same bytes:
/// nothing but what the response holds goes into its message.
pub proof fn lemma_serialization_repeats(response: HttpResponse<'_>, first: String, second: String)
    requires
        first@ == wire_text(response@),
        second@ == wire_text(response@),
    ensures
        first@ == second@,
        encode_utf8(first@) == encode_utf8(second@),
        encode_utf8(first@) == wire_bytes(response@),
{
}

} // verus!
