//! The gateway's error value, what it is answered with, and how it reads.

use vstd::prelude::*;

verus! {

/// A request method, by the name that HTTP gives it.
#[derive(Debug, Clone, PartialEq, Eq)]
pub enum Method {
    Options,
    Get,
    Post,
    Put,
    Delete,
    Head,
    Trace,
    Connect,
    Patch,
    /// Any other method, by its name.
    Extension(String),
}

/// A number that HTTP accepts as a status code.
pub open spec fn valid_status(code: u16) -> bool {
    100 <= code <= 999
}

/// An error met while serving a request: the status to answer with, a
/// message, the method of the request when it is known, and whether the
/// client asked for an HTML page.
#[derive(Debug, Clone)]
pub struct GatewayError {
    pub status_code: u16,
    pub message: String,
    pub method: Option<Method>,
    pub accept_html: bool,
}

/// What an error response carries besides its status.
#[derive(Debug, Clone, PartialEq, Eq)]
pub enum ErrorBody {
    /// No body at all (the answer to a `HEAD` request).
    Empty,
    /// A JSON object with the fields `code`, `success` and `message`.
    Json { code: u16, success: bool, message: String },
    /// The HTML page that tells a browser that nothing was found.
    NotFoundPage,
}

/// The response that an error is answered with.
#[derive(Debug, Clone, PartialEq, Eq)]
pub struct ErrorResponse {
    pub status: u16,
    pub body: ErrorBody,
}

/// The status code of "Not Found".
pub const NOT_FOUND: u16 = 404;

/// The body an error is answered with.
pub open spec fn error_body(e: GatewayError) -> ErrorBody {
    if e.method matches Some(Method::Head) {
        ErrorBody::Empty
    } else if e.accept_html && e.status_code == NOT_FOUND {
        ErrorBody::NotFoundPage
    } else {
        ErrorBody::Json { code: e.status_code, success: false, message: e.message }
    }
}


/// The reason phrase that HTTP gives a status code, if it gives one.
pub uninterp spec fn canonical_reason_of(code: u16) -> Option<Seq<char>>;

/// `http::StatusCode::canonical_reason` of the status numbered `code`. A
/// number outside `100..=999` is no status (`StatusCode::from_u16` refuses
/// it), and then there is no reason phrase.
#[verifier::external_body]
fn canonical_reason(code: u16) -> (r: Option<&'static str>)
    ensures
        !valid_status(code) ==> r is None,
        match r {
            Some(s) => canonical_reason_of(code) == Some(s@),
            None => canonical_reason_of(code) is None,
        },
{
    match http::StatusCode::from_u16(code) {
        Ok(status) => status.canonical_reason(),
        Err(_) => None,
    }
}

/// The character of a decimal digit.
pub open spec fn digit_char(d: nat) -> char {
    (48 + d) as char
}

/// `n` written in decimal, with no leading zeros.
pub open spec fn decimal(n: nat) -> Seq<char>
    decreases n,
{
    if n < 10 {
        seq![digit_char(n)]
    } else {
        decimal(n / 10).push(digit_char(n % 10))
    }
}

/// The words that stand in for a missing reason phrase.
pub open spec fn unknown_status_text() -> Seq<char> {
    "<unknown status code>"@
}

/// How a status reads: its number, a space, and its reason phrase.
pub open spec fn status_text(code: u16) -> Seq<char> {
    decimal(code as nat) + seq![' '] + match canonical_reason_of(code) {
        Some(reason) => reason,
        None => unknown_status_text(),
    }
}

/// How an error reads: `gateway_error(<status>): <message>)`.
pub open spec fn error_text(code: u16, message: Seq<char>) -> Seq<char> {
    "gateway_error("@ + status_text(code) + "): "@ + message + ")"@
}

/// The number a run of decimal digits stands for.
pub open spec fn decimal_value(s: Seq<char>) -> int
    decreases s.len(),
{
    if s.len() == 0 {
        0
    } else {
        decimal_value(s.drop_last()) * 10 + (s.last() as int - 48)
    }
}

proof fn lemma_digit_char(d: nat)
    requires
        d < 10,
    ensures
        digit_char(d) as int == 48 + d,
        '0' <= digit_char(d) <= '9',
{
}

/// `n` written in decimal is a run of digits, with no leading zero, that
/// stands for `n` again.
pub proof fn lemma_decimal_reads_back(n: nat)
    ensures
        decimal(n).len() >= 1,
        forall|i: int| 0 <= i < decimal(n).len() ==> '0' <= #[trigger] decimal(n)[i] <= '9',
        n >= 1 ==> decimal(n)[0] != '0',
        decimal_value(decimal(n)) == n,
    decreases n,
{
    if n >= 10 {
        lemma_decimal_reads_back(n / 10);
        let d = decimal(n / 10);
        assert(decimal(n) == d.push(digit_char(n % 10)));
        assert(decimal(n).drop_last() =~= d);
        assert forall|i: int| 0 <= i < decimal(n).len() implies '0' <= #[trigger] decimal(n)[i]
            <= '9' by {
            if i < d.len() {
                assert(decimal(n)[i] == d[i]);
            }
        }
        assert(decimal(n)[0] == d[0]);
        lemma_digit_char((n % 10) as nat);
        assert(decimal(n).last() == digit_char(n % 10));
        assert(decimal_value(decimal(n)) == decimal_value(d) * 10 + (n % 10));
        assert((n / 10) * 10 + n % 10 == n);
    } else {
        assert(decimal(n).drop_last() =~= Seq::<char>::empty());
        lemma_digit_char(n);
        assert(decimal(n).last() == digit_char(n));
        assert(decimal_value(decimal(n)) == decimal_value(Seq::<char>::empty()) * 10 + (n as int));
    }
}

/// A status reads as its number in decimal, a space, and then its reason
/// phrase when HTTP gives it one, or `<unknown status code>` when not.
pub proof fn lemma_status_text_parts(code: u16)
    ensures
        status_text(code).take(decimal(code as nat).len() as int) == decimal(code as nat),
        status_text(code)[decimal(code as nat).len() as int] == ' ',
        canonical_reason_of(code) matches Some(reason) ==> status_text(code).skip(
            (decimal(code as nat).len() + 1) as int,
        ) == reason,
        canonical_reason_of(code) is None ==> status_text(code).skip(
            (decimal(code as nat).len() + 1) as int,
        ) == "<unknown status code>"@,
{
    let d = decimal(code as nat);
    let t = status_text(code);
    assert(t.take(d.len() as int) =~= d);
    match canonical_reason_of(code) {
        Some(reason) => {
            assert(t.skip((d.len() + 1) as int) =~= reason);
        },
        None => {
            assert(t.skip((d.len() + 1) as int) =~= unknown_status_text());
        },
    }
}

fn digit_str(d: u16) -> (s: &'static str)
    requires
        d < 10,
    ensures
        s@ == seq![digit_char(d as nat)],
{
    proof {
        reveal_strlit("0");
        reveal_strlit("1");
        reveal_strlit("2");
        reveal_strlit("3");
        reveal_strlit("4");
        reveal_strlit("5");
        reveal_strlit("6");
        reveal_strlit("7");
        reveal_strlit("8");
        reveal_strlit("9");
    }
    match d {
        0 => "0",
        1 => "1",
        2 => "2",
        3 => "3",
        4 => "4",
        5 => "5",
        6 => "6",
        7 => "7",
        8 => "8",
        _ => "9",
    }
}

/// Appends `n` in decimal to `out`.
fn append_decimal(out: &mut String, n: u16)
    ensures
        final(out)@ == old(out)@ + decimal(n as nat),
    decreases n,
{
    if n >= 10 {
        append_decimal(out, n / 10);
    }
    out.append(digit_str(n % 10));
    proof {
        if n >= 10 {
            assert(decimal(n as nat) == decimal((n / 10) as nat).push(digit_char((n % 10) as nat)));
        }
    }
}

/// What an error is answered with depends on the request's method first: a
/// `HEAD` request gets no body at all, whatever the status and whether HTML
/// was asked for. Any other request gets the not-found page exactly when
/// HTML was asked for and the status is 404, and otherwise a JSON report
/// that carries the status and the whole message and says it failed.
pub proof fn lemma_error_body_by_method(e: GatewayError)
    ensures
        e.method == Some(Method::Head) ==> error_body(e) == ErrorBody::Empty,
        e.method != Some(Method::Head) ==> (error_body(e) == ErrorBody::NotFoundPage
            <==> e.accept_html && e.status_code == 404),
        e.method != Some(Method::Head) && !(e.accept_html && e.status_code == 404)
            ==> error_body(e) == (ErrorBody::Json {
            code: e.status_code,
            success: false,
            message: e.message,
        }),
        error_body(e) is Empty <==> e.method == Some(Method::Head),
{
}

/// The text of an error holds its whole message: it is `gateway_error(`,
/// the status, `): `, the message and `)`, so its length grows one for one
/// with the message, it ends with `): `, the message and `)`, and two
/// errors with one status read alike only when their messages are equal.
pub proof fn lemma_error_text_holds_message(code: u16, m: Seq<char>, m2: Seq<char>)
    ensures
        error_text(code, m).len() == 14 + status_text(code).len() + 3 + m.len() + 1,
        error_text(code, m).subrange(
            error_text(code, m).len() - m.len() - 4,
            error_text(code, m).len() as int,
        ) == "): "@ + m + ")"@,
        error_text(code, m).subrange(
            error_text(code, m).len() - m.len() - 1,
            error_text(code, m).len() - 1,
        ) == m,
        error_text(code, m).take(14) == "gateway_error("@,
        error_text(code, m) == error_text(code, m2) ==> m == m2,
{
    reveal_strlit("gateway_error(");
    reveal_strlit("): ");
    reveal_strlit(")");
    let t = error_text(code, m);
    let head = "gateway_error("@ + status_text(code);
    assert(t =~= head + ("): "@ + m + ")"@));
    assert(t.subrange(t.len() - m.len() - 4, t.len() as int) =~= "): "@ + m + ")"@);
    assert(t.subrange(t.len() - m.len() - 1, t.len() - 1) =~= m);
    assert(t.take(14) =~= "gateway_error("@);
    if t == error_text(code, m2) {
        let t2 = error_text(code, m2);
        assert(t2 =~= head + ("): "@ + m2 + ")"@));
        assert(m2.len() == m.len());
        assert(t2.subrange(t2.len() - m2.len() - 1, t2.len() - 1) =~= m2);
    }
}

impl GatewayError {
    /// An error with the given status and message, for a request whose
    /// method is not known and whose client did not ask for HTML.
    pub fn new(status_code: u16, message: &str) -> (e: GatewayError)
        requires
            valid_status(status_code),
        ensures
            e.status_code == status_code,
            e.message@ == message@,
            e.method.is_none(),
            !e.accept_html,
    {
        GatewayError {
            status_code,
            message: String::from_str(message),
            method: None,
            accept_html: false,
        }
    }

    /// The same error, for a request made with `method`.
    pub fn with_method(self, method: Method) -> (e: GatewayError)
        ensures
            e == (GatewayError { method: Some(method), ..self }),
    {
        GatewayError { method: Some(method), ..self }
    }

    /// The same error, for a client that asked for an HTML page.
    pub fn with_html(self) -> (e: GatewayError)
        ensures
            e == (GatewayError { accept_html: true, ..self }),
    {
        GatewayError { accept_html: true, ..self }
    }

    /// The response this error is answered with: always with the error's
    /// status; with no body for a `HEAD` request; otherwise with the
    /// not-found page when the client asked for HTML and the status is
    /// "Not Found", and with a JSON report of the error in every other case.
    pub fn into_response(self) -> (r: ErrorResponse)
        ensures
            r.status == self.status_code,
            r.body == error_body(self),
            self.method matches Some(Method::Head) ==> r.body == ErrorBody::Empty,
            !(self.method matches Some(Method::Head)) && self.accept_html && self.status_code == 404
                ==> r.body == ErrorBody::NotFoundPage,
            !(self.method matches Some(Method::Head)) && !(self.accept_html && self.status_code
                == 404) ==> r.body == (ErrorBody::Json {
                code: self.status_code,
                success: false,
                message: self.message,
            }),
    {
        let status = self.status_code;
        let body = match self.method {
            Some(Method::Head) => ErrorBody::Empty,
            _ => {
                if self.accept_html && self.status_code == NOT_FOUND {
                    ErrorBody::NotFoundPage
                } else {
                    ErrorBody::Json { code: status, success: false, message: self.message }
                }
            },
        };
        ErrorResponse { status, body }
    }

    /// How the error reads: `gateway_error(`, the status number, a space,
    /// the status's reason phrase (or `<unknown status code>`), `): `, the
    /// message, and a closing `)`.
    pub fn to_string(&self) -> (s: String)
        ensures
            s@ == error_text(self.status_code, self.message@),
            s@.len() == 14 + status_text(self.status_code).len() + 4 + self.message@.len(),
            s@.subrange(s@.len() - self.message@.len() - 1, s@.len() - 1) == self.message@,
    {
        proof {
            reveal_strlit("gateway_error(");
            reveal_strlit(" ");
            reveal_strlit("<unknown status code>");
            reveal_strlit("): ");
            reveal_strlit(")");
        }
        let mut s = String::from_str("gateway_error(");
        append_decimal(&mut s, self.status_code);
        s.append(" ");
        match canonical_reason(self.status_code) {
            Some(reason) => s.append(reason),
            None => s.append("<unknown status code>"),
        }
        s.append("): ");
        s.append(self.message.as_str());
        s.append(")");
        assert(s@ =~= error_text(self.status_code, self.message@));
        proof {
            lemma_error_text_holds_message(self.status_code, self.message@, self.message@);
        }
        s
    }
}

} // verus!
