use crate::json::{as_str_spec, as_u64_spec, get_in, get_spec, Json};
use crate::text::{ascii_lower, ascii_lower_char, chars_of, contains_chars, occurs_in};
use vstd::prelude::*;
use vstd::std_specs::convert::IntoSpec;

verus! {

/// The program and arguments that start the Codex app-server. The program is
/// held as the text of its path.
#[derive(Debug)]
pub struct CommandSpec {
    pub program: String,
    pub args: Vec<String>,
}

impl CommandSpec {
    /// A command without arguments.
    pub fn new<P: Into<String>>(program: P) -> (spec: Self)
        ensures
            spec.args@.len() == 0,
            P::obeys_into_spec() ==> spec.program == program.into_spec(),
    {
        Self { program: program.into(), args: Vec::new() }
    }

    /// The command with one more argument at the end.
    pub fn arg<S: Into<String>>(self, arg: S) -> (spec: Self)
        ensures
            spec.program == self.program,
            spec.args@.len() == self.args@.len() + 1,
            spec.args@.take(self.args@.len() as int) == self.args@,
            S::obeys_into_spec() ==> spec.args@.last() == arg.into_spec(),
    {
        let mut spec = self;
        let ghost before = spec.args@;
        spec.args.push(arg.into());
        assert(spec.args@.take(before.len() as int) =~= before);
        spec
    }

    /// `codex app-server --listen stdio://`.
    pub fn codex() -> (spec: Self)
        ensures
            spec.program@ == "codex"@,
            spec.args@.len() == 3,
            spec.args@[0]@ == "app-server"@,
            spec.args@[1]@ == "--listen"@,
            spec.args@[2]@ == "stdio://"@,
    {
        let mut spec = Self { program: String::from_str("codex"), args: Vec::new() };
        spec.args.push(String::from_str("app-server"));
        spec.args.push(String::from_str("--listen"));
        spec.args.push(String::from_str("stdio://"));
        spec
    }
}

/// Why talking to Codex failed.
#[derive(Debug, PartialEq, Eq)]
pub enum ClientError {
    MissingCodex,
    NotLoggedIn,
    Timeout,
    Process(String),
    Protocol(String),
    Server(String),
}

/// The text shown for an error.
pub open spec fn client_error_text(error: ClientError) -> Seq<char> {
    match error {
        ClientError::MissingCodex => "找不到 Codex CLI"@,
        ClientError::NotLoggedIn => "Codex 尚未登录，请运行 codex login"@,
        ClientError::Timeout => "Codex 在限定时间内没有响应"@,
        ClientError::Process(m) => "Codex 服务已停止："@ + m@,
        ClientError::Protocol(m) => "Codex 协议不兼容："@ + m@,
        ClientError::Server(m) => "Codex 返回错误："@ + m@,
    }
}

impl ClientError {
    /// The message shown to the user.
    pub fn message(&self) -> (text: String)
        ensures
            text@ == client_error_text(*self),
    {
        match self {
            ClientError::MissingCodex => String::from_str("找不到 Codex CLI"),
            ClientError::NotLoggedIn => String::from_str("Codex 尚未登录，请运行 codex login"),
            ClientError::Timeout => String::from_str("Codex 在限定时间内没有响应"),
            ClientError::Process(m) => String::from_str("Codex 服务已停止：").concat(m.as_str()),
            ClientError::Protocol(m) => String::from_str("Codex 协议不兼容：").concat(m.as_str()),
            ClientError::Server(m) => String::from_str("Codex 返回错误：").concat(m.as_str()),
        }
    }
}

/// An error for a response that could not be understood: the reason
/// followed by the Codex version in parentheses.
pub fn protocol_error(reason: &str, version: &str) -> (error: ClientError)
    ensures
        error matches ClientError::Protocol(m) && m@ == reason@ + " ("@ + version@ + ")"@,
{
    let text = String::from_str(reason).concat(" (").concat(version).concat(")");
    ClientError::Protocol(text)
}

/// What a line read from the app-server means for a request.
#[derive(Debug, PartialEq, Eq)]
pub enum Reply {
    /// Another request's response or a notification: keep waiting.
    Unrelated,
    /// The response to the request.
    Answer,
    /// The request failed.
    Failure(ClientError),
}

/// Whether an error message speaks of signing in.
pub open spec fn mentions_sign_in(message: Seq<char>) -> bool {
    let lower = message.map_values(|c: char| ascii_lower(c));
    occurs_in(lower, "login"@) || occurs_in(lower, "logged"@) || occurs_in(lower, "auth"@)
        || occurs_in(lower, "401"@)
}

/// The error message of a response, when it has one.
pub open spec fn reply_error_message(message: Json) -> Option<Seq<char>> {
    match get_in(get_spec(message, "error"@), "message"@) {
        Some(m) => as_str_spec(m),
        None => None,
    }
}

/// How a line read for request `id` is classified: lines whose `id` is not
/// that number are unrelated; an `error.message` text makes the request fail,
/// as not signed in when the text (ignoring ASCII case) mentions `login`,
/// `logged`, `auth` or `401`, else as a server error with that text; any
/// other line with that `id` is the answer.
pub open spec fn reply_ok(message: Json, id: u64, reply: Reply) -> bool {
    let matches_id = match get_spec(message, "id"@) {
        Some(v) => as_u64_spec(v) == Some(id),
        None => false,
    };
    if !matches_id {
        reply == Reply::Unrelated
    } else {
        match reply_error_message(message) {
            Some(text) => if mentions_sign_in(text) {
                reply == Reply::Failure(ClientError::NotLoggedIn)
            } else {
                reply matches Reply::Failure(ClientError::Server(m)) && m@ == text
            },
            None => reply == Reply::Answer,
        }
    }
}

fn lowercase_chars(text: &str) -> (lower: Vec<char>)
    ensures
        lower@ == text@.map_values(|c: char| ascii_lower(c)),
{
    let chars = chars_of(text);
    let mut lower: Vec<char> = Vec::new();
    let mut i: usize = 0;
    while i < chars.len()
        invariant
            chars@ == text@,
            i <= chars@.len(),
            lower@ == chars@.take(i as int).map_values(|c: char| ascii_lower(c)),
        decreases chars.len() - i,
    {
        lower.push(ascii_lower_char(chars[i]));
        assert(chars@.take(i + 1).map_values(|c: char| ascii_lower(c)) =~= chars@.take(
            i as int,
        ).map_values(|c: char| ascii_lower(c)).push(ascii_lower(chars@[i as int])));
        i = i + 1;
    }
    assert(chars@.take(chars.len() as int) =~= chars@);
    lower
}

fn mentions_sign_in_text(message: &str) -> (r: bool)
    ensures
        r == mentions_sign_in(message@),
{
    let lower = lowercase_chars(message);
    contains_chars(&lower, &chars_of("login")) || contains_chars(&lower, &chars_of("logged"))
        || contains_chars(&lower, &chars_of("auth")) || contains_chars(&lower, &chars_of("401"))
}

/// Classifies a line read from the app-server while waiting for request
/// `id`.
pub fn classify_reply(message: &Json, id: u64) -> (reply: Reply)
    ensures
        reply_ok(*message, id, reply),
{
    let matches_id = match message.get("id") {
        Some(v) => match v.as_u64() {
            Some(n) => n == id,
            None => false,
        },
        None => false,
    };
    if !matches_id {
        return Reply::Unrelated;
    }
    let text = match message.get("error") {
        Some(error) => match error.get("message") {
            Some(m) => m.as_str(),
            None => None,
        },
        None => None,
    };
    match text {
        Some(t) => if mentions_sign_in_text(t) {
            Reply::Failure(ClientError::NotLoggedIn)
        } else {
            Reply::Failure(ClientError::Server(String::from_str(t)))
        },
        None => Reply::Answer,
    }
}

/// Unicode `White_Space`, the characters that `char::is_whitespace` and
/// `str::trim` treat as white space.
pub open spec fn is_white_space(c: char) -> bool {
    ||| '\u{9}' <= c <= '\u{d}'
    ||| c == ' '
    ||| c == '\u{85}'
    ||| c == '\u{a0}'
    ||| c == '\u{1680}'
    ||| '\u{2000}' <= c <= '\u{200a}'
    ||| c == '\u{2028}'
    ||| c == '\u{2029}'
    ||| c == '\u{202f}'
    ||| c == '\u{205f}'
    ||| c == '\u{3000}'
}

/// `r` is `text` with its leading and trailing white space removed: a
/// stretch of `text` with only white space before and after it, that
/// neither starts nor ends with white space.
pub open spec fn is_trim_of(r: Seq<char>, text: Seq<char>) -> bool {
    exists|i: int, j: int|
        #![trigger text.subrange(i, j)]
        0 <= i <= j <= text.len() && r == text.subrange(i, j) && (forall|k: int|
            0 <= k < i ==> is_white_space(#[trigger] text[k])) && (forall|k: int|
            j <= k < text.len() ==> is_white_space(#[trigger] text[k])) && (i < j ==> !is_white_space(
            text[i],
        ) && !is_white_space(text[j - 1]))
}

/// Whether `text` holds a character other than white space.
pub open spec fn has_visible_char(text: Seq<char>) -> bool {
    exists|k: int| 0 <= k < text.len() && !is_white_space(#[trigger] text[k])
}

/// Calls `str::trim`, which removes leading and trailing white space.
#[verifier::external_body]
fn trim_text(text: &str) -> (r: &str)
    ensures
        is_trim_of(r@, text@),
{
    text.trim()
}

/// The version reported by `codex --version`: its output without
/// surrounding white space, or `unknown version` when there is no output or
/// only white space.
pub fn version_label(output: Option<&str>) -> (label: String)
    ensures
        match output {
            Some(text) => if has_visible_char(text@) {
                is_trim_of(label@, text@)
            } else {
                label@ == "unknown version"@
            },
            None => label@ == "unknown version"@,
        },
{
    match output {
        Some(text) => {
            let version = trim_text(text);
            proof {
                let (i, j) = choose|i: int, j: int|
                    #![trigger text@.subrange(i, j)]
                    0 <= i <= j <= text@.len() && version@ == text@.subrange(i, j) && (forall|k: int|
                        0 <= k < i ==> is_white_space(#[trigger] text@[k])) && (forall|k: int|
                        j <= k < text@.len() ==> is_white_space(#[trigger] text@[k])) && (i < j
                        ==> !is_white_space(text@[i]) && !is_white_space(text@[j - 1]));
                if i < j {
                    assert(!is_white_space(text@[i]));
                } else {
                    assert forall|k: int| 0 <= k < text@.len() implies is_white_space(
                        #[trigger] text@[k],
                    ) by {
                        if k < i {
                        } else {
                        }
                    }
                }
            }
            if version.unicode_len() > 0 {
                String::from_str(version)
            } else {
                String::from_str("unknown version")
            }
        },
        None => String::from_str("unknown version"),
    }
}

} // verus!
