use codex_quota_ball::codex::{
    classify_reply, protocol_error, version_label, ClientError, CommandSpec, Reply,
};
use codex_quota_ball::json::Json;
use std::path::PathBuf;

fn obj(members: Vec<(&str, Json)>) -> Json {
    Json::Object(
        members
            .into_iter()
            .map(|(k, v)| (k.to_owned(), v))
            .collect(),
    )
}

fn error_reply(id: i128, message: &str) -> Json {
    obj(vec![
        ("id", Json::Integer(id)),
        ("error", obj(vec![("message", Json::Str(message.to_owned()))])),
    ])
}

#[test]
fn command_spec_builds_the_app_server_command() {
    let spec = CommandSpec::codex();
    assert_eq!(PathBuf::from(&spec.program), PathBuf::from("codex"));
    assert_eq!(spec.args, ["app-server", "--listen", "stdio://"]);
    let spec = CommandSpec::new("bash").arg("script.sh").arg(String::from("x"));
    assert_eq!(PathBuf::from(&spec.program), PathBuf::from("bash"));
    assert_eq!(spec.args, ["script.sh", "x"]);
}

#[test]
fn replies_are_matched_by_id() {
    let notification = obj(vec![("method", Json::Str("thread/started".to_owned()))]);
    assert_eq!(classify_reply(&notification, 2), Reply::Unrelated);
    let other = obj(vec![("id", Json::Integer(1)), ("result", obj(vec![]))]);
    assert_eq!(classify_reply(&other, 2), Reply::Unrelated);
    let answer = obj(vec![("id", Json::Integer(2)), ("result", obj(vec![]))]);
    assert_eq!(classify_reply(&answer, 2), Reply::Answer);
    let negative = obj(vec![("id", Json::Integer(-2))]);
    assert_eq!(classify_reply(&negative, 2), Reply::Unrelated);
}

#[test]
fn sign_in_errors_are_recognised_in_any_case() {
    for message in ["Please LOGIN first", "not Logged in", "Auth required", "HTTP 401"] {
        assert_eq!(
            classify_reply(&error_reply(5, message), 5),
            Reply::Failure(ClientError::NotLoggedIn)
        );
    }
    assert_eq!(
        classify_reply(&error_reply(5, "rate limit exceeded"), 5),
        Reply::Failure(ClientError::Server("rate limit exceeded".to_owned()))
    );
    let no_text = obj(vec![
        ("id", Json::Integer(5)),
        ("error", obj(vec![("message", Json::Integer(3))])),
    ]);
    assert_eq!(classify_reply(&no_text, 5), Reply::Answer);
}

#[test]
fn error_messages_are_user_facing() {
    assert_eq!(ClientError::MissingCodex.message(), "找不到 Codex CLI");
    assert_eq!(
        ClientError::NotLoggedIn.message(),
        "Codex 尚未登录，请运行 codex login"
    );
    assert_eq!(ClientError::Timeout.message(), "Codex 在限定时间内没有响应");
    assert_eq!(
        ClientError::Process("stdout closed".into()).message(),
        "Codex 服务已停止：stdout closed"
    );
    assert_eq!(
        ClientError::Protocol("bad".into()).message(),
        "Codex 协议不兼容：bad"
    );
    assert_eq!(
        ClientError::Server("busy".into()).message(),
        "Codex 返回错误：busy"
    );
    assert_eq!(
        protocol_error("rate-limit response is incompatible", "codex-cli 0.144.4"),
        ClientError::Protocol("rate-limit response is incompatible (codex-cli 0.144.4)".into())
    );
}

#[test]
fn version_output_is_trimmed_or_unknown() {
    assert_eq!(version_label(Some("  codex-cli 0.144.4\n")), "codex-cli 0.144.4");
    assert_eq!(version_label(Some(" \n\t")), "unknown version");
    assert_eq!(version_label(None), "unknown version");
}
