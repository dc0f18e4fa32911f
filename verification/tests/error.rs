use quicfs::error::{error_reply, failure_reply, ErrorCode, FsError};
use serde_json::Value;

#[test]
fn codes_have_their_status() {
    let expected = [
        (ErrorCode::Enoent, 404, "ENOENT"),
        (ErrorCode::Eacces, 403, "EACCES"),
        (ErrorCode::Eexist, 409, "EEXIST"),
        (ErrorCode::Enotempty, 409, "ENOTEMPTY"),
        (ErrorCode::Enospc, 507, "ENOSPC"),
        (ErrorCode::Einval, 400, "EINVAL"),
        (ErrorCode::Eio, 500, "EIO"),
    ];
    for (code, status, name) in expected {
        assert_eq!(code.status(), status);
        assert_eq!(code.name(), name);
    }
}

#[test]
fn failures_are_described_in_json() {
    let reply = failure_reply(&FsError {
        code: ErrorCode::Enoent,
        message: "no \"such\" file\n".to_string(),
    });
    assert_eq!(reply.status, 404);
    assert_eq!(
        reply.headers,
        vec![("content-type".to_string(), "application/json".to_string())]
    );
    assert_eq!(
        reply.body,
        "{\"status\":\"error\",\"error\":\"no \\\"such\\\" file\\n\",\"code\":\"ENOENT\",\"details\":{}}"
    );
}

#[test]
fn descriptions_are_json_objects() {
    let reply = error_reply(ErrorCode::Eio, "ä\u{1}", Some("d\\"), Some("/x"));
    let value: Value = serde_json::from_str(&reply.body).unwrap();
    assert_eq!(value["status"], "error");
    assert_eq!(value["error"], "ä\u{1}");
    assert_eq!(value["code"], "EIO");
    assert_eq!(value["details"]["debug"], "d\\");
    assert_eq!(value["path"], "/x");
    assert_eq!(value.as_object().unwrap().len(), 5);
}

#[test]
fn system_errors_have_their_code() {
    let code = |errno: i32| ErrorCode::of_errno(errno);
    assert_eq!(code(libc::ENOENT), ErrorCode::Enoent);
    assert_eq!(code(libc::EACCES), ErrorCode::Eacces);
    assert_eq!(code(libc::EPERM), ErrorCode::Eacces);
    assert_eq!(code(libc::EEXIST), ErrorCode::Eexist);
    assert_eq!(code(libc::ENOTEMPTY), ErrorCode::Enotempty);
    assert_eq!(code(libc::ENOSPC), ErrorCode::Enospc);
    assert_eq!(code(libc::EINVAL), ErrorCode::Einval);
    assert_eq!(code(libc::ENOTDIR), ErrorCode::Enoent);
    assert_eq!(code(libc::EISDIR), ErrorCode::Enoent);
    assert_eq!(code(libc::EIO), ErrorCode::Eio);
    assert_eq!(code(0), ErrorCode::Eio);
}
