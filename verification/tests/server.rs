use tasknet::server::{handle_rejection, Backoff, RejectionKind};

#[test]
fn rejections_get_status_and_body() {
    let r = handle_rejection(&RejectionKind::NotFound);
    assert_eq!((r.status, r.body.as_str()), (404, "NOT_FOUND"));
    let r = handle_rejection(&RejectionKind::Unauthorized);
    assert_eq!((r.status, r.body.as_str()), (401, "UNAUTHORIZED"));
    let r = handle_rejection(&RejectionKind::MissingCookie("ory_kratos_session".to_string()));
    assert_eq!((r.status, r.body.as_str()), (400, "BAD_REQUEST, missing cookie ory_kratos_session"));
    let r = handle_rejection(&RejectionKind::Other);
    assert_eq!((r.status, r.body.as_str()), (500, "INTERNAL_SERVER_ERROR"));
}

#[test]
fn backoff_window_doubles_up_to_sixteen() {
    let mut b = Backoff::new();
    assert_eq!(b.failed(), 2);
    assert_eq!(b.failed(), 4);
    assert_eq!(b.failed(), 8);
    assert_eq!(b.failed(), 16);
    assert_eq!(b.failed(), 16);
    assert_eq!(b.exponent, 4);
    assert_eq!(Backoff::delay_millis(0), 0);
    assert_eq!(Backoff::delay_millis(15), 1_500);
}

#[test]
fn plain_http_redirects_to_https() {
    assert_eq!(
        tasknet::server::https_redirect("0.0.0.0:443", "/tasknet/sync", "doc=1"),
        "https://0.0.0.0:443/tasknet/sync?doc=1"
    );
    assert_eq!(tasknet::server::https_redirect("h:8443", "/", ""), "https://h:8443/?");
}
