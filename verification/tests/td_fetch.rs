use tmc::td_fetch::{read_reply, settle, Error, Response};

fn reply(bytes: &[u8]) -> Result<Response, Error> {
    read_reply(bytes)
}

#[test]
fn a_reply_is_read_as_the_service_writes_it() {
    let response = reply(
        b"td-fetch 1\nstatus 200\nheader content-type: text/xml\nheader x-two: a\nbody 6\n\n<rss/>",
    )
    .unwrap();
    assert_eq!(response.status, 200);
    assert_eq!(response.header("content-type"), Some("text/xml"));
    assert_eq!(response.header("x-two"), Some("a"));
    assert_eq!(response.header("missing"), None);
    assert_eq!(response.body, b"<rss/>");
    let response = reply(b"td-fetch 1\nstatus 204\nbody 0\n\n").unwrap();
    assert_eq!((response.status, response.body.len()), (204, 0));
    assert!(matches!(
        reply(b"td-fetch 1\nerror refused: loopback address\n\n"),
        Err(Error::Refused(m)) if m == "loopback address"
    ));
    assert!(matches!(
        reply(b"td-fetch 1\nerror malformed: no url\n\n"),
        Err(Error::Malformed(m)) if m == "no url"
    ));
    assert!(matches!(
        reply(b"td-fetch 1\nerror transport: Dns Failed\n\n"),
        Err(Error::Transport(m)) if m == "Dns Failed"
    ));
    assert!(matches!(reply(b""), Err(Error::Io(_))));
    assert!(matches!(reply(b"td-fetch 2\n\n"), Err(Error::Io(_))));
    assert!(matches!(
        reply(b"td-fetch 1\nbody 0\n\n"),
        Err(Error::Io(_))
    ));
    assert!(matches!(
        reply(b"td-fetch 1\nstatus 200\nbody 5\n\nab"),
        Err(Error::Io(_))
    ));
}


#[test]
fn a_reply_is_the_outcome_even_after_a_failed_write() {
    let pipe = || Some("broken pipe".to_string());
    match settle(b"td-fetch 1\nerror refused: too big\n\n", pipe()) {
        Err(Error::Refused(m)) => assert_eq!(m, "too big"),
        other => panic!("unexpected {:?}", other),
    }
    match settle(b"td-fetch 1\nerror odd thing\n\n", pipe()) {
        Err(Error::Io(m)) => assert_eq!(m, "error \"odd thing\""),
        other => panic!("unexpected {:?}", other),
    }
    assert_eq!(
        settle(b"td-fetch 1\nstatus 200\nbody 2\n\nok", pipe())
            .unwrap()
            .body,
        b"ok"
    );
    for unreadable in [&b""[..], &b"td-fetch 1\nstatus x\n\n"[..]] {
        match settle(unreadable, pipe()) {
            Err(Error::Io(m)) => assert_eq!(m, "write: broken pipe"),
            other => panic!("unexpected {:?}", other),
        }
    }
}
