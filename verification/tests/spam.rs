use tmc::spam::{
    collect_words, parse_headers, split_headers_body, strip_html, tokenize, Label, RawMessage,
    SpamModel, TokenCounts, Verdict,
};

fn msg(headers: &[(&str, &str)], body: &str) -> RawMessage {
    let mut raw = String::new();
    for (k, v) in headers {
        raw.push_str(&format!("{}: {}\r\n", k, v));
    }
    raw.push_str("\r\n");
    raw.push_str(body);
    RawMessage::from_bytes(raw.as_bytes())
}

#[test]
fn split_prefers_crlf_blank_line() {
    let (h, b) = split_headers_body("From: a\r\n\r\nhello body");
    assert_eq!(h, "From: a");
    assert_eq!(b, "hello body");
}

#[test]
fn split_falls_back_to_lf_blank_line() {
    let (h, b) = split_headers_body("Subject: x\n\nthe body");
    assert_eq!(h, "Subject: x");
    assert_eq!(b, "the body");
}

#[test]
fn parse_headers_joins_folded_lines() {
    let headers = "Subject: hello\r\n world\r\nFrom: a@b.com";
    let parsed = parse_headers(headers);
    assert_eq!(
        parsed[0],
        ("subject".to_string(), "hello world".to_string())
    );
    assert_eq!(parsed[1], ("from".to_string(), "a@b.com".to_string()));
}

#[test]
fn strip_html_removes_tags() {
    assert_eq!(strip_html("<p>buy <b>now</b></p>"), "buy now");
}

#[test]
fn subject_tokens_are_namespaced() {
    let m = msg(&[("Subject", "free money")], "");
    let tokens = tokenize(&m);
    assert!(tokens.contains(&"subj:free".to_string()));
    assert!(tokens.contains(&"subj:money".to_string()));
}

#[test]
fn body_tokens_are_plain() {
    let m = msg(&[("Subject", "hi")], "meeting tomorrow");
    let tokens = tokenize(&m);
    assert!(tokens.contains(&"meeting".to_string()));
    assert!(tokens.contains(&"tomorrow".to_string()));
}

#[test]
fn verdict_as_str() {
    assert_eq!(Verdict::Spam.as_str(), "spam");
    assert_eq!(Verdict::Ham.as_str(), "ham");
    assert_eq!(Verdict::Unsure.as_str(), "unsure");
}

#[test]
fn cold_start_gate_blocks_verdict_until_min_per_class() {
    let mut model = SpamModel::empty();
    // Train enough spam to be confident, but only one ham message.
    for _ in 0..10 {
        assert!(model.learn(&msg(&[("Subject", "viagra")], "buy now cheap"), Label::Spam));
    }
    assert!(model.learn(&msg(&[("Subject", "hello")], "regular note"), Label::Ham));

    // However high the score, the verdict is gated because ham_messages (1) <
    // min_per_class (5).
    let score: f64 = 0.99;
    assert_eq!(
        model.verdict(score >= 0.9, score <= 0.2, 5),
        Verdict::Unsure
    );
    assert!(!model.is_trained(5));
    for _ in 0..4 {
        assert!(model.learn(&msg(&[("Subject", "hello")], "regular note"), Label::Ham));
    }
    assert_eq!(model.verdict(score >= 0.9, score <= 0.2, 5), Verdict::Spam);
}

#[test]
fn uncertain_band_yields_unsure() {
    let mut model = SpamModel::empty();
    for _ in 0..10 {
        assert!(model.learn(
            &msg(&[("Subject", "spam")], "spammy words here"),
            Label::Spam
        ));
        assert!(model.learn(&msg(&[("Subject", "ham")], "hammy words here"), Label::Ham));
    }
    // A message with no trained signal has no evidence, so it scores 0.5, which is
    // between thresholds.
    let neutral = msg(&[("Subject", "zzz")], "qqq");
    assert!(model.evidence(&neutral).is_empty());
    let score: f64 = 0.5;
    assert_eq!(
        model.verdict(score >= 0.9, score <= 0.2, 5),
        Verdict::Unsure
    );
    assert_eq!(model.verdict(false, true, 5), Verdict::Ham);
}

#[test]
fn words_are_measured_in_characters() {
    let words = |text: &str| {
        let mut set = vec![];
        collect_words(text, None, &mut set);
        set
    };
    assert!(words("\u{e9}").is_empty());
    assert_eq!(words("\u{e9}\u{e9}"), vec!["\u{e9}\u{e9}"]);
    let long = "\u{e9}".repeat(40);
    assert_eq!(words(&long), vec![long.clone()]);
    assert!(words(&"a".repeat(41)).is_empty());
}

#[test]
fn trainings_add_up() {
    let mut model = SpamModel::empty();
    let a = msg(&[("X", "y")], "alpha beta beta");
    let b = msg(&[("X", "y")], "beta gamma");
    assert!(model.learn(&a, Label::Spam));
    assert!(model.learn(&b, Label::Spam));
    assert!(model.learn(&b, Label::Ham));
    let counts = |word: &str| model.tokens.get(word).map(|c| (c.spam, c.ham));
    assert_eq!(counts("alpha"), Some((1, 0)));
    assert_eq!(counts("beta"), Some((2, 1)));
    assert_eq!(counts("gamma"), Some((1, 1)));
    assert_eq!(counts("delta"), None);
    assert_eq!((model.spam_messages(), model.ham_messages()), (2, 1));
}

#[test]
fn a_count_at_its_bound_stops_only_its_own_messages() {
    let mut model = SpamModel::empty();
    let full = TokenCounts {
        spam: u32::MAX,
        ham: 0,
    };
    model.tokens.insert("alpha".to_string(), full);
    assert!(!model.learn(&msg(&[("X", "y")], "alpha"), Label::Spam));
    assert_eq!(model.spam_messages(), 0);
    assert!(model.learn(&msg(&[("X", "y")], "alpha"), Label::Ham));
    assert!(model.learn(&msg(&[("X", "y")], "gamma"), Label::Spam));
}
