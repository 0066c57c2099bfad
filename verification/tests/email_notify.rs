use hemnet_pipeline::email::assemble_email;
use hemnet_pipeline::email::mail_parts;
use hemnet_pipeline::email::parse_recipients;
use hemnet_pipeline::email::prepare_notification;
use hemnet_pipeline::email::split_recipients;
use hemnet_pipeline::errors::AssembleError;
use hemnet_pipeline::errors::EnvelopeError;
use hemnet_pipeline::errors::SendError;
use hemnet_pipeline::pattern::extract_property_id;

fn inbound_mail(with_subject: bool) -> String {
    let subject = if with_subject { "Subject: Hemnet bud\r\n" } else { "" };
    format!(
        "{}From: mailer@hemnet.se\r\nContent-Type: text/html; charset=utf-8\r\nMIME-Version: 1.0\r\n\r\n\
         <html><body>https://bilder.hemnet.se/images/itemgallery/xyz789.jpg</body></html>",
        subject
    )
}

#[test]
fn split_keeps_every_piece() {
    assert_eq!(
        split_recipients("a@x.se,b@y.se"),
        vec!["a@x.se".to_string(), "b@y.se".to_string()]
    );
}

#[test]
fn split_of_empty_text_is_one_empty_piece() {
    assert_eq!(split_recipients(""), vec![String::new()]);
}

#[test]
fn recipients_drop_empty_pieces() {
    assert_eq!(
        parse_recipients("a@x.se,,b@y.se"),
        Ok(vec!["a@x.se".to_string(), "b@y.se".to_string()])
    );
}

#[test]
fn recipients_require_at_least_one_address() {
    assert_eq!(parse_recipients(","), Err(SendError::NoRecipients));
    assert_eq!(parse_recipients(""), Err(SendError::NoRecipients));
}

#[test]
fn mail_parts_recover_html_and_subject() {
    let mail = inbound_mail(true);
    let (html, subject) = mail_parts(&mail).unwrap();
    assert!(html.contains("itemgallery/xyz789.jpg"));
    assert_eq!(subject, Some("Hemnet bud".to_string()));
}

#[test]
fn mail_parts_fail_without_html_body() {
    let mail = "Subject: hi\r\nContent-Type: image/png\r\n\r\nrawbytes";
    assert_eq!(mail_parts(mail), Err(EnvelopeError::NoHtmlBody));
}

#[test]
fn assembled_email_holds_inline_attachments_in_order() {
    let a = assemble_email(
        "<html><body>hello</body></html>".to_string(),
        "Hemnet bud".to_string(),
        "from@x.se".to_string(),
        vec!["to@y.se".to_string()],
        vec![vec![1u8, 2, 3], vec![4u8, 5, 6]],
    );
    assert_eq!(a.from, "from@x.se");
    assert_eq!(a.to, vec!["to@y.se".to_string()]);
    let mime = String::from_utf8_lossy(&a.mime).to_string();
    let first = mime.find("image1.jpg").expect("first attachment name");
    let second = mime.find("image2.jpg").expect("second attachment name");
    assert!(first < second);
    assert!(mime.contains("from@x.se"));
    assert!(mime.contains("Hemnet bud"));
}

#[test]
fn notification_round_trip_for_a_stored_property() {
    let mail = inbound_mail(true);
    assert_eq!(extract_property_id(&mail), Ok("xyz789".to_string()));
    let a = prepare_notification(
        &mail,
        "from@x.se",
        "a@x.se,b@y.se",
        vec![b"first image bytes".to_vec(), b"second image bytes".to_vec()],
    )
    .unwrap();
    assert_eq!(a.to, vec!["a@x.se".to_string(), "b@y.se".to_string()]);
    let mime = String::from_utf8_lossy(&a.mime).to_string();
    let first = mime.find("image1.jpg").expect("first attachment name");
    let second = mime.find("image2.jpg").expect("second attachment name");
    assert!(first < second);
    assert!(!mime.contains("image3.jpg"));
}

#[test]
fn notification_falls_back_to_default_subject() {
    let mail = inbound_mail(false);
    let a = prepare_notification(&mail, "from@x.se", "a@x.se", vec![]).unwrap();
    let mime = String::from_utf8_lossy(&a.mime).to_string();
    assert!(mime.contains("Hemnet slutpris"));
}

#[test]
fn notification_without_recipients_fails() {
    let mail = inbound_mail(true);
    assert!(matches!(
        prepare_notification(&mail, "from@x.se", "", vec![]),
        Err(AssembleError::Send(SendError::NoRecipients))
    ));
}
